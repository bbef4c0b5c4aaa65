//! What holds of every request: how ports, scopes and names are read, and what a scope stands for.

use vstd::prelude::*;

use crate::capability::CapabilityValueView;
use crate::formation::{self, ScopeBindingError};
use crate::input::{
    self, BoundAddressInputView, InputError, ParsedAddressView, ParsedRequestView, ScopeSyntaxView,
};
use crate::model::{InterfaceFactView, InterfaceIdView, TargetIpView};
use crate::net::{self, IpAddr};
use crate::number::{NonZeroU16, NonZeroU32};
use crate::text;

verus! {

/// The numeral of a number consists of digits and is read as that number.
proof fn lemma_decimal(number: nat)
    ensures
        text::decimal(number).len() > 0,
        text::all_digits(text::decimal(number)),
        text::decimal_value(text::decimal(number)) == number,
    decreases number,
{
    let shown = text::decimal(number);
    reveal_with_fuel(text::decimal_value, 2);
    if number < 10 {
        assert(shown =~= seq![text::digit(number)]);
        assert(shown.drop_last() =~= Seq::<char>::empty());
        assert(shown.last() == text::digit(number));
    } else {
        lemma_decimal(number / 10);
        let front = text::decimal(number / 10);
        assert(shown =~= front.push(text::digit(number % 10)));
        assert(shown.drop_last() =~= front);
        assert(shown.last() == text::digit(number % 10));
        assert forall|i: int| 0 <= i < shown.len() implies '0' <= #[trigger] shown[i] <= '9' by {
            if i < front.len() {
                assert(shown[i] == front[i]);
            }
        }
    }
}

/// A zero in front of a numeral does not change its value.
proof fn lemma_leading_zero(raw: Seq<char>)
    ensures
        text::decimal_value(seq!['0'] + raw) == text::decimal_value(raw),
    decreases raw.len(),
{
    let shown = seq!['0'] + raw;
    reveal_with_fuel(text::decimal_value, 2);
    if raw.len() == 0 {
        assert(shown =~= seq!['0']);
        assert(shown.drop_last() =~= Seq::<char>::empty());
    } else {
        lemma_leading_zero(raw.drop_last());
        assert(shown.drop_last() =~= seq!['0'] + raw.drop_last());
        assert(shown.last() == raw.last());
    }
}

/// A port is read as the number that it is the numeral of, from 1 to 65535; zeros in front do not
/// count, and anything but digits is no port.
pub proof fn ports_are_read_as_numbers(number: nat, raw: Seq<char>, place: int)
    ensures
        1 <= number <= 65535 <==> input::port_meaning(text::decimal(number)) is Ok,
        1 <= number <= 65535 ==> input::port_meaning(text::decimal(number))->Ok_0.number()
            == number,
        number == 0 || number > 65535 ==> input::port_meaning(text::decimal(number)) == (Err::<
            NonZeroU16,
            InputError,
        >(InputError::PortOutOfRange)),
        raw.len() > 0 ==> input::port_meaning(seq!['0'] + raw) == input::port_meaning(raw),
        0 <= place < raw.len() && !('0' <= raw[place] <= '9') ==> input::port_meaning(raw) == (
        Err::<NonZeroU16, InputError>(InputError::InvalidPortSyntax)),
        raw.len() == 0 ==> input::port_meaning(raw) == (Err::<NonZeroU16, InputError>(
            InputError::InvalidPortSyntax,
        )),
{
    lemma_decimal(number);
    if number <= 65535 {
        NonZeroU16::lemma_of_number(number as u16);
    }
    lemma_leading_zero(raw);
    let padded = seq!['0'] + raw;
    assert(text::all_digits(padded) <==> text::all_digits(raw)) by {
        if text::all_digits(raw) {
            assert forall|i: int| 0 <= i < padded.len() implies '0' <= #[trigger] padded[i]
                <= '9' by {
                if i > 0 {
                    assert(padded[i] == raw[i - 1]);
                }
            }
        }
        if text::all_digits(padded) {
            assert forall|i: int| 0 <= i < raw.len() implies '0' <= #[trigger] raw[i] <= '9' by {
                assert(padded[i + 1] == raw[i]);
            }
        }
    }
}

/// A scope that is a numeral is read as the index of an interface, any other as the name of one,
/// letter by letter.
pub proof fn scopes_are_read_as_indexes_or_names(number: nat, raw: Seq<char>, place: int)
    ensures
        1 <= number <= u32::MAX <==> input::scope_meaning(text::decimal(number)) is Ok,
        1 <= number <= u32::MAX ==> (input::scope_meaning(text::decimal(number)) matches Ok(
            ScopeSyntaxView::InterfaceIndex(index),
        ) && index.number() == number),
        0 <= place < raw.len() && !('0' <= raw[place] <= '9') ==> match input::scope_meaning(raw) {
            Ok(scope) => scope == ScopeSyntaxView::InterfaceName(raw) && raw[place] != '/'
                && raw[place] != '\\' && raw[place] != '[' && raw[place] != ']'
                && !text::is_control(raw[place]) && text::byte_len(raw) <= 255,
            Err(error) => error == InputError::InvalidIpv6Scope,
        },
{
    lemma_decimal(number);
    if number <= u32::MAX {
        NonZeroU32::lemma_of_number(number as u32);
    }
}

/// Two pieces without a separator that are put together around one come apart again.
proof fn lemma_split_two(first: Seq<char>, second: Seq<char>, separator: char)
    requires
        !first.contains(separator),
        !second.contains(separator),
    ensures
        text::split_on(first + seq![separator] + second, separator) == seq![first, second],
    decreases second.len(),
{
    let shown = first + seq![separator] + second;
    if second.len() == 0 {
        lemma_split_one(first, separator);
        assert(second =~= Seq::empty());
        assert(shown.drop_last() =~= first);
        assert(shown.last() == separator);
        assert(text::split_on(shown, separator) =~= seq![first, second]);
    } else {
        let rest = second.drop_last();
        assert(second.contains(second.last()));
        assert(!rest.contains(separator)) by {
            if rest.contains(separator) {
                let i = choose|i: int| 0 <= i < rest.len() && rest[i] == separator;
                assert(second[i] == separator);
            }
        }
        lemma_split_two(first, rest, separator);
        assert(shown.drop_last() =~= first + seq![separator] + rest);
        assert(shown.last() == second.last());
        assert(rest.push(second.last()) =~= second);
        assert(text::split_on(shown, separator) =~= seq![first, second]);
    }
}

proof fn lemma_split_one(piece: Seq<char>, separator: char)
    requires
        !piece.contains(separator),
    ensures
        text::split_on(piece, separator) == seq![piece],
    decreases piece.len(),
{
    if piece.len() == 0 {
        assert(piece =~= Seq::empty());
        assert(text::split_on(piece, separator) =~= seq![piece]);
    } else {
        let rest = piece.drop_last();
        assert(piece.contains(piece.last()));
        assert(!rest.contains(separator)) by {
            if rest.contains(separator) {
                let i = choose|i: int| 0 <= i < rest.len() && rest[i] == separator;
                assert(piece[i] == separator);
            }
        }
        lemma_split_one(rest, separator);
        assert(rest.push(piece.last()) =~= piece);
        assert(text::split_on(piece, separator) =~= seq![piece]);
    }
}

/// An address and a scope around a percent sign are read exactly where each can be read on its
/// own, and as what each is read as.
pub proof fn scoped_addresses_are_an_address_and_a_scope(address: Seq<char>, scope: Seq<char>)
    requires
        !address.contains('%'),
        !scope.contains('%'),
    ensures
        match input::scoped_ipv6_meaning(address + seq!['%'] + scope) {
            Ok(parsed) => {
                &&& scope.len() > 0
                &&& parsed matches ParsedAddressView::Ipv6 { address: read, scope: Some(zone) } && {
                    &&& net::ipv6_meaning(address) matches Some(bits) && read.bits == bits as u128
                    &&& input::scope_meaning(scope) == Ok::<ScopeSyntaxView, InputError>(zone)
                }
            },
            Err(error) => {
                &&& error == InputError::InvalidIpv6Scope
                &&& scope.len() == 0 || net::ipv6_meaning(address) is None || input::scope_meaning(
                    scope,
                ) is Err
            },
        },
{
    lemma_split_two(address, scope, '%');
}

/// A name keeps the form that it was given in. A dot at its end is kept in its ASCII form too, and
/// changes nothing else.
pub proof fn root_dots_are_kept(name: Seq<char>, ascii: Seq<char>)
    requires
        name.len() > 0,
        name.last() != '.',
    ensures
        match (
            input::hostname_meaning(name, Some(ascii)),
            input::hostname_meaning(name.push('.'), Some(ascii)),
        ) {
            (Ok(relative), Ok(absolute)) => {
                &&& relative.original == name
                &&& absolute.original == name.push('.')
                &&& relative.ascii == ascii
                &&& absolute.ascii == ascii.push('.')
            },
            (Err(first), Err(second)) => first == InputError::InvalidAddress && second
                == InputError::InvalidAddress,
            _ => false,
        },
        input::without_root_dot(name) == name,
        input::without_root_dot(name.push('.')) == name,
{
    reveal_strlit(".");
    assert(name.push('.').last() == '.');
    assert(name.push('.').drop_last() =~= name);
    assert(ascii + "."@ =~= ascii.push('.'));
}

/// A request keeps the address as it was written. Without an address nothing is read; a port that
/// cannot be read is told before an address that cannot be.
pub proof fn requests_keep_what_was_written(
    address: Seq<char>,
    port: Option<Seq<char>>,
    ascii_base: Option<Seq<char>>,
)
    ensures
        match input::request_meaning(address, port, ascii_base) {
            Ok(request) => {
                &&& address.len() > 0
                &&& request.original_address == address
                &&& input::address_meaning(address, ascii_base) == Ok::<
                    ParsedAddressView,
                    InputError,
                >(request.address)
                &&& request.port is Some <==> port is Some
                &&& port matches Some(raw) ==> input::port_meaning(raw) == Ok::<
                    NonZeroU16,
                    InputError,
                >(request.port->Some_0)
            },
            Err(error) => if address.len() == 0 {
                error == InputError::EmptyAddress
            } else if port is Some && input::port_meaning(port->Some_0) is Err {
                input::port_meaning(port->Some_0) == Err::<NonZeroU16, InputError>(error)
            } else {
                input::address_meaning(address, ascii_base) == Err::<ParsedAddressView, InputError>(
                    error,
                )
            },
        },
{
}

/// Whether a scope names an interface, by its index or by either of its names.
pub open spec fn names(scope: ScopeSyntaxView, interface: InterfaceFactView) -> bool {
    match scope {
        ScopeSyntaxView::InterfaceIndex(index) => index.number() == interface.id.index,
        ScopeSyntaxView::InterfaceName(name) => name == interface.system_name || name
            == interface.display_name,
    }
}

/// Whether a scope names the interface at a place and no other.
pub open spec fn names_only(
    scope: ScopeSyntaxView,
    interfaces: Seq<InterfaceFactView>,
    place: int,
) -> bool {
    &&& 0 <= place < interfaces.len()
    &&& names(scope, interfaces[place])
    &&& forall|i: int|
        0 <= i < interfaces.len() && names(scope, #[trigger] interfaces[i]) ==> i == place
}

/// A scope stands for the one interface that it names. It stands for none where the interfaces
/// are not known, where it names none of them, or where it names several, and the error says
/// which.
pub proof fn scopes_stand_for_one_interface(
    scope: ScopeSyntaxView,
    interfaces: CapabilityValueView<Seq<InterfaceFactView>>,
)
    ensures
        match (formation::scope_binding(scope, interfaces), interfaces) {
            (Ok(id), CapabilityValueView::Available { value, .. }) => exists|place: int|
                #[trigger] names_only(scope, value, place) && value[place].id == id,
            (
                Err(ScopeBindingError::InterfaceNotFound),
                CapabilityValueView::Available { value, .. },
            ) => forall|i: int| 0 <= i < value.len() ==> !names(scope, #[trigger] value[i]),
            (
                Err(ScopeBindingError::AmbiguousInterface),
                CapabilityValueView::Available { value, .. },
            ) => exists|i: int, j: int|
                0 <= i < j < value.len() && names(scope, #[trigger] value[i]) && names(
                    scope,
                    #[trigger] value[j],
                ),
            (Err(ScopeBindingError::InterfacesUnavailable), found) => !(found is Available),
            _ => false,
        },
{
    if let CapabilityValueView::Available { value, .. } = interfaces {
        lemma_named(scope, value);
    }
}

/// What the interfaces that a scope names say about the places where they stand.
proof fn lemma_named(scope: ScopeSyntaxView, interfaces: Seq<InterfaceFactView>)
    ensures
        ({
            let found = interfaces.filter(formation::named_by(scope));
            &&& found.len() == 0 ==> forall|i: int|
                0 <= i < interfaces.len() ==> !names(scope, #[trigger] interfaces[i])
            &&& found.len() == 1 ==> exists|place: int| #[trigger]
                names_only(scope, interfaces, place) && interfaces[place] == found[0]
            &&& found.len() > 1 ==> exists|i: int, j: int|
                0 <= i < j < interfaces.len() && names(scope, #[trigger] interfaces[i]) && names(
                    scope,
                    #[trigger] interfaces[j],
                )
        }),
    decreases interfaces.len(),
{
    reveal(Seq::filter);
    let keep = formation::named_by(scope);
    let found = interfaces.filter(keep);
    if interfaces.len() > 0 {
        let rest = interfaces.drop_last();
        let last = interfaces.len() - 1;
        lemma_named(scope, rest);
        assert forall|i: int| 0 <= i < last implies #[trigger] interfaces[i] == rest[i] by {}
        assert(keep(interfaces[last]) == names(scope, interfaces[last]));
        let before = rest.filter(keep);
        if names(scope, interfaces[last]) {
            assert(found == before.push(interfaces[last]));
            if before.len() == 0 {
                assert(names_only(scope, interfaces, last));
            } else if before.len() == 1 {
                let place = choose|place: int| #[trigger]
                    names_only(scope, rest, place) && rest[place] == before[0];
                assert(names(scope, interfaces[place]));
            } else {
                let (i, j) = choose|i: int, j: int|
                    0 <= i < j < rest.len() && names(scope, #[trigger] rest[i]) && names(
                        scope,
                        #[trigger] rest[j],
                    );
                assert(names(scope, interfaces[i]) && names(scope, interfaces[j]));
            }
        } else {
            assert(found == before);
            if before.len() == 1 {
                let place = choose|place: int| #[trigger]
                    names_only(scope, rest, place) && rest[place] == before[0];
                assert(names_only(scope, interfaces, place));
            } else if before.len() > 1 {
                let (i, j) = choose|i: int, j: int|
                    0 <= i < j < rest.len() && names(scope, #[trigger] rest[i]) && names(
                        scope,
                        #[trigger] rest[j],
                    );
                assert(names(scope, interfaces[i]) && names(scope, interfaces[j]));
            }
        }
    }
}

/// Binding a request keeps its text and port. A literal becomes a target with its own address, on
/// the interface that its scope stands for where it has one; a name becomes none.
pub proof fn bound_requests_keep_their_address(
    parsed: ParsedRequestView,
    interfaces: CapabilityValueView<Seq<InterfaceFactView>>,
)
    ensures
        match formation::bound_request(parsed, interfaces) {
            Ok(bound) => {
                &&& bound.original_address == parsed.original_address
                &&& bound.port == parsed.port
                &&& match (parsed.address, bound.address) {
                    (
                        ParsedAddressView::Ipv4(address),
                        BoundAddressInputView::Ipv4Literal(target),
                    ) => target.address == IpAddr::V4(address) && target.scope is None,
                    (
                        ParsedAddressView::Ipv6 { address, scope },
                        BoundAddressInputView::Ipv6Literal(target),
                    ) => target.address == IpAddr::V6(address) && match (scope, target.scope) {
                        (None, None) => true,
                        (Some(scope), Some(id)) => formation::scope_binding(scope, interfaces)
                            == Ok::<InterfaceIdView, ScopeBindingError>(id),
                        _ => false,
                    },
                    (
                        ParsedAddressView::Hostname(hostname),
                        BoundAddressInputView::Hostname(kept),
                    ) => hostname == kept && formation::literal_target(parsed.address, interfaces)
                        == Ok::<Option<TargetIpView>, ScopeBindingError>(None),
                    _ => false,
                }
            },
            Err(error) => parsed.address matches ParsedAddressView::Ipv6 {
                scope: Some(scope),
                ..
            } && formation::scope_binding(scope, interfaces) matches Err(found) && found == error,
        },
{
}

} // verus!
