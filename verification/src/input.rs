//! Reading the command line's address and port. Nothing here touches the network.

use vstd::prelude::*;

use crate::model::{TargetIp, TargetIpView};
use crate::net::{self, Ipv4Addr, Ipv6Addr};
use crate::number::{NonZeroU16, NonZeroU32};
use crate::text;

verus! {

pub const MAX_SCOPE_NAME_BYTES: usize = 255;

/// A hostname as it was given and in its ASCII form.
#[derive(Debug, Eq, Hash, PartialEq)]
pub struct Hostname {
    original: String,
    ascii: String,
}

/// The contents of a [`Hostname`].
#[verifier::ext_equal]
pub struct HostnameView {
    pub original: Seq<char>,
    pub ascii: Seq<char>,
}

impl DeepView for Hostname {
    type V = HostnameView;

    closed spec fn deep_view(&self) -> HostnameView {
        HostnameView {
            original: self.original.deep_view(),
            ascii: self.ascii.deep_view(),
        }
    }
}

impl Clone for Hostname {
    fn clone(&self) -> (copy: Self)
        ensures
            copy.deep_view() == self.deep_view(),
    {
        Hostname {
            original: self.original.clone(),
            ascii: self.ascii.clone(),
        }
    }
}

impl Hostname {
    #[must_use]
    pub fn original(&self) -> (result: &str)
        ensures
            result@ == self.deep_view().original,
    {
        self.original.as_str()
    }

    #[must_use]
    pub fn ascii(&self) -> (result: &str)
        ensures
            result@ == self.deep_view().ascii,
    {
        self.ascii.as_str()
    }
}

/// The zone that was written behind an IPv6 address.
#[derive(Debug, Eq, Hash, PartialEq)]
pub enum ScopeSyntax {
    InterfaceIndex(NonZeroU32),
    InterfaceName(String),
}

/// The contents of a [`ScopeSyntax`].
#[verifier::ext_equal]
pub enum ScopeSyntaxView {
    InterfaceIndex(NonZeroU32),
    InterfaceName(Seq<char>),
}

impl DeepView for ScopeSyntax {
    type V = ScopeSyntaxView;

    open spec fn deep_view(&self) -> ScopeSyntaxView {
        match self {
            ScopeSyntax::InterfaceIndex(value) => ScopeSyntaxView::InterfaceIndex(*value),
            ScopeSyntax::InterfaceName(value) => ScopeSyntaxView::InterfaceName(value.deep_view()),
        }
    }
}

impl Clone for ScopeSyntax {
    fn clone(&self) -> (copy: Self)
        ensures
            copy.deep_view() == self.deep_view(),
    {
        match self {
            ScopeSyntax::InterfaceIndex(value) => ScopeSyntax::InterfaceIndex(*value),
            ScopeSyntax::InterfaceName(value) => ScopeSyntax::InterfaceName(value.clone()),
        }
    }
}

#[derive(Debug, Eq, PartialEq)]
pub enum ParsedAddress {
    Ipv4(Ipv4Addr),
    Ipv6 { address: Ipv6Addr, scope: Option<ScopeSyntax> },
    Hostname(Hostname),
}

/// The contents of a [`ParsedAddress`].
#[verifier::ext_equal]
pub enum ParsedAddressView {
    Ipv4(Ipv4Addr),
    Ipv6 { address: Ipv6Addr, scope: Option<ScopeSyntaxView> },
    Hostname(HostnameView),
}

impl DeepView for ParsedAddress {
    type V = ParsedAddressView;

    open spec fn deep_view(&self) -> ParsedAddressView {
        match self {
            ParsedAddress::Ipv4(value) => ParsedAddressView::Ipv4(*value),
            ParsedAddress::Ipv6 { address, scope } => ParsedAddressView::Ipv6 {
                address: *address,
                scope: scope.deep_view(),
            },
            ParsedAddress::Hostname(value) => ParsedAddressView::Hostname(value.deep_view()),
        }
    }
}

impl Clone for ParsedAddress {
    fn clone(&self) -> (copy: Self)
        ensures
            copy.deep_view() == self.deep_view(),
    {
        match self {
            ParsedAddress::Ipv4(value) => ParsedAddress::Ipv4(*value),
            ParsedAddress::Ipv6 { address, scope } => ParsedAddress::Ipv6 {
                address: *address,
                scope: scope.clone(),
            },
            ParsedAddress::Hostname(value) => ParsedAddress::Hostname(value.clone()),
        }
    }
}

/// A request as it was written, before anything is known of the network.
#[derive(Debug, Eq, PartialEq)]
pub struct ParsedRequest {
    pub original_address: String,
    pub address: ParsedAddress,
    pub port: Option<NonZeroU16>,
}

/// The contents of a [`ParsedRequest`].
#[verifier::ext_equal]
pub struct ParsedRequestView {
    pub original_address: Seq<char>,
    pub address: ParsedAddressView,
    pub port: Option<NonZeroU16>,
}

impl DeepView for ParsedRequest {
    type V = ParsedRequestView;

    open spec fn deep_view(&self) -> ParsedRequestView {
        ParsedRequestView {
            original_address: self.original_address.deep_view(),
            address: self.address.deep_view(),
            port: self.port,
        }
    }
}

impl Clone for ParsedRequest {
    fn clone(&self) -> (copy: Self)
        ensures
            copy.deep_view() == self.deep_view(),
    {
        ParsedRequest {
            original_address: self.original_address.clone(),
            address: self.address.clone(),
            port: self.port,
        }
    }
}

/// An address whose scope is bound to an interface of the snapshot.
#[derive(Debug, Eq, PartialEq)]
pub enum BoundAddressInput {
    Ipv4Literal(TargetIp),
    Ipv6Literal(TargetIp),
    Hostname(Hostname),
}

/// The contents of a [`BoundAddressInput`].
#[verifier::ext_equal]
pub enum BoundAddressInputView {
    Ipv4Literal(TargetIpView),
    Ipv6Literal(TargetIpView),
    Hostname(HostnameView),
}

impl DeepView for BoundAddressInput {
    type V = BoundAddressInputView;

    open spec fn deep_view(&self) -> BoundAddressInputView {
        match self {
            BoundAddressInput::Ipv4Literal(value) => BoundAddressInputView::Ipv4Literal(value.deep_view()),
            BoundAddressInput::Ipv6Literal(value) => BoundAddressInputView::Ipv6Literal(value.deep_view()),
            BoundAddressInput::Hostname(value) => BoundAddressInputView::Hostname(value.deep_view()),
        }
    }
}

impl Clone for BoundAddressInput {
    fn clone(&self) -> (copy: Self)
        ensures
            copy.deep_view() == self.deep_view(),
    {
        match self {
            BoundAddressInput::Ipv4Literal(value) => BoundAddressInput::Ipv4Literal(value.clone()),
            BoundAddressInput::Ipv6Literal(value) => BoundAddressInput::Ipv6Literal(value.clone()),
            BoundAddressInput::Hostname(value) => BoundAddressInput::Hostname(value.clone()),
        }
    }
}

#[derive(Debug, Eq, PartialEq)]
pub struct DiagnosticRequest {
    pub original_address: String,
    pub address: BoundAddressInput,
    pub port: Option<NonZeroU16>,
}

/// The contents of a [`DiagnosticRequest`].
#[verifier::ext_equal]
pub struct DiagnosticRequestView {
    pub original_address: Seq<char>,
    pub address: BoundAddressInputView,
    pub port: Option<NonZeroU16>,
}

impl DeepView for DiagnosticRequest {
    type V = DiagnosticRequestView;

    open spec fn deep_view(&self) -> DiagnosticRequestView {
        DiagnosticRequestView {
            original_address: self.original_address.deep_view(),
            address: self.address.deep_view(),
            port: self.port,
        }
    }
}

impl Clone for DiagnosticRequest {
    fn clone(&self) -> (copy: Self)
        ensures
            copy.deep_view() == self.deep_view(),
    {
        DiagnosticRequest {
            original_address: self.original_address.clone(),
            address: self.address.clone(),
            port: self.port,
        }
    }
}

#[derive(Clone, Copy, Debug, Eq, PartialEq, Structural)]
pub enum InputError {
    EmptyAddress,
    InvalidAddress,
    InvalidIpv6Scope,
    InvalidPortSyntax,
    PortOutOfRange,
}

impl DeepView for InputError {
    type V = InputError;

    open spec fn deep_view(&self) -> InputError {
        *self
    }
}

impl InputError {
    pub open spec fn shown(self) -> Seq<char> {
        match self {
            InputError::EmptyAddress => "address must not be empty"@,
            InputError::InvalidAddress => "address is not a valid hostname or IP literal"@,
            InputError::InvalidIpv6Scope => "IPv6 scope syntax is invalid"@,
            InputError::InvalidPortSyntax => "port must contain only decimal digits"@,
            InputError::PortOutOfRange => "port must be in the range 1..=65535"@,
        }
    }

    /// What is wrong, as a sentence for a user.
    pub fn message(self) -> (result: &'static str)
        ensures
            result@ == self.shown(),
    {
        match self {
            InputError::EmptyAddress => "address must not be empty",
            InputError::InvalidAddress => "address is not a valid hostname or IP literal",
            InputError::InvalidIpv6Scope => "IPv6 scope syntax is invalid",
            InputError::InvalidPortSyntax => "port must contain only decimal digits",
            InputError::PortOutOfRange => "port must be in the range 1..=65535",
        }
    }
}

/// What a port means: digits only, and a value from 1 to 65535.
pub open spec fn port_meaning(raw: Seq<char>) -> Result<NonZeroU16, InputError> {
    if raw.len() == 0 || !text::all_digits(raw) {
        Err(InputError::InvalidPortSyntax)
    } else if 1 <= text::decimal_value(raw) <= 65535 {
        Ok(NonZeroU16::of_number(text::decimal_value(raw) as u16))
    } else {
        Err(InputError::PortOutOfRange)
    }
}

/// What the text behind a percent sign means: an interface index other than zero, or an
/// interface name of at most 255 bytes without control characters, slashes and brackets.
pub open spec fn scope_meaning(raw: Seq<char>) -> Result<ScopeSyntaxView, InputError> {
    if text::all_digits(raw) {
        if 1 <= text::decimal_value(raw) <= u32::MAX {
            Ok(
                ScopeSyntaxView::InterfaceIndex(
                    NonZeroU32::of_number(text::decimal_value(raw) as u32),
                ),
            )
        } else {
            Err(InputError::InvalidIpv6Scope)
        }
    } else if text::byte_len(raw) <= MAX_SCOPE_NAME_BYTES && (forall|i: int|
        0 <= i < raw.len() ==> plain_scope_letter(#[trigger] raw[i])) {
        Ok(ScopeSyntaxView::InterfaceName(raw))
    } else {
        Err(InputError::InvalidIpv6Scope)
    }
}

/// Whether a character may stand in an interface name.
pub open spec fn plain_scope_letter(letter: char) -> bool {
    !text::is_control(letter) && letter != '/' && letter != '\\' && letter != '[' && letter != ']'
}

/// What an address with a percent sign means: an IPv6 address, one percent sign and a scope.
pub open spec fn scoped_ipv6_meaning(raw: Seq<char>) -> Result<ParsedAddressView, InputError> {
    let pieces = text::split_on(raw, '%');
    if pieces.len() != 2 || pieces[1].len() == 0 {
        Err(InputError::InvalidIpv6Scope)
    } else {
        match (net::ipv6_meaning(pieces[0]), scope_meaning(pieces[1])) {
            (Some(bits), Ok(scope)) => Ok(
                ParsedAddressView::Ipv6 {
                    address: Ipv6Addr { bits: bits as u128 },
                    scope: Some(scope),
                },
            ),
            _ => Err(InputError::InvalidIpv6Scope),
        }
    }
}

/// Whether a name is fully qualified: it ends with the root dot.
pub open spec fn has_root_dot(raw: Seq<char>) -> bool {
    raw.len() > 0 && raw.last() == '.'
}

/// A name without its root dot.
pub open spec fn without_root_dot(raw: Seq<char>) -> Seq<char> {
    if has_root_dot(raw) {
        raw.drop_last()
    } else {
        raw
    }
}

/// Whether a name is a hostname: letters, digits, hyphens and dots, at most 253 of them, and
/// between the dots labels of 1 to 63 characters that neither start nor end with a hyphen.
pub open spec fn is_hostname(name: Seq<char>) -> bool {
    let labels = text::split_on(name, '.');
    &&& 1 <= name.len() <= 253
    &&& forall|i: int| 0 <= i < name.len() ==> is_hostname_letter(#[trigger] name[i])
    &&& forall|i: int|
        0 <= i < labels.len() ==> {
            let label = #[trigger] labels[i];
            1 <= label.len() <= 63 && label.first() != '-' && label.last() != '-'
        }
}

pub open spec fn is_hostname_letter(letter: char) -> bool {
    'a' <= letter <= 'z' || 'A' <= letter <= 'Z' || '0' <= letter <= '9' || letter == '-' || letter
        == '.'
}

/// The ASCII form of a domain name, where it has one.
pub uninterp spec fn ascii_domain(domain: Seq<char>) -> Option<Seq<char>>;

/// The reason why a domain name has no ASCII form.
#[verifier::external_type_specification]
#[verifier::external_body]
pub struct ExternalIdnaErrors(idna::Errors);

/// `idna::domain_to_ascii_strict`. Its result, the name in the form that the strict
/// domain-to-ASCII algorithm gives it, is named [`ascii_domain`]; the algorithm itself is not
/// stated.
#[verifier::external_body]
fn strict_ascii_domain(domain: &str) -> (result: Result<String, idna::Errors>)
    ensures
        match result {
            Ok(ascii) => ascii_domain(domain@) == Some(ascii@),
            Err(_) => ascii_domain(domain@) is None,
        },
{
    idna::domain_to_ascii_strict(domain)
}

/// `hostname_validator::is_valid` accepts exactly what [`is_hostname`] says: every byte is a
/// letter, a digit, a hyphen or a dot, there are 1 to 253 of them, and every label between the
/// dots has 1 to 63 bytes and neither starts nor ends with a hyphen.
pub assume_specification[ hostname_validator::is_valid ](name: &str) -> (accepted: bool)
    ensures
        accepted == is_hostname(name@),
;

/// What a hostname means, given the ASCII form of its name without the root dot.
pub open spec fn hostname_meaning(raw: Seq<char>, ascii_base: Option<Seq<char>>) -> Result<
    HostnameView,
    InputError,
> {
    match ascii_base {
        Some(ascii) => if is_hostname(ascii) {
            Ok(
                HostnameView {
                    original: raw,
                    ascii: if has_root_dot(raw) {
                        ascii + "."@
                    } else {
                        ascii
                    },
                },
            )
        } else {
            Err(InputError::InvalidAddress)
        },
        None => Err(InputError::InvalidAddress),
    }
}

/// What an address means: an IP literal, a scoped IPv6 literal where it holds a percent sign,
/// or else a hostname.
pub open spec fn address_meaning(raw: Seq<char>, ascii_base: Option<Seq<char>>) -> Result<
    ParsedAddressView,
    InputError,
> {
    if net::ipv4_meaning(raw) is Some {
        Ok(ParsedAddressView::Ipv4(Ipv4Addr { bits: net::ipv4_meaning(raw)->Some_0 as u32 }))
    } else if net::ipv6_meaning(raw) is Some {
        Ok(
            ParsedAddressView::Ipv6 {
                address: Ipv6Addr { bits: net::ipv6_meaning(raw)->Some_0 as u128 },
                scope: None,
            },
        )
    } else if raw.contains('%') {
        scoped_ipv6_meaning(raw)
    } else {
        match hostname_meaning(raw, ascii_base) {
            Ok(hostname) => Ok(ParsedAddressView::Hostname(hostname)),
            Err(error) => Err(error),
        }
    }
}

/// What a request means: the address must not be empty, and the port is looked at first.
pub open spec fn request_meaning(
    address: Seq<char>,
    port: Option<Seq<char>>,
    ascii_base: Option<Seq<char>>,
) -> Result<ParsedRequestView, InputError> {
    if address.len() == 0 {
        Err(InputError::EmptyAddress)
    } else if port is Some && port_meaning(port->Some_0) is Err {
        Err(port_meaning(port->Some_0)->Err_0)
    } else {
        match address_meaning(address, ascii_base) {
            Ok(parsed) => Ok(
                ParsedRequestView {
                    original_address: address,
                    address: parsed,
                    port: match port {
                        Some(raw) => Some(port_meaning(raw)->Ok_0),
                        None => None,
                    },
                },
            ),
            Err(error) => Err(error),
        }
    }
}

/// Whether a result that was computed is the one that is meant.
pub open spec fn agrees<T: DeepView>(
    result: Result<T, InputError>,
    meaning: Result<T::V, InputError>,
) -> bool {
    match result {
        Ok(value) => meaning matches Ok(expected) && value.deep_view() == expected,
        Err(error) => meaning matches Err(expected) && error == expected,
    }
}

/// Performs only local parsing. Calling this function must never collect an OS
/// network snapshot, invoke a resolver, or produce network traffic.
pub fn parse_request(address: &str, port: Option<&str>) -> (result: Result<
    ParsedRequest,
    InputError,
>)
    ensures
        agrees(
            result,
            request_meaning(
                address@,
                match port {
                    Some(raw) => Some(raw@),
                    None => None,
                },
                ascii_domain(without_root_dot(address@)),
            ),
        ),
{
    if address.is_empty() {
        return Err(InputError::EmptyAddress);
    }
    let port = match port {
        Some(raw) => match parse_port(raw) {
            Ok(port) => Some(port),
            Err(error) => return Err(error),
        },
        None => None,
    };
    match parse_address(address) {
        Ok(parsed) => Ok(
            ParsedRequest { original_address: address.to_owned(), address: parsed, port },
        ),
        Err(error) => Err(error),
    }
}

pub fn parse_port(raw: &str) -> (result: Result<NonZeroU16, InputError>)
    ensures
        result == port_meaning(raw@),
        result matches Ok(port) ==> port.number() == text::decimal_value(raw@),
{
    let letters = text::characters(raw);
    if letters.len() == 0 || !text::digits_only(&letters) {
        return Err(InputError::InvalidPortSyntax);
    }
    match text::bounded_decimal(&letters, 65535) {
        Some(value) => match NonZeroU16::new(value as u16) {
            Some(port) => Ok(port),
            None => Err(InputError::PortOutOfRange),
        },
        None => Err(InputError::PortOutOfRange),
    }
}

pub fn parse_address(raw: &str) -> (result: Result<ParsedAddress, InputError>)
    ensures
        agrees(result, address_meaning(raw@, ascii_domain(without_root_dot(raw@)))),
{
    if let Some(address) = Ipv4Addr::parse(raw) {
        return Ok(ParsedAddress::Ipv4(address));
    }
    if let Some(address) = Ipv6Addr::parse(raw) {
        return Ok(ParsedAddress::Ipv6 { address, scope: None });
    }
    if text::holds(&text::characters(raw), '%') {
        return parse_scoped_ipv6(raw);
    }
    match parse_hostname(raw) {
        Ok(hostname) => Ok(ParsedAddress::Hostname(hostname)),
        Err(error) => Err(error),
    }
}

pub fn parse_scoped_ipv6(raw: &str) -> (result: Result<ParsedAddress, InputError>)
    ensures
        agrees(result, scoped_ipv6_meaning(raw@)),
{
    let pieces = text::split(&text::characters(raw), '%');
    assert(text::contents(pieces@).len() == pieces@.len());
    if pieces.len() != 2 {
        return Err(InputError::InvalidIpv6Scope);
    }
    assert(text::contents(pieces@)[0] == pieces@[0]@);
    assert(text::contents(pieces@)[1] == pieces@[1]@);
    if pieces[1].len() == 0 {
        return Err(InputError::InvalidIpv6Scope);
    }
    let address = text::text_of(&pieces[0]);
    let scope = text::text_of(&pieces[1]);
    match Ipv6Addr::parse(address.as_str()) {
        Some(address) => match parse_scope(scope.as_str()) {
            Ok(scope) => Ok(ParsedAddress::Ipv6 { address, scope: Some(scope) }),
            Err(_) => Err(InputError::InvalidIpv6Scope),
        },
        None => Err(InputError::InvalidIpv6Scope),
    }
}

pub fn parse_scope(raw: &str) -> (result: Result<ScopeSyntax, InputError>)
    ensures
        agrees(result, scope_meaning(raw@)),
        result matches Ok(ScopeSyntax::InterfaceIndex(index)) ==> index.number()
            == text::decimal_value(raw@),
{
    let letters = text::characters(raw);
    if text::digits_only(&letters) {
        return match text::bounded_decimal(&letters, 0xffff_ffff) {
            Some(value) => match NonZeroU32::new(value as u32) {
                Some(index) => Ok(ScopeSyntax::InterfaceIndex(index)),
                None => Err(InputError::InvalidIpv6Scope),
            },
            None => Err(InputError::InvalidIpv6Scope),
        };
    }
    if text::byte_length(raw) > MAX_SCOPE_NAME_BYTES {
        return Err(InputError::InvalidIpv6Scope);
    }
    let mut i: usize = 0;
    while i < letters.len()
        invariant
            i <= letters.len(),
            letters@ == raw@,
            !text::all_digits(raw@),
            forall|j: int| 0 <= j < i ==> plain_scope_letter(#[trigger] raw@[j]),
        decreases letters.len() - i,
    {
        let letter = letters[i];
        if text::control_character(letter) || letter == '/' || letter == '\\' || letter == '['
            || letter == ']' {
            assert(!plain_scope_letter(raw@[i as int]));
            return Err(InputError::InvalidIpv6Scope);
        }
        i += 1;
    }
    Ok(ScopeSyntax::InterfaceName(raw.to_owned()))
}

/// Reads a hostname. A root dot is taken off before the name is brought to its ASCII form and
/// checked, and put back afterwards: neither step accepts it, and a fully qualified name is
/// welcome.
pub fn parse_hostname(raw: &str) -> (result: Result<Hostname, InputError>)
    ensures
        agrees(result, hostname_meaning(raw@, ascii_domain(without_root_dot(raw@)))),
{
    let letters = text::characters(raw);
    let base = if letters.len() > 0 && letters[letters.len() - 1] == '.' {
        let base = text::text_between(&letters, 0, letters.len() - 1);
        assert(base@ =~= raw@.drop_last());
        base
    } else {
        raw.to_owned()
    };
    match strict_ascii_domain(base.as_str()) {
        Ok(ascii_base) => hostname_from_ascii(raw, Some(ascii_base)),
        Err(_) => hostname_from_ascii(raw, None),
    }
}

/// Makes a hostname of the text that was given and the ASCII form of its name without the root
/// dot, where there is one.
pub fn hostname_from_ascii(raw: &str, ascii_base: Option<String>) -> (result: Result<
    Hostname,
    InputError,
>)
    ensures
        agrees(result, hostname_meaning(raw@, ascii_base.deep_view())),
{
    let Some(ascii_base) = ascii_base else {
        return Err(InputError::InvalidAddress);
    };
    if !hostname_validator::is_valid(ascii_base.as_str()) {
        return Err(InputError::InvalidAddress);
    }
    let letters = text::characters(raw);
    let ascii = if letters.len() > 0 && letters[letters.len() - 1] == '.' {
        text::join2(ascii_base.as_str(), ".")
    } else {
        ascii_base
    };
    Ok(Hostname { original: raw.to_owned(), ascii })
}

} // verus!
