//! Internet addresses: their values, how they are written and read, and address blocks.

use vstd::prelude::*;

use crate::text;

verus! {

/// An IPv4 address.
#[derive(Clone, Copy, Debug, Eq, Hash, PartialEq, Structural)]
pub struct Ipv4Addr {
    pub bits: u32,
}

/// An IPv6 address.
#[derive(Clone, Copy, Debug, Eq, Hash, PartialEq, Structural)]
pub struct Ipv6Addr {
    pub bits: u128,
}

/// An address of either family.
#[derive(Clone, Copy, Debug, Eq, Hash, PartialEq, Structural)]
pub enum IpAddr {
    V4(Ipv4Addr),
    V6(Ipv6Addr),
}

/// An address with a port. `scope_id` is the interface index of an IPv6 address, or zero.
#[derive(Clone, Copy, Debug, Eq, Hash, PartialEq, Structural)]
pub struct SocketAddr {
    pub address: IpAddr,
    pub port: u16,
    pub scope_id: u32,
}

/// A block of addresses: those that agree with `address` in the first `prefix_len` bits.
#[derive(Clone, Copy, Debug, Eq, PartialEq, Structural)]
pub struct IpNet {
    address: IpAddr,
    prefix_len: u8,
}

/// A prefix length that is longer than an address of its family.
#[derive(Clone, Copy, Debug, Eq, PartialEq, Structural)]
pub struct PrefixLenError;

impl DeepView for Ipv4Addr {
    type V = Ipv4Addr;

    open spec fn deep_view(&self) -> Ipv4Addr {
        *self
    }
}

impl DeepView for Ipv6Addr {
    type V = Ipv6Addr;

    open spec fn deep_view(&self) -> Ipv6Addr {
        *self
    }
}

impl DeepView for IpAddr {
    type V = IpAddr;

    open spec fn deep_view(&self) -> IpAddr {
        *self
    }
}

impl DeepView for SocketAddr {
    type V = SocketAddr;

    open spec fn deep_view(&self) -> SocketAddr {
        *self
    }
}

impl DeepView for IpNet {
    type V = IpNet;

    open spec fn deep_view(&self) -> IpNet {
        *self
    }
}

/// The address with the four given octets.
pub open spec fn from_octets(first: nat, second: nat, third: nat, fourth: nat) -> nat {
    first * 0x100_0000 + second * 0x1_0000 + third * 0x100 + fourth
}

/// The number made of sixteen-bit digits, the most significant first.
pub open spec fn combined(groups: Seq<u16>) -> nat
    decreases groups.len(),
{
    if groups.len() == 0 {
        0
    } else {
        combined(groups.drop_last()) * 0x1_0000 + groups.last() as nat
    }
}

/// The `count` least significant sixteen-bit digits of a number, the most significant first.
pub open spec fn segments(bits: nat, count: nat) -> Seq<u16>
    decreases count,
{
    if count == 0 {
        Seq::empty()
    } else {
        segments(bits / 0x1_0000, (count - 1) as nat).push((bits % 0x1_0000) as u16)
    }
}

/// Whether a text is an octet of a dotted address: one to three digits, no needless zero in
/// front, and a value below 256.
pub open spec fn is_octet(piece: Seq<char>) -> bool {
    &&& 1 <= piece.len() <= 3
    &&& text::all_digits(piece)
    &&& piece.len() > 1 ==> piece[0] != '0'
    &&& text::decimal_value(piece) <= 255
}

/// The address that a dotted text stands for.
pub open spec fn ipv4_meaning(input: Seq<char>) -> Option<nat> {
    let pieces = text::split_on(input, '.');
    if pieces.len() == 4 && is_octet(pieces[0]) && is_octet(pieces[1]) && is_octet(pieces[2])
        && is_octet(pieces[3]) {
        Some(
            from_octets(
                text::decimal_value(pieces[0]),
                text::decimal_value(pieces[1]),
                text::decimal_value(pieces[2]),
                text::decimal_value(pieces[3]),
            ),
        )
    } else {
        None
    }
}

/// The value of a hexadecimal digit of either case.
pub open spec fn hex_digit(letter: char) -> Option<nat> {
    if '0' <= letter <= '9' {
        Some((letter as nat - '0' as nat) as nat)
    } else if 'a' <= letter <= 'f' {
        Some((letter as nat - 'a' as nat + 10) as nat)
    } else if 'A' <= letter <= 'F' {
        Some((letter as nat - 'A' as nat + 10) as nat)
    } else {
        None
    }
}

/// The value of a hexadecimal numeral.
pub open spec fn hex_value(piece: Seq<char>) -> nat
    decreases piece.len(),
{
    if piece.len() == 0 {
        0
    } else {
        hex_value(piece.drop_last()) * 16 + hex_digit(piece.last())->Some_0
    }
}

/// Whether a text is a group of an IPv6 address: one to four hexadecimal digits.
pub open spec fn is_group(piece: Seq<char>) -> bool {
    &&& 1 <= piece.len() <= 4
    &&& forall|i: int| 0 <= i < piece.len() ==> hex_digit(#[trigger] piece[i]) is Some
}

/// The values of pieces that are all groups.
pub open spec fn plain_groups(pieces: Seq<Seq<char>>) -> Option<Seq<u16>> {
    if forall|i: int| 0 <= i < pieces.len() ==> is_group(#[trigger] pieces[i]) {
        Some(Seq::new(pieces.len(), |i: int| hex_value(pieces[i]) as u16))
    } else {
        None
    }
}

/// The groups that stand on one side of a double colon. Where `dotted` holds, the last piece
/// may be a dotted address, which makes two groups.
pub open spec fn side_groups(input: Seq<char>, dotted: bool) -> Option<Seq<u16>> {
    let pieces = text::split_on(input, ':');
    if input.len() == 0 {
        Some(Seq::empty())
    } else if dotted && ipv4_meaning(pieces.last()) is Some {
        let tail = ipv4_meaning(pieces.last())->Some_0;
        match plain_groups(pieces.drop_last()) {
            Some(groups) => Some(
                groups.push((tail / 0x1_0000) as u16).push((tail % 0x1_0000) as u16),
            ),
            None => None,
        }
    } else {
        plain_groups(pieces)
    }
}

/// Where the first double colon stands, looking from a given place on.
pub open spec fn gap_from(input: Seq<char>, from: int) -> Option<int>
    decreases input.len() - from,
{
    if from + 1 >= input.len() {
        None
    } else if input[from] == ':' && input[from + 1] == ':' {
        Some(from)
    } else {
        gap_from(input, from + 1)
    }
}

/// The address that a colon-separated text stands for: eight groups, or fewer with one double
/// colon for at least one group of zeros.
pub open spec fn ipv6_meaning(input: Seq<char>) -> Option<nat> {
    match gap_from(input, 0) {
        None => match side_groups(input, true) {
            Some(groups) => if groups.len() == 8 {
                Some(combined(groups))
            } else {
                None
            },
            None => None,
        },
        Some(gap) => match (
            side_groups(input.take(gap), false),
            side_groups(input.skip(gap + 2), true),
        ) {
            (Some(head), Some(tail)) => if head.len() + tail.len() <= 7 {
                Some(
                    combined(
                        head + Seq::new((8 - head.len() - tail.len()) as nat, |i: int| 0u16)
                            + tail,
                    ),
                )
            } else {
                None
            },
            _ => None,
        },
    }
}

/// How many zeros follow each other from a place on.
pub open spec fn zeros_from(groups: Seq<u16>, from: int) -> nat
    decreases groups.len() - from,
{
    if 0 <= from < groups.len() && groups[from] == 0 {
        1 + zeros_from(groups, from + 1)
    } else {
        0
    }
}

/// The first place, among the first `count`, with the most zeros from it on.
pub open spec fn longest_zeros(groups: Seq<u16>, count: nat) -> int
    decreases count,
{
    if count == 0 {
        0
    } else {
        let before = longest_zeros(groups, (count - 1) as nat);
        if zeros_from(groups, count - 1) > zeros_from(groups, before) {
            count - 1
        } else {
            before
        }
    }
}

/// Groups in hexadecimal with colons between them.
pub open spec fn group_text(groups: Seq<u16>) -> Seq<char> {
    text::joined(Seq::new(groups.len(), |i: int| text::numeral(groups[i] as nat, 16)), ":"@)
}

/// A dotted address.
pub open spec fn ipv4_text(bits: nat) -> Seq<char> {
    text::decimal(bits / 0x100_0000) + "."@ + text::decimal(bits / 0x1_0000 % 0x100) + "."@
        + text::decimal(bits / 0x100 % 0x100) + "."@ + text::decimal(bits % 0x100)
}

/// An IPv6 address in its short form: a mapped IPv4 address is dotted, and the first of the
/// longest runs of at least two zero groups becomes a double colon.
pub open spec fn ipv6_text(bits: nat) -> Seq<char> {
    let groups = segments(bits, 8);
    let start = longest_zeros(groups, 8);
    let zeros = zeros_from(groups, start);
    if bits / 0x1_0000_0000 == 0xffff {
        "::ffff:"@ + ipv4_text(bits % 0x1_0000_0000)
    } else if zeros > 1 {
        group_text(groups.take(start)) + "::"@ + group_text(groups.skip(start + zeros))
    } else {
        group_text(groups)
    }
}

impl IpAddr {
    /// The address as text.
    pub open spec fn shown(self) -> Seq<char> {
        match self {
            IpAddr::V4(address) => ipv4_text(address.bits as nat),
            IpAddr::V6(address) => ipv6_text(address.bits as nat),
        }
    }
}

impl SocketAddr {
    /// The address and port as text.
    pub open spec fn shown(self) -> Seq<char> {
        match self.address {
            IpAddr::V4(_) => self.address.shown() + ":"@ + text::decimal(self.port as nat),
            IpAddr::V6(_) => if self.scope_id == 0 {
                "["@ + self.address.shown() + "]:"@ + text::decimal(self.port as nat)
            } else {
                "["@ + self.address.shown() + "%"@ + text::decimal(self.scope_id as nat) + "]:"@
                    + text::decimal(self.port as nat)
            },
        }
    }
}

impl IpNet {
    /// The longest prefix of the address's family.
    pub open spec fn prefix_limit(address: IpAddr) -> u8 {
        match address {
            IpAddr::V4(_) => 32,
            IpAddr::V6(_) => 128,
        }
    }

    #[verifier::type_invariant]
    closed spec fn prefix_fits(self) -> bool {
        self.prefix_len <= Self::prefix_limit(self.address)
    }

    pub closed spec fn base(self) -> IpAddr {
        self.address
    }

    pub closed spec fn prefix(self) -> u8 {
        self.prefix_len
    }

    /// Whether an address belongs to the block: it is of the same family and agrees with the
    /// base address in the bits of the prefix.
    pub open spec fn covers(self, address: IpAddr) -> bool {
        match (self.base(), address) {
            (IpAddr::V4(base), IpAddr::V4(address)) => same_prefix(
                base.bits as nat,
                address.bits as nat,
                (32 - self.prefix()) as nat,
            ),
            (IpAddr::V6(base), IpAddr::V6(address)) => same_prefix(
                base.bits as nat,
                address.bits as nat,
                (128 - self.prefix()) as nat,
            ),
            _ => false,
        }
    }
}

/// Whether two numbers agree in all but the last `rest` bits.
pub open spec fn same_prefix(left: nat, right: nat, rest: nat) -> bool {
    left / vstd::arithmetic::power2::pow2(rest) == right / vstd::arithmetic::power2::pow2(rest)
}

/// `ipnet::Ipv4Net::contains`, on the network that `ipnet::Ipv4Net::new` makes of the first two
/// arguments: whether the address lies between the block's first address and its last, which
/// is whether it agrees with the network's address in the bits of the prefix.
#[verifier::external_body]
fn ipv4_net_contains(network: u32, prefix_len: u8, address: u32) -> (result: bool)
    requires
        prefix_len <= 32,
    ensures
        result == same_prefix(network as nat, address as nat, (32 - prefix_len) as nat),
{
    match (ipnet::Ipv4Net::new(network.into(), prefix_len), ipnet::Ipv4Net::new(address.into(), 32)) {
        (Ok(block), Ok(host)) => block.contains(&host.addr()),
        _ => false,
    }
}

/// `ipnet::Ipv6Net::contains`, on the network that `ipnet::Ipv6Net::new` makes of the first two
/// arguments: whether the address lies between the block's first address and its last, which
/// is whether it agrees with the network's address in the bits of the prefix.
#[verifier::external_body]
fn ipv6_net_contains(network: u128, prefix_len: u8, address: u128) -> (result: bool)
    requires
        prefix_len <= 128,
    ensures
        result == same_prefix(network as nat, address as nat, (128 - prefix_len) as nat),
{
    match (ipnet::Ipv6Net::new(network.into(), prefix_len), ipnet::Ipv6Net::new(address.into(), 128)) {
        (Ok(block), Ok(host)) => block.contains(&host.addr()),
        _ => false,
    }
}

impl IpNet {
    pub fn new(address: IpAddr, prefix_len: u8) -> (result: Result<IpNet, PrefixLenError>)
        ensures
            result is Ok <==> prefix_len <= Self::prefix_limit(address),
            result matches Ok(network) ==> network.base() == address && network.prefix()
                == prefix_len,
    {
        let limit: u8 = match address {
            IpAddr::V4(_) => 32,
            IpAddr::V6(_) => 128,
        };
        if prefix_len <= limit {
            Ok(IpNet { address, prefix_len })
        } else {
            Err(PrefixLenError)
        }
    }

    pub fn addr(&self) -> (result: IpAddr)
        ensures
            result == self.base(),
    {
        self.address
    }

    pub fn prefix_len(&self) -> (result: u8)
        ensures
            result == self.prefix(),
            result <= 128,
    {
        proof {
            use_type_invariant(self);
        }
        self.prefix_len
    }

    pub fn contains(&self, address: &IpAddr) -> (result: bool)
        ensures
            result == self.covers(*address),
    {
        proof {
            use_type_invariant(self);
        }
        match (self.address, *address) {
            (IpAddr::V4(base), IpAddr::V4(other)) => {
                ipv4_net_contains(base.bits, self.prefix_len, other.bits)
            },
            (IpAddr::V6(base), IpAddr::V6(other)) => {
                ipv6_net_contains(base.bits, self.prefix_len, other.bits)
            },
            _ => false,
        }
    }
}

impl From<u32> for Ipv4Addr {
    fn from(bits: u32) -> (result: Self) {
        Ipv4Addr { bits }
    }
}

impl vstd::std_specs::convert::FromSpecImpl<u32> for Ipv4Addr {
    open spec fn obeys_from_spec() -> bool {
        true
    }

    open spec fn from_spec(bits: u32) -> Self {
        Ipv4Addr { bits }
    }
}

impl From<Ipv4Addr> for IpAddr {
    fn from(address: Ipv4Addr) -> (result: Self) {
        IpAddr::V4(address)
    }
}

impl vstd::std_specs::convert::FromSpecImpl<Ipv4Addr> for IpAddr {
    open spec fn obeys_from_spec() -> bool {
        true
    }

    open spec fn from_spec(address: Ipv4Addr) -> Self {
        IpAddr::V4(address)
    }
}

impl From<Ipv6Addr> for IpAddr {
    fn from(address: Ipv6Addr) -> (result: Self) {
        IpAddr::V6(address)
    }
}

impl vstd::std_specs::convert::FromSpecImpl<Ipv6Addr> for IpAddr {
    open spec fn obeys_from_spec() -> bool {
        true
    }

    open spec fn from_spec(address: Ipv6Addr) -> Self {
        IpAddr::V6(address)
    }
}

fn octet(piece: &Vec<char>) -> (result: Option<u64>)
    ensures
        result == (if is_octet(piece@) {
            Some(text::decimal_value(piece@) as u64)
        } else {
            None::<u64>
        }),
{
    if piece.len() < 1 || piece.len() > 3 || !text::digits_only(piece) {
        return None;
    }
    if piece.len() > 1 && piece[0] == '0' {
        return None;
    }
    text::bounded_decimal(piece, 255)
}

fn ipv4_of(letters: &Vec<char>) -> (result: Option<Ipv4Addr>)
    ensures
        result is Some <==> ipv4_meaning(letters@) is Some,
        result matches Some(address) ==> address.bits as nat == ipv4_meaning(letters@)->Some_0,
{
    let pieces = text::split(letters, '.');
    assert(text::contents(pieces@).len() == pieces@.len());
    if pieces.len() != 4 {
        return None;
    }
    assert forall|i: int| 0 <= i < 4 implies #[trigger] text::contents(pieces@)[i]
        == pieces@[i]@ by {}
    match (octet(&pieces[0]), octet(&pieces[1]), octet(&pieces[2]), octet(&pieces[3])) {
        (Some(first), Some(second), Some(third), Some(fourth)) => {
            let bits: u64 = first * 0x100_0000 + second * 0x1_0000 + third * 0x100 + fourth;
            Some(Ipv4Addr { bits: bits as u32 })
        },
        _ => None,
    }
}

impl Ipv4Addr {
    pub fn new(first: u8, second: u8, third: u8, fourth: u8) -> (result: Ipv4Addr)
        ensures
            result.bits as nat == from_octets(
                first as nat,
                second as nat,
                third as nat,
                fourth as nat,
            ),
    {
        Ipv4Addr {
            bits: first as u32 * 0x100_0000 + second as u32 * 0x1_0000 + third as u32 * 0x100
                + fourth as u32,
        }
    }

    /// The address of all zeros.
    pub fn unspecified() -> (result: Ipv4Addr)
        ensures
            result.bits == 0,
    {
        Ipv4Addr { bits: 0 }
    }

    /// The address 127.0.0.1.
    pub fn localhost() -> (result: Ipv4Addr)
        ensures
            result.bits as nat == from_octets(127, 0, 0, 1),
    {
        Ipv4Addr { bits: 0x7f00_0001 }
    }

    /// Reads a dotted address.
    pub fn parse(input: &str) -> (result: Option<Ipv4Addr>)
        ensures
            result is Some <==> ipv4_meaning(input@) is Some,
            result matches Some(address) ==> address.bits as nat == ipv4_meaning(input@)->Some_0,
    {
        ipv4_of(&text::characters(input))
    }

    /// Writes the address with dots.
    pub fn to_text(self) -> (result: String)
        ensures
            result@ == ipv4_text(self.bits as nat),
            text::inert(result@),
    {
        proof {
            reveal_strlit(".");
        }
        let bits: u64 = self.bits as u64;
        let first = text::decimal_text(bits / 0x100_0000);
        let second = text::decimal_text(bits / 0x1_0000 % 0x100);
        let third = text::decimal_text(bits / 0x100 % 0x100);
        let fourth = text::decimal_text(bits % 0x100);
        let front = text::join4(first.as_str(), ".", second.as_str(), ".");
        text::join4(front.as_str(), third.as_str(), ".", fourth.as_str())
    }
}

fn hex_digit_value(letter: char) -> (result: Option<u16>)
    ensures
        hex_digit(letter) is Some <==> result is Some,
        result matches Some(value) ==> value as nat == hex_digit(letter)->Some_0 && value < 16,
{
    let code: u32 = letter as u32;
    if 48 <= code && code <= 57 {
        Some((code - 48) as u16)
    } else if 97 <= code && code <= 102 {
        Some((code - 97 + 10) as u16)
    } else if 65 <= code && code <= 70 {
        Some((code - 65 + 10) as u16)
    } else {
        None
    }
}

proof fn lemma_group_fits(piece: Seq<char>)
    requires
        piece.len() <= 4,
        forall|i: int| 0 <= i < piece.len() ==> hex_digit(#[trigger] piece[i]) is Some,
    ensures
        piece.len() == 0 ==> hex_value(piece) == 0,
        piece.len() == 1 ==> hex_value(piece) <= 0xf,
        piece.len() == 2 ==> hex_value(piece) <= 0xff,
        piece.len() == 3 ==> hex_value(piece) <= 0xfff,
        piece.len() == 4 ==> hex_value(piece) <= 0xffff,
    decreases piece.len(),
{
    if piece.len() > 0 {
        lemma_group_fits(piece.drop_last());
        assert(hex_digit(piece[piece.len() - 1]) is Some);
    }
}

fn group(piece: &Vec<char>) -> (result: Option<u16>)
    ensures
        result == (if is_group(piece@) {
            Some(hex_value(piece@) as u16)
        } else {
            None::<u16>
        }),
{
    if piece.len() < 1 || piece.len() > 4 {
        return None;
    }
    let mut value: u32 = 0;
    let mut i: usize = 0;
    while i < piece.len()
        invariant
            i <= piece.len() <= 4,
            forall|j: int| 0 <= j < i ==> hex_digit(#[trigger] piece@[j]) is Some,
            value == hex_value(piece@.take(i as int)),
            i == 0 ==> value == 0,
            i == 1 ==> value <= 0xf,
            i == 2 ==> value <= 0xff,
            i == 3 ==> value <= 0xfff,
            i == 4 ==> value <= 0xffff,
        decreases piece.len() - i,
    {
        match hex_digit_value(piece[i]) {
            Some(digit) => {
                value = value * 16 + digit as u32;
                assert(piece@.take(i + 1).drop_last() =~= piece@.take(i as int));
            },
            None => {
                assert(hex_digit(piece@[i as int]) is None);
                return None;
            },
        }
        i += 1;
    }
    assert(piece@.take(i as int) =~= piece@);
    Some(value as u16)
}

/// Reads the first `count` pieces as groups.
fn groups_of(pieces: &Vec<Vec<char>>, count: usize) -> (result: Option<Vec<u16>>)
    requires
        count <= pieces.len(),
    ensures
        result is Some <==> plain_groups(text::contents(pieces@).take(count as int)) is Some,
        result matches Some(groups) ==> groups@ == plain_groups(
            text::contents(pieces@).take(count as int),
        )->Some_0,
{
    let ghost all = text::contents(pieces@).take(count as int);
    let mut groups: Vec<u16> = Vec::new();
    let mut i: usize = 0;
    while i < count
        invariant
            i <= count <= pieces.len(),
            all == text::contents(pieces@).take(count as int),
            groups.len() == i,
            forall|j: int| 0 <= j < i ==> is_group(#[trigger] all[j]),
            forall|j: int| 0 <= j < i ==> groups@[j] == hex_value(#[trigger] all[j]) as u16,
        decreases count - i,
    {
        assert(all[i as int] == pieces@[i as int]@);
        match group(&pieces[i]) {
            Some(value) => {
                groups.push(value);
            },
            None => {
                return None;
            },
        }
        i += 1;
    }
    assert(groups@ =~= plain_groups(all)->Some_0);
    Some(groups)
}

fn side_groups_of(letters: &Vec<char>, dotted: bool) -> (result: Option<Vec<u16>>)
    ensures
        result is Some <==> side_groups(letters@, dotted) is Some,
        result matches Some(groups) ==> groups@ == side_groups(letters@, dotted)->Some_0,
{
    if letters.len() == 0 {
        let groups: Vec<u16> = Vec::new();
        assert(groups@ =~= Seq::<u16>::empty());
        return Some(groups);
    }
    let pieces = text::split(letters, ':');
    let ghost parts = text::contents(pieces@);
    proof {
        text::lemma_split_is_not_empty(letters@, ':');
        assert(parts.len() == pieces@.len());
        assert(parts.last() == pieces@[pieces@.len() - 1]@);
        assert(parts.take(pieces@.len() as int) =~= parts);
        assert(parts.take(pieces@.len() - 1) =~= parts.drop_last());
    }
    let count: usize = pieces.len();
    if dotted {
        if let Some(address) = ipv4_of(&pieces[count - 1]) {
            return match groups_of(&pieces, count - 1) {
                Some(groups) => {
                    let mut groups = groups;
                    groups.push((address.bits / 0x1_0000) as u16);
                    groups.push((address.bits % 0x1_0000) as u16);
                    Some(groups)
                },
                None => None,
            };
        }
    }
    groups_of(&pieces, count)
}

fn find_gap(letters: &Vec<char>) -> (result: Option<usize>)
    ensures
        result is Some <==> gap_from(letters@, 0) is Some,
        result matches Some(gap) ==> gap == gap_from(letters@, 0)->Some_0 && gap + 2
            <= letters@.len(),
{
    let mut i: usize = 0;
    while i < letters.len() && letters.len() - i >= 2
        invariant
            i <= letters.len(),
            gap_from(letters@, i as int) == gap_from(letters@, 0),
        decreases letters.len() - i,
    {
        if letters[i] == ':' && letters[i + 1] == ':' {
            return Some(i);
        }
        i += 1;
    }
    None
}

fn letters_between(letters: &Vec<char>, start: usize, end: usize) -> (result: Vec<char>)
    requires
        start <= end <= letters@.len(),
    ensures
        result@ == letters@.subrange(start as int, end as int),
{
    let mut result: Vec<char> = Vec::new();
    let mut i: usize = start;
    while i < end
        invariant
            start <= i <= end <= letters@.len(),
            result@ == letters@.subrange(start as int, i as int),
        decreases end - i,
    {
        result.push(letters[i]);
        assert(letters@.subrange(start as int, i + 1) =~= letters@.subrange(
            start as int,
            i as int,
        ).push(letters@[i as int]));
        i += 1;
    }
    result
}

proof fn lemma_combined_bound(groups: Seq<u16>)
    requires
        groups.len() <= 8,
    ensures
        combined(groups) < vstd::arithmetic::power2::pow2(16 * groups.len()),
        vstd::arithmetic::power2::pow2(16 * groups.len()) <= vstd::arithmetic::power2::pow2(128),
    decreases groups.len(),
{
    vstd::arithmetic::power2::lemma2_to64();
    if groups.len() > 0 {
        lemma_combined_bound(groups.drop_last());
        let before = (16 * (groups.len() - 1)) as nat;
        vstd::arithmetic::power2::lemma_pow2_adds(before, 16);
        assert(combined(groups) < vstd::arithmetic::power2::pow2(before) * 0x1_0000) by (nonlinear_arith)
            requires
                combined(groups) == combined(groups.drop_last()) * 0x1_0000 + groups.last() as nat,
                combined(groups.drop_last()) < vstd::arithmetic::power2::pow2(before),
                groups.last() < 0x1_0000,
        ;
    }
    if groups.len() < 8 {
        vstd::arithmetic::power2::lemma_pow2_strictly_increases(16 * groups.len(), 128);
    }
}

fn combine(groups: &Vec<u16>) -> (result: u128)
    requires
        groups@.len() <= 8,
    ensures
        result as nat == combined(groups@),
{
    let mut value: u128 = 0;
    let mut i: usize = 0;
    while i < groups.len()
        invariant
            i <= groups.len() <= 8,
            value as nat == combined(groups@.take(i as int)),
        decreases groups.len() - i,
    {
        proof {
            let next = groups@.take(i + 1);
            assert(next.drop_last() =~= groups@.take(i as int));
            lemma_combined_bound(next);
            vstd::arithmetic::power2::lemma2_to64();
            vstd::arithmetic::power2::lemma_pow2_adds(64, 64);
        }
        value = value * 0x1_0000 + groups[i] as u128;
        i += 1;
    }
    assert(groups@.take(i as int) =~= groups@);
    value
}

fn segments_of(bits: u128, count: usize) -> (result: Vec<u16>)
    ensures
        result@ == segments(bits as nat, count as nat),
    decreases count,
{
    if count == 0 {
        let result: Vec<u16> = Vec::new();
        assert(result@ =~= Seq::<u16>::empty());
        result
    } else {
        let mut result = segments_of(bits / 0x1_0000, count - 1);
        result.push((bits % 0x1_0000) as u16);
        result
    }
}

proof fn lemma_segments_len(bits: nat, count: nat)
    ensures
        segments(bits, count).len() == count,
    decreases count,
{
    if count > 0 {
        lemma_segments_len(bits / 0x1_0000, (count - 1) as nat);
    }
}

proof fn lemma_zeros_stay_inside(groups: Seq<u16>, from: int)
    requires
        0 <= from <= groups.len(),
    ensures
        from + zeros_from(groups, from) <= groups.len(),
    decreases groups.len() - from,
{
    if from < groups.len() {
        lemma_zeros_stay_inside(groups, from + 1);
    }
}

fn count_zeros(groups: &Vec<u16>, from: usize) -> (result: usize)
    requires
        from <= groups@.len(),
    ensures
        result as nat == zeros_from(groups@, from as int),
        from + result <= groups@.len(),
    decreases groups@.len() - from,
{
    if from < groups.len() && groups[from] == 0 {
        proof {
            lemma_zeros_stay_inside(groups@, from as int);
        }
        1 + count_zeros(groups, from + 1)
    } else {
        0
    }
}

fn find_longest_zeros(groups: &Vec<u16>) -> (result: usize)
    ensures
        result == longest_zeros(groups@, groups@.len()),
        result <= groups@.len(),
{
    let mut best: usize = 0;
    let mut i: usize = 0;
    while i < groups.len()
        invariant
            i <= groups.len(),
            best == longest_zeros(groups@, i as nat),
            best <= groups.len(),
        decreases groups.len() - i,
    {
        if count_zeros(groups, i) > count_zeros(groups, best) {
            best = i;
        }
        i += 1;
    }
    best
}

fn write_groups(groups: &Vec<u16>, start: usize, end: usize) -> (result: String)
    requires
        start <= end <= groups@.len(),
    ensures
        result@ == group_text(groups@.subrange(start as int, end as int)),
        text::inert(result@),
{
    proof {
        reveal_strlit(":");
    }
    let mut pieces: Vec<String> = Vec::new();
    let mut i: usize = start;
    let ghost part = groups@.subrange(start as int, end as int);
    while i < end
        invariant
            start <= i <= end <= groups@.len(),
            part == groups@.subrange(start as int, end as int),
            pieces.deep_view().len() == i - start,
            forall|j: int|
                0 <= j < i - start ==> #[trigger] pieces.deep_view()[j] == text::numeral(
                    part[j] as nat,
                    16,
                ),
            text::all_inert(pieces.deep_view()),
        decreases end - i,
    {
        text::push_text(&mut pieces, text::numeral_text(groups[i] as u64, 16).as_str());
        i += 1;
    }
    assert(pieces.deep_view() =~= Seq::new(
        part.len(),
        |j: int| text::numeral(part[j] as nat, 16),
    ));
    text::join_all(&pieces, ":")
}

impl Ipv6Addr {
    /// The address of eight groups.
    pub fn new(a: u16, b: u16, c: u16, d: u16, e: u16, f: u16, g: u16, h: u16) -> (result: Ipv6Addr)
        ensures
            result.bits as nat == combined(seq![a, b, c, d, e, f, g, h]),
    {
        let groups: Vec<u16> = vec![a, b, c, d, e, f, g, h];
        assert(groups@ =~= seq![a, b, c, d, e, f, g, h]);
        Ipv6Addr { bits: combine(&groups) }
    }

    /// The address of all zeros.
    pub fn unspecified() -> (result: Ipv6Addr)
        ensures
            result.bits == 0,
    {
        Ipv6Addr { bits: 0 }
    }

    /// The address `::1`.
    pub fn localhost() -> (result: Ipv6Addr)
        ensures
            result.bits == 1,
    {
        Ipv6Addr { bits: 1 }
    }

    /// Reads a colon-separated address.
    pub fn parse(input: &str) -> (result: Option<Ipv6Addr>)
        ensures
            result is Some <==> ipv6_meaning(input@) is Some,
            result matches Some(address) ==> address.bits as nat == ipv6_meaning(input@)->Some_0,
    {
        let letters = text::characters(input);
        match find_gap(&letters) {
            None => match side_groups_of(&letters, true) {
                Some(groups) => if groups.len() == 8 {
                    Some(Ipv6Addr { bits: combine(&groups) })
                } else {
                    None
                },
                None => None,
            },
            Some(gap) => {
                let before = letters_between(&letters, 0, gap);
                let after = letters_between(&letters, gap + 2, letters.len());
                assert(before@ =~= input@.take(gap as int));
                assert(after@ =~= input@.skip(gap + 2));
                match (side_groups_of(&before, false), side_groups_of(&after, true)) {
                    (Some(head), Some(tail)) => {
                        if head.len() > 7 || tail.len() > 7 || head.len() + tail.len() > 7 {
                            return None;
                        }
                        let ghost zeros = Seq::new(
                            (8 - head@.len() - tail@.len()) as nat,
                            |i: int| 0u16,
                        );
                        let ghost start = head@;
                        let mut groups = head;
                        let mut tail = tail;
                        let ghost end = tail@;
                        let count: usize = 8 - tail.len();
                        while groups.len() < count
                            invariant
                                start.len() <= groups@.len() <= count,
                                groups@ == start + zeros.take(groups@.len() - start.len()),
                                zeros.len() == count - start.len(),
                                forall|j: int| 0 <= j < zeros.len() ==> zeros[j] == 0u16,
                            decreases count - groups.len(),
                        {
                            let ghost held = groups@.len() - start.len();
                            groups.push(0);
                            assert(zeros.take(held + 1) =~= zeros.take(held as int).push(0u16));
                        }
                        assert(zeros.take(zeros.len() as int) =~= zeros);
                        groups.append(&mut tail);
                        assert(groups@ =~= start + zeros + end);
                        Some(Ipv6Addr { bits: combine(&groups) })
                    },
                    _ => None,
                }
            },
        }
    }

    /// Writes the address in its short form.
    pub fn to_text(self) -> (result: String)
        ensures
            result@ == ipv6_text(self.bits as nat),
            text::inert(result@),
    {
        proof {
            reveal_strlit("::ffff:");
            reveal_strlit("::");
        }
        if self.bits / 0x1_0000_0000 == 0xffff {
            let mapped = Ipv4Addr { bits: (self.bits % 0x1_0000_0000) as u32 };
            return text::join2("::ffff:", mapped.to_text().as_str());
        }
        let groups = segments_of(self.bits, 8);
        proof {
            lemma_segments_len(self.bits as nat, 8);
        }
        let start = find_longest_zeros(&groups);
        let zeros = count_zeros(&groups, start);
        if zeros > 1 {
            let head = write_groups(&groups, 0, start);
            let tail = write_groups(&groups, start + zeros, 8);
            assert(groups@.subrange(0, start as int) =~= groups@.take(start as int));
            assert(groups@.subrange(start + zeros, 8) =~= groups@.skip(start + zeros));
            text::join3(head.as_str(), "::", tail.as_str())
        } else {
            assert(groups@.subrange(0, 8) =~= groups@);
            write_groups(&groups, 0, 8)
        }
    }
}

impl IpAddr {
    /// Writes the address in its own family's form.
    pub fn to_text(self) -> (result: String)
        ensures
            result@ == self.shown(),
            text::inert(result@),
    {
        match self {
            IpAddr::V4(address) => address.to_text(),
            IpAddr::V6(address) => address.to_text(),
        }
    }
}

impl SocketAddr {
    /// An address with a port and no scope.
    pub fn new(address: IpAddr, port: u16) -> (result: SocketAddr)
        ensures
            result == (SocketAddr { address, port, scope_id: 0 }),
    {
        SocketAddr { address, port, scope_id: 0 }
    }

    /// Writes the address and the port, with brackets round an IPv6 address.
    pub fn to_text(self) -> (result: String)
        ensures
            result@ == self.shown(),
            text::inert(result@),
    {
        proof {
            reveal_strlit(":");
            reveal_strlit("[");
            reveal_strlit("]:");
            reveal_strlit("%");
        }
        let address = self.address.to_text();
        let port = text::decimal_text(self.port as u64);
        match self.address {
            IpAddr::V4(_) => text::join3(address.as_str(), ":", port.as_str()),
            IpAddr::V6(_) => if self.scope_id == 0 {
                text::join4("[", address.as_str(), "]:", port.as_str())
            } else {
                let scope = text::decimal_text(self.scope_id as u64);
                let front = text::join4("[", address.as_str(), "%", scope.as_str());
                text::join3(front.as_str(), "]:", port.as_str())
            },
        }
    }
}

} // verus!
