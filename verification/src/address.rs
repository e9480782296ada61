use vstd::prelude::*;

use crate::format::{hex2_upper, hex_upper_char, lemma_split_on_append_plain, lemma_split_on_push_sep, split_on};

verus! {

/// A Bluetooth device address, most significant byte first (as it is written).
#[derive(Clone, Copy, Debug)]
pub struct Address(pub [u8; 6]);

impl Address {
    /// Whether two addresses are the same address.
    pub fn same(&self, other: &Address) -> (res: bool)
        ensures
            res == (*self == *other),
    {
        broadcast use vstd::array::group_array_axioms;
        let a = &self.0;
        let b = &other.0;
        let mut i: usize = 0;
        while i < 6
            invariant
                i <= 6,
                a == &self.0,
                b == &other.0,
                forall|j: int| 0 <= j < i ==> a@[j] == b@[j],
            decreases 6 - i,
        {
            if a[i] != b[i] {
                return false;
            }
            i = i + 1;
        }
        assert(self.0 =~= other.0);
        true
    }
}

/// Which connected devices an input event is meant for.
#[derive(Clone, Copy, Debug)]
pub enum Target {
    Target(Address),
    Broadcast,
}

/// Whether an event for `target` is meant for the device at `address`.
pub open spec fn targets(target: Target, address: Address) -> bool {
    match target {
        Target::Broadcast => true,
        Target::Target(a) => a == address,
    }
}

impl Target {
    /// Whether this target includes the device at `address`.
    pub fn includes(&self, address: Address) -> (res: bool)
        ensures
            res == targets(*self, address),
    {
        match self {
            Target::Broadcast => true,
            Target::Target(a) => a.same(&address),
        }
    }
}

/// The value of a hexadecimal digit (either case).
pub open spec fn hex_digit_value(c: char) -> Option<nat> {
    if '0' <= c <= '9' {
        Some((c as nat - '0' as nat) as nat)
    } else if 'a' <= c <= 'f' {
        Some((c as nat - 'a' as nat + 10) as nat)
    } else if 'A' <= c <= 'F' {
        Some((c as nat - 'A' as nat + 10) as nat)
    } else {
        None
    }
}

/// The value of a run of hexadecimal digits (0 for an empty run).
pub open spec fn hex_number(digits: Seq<char>) -> Option<nat>
    decreases digits.len(),
{
    if digits.len() == 0 {
        Some(0)
    } else {
        match (hex_number(digits.drop_last()), hex_digit_value(digits.last())) {
            (Some(v), Some(d)) => Some(v * 16 + d),
            _ => None,
        }
    }
}

/// `u8::from_str_radix(field, 16)`: an optional `+`, then at least one hexadecimal
/// digit, with a value that fits a byte.
pub open spec fn radix16_byte(field: Seq<char>) -> Option<u8> {
    let digits = if field.len() > 0 && field[0] == '+' {
        field.skip(1)
    } else {
        field
    };
    if digits.len() == 0 {
        None
    } else {
        match hex_number(digits) {
            Some(v) => if v <= 255 {
                Some(v as u8)
            } else {
                None
            },
            None => None,
        }
    }
}

/// Whether every field is a byte in base 16.
pub open spec fn all_fields_bytes(fields: Seq<Seq<char>>) -> bool {
    forall|i: int| 0 <= i < fields.len() ==> (#[trigger] radix16_byte(fields[i])) is Some
}

/// The address a text spells: six `:`-separated fields, each a byte in base 16.
pub open spec fn address_of_text(text: Seq<char>) -> Option<Seq<u8>> {
    let fields = split_on(text, ':');
    if fields.len() == 6 && all_fields_bytes(fields) {
        Some(fields.map_values(|f: Seq<char>| radix16_byte(f).unwrap()))
    } else {
        None
    }
}

/// The usual text of an address: six uppercase two-digit hexadecimal bytes separated by `:`.
pub open spec fn address_text(a: Address) -> Seq<char> {
    hex2_upper(a.0[0]) + seq![':'] + hex2_upper(a.0[1]) + seq![':'] + hex2_upper(a.0[2]) + seq![':'] + hex2_upper(
        a.0[3],
    ) + seq![':'] + hex2_upper(a.0[4]) + seq![':'] + hex2_upper(a.0[5])
}

/// Reads a Bluetooth address with bluer (`bluer::Address::from_str`): the text is
/// split at `:` and every field read with `u8::from_str_radix(_, 16)`; there must be
/// exactly six fields.
#[verifier::external_body]
fn bluer_parse_address(text: &str) -> (res: Option<Address>)
    ensures
        match res {
            Some(a) => address_of_text(text@) == Some(a.0@),
            None => address_of_text(text@) is None,
        },
{
    match <bluer::Address as std::str::FromStr>::from_str(text) {
        Ok(a) => Some(Address(a.0)),
        Err(_) => None,
    }
}

/// Writes a Bluetooth address with bluer (`Display` of `bluer::Address`): six
/// uppercase two-digit hexadecimal bytes separated by `:`.
#[verifier::external_body]
fn bluer_address_text(a: Address) -> (res: String)
    ensures
        res@ == address_text(a),
{
    bluer::Address(a.0).to_string()
}

impl Address {
    /// Reads an address written as six `:`-separated bytes in base 16.
    pub fn parse(text: &str) -> (res: Option<Address>)
        ensures
            match res {
                Some(a) => address_of_text(text@) == Some(a.0@),
                None => address_of_text(text@) is None,
            },
    {
        bluer_parse_address(text)
    }

    /// The usual text of the address (`AA:BB:CC:DD:EE:FF`).
    pub fn to_text(&self) -> (res: String)
        ensures
            res@ == address_text(*self),
    {
        bluer_address_text(*self)
    }
}

/// An uppercase hexadecimal digit reads back as its value.
proof fn lemma_hex_upper_digit(d: nat)
    requires
        d < 16,
    ensures
        hex_digit_value(hex_upper_char(d)) == Some(d),
{
}

/// Two uppercase hexadecimal digits of a byte read back as the byte.
pub proof fn lemma_hex2_byte(b: u8)
    ensures
        radix16_byte(hex2_upper(b)) == Some(b),
        !hex2_upper(b).contains(':'),
{
    let hi = (b / 16) as nat;
    let lo = (b % 16) as nat;
    lemma_hex_upper_digit(hi);
    lemma_hex_upper_digit(lo);
    let h = hex2_upper(b);
    assert(h.drop_last() =~= seq![hex_upper_char(hi)]);
    assert(seq![hex_upper_char(hi)].drop_last() =~= Seq::<char>::empty());
    assert(hex_number(Seq::<char>::empty()) == Some(0nat));
    assert(hex_number(seq![hex_upper_char(hi)]) == Some(hi));
    assert(hex_number(h) == Some(hi * 16 + lo));
    assert(hi * 16 + lo == b);
    assert(h[0] != '+');
    if h.contains(':') {
        let k = choose|k: int| 0 <= k < h.len() && h[k] == ':';
        assert(h[k] == hex_upper_char(hi) || h[k] == hex_upper_char(lo));
    }
}

/// An address's usual text reads back as that address: what one side writes with
/// `to_text`, the other reads with `parse`.
pub proof fn lemma_address_text_roundtrip(a: Address)
    ensures
        address_of_text(address_text(a)) == Some(a.0@),
{
    let h = |i: int| hex2_upper(a.0[i]);
    let e = Seq::<char>::empty();
    lemma_hex2_byte(a.0[0]);
    lemma_hex2_byte(a.0[1]);
    lemma_hex2_byte(a.0[2]);
    lemma_hex2_byte(a.0[3]);
    lemma_hex2_byte(a.0[4]);
    lemma_hex2_byte(a.0[5]);
    assert(split_on(e, ':') == seq![e]);
    lemma_split_on_append_plain(e, h(0), ':');
    assert(e + h(0) =~= h(0));
    assert(seq![e].update(0, e + h(0)) =~= seq![h(0)]);
    let t0 = h(0);
    assert(split_on(t0, ':') == seq![h(0)]);
    lemma_split_on_push_sep(t0, ':');
    let t1 = t0 + seq![':'];
    lemma_split_on_append_plain(t1, h(1), ':');
    assert(seq![h(0), e].update(1, e + h(1)) =~= seq![h(0), h(1)]);
    assert(e + h(1) =~= h(1));
    let u1 = t1 + h(1);
    assert(split_on(u1, ':') =~= seq![h(0), h(1)]);
    lemma_split_on_push_sep(u1, ':');
    let t2 = u1 + seq![':'];
    lemma_split_on_append_plain(t2, h(2), ':');
    assert(e + h(2) =~= h(2));
    let u2 = t2 + h(2);
    assert(split_on(u2, ':') =~= seq![h(0), h(1), h(2)]);
    lemma_split_on_push_sep(u2, ':');
    let t3 = u2 + seq![':'];
    lemma_split_on_append_plain(t3, h(3), ':');
    assert(e + h(3) =~= h(3));
    let u3 = t3 + h(3);
    assert(split_on(u3, ':') =~= seq![h(0), h(1), h(2), h(3)]);
    lemma_split_on_push_sep(u3, ':');
    let t4 = u3 + seq![':'];
    lemma_split_on_append_plain(t4, h(4), ':');
    assert(e + h(4) =~= h(4));
    let u4 = t4 + h(4);
    assert(split_on(u4, ':') =~= seq![h(0), h(1), h(2), h(3), h(4)]);
    lemma_split_on_push_sep(u4, ':');
    let t5 = u4 + seq![':'];
    lemma_split_on_append_plain(t5, h(5), ':');
    assert(e + h(5) =~= h(5));
    let u5 = t5 + h(5);
    let fields = seq![h(0), h(1), h(2), h(3), h(4), h(5)];
    assert(split_on(u5, ':') =~= fields);
    assert(u5 =~= address_text(a));
    assert(all_fields_bytes(fields));
    assert(fields.map_values(|f: Seq<char>| radix16_byte(f).unwrap()) =~= a.0@);
}

} // verus!
