use vstd::prelude::*;

use crate::address::Address;

verus! {

/// Appends one character to a string (`String::push`).
#[verifier::external_body]
pub(crate) fn push_char(s: &mut String, c: char)
    ensures
        final(s)@ == old(s)@.push(c),
{
    s.push(c);
}

/// Appends a string slice to a string.
pub fn push_str(s: &mut String, t: &str)
    ensures
        final(s)@ == old(s)@ + t@,
{
    s.append(t);
}

/// The decimal digit for a value below 10.
pub open spec fn digit_char(d: nat) -> char {
    if d < 10 {
        ((d + 48) as u8) as char
    } else {
        '?'
    }
}

/// The lowercase hexadecimal digit for a value below 16.
pub open spec fn hex_lower_char(d: nat) -> char {
    if d < 10 {
        ((d + 48) as u8) as char
    } else if d < 16 {
        ((d - 10 + 97) as u8) as char
    } else {
        '?'
    }
}

/// The uppercase hexadecimal digit for a value below 16.
pub open spec fn hex_upper_char(d: nat) -> char {
    if d < 10 {
        ((d + 48) as u8) as char
    } else if d < 16 {
        ((d - 10 + 65) as u8) as char
    } else {
        '?'
    }
}

/// The decimal representation of a number, without leading zeros.
pub open spec fn decimal(n: nat) -> Seq<char>
    decreases n,
{
    if n < 10 {
        seq![digit_char(n)]
    } else {
        decimal(n / 10).push(digit_char(n % 10))
    }
}

/// Two lowercase hexadecimal digits of a byte (`{:02x}`).
pub open spec fn hex2_lower(b: u8) -> Seq<char> {
    seq![hex_lower_char((b / 16) as nat), hex_lower_char((b % 16) as nat)]
}

/// Two uppercase hexadecimal digits of a byte (`{:02X}`).
pub open spec fn hex2_upper(b: u8) -> Seq<char> {
    seq![hex_upper_char((b / 16) as nat), hex_upper_char((b % 16) as nat)]
}

fn digit(d: u8) -> (c: char)
    requires
        d < 10,
    ensures
        c == digit_char(d as nat),
{
    ((d + 48) as u8) as char
}

fn hex_lower_digit(d: u8) -> (c: char)
    requires
        d < 16,
    ensures
        c == hex_lower_char(d as nat),
{
    if d < 10 {
        (d + 48) as char
    } else {
        (d - 10 + 97) as char
    }
}

/// Appends the decimal representation of `n`.
pub fn push_decimal(s: &mut String, n: u64)
    ensures
        final(s)@ == old(s)@ + decimal(n as nat),
    decreases n,
{
    if n >= 10 {
        push_decimal(s, n / 10);
    }
    push_char(s, digit((n % 10) as u8));
    proof {
        if n >= 10 {
            assert(decimal(n as nat) == decimal((n / 10) as nat).push(digit_char((n % 10) as nat)));
        }
    }
}

/// Appends a byte as two lowercase hexadecimal digits.
pub fn push_hex_lower(s: &mut String, b: u8)
    ensures
        final(s)@ == old(s)@ + hex2_lower(b),
{
    push_char(s, hex_lower_digit(b / 16));
    push_char(s, hex_lower_digit(b % 16));
}

/// The bytes of an address as lowercase hexadecimal digits, with no separator.
pub open spec fn address_hex_lower(a: Address) -> Seq<char> {
    hex2_lower(a.0[0]) + hex2_lower(a.0[1]) + hex2_lower(a.0[2]) + hex2_lower(a.0[3]) + hex2_lower(a.0[4])
        + hex2_lower(a.0[5])
}

/// The D-Bus object path of a Bluetooth host's device object: the device folder
/// followed by the address's bytes in lowercase hexadecimal.
pub fn address_path(address: Address) -> (res: String)
    ensures
        res@ == "/us/colbystuff/Bluekey/devices/"@ + address_hex_lower(address),
{
    let mut path = String::from_str("/us/colbystuff/Bluekey/devices/");
    let bytes = address.0;
    let ghost start = path@;
    let mut i: usize = 0;
    while i < 6
        invariant
            i <= 6,
            bytes == address.0,
            path@ == start + address_hex_prefix(address, i as nat),
        decreases 6 - i,
    {
        push_hex_lower(&mut path, bytes[i]);
        i = i + 1;
    }
    assert(address_hex_prefix(address, 6) =~= address_hex_lower(address)) by {
        reveal_with_fuel(address_hex_prefix, 7);
    }
    path
}

/// The hexadecimal digits of the first `n` bytes of an address.
pub open spec fn address_hex_prefix(a: Address, n: nat) -> Seq<char>
    decreases n,
{
    if n == 0 {
        Seq::empty()
    } else {
        address_hex_prefix(a, (n - 1) as nat) + hex2_lower(a.0[n - 1])
    }
}

/// Writes parts one after the other into a text, with a separator between
/// consecutive parts (none before the first).
pub struct Group {
    seperator: String,
    stream: String,
    has_single: bool,
}

impl Group {
    /// The text written so far.
    pub closed spec fn text(&self) -> Seq<char> {
        self.stream@
    }

    /// The separator.
    pub closed spec fn separator(&self) -> Seq<char> {
        self.seperator@
    }

    /// Whether a part was started already.
    pub closed spec fn started(&self) -> bool {
        self.has_single
    }

    /// A group writing after `stream`, separating parts with `seperator`.
    pub fn new(stream: String, seperator: String) -> (res: Group)
        ensures
            res.text() == stream@,
            res.separator() == seperator@,
            !res.started(),
    {
        Group { seperator, stream, has_single: false }
    }

    /// Starts the next part: writes the separator unless this is the first part.
    /// Returns the text, to write the part into.
    pub fn next(&mut self) -> (res: &mut String)
        ensures
            res@ == old(self).text() + if old(self).started() {
                old(self).separator()
            } else {
                Seq::empty()
            },
            final(self).text() == final(res)@,
            final(self).separator() == old(self).separator(),
            final(self).started(),
    {
        if self.has_single {
            let sep = self.seperator.as_str();
            self.stream.append(sep);
        }
        self.has_single = true;
        &mut self.stream
    }

    /// The text written.
    pub fn into_text(self) -> (res: String)
        ensures
            res@ == self.text(),
    {
        self.stream
    }
}

/// Values that parts can be written after, separated by a separator.
pub trait Groupable: Sized {
    /// The text the group starts from.
    spec fn start_text(&self) -> Seq<char>;

    /// Writes parts after this value, separated by `seperator`.
    fn into_group(self, seperator: String) -> (res: Group)
        ensures
            res.text() == self.start_text(),
            res.separator() == seperator@,
            !res.started(),
    ;
}

impl Groupable for String {
    open spec fn start_text(&self) -> Seq<char> {
        self@
    }

    fn into_group(self, seperator: String) -> (res: Group) {
        Group::new(self, seperator)
    }
}

/// Parts joined with a separator between consecutive ones.
pub open spec fn joined(parts: Seq<Seq<char>>, sep: Seq<char>) -> Seq<char>
    decreases parts.len(),
{
    if parts.len() == 0 {
        Seq::empty()
    } else if parts.len() == 1 {
        parts[0]
    } else {
        joined(parts.drop_last(), sep) + sep + parts.last()
    }
}

/// The text of a group that started from `start` with separator `sep`, after one
/// `next` per part, each followed by writing the part: each `next` writes the separator
/// unless it starts the first part.
pub open spec fn group_text_after(start: Seq<char>, sep: Seq<char>, parts: Seq<Seq<char>>) -> Seq<char>
    decreases parts.len(),
{
    if parts.len() == 0 {
        start
    } else {
        let before = group_text_after(start, sep, parts.drop_last());
        before + (if parts.len() > 1 {
            sep
        } else {
            Seq::<char>::empty()
        }) + parts.last()
    }
}

/// A group writes its parts joined by the separator: after the parts, the text is the
/// starting text followed by the parts with the separator between consecutive ones,
/// never before the first nor after the last.
pub proof fn lemma_group_joins_parts(start: Seq<char>, sep: Seq<char>, parts: Seq<Seq<char>>)
    ensures
        group_text_after(start, sep, parts) == start + joined(parts, sep),
    decreases parts.len(),
{
    if parts.len() == 0 {
        assert(start + Seq::<char>::empty() =~= start);
    } else if parts.len() == 1 {
        assert(parts.drop_last().len() == 0);
        assert(group_text_after(start, sep, parts.drop_last()) == start);
        assert(parts.last() == parts[0]);
        assert(start + Seq::<char>::empty() + parts.last() =~= start + parts[0]);
    } else {
        lemma_group_joins_parts(start, sep, parts.drop_last());
        assert(start + joined(parts.drop_last(), sep) + sep + parts.last() =~= start + (joined(
            parts.drop_last(),
            sep,
        ) + sep + parts.last()));
    }
}

/// One part written through a group: `next` on `before`, then `part` written into the
/// text it gives, leave `after`.
pub open spec fn group_step(before: Group, after: Group, part: Seq<char>) -> bool {
    &&& after.text() == before.text() + (if before.started() {
        before.separator()
    } else {
        Seq::<char>::empty()
    }) + part
    &&& after.separator() == before.separator()
    &&& after.started()
}

/// Writing parts through a group, one `next` and one write per part, gives the starting
/// text followed by the parts joined by the separator: the separator stands between
/// consecutive parts only, never before the first nor after the last.
pub proof fn lemma_group_calls(groups: Seq<Group>, parts: Seq<Seq<char>>)
    requires
        groups.len() == parts.len() + 1,
        !groups[0].started(),
        forall|i: int| 0 <= i < parts.len() ==> group_step(groups[i], groups[i + 1], #[trigger] parts[i]),
    ensures
        groups.last().text() == group_text_after(groups[0].text(), groups[0].separator(), parts),
        groups.last().text() == groups[0].text() + joined(parts, groups[0].separator()),
{
    lemma_group_calls_upto(groups, parts, parts.len() as int);
    assert(parts.take(parts.len() as int) =~= parts);
    lemma_group_joins_parts(groups[0].text(), groups[0].separator(), parts);
}

/// After the first `k` parts, the group's text is `group_text_after` of them.
proof fn lemma_group_calls_upto(groups: Seq<Group>, parts: Seq<Seq<char>>, k: int)
    requires
        groups.len() == parts.len() + 1,
        !groups[0].started(),
        forall|i: int| 0 <= i < parts.len() ==> group_step(groups[i], groups[i + 1], #[trigger] parts[i]),
        0 <= k <= parts.len(),
    ensures
        groups[k].text() == group_text_after(groups[0].text(), groups[0].separator(), parts.take(k)),
        groups[k].separator() == groups[0].separator(),
        groups[k].started() == (k > 0),
    decreases k,
{
    let start = groups[0].text();
    let sep = groups[0].separator();
    if k == 0 {
        assert(parts.take(0).len() == 0);
    } else {
        lemma_group_calls_upto(groups, parts, k - 1);
        assert(group_step(groups[k - 1], groups[k], parts[k - 1]));
        let t = parts.take(k);
        assert(t.drop_last() =~= parts.take(k - 1));
        assert(t.last() == parts[k - 1]);
    }
}

/// An ANSI styling: escape text written before and after what it styles.
#[derive(Clone, Copy)]
pub struct AnsiFormat<'a> {
    enter: &'a str,
    exit: &'a str,
}

/// Text wrapped in an ANSI styling.
pub struct AnsiWrap<'a> {
    format: AnsiFormat<'a>,
    body: &'a str,
}

impl<'a> AnsiFormat<'a> {
    /// The sequence written before styled text.
    pub closed spec fn enter_text(&self) -> Seq<char> {
        self.enter@
    }

    /// The sequence written after styled text.
    pub closed spec fn exit_text(&self) -> Seq<char> {
        self.exit@
    }

    /// A styling that writes `enter` before and `exit` after what it styles.
    pub fn new(enter: &'a str, exit: &'a str) -> (res: AnsiFormat<'a>)
        ensures
            res.enter_text() == enter@,
            res.exit_text() == exit@,
    {
        AnsiFormat { enter, exit }
    }

    /// Applies the styling to `what`.
    pub fn wrap(self, what: &'a str) -> (res: AnsiWrap<'a>)
        ensures
            res.text() == self.enter_text() + what@ + self.exit_text(),
    {
        AnsiWrap { format: self, body: what }
    }
}

impl<'a> AnsiWrap<'a> {
    /// The styled text as it is written.
    pub closed spec fn text(&self) -> Seq<char> {
        self.format.enter@ + self.body@ + self.format.exit@
    }

    /// Writes the styled text.
    pub fn render(&self) -> (res: String)
        ensures
            res@ == self.text(),
    {
        let mut s = String::from_str(self.format.enter);
        s.append(self.body);
        s.append(self.format.exit);
        s
    }
}

/// The pieces of a text between occurrences of a separator character, as
/// `str::split` with a one-character pattern gives them: empty pieces included,
/// and always at least one piece.
pub open spec fn split_on(s: Seq<char>, sep: char) -> Seq<Seq<char>>
    decreases s.len(),
{
    if s.len() == 0 {
        seq![Seq::<char>::empty()]
    } else {
        let prev = split_on(s.drop_last(), sep);
        if s.last() == sep {
            prev.push(Seq::<char>::empty())
        } else {
            prev.update(prev.len() - 1, prev.last().push(s.last()))
        }
    }
}

/// Splitting a text that ends with the separator gives one more, empty, piece.
pub proof fn lemma_split_on_push_sep(s: Seq<char>, sep: char)
    ensures
        split_on(s + seq![sep], sep) == split_on(s, sep).push(Seq::<char>::empty()),
{
    assert((s + seq![sep]).drop_last() =~= s);
}

/// Appending text without the separator extends the last piece.
pub proof fn lemma_split_on_append_plain(s: Seq<char>, t: Seq<char>, sep: char)
    requires
        !t.contains(sep),
    ensures
        ({
            let prev = split_on(s, sep);
            split_on(s + t, sep) == prev.update(prev.len() - 1, prev.last() + t)
        }),
    decreases t.len(),
{
    lemma_split_on_nonempty(s, sep);
    let prev = split_on(s, sep);
    if t.len() == 0 {
        assert(s + t =~= s);
        assert(prev.last() + t =~= prev.last());
        assert(prev.update(prev.len() - 1, prev.last() + t) =~= prev);
    } else {
        let t0 = t.drop_last();
        assert(!t0.contains(sep)) by {
            if t0.contains(sep) {
                let k = choose|k: int| 0 <= k < t0.len() && t0[k] == sep;
                assert(t[k] == sep);
            }
        }
        lemma_split_on_append_plain(s, t0, sep);
        assert((s + t).drop_last() =~= s + t0);
        assert((s + t).last() == t.last());
        assert(t.last() != sep) by {
            assert(t[t.len() - 1] == t.last());
        }
        let mid = split_on(s + t0, sep);
        assert(mid == prev.update(prev.len() - 1, prev.last() + t0));
        assert(mid.last() == prev.last() + t0);
        assert(mid.last().push(t.last()) =~= prev.last() + t);
        assert(mid.update(mid.len() - 1, mid.last().push(t.last())) =~= prev.update(prev.len() - 1, prev.last() + t));
    }
}

/// `split_on` always gives at least one piece.
pub proof fn lemma_split_on_nonempty(s: Seq<char>, sep: char)
    ensures
        split_on(s, sep).len() >= 1,
    decreases s.len(),
{
    if s.len() > 0 {
        lemma_split_on_nonempty(s.drop_last(), sep);
    }
}

} // verus!
