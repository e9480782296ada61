use vstd::prelude::*;

verus! {

/// The name evdev's `Debug` gives a key code: its constant's name (`KEY_ESC`,
/// `BTN_LEFT`, ...) or `unknown key: <code>`.
pub uninterp spec fn evdev_key_debug_name(code: u16) -> Seq<char>;

/// The key code of an evdev constant's name (`KEY_ESC` is 1), if there is one.
pub uninterp spec fn evdev_code_of_name(name: Seq<char>) -> Option<u16>;

/// Whether a character is alphanumeric (`char::is_alphanumeric`: alphabetic or numeric
/// in Unicode).
pub uninterp spec fn char_is_alphanumeric(c: char) -> bool;

/// Whether a character is Unicode white space (`char::is_whitespace`): the code points
/// with the White_Space property.
pub open spec fn char_is_whitespace(c: char) -> bool {
    let v = c as u32;
    ||| 0x09 <= v <= 0x0D
    ||| v == 0x20
    ||| v == 0x85
    ||| v == 0xA0
    ||| v == 0x1680
    ||| 0x2000 <= v <= 0x200A
    ||| v == 0x2028
    ||| v == 0x2029
    ||| v == 0x202F
    ||| v == 0x205F
    ||| v == 0x3000
}

/// The `Debug` text of `evdev::KeyCode(code)`: the name of the first constant with that
/// code, or `unknown key: <code>`.
#[verifier::external_body]
fn evdev_debug_name(code: u16) -> (res: String)
    ensures
        res@ == evdev_key_debug_name(code),
{
    format!("{:?}", evdev::KeyCode::new(code))
}

/// Looks a constant's name up in evdev's key table (`KeyCode::from_str`).
#[verifier::external_body]
fn evdev_code_from_name(name: &str) -> (res: Option<u16>)
    ensures
        res == evdev_code_of_name(name@),
{
    match <evdev::KeyCode as std::str::FromStr>::from_str(name) {
        Ok(code) => Some(code.code()),
        Err(_) => None,
    }
}

/// `char::is_alphanumeric`.
#[verifier::external_body]
pub(crate) fn is_alphanumeric(c: char) -> (res: bool)
    ensures
        res == char_is_alphanumeric(c),
{
    c.is_alphanumeric()
}

/// Whether a character is Unicode white space, as `char::is_whitespace` decides.
pub(crate) fn is_whitespace(c: char) -> (res: bool)
    ensures
        res == char_is_whitespace(c),
{
    let v = c as u32;
    (0x09 <= v && v <= 0x0D) || v == 0x20 || v == 0x85 || v == 0xA0 || v == 0x1680 || (0x2000 <= v && v <= 0x200A)
        || v == 0x2028 || v == 0x2029 || v == 0x202F || v == 0x205F || v == 0x3000
}

/// The key name of a code: its evdev `KEY_` constant's name without the prefix; codes
/// with no `KEY_` constant (buttons, unknown codes) have none.
pub open spec fn key_name(code: u16) -> Option<Seq<char>> {
    let debug = evdev_key_debug_name(code);
    if debug.len() >= 4 && debug.take(4) == "KEY_"@ {
        Some(debug.skip(4))
    } else {
        None
    }
}

/// The code of a key name: the code of the evdev constant `KEY_<name>`.
pub open spec fn key_code(name: Seq<char>) -> Option<u16> {
    evdev_code_of_name("KEY_"@ + name)
}

/// The key name of an evdev key code (e.g. `ESC` for 1, `LEFTMETA` for 125).
pub fn evdev_keycode_to_name(code: u16) -> (res: Option<String>)
    ensures
        match res {
            Some(n) => key_name(code) == Some(n@),
            None => key_name(code) is None,
        },
{
    let debug = evdev_debug_name(code);
    let prefix = "KEY_";
    proof {
        reveal_strlit("KEY_");
    }
    let d = debug.as_str();
    let len = d.unicode_len();
    if len < 4 {
        return None;
    }
    let mut i: usize = 0;
    while i < 4
        invariant
            i <= 4,
            4 <= len,
            len == d@.len(),
            d@ == debug@,
            debug@ == evdev_key_debug_name(code),
            prefix@ == "KEY_"@,
            prefix@.len() == 4,
            forall|j: int| 0 <= j < i ==> d@[j] == prefix@[j],
        decreases 4 - i,
    {
        if d.get_char(i) != prefix.get_char(i) {
            assert(d@.take(4)[i as int] != "KEY_"@[i as int]);
            assert(debug@.take(4) != "KEY_"@);
            return None;
        }
        i = i + 1;
    }
    assert(d@.take(4) =~= "KEY_"@);
    let rest = d.substring_char(4, len);
    assert(rest@ =~= d@.skip(4));
    Some(String::from_str(rest))
}

/// The evdev key code of a key name (`ESC` gives 1).
pub fn name_to_evdev_keycode(name: &str) -> (res: Option<u16>)
    ensures
        res == key_code(name@),
{
    let mut full = String::from_str("KEY_");
    full.append(name);
    evdev_code_from_name(full.as_str())
}

} // verus!
