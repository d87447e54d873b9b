use vstd::prelude::*;
use vstd::utf8::{decode_utf8, valid_utf8};
use vstd::string::{StrSliceExecFns, StringExecFns};

verus! {

/// The characters with the Unicode `White_Space` property.
pub open spec fn is_white_space(c: char) -> bool {
    let v = c as u32;
    ||| 0x09 <= v <= 0x0D
    ||| v == 0x20
    ||| v == 0x85
    ||| v == 0xA0
    ||| v == 0x1680
    ||| 0x2000 <= v <= 0x200A
    ||| v == 0x2028
    ||| v == 0x2029
    ||| v == 0x202F
    ||| v == 0x205F
    ||| v == 0x3000
}

/// `s` without its leading white space.
pub open spec fn trim_start_spec(s: Seq<char>) -> Seq<char>
    decreases s.len(),
{
    if s.len() > 0 && is_white_space(s[0]) {
        trim_start_spec(s.drop_first())
    } else {
        s
    }
}

/// `s` without its trailing white space.
pub open spec fn trim_end_spec(s: Seq<char>) -> Seq<char>
    decreases s.len(),
{
    if s.len() > 0 && is_white_space(s.last()) {
        trim_end_spec(s.drop_last())
    } else {
        s
    }
}

/// `s` without leading and trailing white space.
pub open spec fn trim_spec(s: Seq<char>) -> Seq<char> {
    trim_end_spec(trim_start_spec(s))
}

/// The character is ASCII.
pub open spec fn is_ascii_char(c: char) -> bool {
    (c as u32) < 0x80
}

/// ASCII upper case: `a`-`z` become `A`-`Z`, every other character stays.
pub open spec fn ascii_upper(c: char) -> char {
    if 'a' <= c <= 'z' {
        ((c as u32) - 32) as char
    } else {
        c
    }
}

/// What `str::to_uppercase` makes of a string (the Unicode upper-case mapping).
pub uninterp spec fn str_uppercase(s: Seq<char>) -> Seq<char>;

/// The code unit is not half of a surrogate pair.
pub open spec fn is_non_surrogate(u: u16) -> bool {
    u < 0xD800 || u > 0xDFFF
}

/// The code unit is the first half of a surrogate pair.
pub open spec fn is_high_surrogate(u: u16) -> bool {
    0xD800 <= u <= 0xDBFF
}

/// The code unit is the second half of a surrogate pair.
pub open spec fn is_low_surrogate(u: u16) -> bool {
    0xDC00 <= u <= 0xDFFF
}

/// What `String::from_utf16_lossy` makes of UTF-16 code units: a high
/// surrogate followed by a low one is the character they encode together;
/// a surrogate on its own becomes U+FFFD; any other unit is the character
/// with its value.
pub open spec fn utf16_decode_lossy(units: Seq<u16>) -> Seq<char>
    decreases units.len(),
{
    if units.len() == 0 {
        Seq::empty()
    } else if units.len() >= 2 && is_high_surrogate(units[0]) && is_low_surrogate(units[1]) {
        seq![(0x10000 + (units[0] - 0xD800) * 0x400 + (units[1] - 0xDC00)) as char]
            + utf16_decode_lossy(units.subrange(2, units.len() as int))
    } else if is_non_surrogate(units[0]) {
        seq![units[0] as char] + utf16_decode_lossy(units.drop_first())
    } else {
        seq!['\u{FFFD}'] + utf16_decode_lossy(units.drop_first())
    }
}

/// Calls `String::from_utf8`, which succeeds exactly when the bytes are
/// valid UTF-8 and then holds the characters they encode.
#[verifier::external_body]
pub fn string_from_utf8(bytes: Vec<u8>) -> (r: Option<String>)
    ensures
        r is Some <==> valid_utf8(bytes@),
        r matches Some(s) ==> s@ == decode_utf8(bytes@),
{
    String::from_utf8(bytes).ok()
}

/// Calls `str::trim`, which removes leading and trailing characters with the
/// Unicode `White_Space` property.
#[verifier::external_body]
pub fn trim(s: &str) -> (r: &str)
    ensures
        r@ == trim_spec(s@),
{
    s.trim()
}

/// Calls `str::to_uppercase`. Its result is named; the contract also states
/// what the documentation gives: every character maps to one or more
/// characters, and an ASCII string maps character by character to ASCII upper
/// case. What it does with other characters (the Unicode tables) is not stated.
#[verifier::external_body]
pub fn to_uppercase(s: &str) -> (r: String)
    ensures
        r@ == str_uppercase(s@),
        s@.len() >= 1 ==> r@.len() >= 1,
        (forall|i: int| 0 <= i < s@.len() ==> is_ascii_char(#[trigger] s@[i])) ==> r@ == s@.map_values(
            |c: char| ascii_upper(c),
        ),
{
    s.to_uppercase()
}

/// Calls `String::from_utf16_lossy`, which decodes the code units as UTF-16
/// and puts U+FFFD for each surrogate that is not part of a pair (see
/// `utf16_decode_lossy`).
#[verifier::external_body]
pub fn utf16_lossy(units: &[u16]) -> (r: String)
    ensures
        r@ == utf16_decode_lossy(units@),
{
    String::from_utf16_lossy(units)
}

/// Calls `char::to_string`: the one-character string.
#[verifier::external_body]
pub fn char_to_string(c: char) -> (r: String)
    ensures
        r@ == seq![c],
{
    c.to_string()
}

/// The parts of `s` between occurrences of `sep`, as `str::split` gives
/// them: one more part than there are separators, empty parts included.
pub open spec fn split_spec(s: Seq<char>, sep: char) -> Seq<Seq<char>>
    decreases s.len(),
{
    if s.len() == 0 {
        seq![Seq::empty()]
    } else {
        let r = split_spec(s.drop_last(), sep);
        if s.last() == sep {
            r.push(Seq::empty())
        } else {
            r.update(r.len() - 1, r.last().push(s.last()))
        }
    }
}

/// A split has at least one part.
pub proof fn lemma_split_nonempty(s: Seq<char>, sep: char)
    ensures
        split_spec(s, sep).len() >= 1,
    decreases s.len(),
{
    if s.len() > 0 {
        lemma_split_nonempty(s.drop_last(), sep);
    }
}

/// The characters of each string.
pub open spec fn strings_view(v: Seq<String>) -> Seq<Seq<char>> {
    v.map_values(|p: String| p@)
}

/// Splits `path` at each `sep`, as `str::split` does.
pub fn split_str(path: &str, sep: char) -> (r: Vec<String>)
    ensures
        strings_view(r@) == split_spec(path@, sep),
{
    let len = path.unicode_len();
    let mut parts: Vec<String> = Vec::new();
    let mut current = String::new();
    let mut index: usize = 0;
    while index < len
        invariant
            len == path@.len(),
            index <= len,
            strings_view(parts@).push(current@) == split_spec(path@.take(index as int), sep),
        decreases len - index,
    {
        let c = path.get_char(index);
        proof {
            assert(path@.take(index + 1).drop_last() =~= path@.take(index as int));
            assert(path@.take(index + 1).last() == c);
            lemma_split_nonempty(path@.take(index as int), sep);
        }
        if c == sep {
            let ghost old_parts = parts@;
            let finished = current;
            parts.push(finished);
            current = String::new();
            proof {
                assert(strings_view(parts@) =~= strings_view(old_parts).push(finished@));
            }
        } else {
            let ghost old_current = current@;
            current.append(char_to_string(c).as_str());
            assert(current@ =~= old_current.push(c));
        }
        index = index + 1;
        proof {
            assert(strings_view(parts@).push(current@) =~= split_spec(path@.take(index as int), sep));
        }
    }
    let ghost old_parts = parts@;
    parts.push(current);
    proof {
        assert(path@.take(index as int) =~= path@);
        assert(strings_view(parts@) =~= strings_view(old_parts).push(current@));
    }
    parts
}

} // verus!
