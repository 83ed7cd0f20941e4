//! Text: the notions that contracts speak of, the operations of the standard
//! library whose contracts are taken on trust, and joining with a separator.

use vstd::prelude::*;

verus! {

/// The character sequences of a list of strings, in order.
pub open spec fn texts(v: Seq<String>) -> Seq<Seq<char>> {
    v.map_values(|s: String| s@)
}

/// Whether `needle` occurs in `hay` as a run of consecutive characters.
pub open spec fn occurs_in(needle: Seq<char>, hay: Seq<char>) -> bool {
    exists|i: int|
        0 <= i && i + needle.len() <= hay.len() && #[trigger] hay.subrange(
            i,
            i + needle.len(),
        ) == needle
}

/// The lowercase form of a text, as `str::to_lowercase` computes it.
pub uninterp spec fn lowercase(s: Seq<char>) -> Seq<char>;

/// The value of a decimal digit, if the character is one of `0` to `9`.
pub open spec fn digit_value(c: char) -> Option<nat> {
    if '0' <= c && c <= '9' {
        Some((c as u32 - '0' as u32) as nat)
    } else {
        None
    }
}

/// The number that a run of decimal digits writes.
pub open spec fn digits_value(s: Seq<char>) -> nat
    decreases s.len(),
{
    if s.len() == 0 {
        0
    } else {
        digits_value(s.drop_last()) * 10 + digit_value(s.last()).unwrap()
    }
}

/// Whether every character is a decimal digit.
pub open spec fn all_digits(s: Seq<char>) -> bool {
    forall|i: int| 0 <= i < s.len() ==> digit_value(#[trigger] s[i]).is_some()
}

/// The text without a leading `+` sign.
pub open spec fn unsigned_part(s: Seq<char>) -> Seq<char> {
    if s.len() > 0 && s[0] == '+' {
        s.drop_first()
    } else {
        s
    }
}

/// What a text reads as an unsigned 32-bit number: an optional `+`, then one
/// or more decimal digits that write a number within range.
pub open spec fn reads_as_u32(s: Seq<char>) -> Option<u32> {
    let digits = unsigned_part(s);
    if digits.len() > 0 && all_digits(digits) && digits_value(digits) <= u32::MAX {
        Some(digits_value(digits) as u32)
    } else {
        None
    }
}

/// The parts written one after the other with `sep` between neighbours.
pub open spec fn join_with(parts: Seq<Seq<char>>, sep: Seq<char>) -> Seq<char>
    decreases parts.len(),
{
    if parts.len() == 0 {
        Seq::empty()
    } else if parts.len() == 1 {
        parts[0]
    } else {
        join_with(parts.drop_last(), sep) + sep + parts.last()
    }
}

/// `String::push` appends one character.
pub assume_specification[ String::push ](s: &mut String, c: char)
    ensures
        final(s)@ == old(s)@.push(c),
;

/// `String::push_str` appends a text.
pub assume_specification[ String::push_str ](s: &mut String, tail: &str)
    ensures
        final(s)@ == old(s)@ + tail@,
;

/// `str::to_lowercase` gives the lowercase form of a text. The mapping is
/// Unicode's and is not written out here: the result is known by name only.
pub assume_specification[ str::to_lowercase ](s: &str) -> (lower: String)
    ensures
        lower@ == lowercase(s@),
;

/// Calls `str::contains` with a text as the pattern.
///
/// Trusted: the call tells whether the pattern matches a part of the text,
/// which for a text pattern is whether it occurs in it.
#[verifier::external_body]
pub(crate) fn contains_text(hay: &str, needle: &str) -> (found: bool)
    ensures
        found == occurs_in(needle@, hay@),
{
    hay.contains(needle)
}

/// Calls `str::parse` for `u32`.
///
/// Trusted: the text is read as the standard library documents it for the
/// unsigned integer types: an optional `+` sign followed by decimal digits
/// only, with an error for an empty text, any other character, or a number
/// out of range.
#[verifier::external_body]
pub(crate) fn parse_u32(s: &str) -> (n: Option<u32>)
    ensures
        n == reads_as_u32(s@),
{
    match s.parse::<u32>() {
        Ok(n) => Some(n),
        Err(_) => None,
    }
}

/// Writes the texts one after the other with `sep` between neighbours.
pub fn join_texts(parts: &Vec<String>, sep: &str) -> (text: String)
    ensures
        text@ == join_with(texts(parts@), sep@),
{
    let ghost all = texts(parts@);
    let mut text = String::new();
    let mut i: usize = 0;
    assert(join_with(all.take(0), sep@) =~= Seq::<char>::empty());
    while i < parts.len()
        invariant
            i <= parts.len(),
            all == texts(parts@),
            text@ == join_with(all.take(i as int), sep@),
        decreases parts.len() - i,
    {
        proof {
            let after = all.take(i + 1);
            assert(after.drop_last() =~= all.take(i as int));
            assert(after.last() == parts@[i as int]@);
            assert(Seq::<char>::empty() + parts@[i as int]@ =~= parts@[i as int]@);
        }
        if i > 0 {
            text.push_str(sep);
        }
        text.push_str(parts[i].as_str());
        i += 1;
    }
    assert(all.take(i as int) =~= all);
    text
}

} // verus!
