//! Variant names: how a procedure identifier becomes the tag of its variant.

use vstd::prelude::*;

verus! {

/// The separator between the segments of a procedure identifier.
pub open spec fn is_separator(c: char) -> bool {
    c == '_'
}

/// The upper-case form of an ASCII lower-case letter; any other character
/// stays as it is.
pub open spec fn upper_char(c: char) -> char {
    if 'a' <= c && c <= 'z' {
        ((c as u32) - 32) as char
    } else {
        c
    }
}

/// A segment with its first letter in upper case. The empty segment has no
/// first letter and stays empty.
pub open spec fn capitalized(s: Seq<char>) -> Seq<char> {
    if s.len() == 0 {
        s
    } else {
        s.update(0, upper_char(s[0]))
    }
}

/// The number of characters before the first separator of `s`.
pub open spec fn segment_len(s: Seq<char>) -> nat
    decreases s.len(),
{
    if s.len() == 0 || is_separator(s[0]) {
        0
    } else {
        1 + segment_len(s.skip(1))
    }
}

/// The variant name of a procedure identifier: the identifier is split at its
/// separators, each segment is capitalized, and the segments are joined
/// without the separators.
pub open spec fn variant_name_of(name: Seq<char>) -> Seq<char>
    decreases name.len(),
{
    let k = segment_len(name);
    if k >= name.len() {
        capitalized(name)
    } else {
        capitalized(name.take(k as int)) + variant_name_of(name.skip(k as int + 1))
    }
}

/// `char::to_ascii_uppercase` of std: maps the letters `a` to `z` to `A` to
/// `Z` and leaves every other character unchanged.
pub assume_specification[ char::to_ascii_uppercase ](c: &char) -> (r: char)
    ensures
        r == upper_char(*c),
;

/// `String::push` of std: appends one character to the end of the string.
pub assume_specification[ String::push ](s: &mut String, c: char)
    ensures
        final(s)@ == old(s)@.push(c),
;

/// Returns `s` with its first letter in upper case.
pub fn capitalize_first_letter(s: &str) -> (r: String)
    ensures
        r@ == capitalized(s@),
{
    let mut out = String::new();
    let mut first = true;
    for c in it: s.chars()
        invariant
            it.seq() == s@,
            first == (it.index() == 0),
            out@ == capitalized(s@.take(it.index() as int)),
    {
        if first {
            out.push(c.to_ascii_uppercase());
            first = false;
        } else {
            out.push(c);
        }
    }
    out
}

/// The first segment of `seg + rest` ends where `seg` ends and the first
/// segment of `rest` begins, when `seg` holds no separator.
pub proof fn lemma_segment_len_after_prefix(seg: Seq<char>, rest: Seq<char>)
    requires
        forall|i: int| 0 <= i < seg.len() ==> !is_separator(#[trigger] seg[i]),
    ensures
        segment_len(seg + rest) == seg.len() + segment_len(rest),
    decreases seg.len(),
{
    if seg.len() == 0 {
        assert(seg + rest =~= rest);
    } else {
        assert((seg + rest).skip(1) =~= seg.skip(1) + rest);
        assert((seg + rest)[0] == seg[0]);
        lemma_segment_len_after_prefix(seg.skip(1), rest);
    }
}

/// Returns the variant name of the procedure identifier `name`.
pub fn variant_name(name: &str) -> (r: String)
    ensures
        r@ == variant_name_of(name@),
{
    let mut out = String::new();
    let mut seg = String::new();
    proof {
        assert(seg@ + name@.skip(0) =~= name@);
        assert(out@ + variant_name_of(name@) =~= variant_name_of(name@));
    }
    for c in it: name.chars()
        invariant
            it.seq() == name@,
            forall|i: int| 0 <= i < seg@.len() ==> !is_separator(#[trigger] seg@[i]),
            variant_name_of(name@) == out@ + variant_name_of(
                seg@ + name@.skip(it.index() as int),
            ),
    {
        let ghost rest = name@.skip(it.index() as int);
        let ghost tail = name@.skip(it.index() as int + 1);
        assert(rest.len() > 0 && rest[0] == c && rest.skip(1) =~= tail);
        if c == '_' {
            proof {
                lemma_segment_len_after_prefix(seg@, rest);
                assert((seg@ + rest).take(seg@.len() as int) =~= seg@);
                assert((seg@ + rest).skip(seg@.len() as int + 1) =~= tail);
                assert(Seq::<char>::empty() + tail =~= tail);
            }
            let head = capitalize_first_letter(seg.as_str());
            out.append(head.as_str());
            seg = String::new();
        } else {
            proof {
                assert(seg@.push(c) + tail =~= seg@ + rest);
            }
            seg.push(c);
        }
    }
    proof {
        assert(seg@ + name@.skip(name@.len() as int) =~= seg@);
        lemma_segment_len_after_prefix(seg@, Seq::empty());
        assert(seg@ + Seq::<char>::empty() =~= seg@);
    }
    let head = capitalize_first_letter(seg.as_str());
    out.append(head.as_str());
    out
}

} // verus!
