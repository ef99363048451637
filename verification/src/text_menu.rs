//! The copy, cut and paste entries of a text node's context menu, which act
//! on a range of characters of the node's text.
use crate::text::{chars_of, push_char, push_str};
use vstd::prelude::*;

verus! {

/// A character position, moved back to the end of a text of `n` characters.
pub open spec fn clamped(i: usize, n: nat) -> int {
    if i < n {
        i as int
    } else {
        n as int
    }
}

/// The characters from `start` to `end`, both moved back into the text.
pub open spec fn range_text(s: Seq<char>, start: usize, end: usize) -> Seq<char> {
    s.subrange(clamped(start, s.len()), clamped(end, s.len()))
}

/// The text with the characters from `start` to `end` (both moved back
/// into the text) replaced by `with`.
pub open spec fn replaced_range(s: Seq<char>, start: usize, end: usize, with: Seq<char>) -> Seq<char> {
    s.subrange(0, clamped(start, s.len())) + with + s.subrange(clamped(end, s.len()), s.len() as int)
}

fn clamp_index(i: usize, n: usize) -> (r: usize)
    ensures
        r == clamped(i, n as nat),
{
    if i < n {
        i
    } else {
        n
    }
}

/// Appends the characters of `v` from `a` to `b`.
fn push_char_range(out: &mut String, v: &Vec<char>, a: usize, b: usize)
    requires
        a <= b <= v@.len(),
    ensures
        final(out)@ == old(out)@ + v@.subrange(a as int, b as int),
{
    let mut i: usize = a;
    while i < b
        invariant
            a <= i <= b,
            b <= v@.len(),
            out@ == old(out)@ + v@.subrange(a as int, i as int),
        decreases b - i,
    {
        push_char(out, v[i]);
        i = i + 1;
        assert(out@ =~= old(out)@ + v@.subrange(a as int, i as int));
    }
}

/// The selected text that "copy" puts on the clipboard: the characters from
/// `start` to `end` where `start < end`, else nothing.
pub fn copy_char_range(text: &str, start: usize, end: usize) -> (r: Option<String>)
    ensures
        start >= end ==> r is None,
        start < end ==> (r matches Some(t) && t@ == range_text(text@, start, end)),
{
    if start >= end {
        return None;
    }
    let v = chars_of(text);
    let a = clamp_index(start, v.len());
    let b = clamp_index(end, v.len());
    let mut out = String::new();
    proof {
        assert(out@ =~= Seq::<char>::empty());
    }
    push_char_range(&mut out, &v, a, b);
    assert(out@ =~= range_text(text@, start, end));
    Some(out)
}

/// "Cut": where `start < end`, takes the characters from `start` to `end`
/// out of the text and returns them; else leaves the text as it is.
pub fn cut_char_range(text: &mut String, start: usize, end: usize) -> (r: Option<String>)
    ensures
        start >= end ==> r is None && final(text)@ == old(text)@,
        start < end ==> {
            &&& r matches Some(t) && t@ == range_text(old(text)@, start, end)
            &&& final(text)@ == replaced_range(old(text)@, start, end, Seq::empty())
        },
{
    if start >= end {
        return None;
    }
    let v = chars_of(text.as_str());
    let a = clamp_index(start, v.len());
    let b = clamp_index(end, v.len());
    let mut cut = String::new();
    let mut rest = String::new();
    proof {
        assert(cut@ =~= Seq::<char>::empty());
        assert(rest@ =~= Seq::<char>::empty());
    }
    push_char_range(&mut cut, &v, a, b);
    push_char_range(&mut rest, &v, 0, a);
    push_char_range(&mut rest, &v, b, v.len());
    assert(cut@ =~= range_text(v@, start, end));
    assert(rest@ =~= replaced_range(v@, start, end, Seq::empty()));
    *text = rest;
    Some(cut)
}

/// "Paste": with a selection, replaces the characters from its start to its
/// end by the pasted text, where the start does not lie past the end (both
/// moved back into the text); without one, appends the pasted text. Says
/// whether the paste was made.
pub fn paste_into_char_range(text: &mut String, range: Option<(usize, usize)>, paste: &str) -> (r: bool)
    ensures
        match range {
            Some((start, end)) => if clamped(start, old(text)@.len()) <= clamped(end, old(text)@.len()) {
                r && final(text)@ == replaced_range(old(text)@, start, end, paste@)
            } else {
                !r && final(text)@ == old(text)@
            },
            None => r && final(text)@ == old(text)@ + paste@,
        },
{
    match range {
        None => {
            push_str(text, paste);
            true
        },
        Some((start, end)) => {
            let v = chars_of(text.as_str());
            let a = clamp_index(start, v.len());
            let b = clamp_index(end, v.len());
            if a > b {
                return false;
            }
            let mut out = String::new();
            proof {
                assert(out@ =~= Seq::<char>::empty());
            }
            push_char_range(&mut out, &v, 0, a);
            push_str(&mut out, paste);
            push_char_range(&mut out, &v, b, v.len());
            assert(out@ =~= replaced_range(v@, start, end, paste@));
            *text = out;
            true
        },
    }
}

} // verus!
