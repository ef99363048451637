//! The search box of the canvas menus: which items match the typed text,
//! and the parts of an item's label to highlight.
use crate::text::{contains_seq, contains_str, copy_string, split_seq, split_str, trim, trim_str};
use vstd::prelude::*;

verus! {

/// `str::to_lowercase`: the Unicode lower case of a text.
pub uninterp spec fn text_lowercase(s: Seq<char>) -> Seq<char>;

/// Calls `str::to_lowercase`; what it gives is named `text_lowercase`.
#[verifier::external_body]
fn lowercase_of(s: &str) -> (r: String)
    ensures
        r@ == text_lowercase(s@),
{
    s.to_lowercase()
}

/// An item matches where the trimmed search text is empty or its lower case
/// occurs in the lower case of the label.
pub open spec fn item_matches(search: Seq<char>, label: Seq<char>) -> bool {
    trim(search).len() == 0 || contains_seq(text_lowercase(label), text_lowercase(trim(search)))
}

pub fn menu_item_matches(search: &str, label: &str) -> (r: bool)
    ensures
        r == item_matches(search@, label@),
{
    let kw = trim_str(search);
    if kw.as_str().is_empty() {
        return true;
    }
    let l = lowercase_of(label);
    let k = lowercase_of(kw.as_str());
    contains_str(l.as_str(), k.as_str())
}

/// The parts of a label to draw, each marked where it is an occurrence of
/// the keyword: the pieces between the occurrences found from the left (the
/// empty ones left out), with the keyword between each two.
pub open spec fn segments_of(parts: Seq<Seq<char>>, kw: Seq<char>) -> Seq<(Seq<char>, bool)>
    decreases parts.len(),
{
    if parts.len() == 0 {
        Seq::empty()
    } else {
        let before = segments_of(parts.drop_last(), kw);
        let with_kw = if parts.len() > 1 {
            before.push((kw, true))
        } else {
            before
        };
        if parts.last().len() > 0 {
            with_kw.push((parts.last(), false))
        } else {
            with_kw
        }
    }
}

/// The highlighted parts of a label for a search text: the whole label,
/// unmarked, where the trimmed search text is empty.
pub open spec fn highlight_segments(search: Seq<char>, label: Seq<char>) -> Seq<(Seq<char>, bool)> {
    if trim(search).len() == 0 {
        seq![(label, false)]
    } else {
        segments_of(split_seq(label, trim(search)), trim(search))
    }
}

pub open spec fn segment_views(s: Seq<(String, bool)>) -> Seq<(Seq<char>, bool)> {
    s.map_values(|x: (String, bool)| (x.0@, x.1))
}

/// Splits a label into the parts to draw plain and the parts to highlight.
pub fn menu_item_highlight_segments(search: &str, label: &str) -> (r: Vec<(String, bool)>)
    ensures
        segment_views(r@) == highlight_segments(search@, label@),
{
    let kw = trim_str(search);
    let mut out: Vec<(String, bool)> = Vec::new();
    if kw.as_str().is_empty() {
        out.push((crate::text::owned(label), false));
        assert(segment_views(out@) =~= seq![(label@, false)]);
        return out;
    }
    let parts = split_str(label, kw.as_str());
    let ghost ps = split_seq(label@, kw@);
    let mut i: usize = 0;
    assert(ps.take(0) =~= Seq::<Seq<char>>::empty());
    assert(segment_views(out@) =~= Seq::<(Seq<char>, bool)>::empty());
    while i < parts.len()
        invariant
            i <= parts@.len(),
            parts@.len() == ps.len(),
            ps == split_seq(label@, kw@),
            forall|k: int| 0 <= k < parts@.len() ==> #[trigger] parts@[k]@ == ps[k],
            segment_views(out@) == segments_of(ps.take(i as int), kw@),
        decreases parts@.len() - i,
    {
        let ghost pre = ps.take(i + 1);
        assert(pre.drop_last() =~= ps.take(i as int));
        assert(pre.last() == parts@[i as int]@);
        if i > 0 {
            let ghost b = out@;
            out.push((copy_string(&kw), true));
            assert(segment_views(out@) =~= segment_views(b).push((kw@, true)));
        }
        if !parts[i].as_str().is_empty() {
            let ghost b = out@;
            out.push((copy_string(&parts[i]), false));
            assert(segment_views(out@) =~= segment_views(b).push((parts@[i as int]@, false)));
        }
        i = i + 1;
    }
    assert(ps.take(i as int) =~= ps);
    out
}

} // verus!
