//! Which dropped or pasted files become image nodes: the paths a pasted text
//! names, and the file types taken for images.
use crate::model::opt_view;
use crate::naming::opt_str_view;
use crate::text::{
    ascii_lowercase, has_prefix, lines_seq, lines_str, str_eq, strip_prefix, strip_prefix_str,
    to_ascii_lowercase_str, trim, trim_char, trim_char_str, trim_str, views,
};
use std::path::Path;
use vstd::prelude::*;

verus! {

/// The path a pasted line names: trimmed, without surrounding quotes, and
/// without a `file://` prefix.
pub open spec fn pasted_path(line: Seq<char>) -> Seq<char> {
    let t = trim_char(trim(line), '"');
    match strip_prefix(t, "file://"@) {
        Some(rest) => rest,
        None => t,
    }
}

pub open spec fn nonblank_line() -> spec_fn(Seq<char>) -> bool {
    |l: Seq<char>| trim(l).len() > 0
}

/// The paths a pasted text names: one per line that is not blank.
pub open spec fn pasted_paths(text: Seq<char>) -> Seq<Seq<char>> {
    lines_seq(text).filter(nonblank_line()).map_values(|l: Seq<char>| pasted_path(l))
}

/// Reads the paths a pasted text names.
pub fn parse_pasted_paths(text: &str) -> (r: Vec<String>)
    ensures
        views(r@) == pasted_paths(text@),
{
    let lines = lines_str(text);
    let ghost ls = lines_seq(text@);
    let ghost f = |l: Seq<char>| pasted_path(l);
    let mut out: Vec<String> = Vec::new();
    let mut i: usize = 0;
    while i < lines.len()
        invariant
            i <= lines@.len(),
            lines@.len() == ls.len(),
            forall|k: int| 0 <= k < lines@.len() ==> #[trigger] lines@[k]@ == ls[k],
            f == (|l: Seq<char>| pasted_path(l)),
            views(out@) == ls.take(i as int).filter(nonblank_line()).map_values(f),
        decreases lines@.len() - i,
    {
        proof {
            reveal_with_fuel(Seq::<_>::filter, 1);
            assert(ls.take(i + 1).drop_last() =~= ls.take(i as int));
            assert(ls.take(i + 1).last() == lines@[i as int]@);
        }
        let t = trim_str(lines[i].as_str());
        if !t.as_str().is_empty() {
            let unquoted = trim_char_str(t.as_str(), '"');
            let path = match strip_prefix_str(unquoted.as_str(), "file://") {
                Some(rest) => rest,
                None => unquoted,
            };
            let ghost before = out@;
            out.push(path);
            proof {
                crate::text::lemma_views_push(before, path);
                assert(ls.take(i + 1).filter(nonblank_line()) =~= ls.take(i as int).filter(nonblank_line()).push(
                    ls[i as int],
                ));
                assert(views(out@) =~= ls.take(i + 1).filter(nonblank_line()).map_values(f));
            }
        } else {
            assert(ls.take(i + 1).filter(nonblank_line()) =~= ls.take(i as int).filter(nonblank_line()));
        }
        i = i + 1;
    }
    assert(ls.take(i as int) =~= ls);
    out
}

/// `Path::extension` of a path, read as text.
pub uninterp spec fn path_extension(path: Seq<char>) -> Option<Seq<char>>;

/// Calls `Path::extension` and reads the extension as text; what it gives is
/// named `path_extension`.
#[verifier::external_body]
fn extension_of(path: &str) -> (r: Option<String>)
    ensures
        opt_view(r) == path_extension(path@),
{
    match Path::new(path).extension() {
        Some(e) => Some(e.to_string_lossy().into_owned()),
        None => None,
    }
}

/// The extensions taken for images, in any ASCII case.
pub open spec fn image_extension(e: Seq<char>) -> bool {
    let l = ascii_lowercase(e);
    l == "png"@ || l == "jpg"@ || l == "jpeg"@ || l == "gif"@ || l == "webp"@ || l == "bmp"@
}

/// A path whose extension is one taken for images.
pub open spec fn supported_image_path(path: Seq<char>) -> bool {
    match path_extension(path) {
        Some(e) => image_extension(e),
        None => false,
    }
}

pub fn is_supported_image_path(path: &str) -> (r: bool)
    ensures
        r == supported_image_path(path@),
{
    match extension_of(path) {
        Some(e) => {
            let l = to_ascii_lowercase_str(e.as_str());
            let s = l.as_str();
            str_eq(s, "png") || str_eq(s, "jpg") || str_eq(s, "jpeg") || str_eq(s, "gif") || str_eq(
                s,
                "webp",
            ) || str_eq(s, "bmp")
        },
        None => false,
    }
}

/// A dropped file is an image where its MIME type starts with `image/`, or
/// else where its path (or, without one, its name) has an image extension.
pub open spec fn dropped_image(mime: Seq<char>, path: Option<Seq<char>>, name: Seq<char>) -> bool {
    if mime.len() > 0 && has_prefix(mime, "image/"@) {
        true
    } else {
        match path {
            Some(p) => supported_image_path(p),
            None => supported_image_path(name),
        }
    }
}

pub fn is_dropped_image_file(mime: &str, path: Option<&str>, name: &str) -> (r: bool)
    ensures
        r == dropped_image(mime@, opt_str_view(path), name@),
{
    if !mime.is_empty() && strip_prefix_str(mime, "image/").is_some() {
        return true;
    }
    match path {
        Some(p) => is_supported_image_path(p),
        None => is_supported_image_path(name),
    }
}

} // verus!
