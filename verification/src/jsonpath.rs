//! The `--jsonpath` of `canvas debug`: a dotted path into the JSON answer,
//! whose numeric parts index arrays and whose other parts name fields, and
//! the JSON values that it walks.
use crate::text::{parse_unsigned, parse_usize_str, split_seq, split_str, str_eq};
use vstd::prelude::*;

verus! {

/// One step of a path.
#[derive(Debug, Clone, PartialEq, Eq)]
pub enum PathStep {
    Index(usize),
    Key(String),
}

pub enum StepView {
    Index(int),
    Key(Seq<char>),
}

impl View for PathStep {
    type V = StepView;

    open spec fn view(&self) -> StepView {
        match self {
            PathStep::Index(i) => StepView::Index(*i as int),
            PathStep::Key(k) => StepView::Key(k@),
        }
    }
}

pub open spec fn step_views(s: Seq<PathStep>) -> Seq<StepView> {
    s.map_values(|p: PathStep| p@)
}

/// The steps that the dot-separated parts stand for: empty parts are
/// skipped, a part that reads as a `usize` is an index, any other a key.
pub open spec fn steps_of(parts: Seq<Seq<char>>) -> Seq<StepView>
    decreases parts.len(),
{
    if parts.len() == 0 {
        Seq::empty()
    } else {
        let prev = steps_of(parts.drop_last());
        let p = parts.last();
        if p.len() == 0 {
            prev
        } else {
            prev.push(
                match parse_unsigned(p, usize::MAX as int) {
                    Some(n) => StepView::Index(n),
                    None => StepView::Key(p),
                },
            )
        }
    }
}

/// The steps of a path.
pub open spec fn path_steps(path: Seq<char>) -> Seq<StepView> {
    steps_of(split_seq(path, "."@))
}

/// Splits a path into its steps.
pub fn jsonpath_steps(path: &str) -> (r: Vec<PathStep>)
    ensures
        step_views(r@) == path_steps(path@),
{
    proof {
        reveal_strlit(".");
    }
    let parts = split_str(path, ".");
    let ghost pv = split_seq(path@, "."@);
    let mut steps: Vec<PathStep> = Vec::new();
    let mut i: usize = 0;
    assert(pv.take(0) =~= Seq::<Seq<char>>::empty());
    assert(step_views(steps@) =~= Seq::<StepView>::empty());
    while i < parts.len()
        invariant
            i <= parts@.len(),
            parts@.len() == pv.len(),
            pv == split_seq(path@, "."@),
            forall|k: int| 0 <= k < parts@.len() ==> #[trigger] parts@[k]@ == pv[k],
            step_views(steps@) == steps_of(pv.take(i as int)),
        decreases parts@.len() - i,
    {
        let ghost pre = pv.take(i + 1);
        assert(pre.drop_last() =~= pv.take(i as int));
        assert(pre.last() == parts@[i as int]@);
        let part = parts[i].as_str();
        if !part.is_empty() {
            let step = match parse_usize_str(part) {
                Some(n) => PathStep::Index(n),
                None => PathStep::Key(crate::text::owned(part)),
            };
            let ghost before = steps@;
            steps.push(step);
            assert(step_views(steps@) =~= step_views(before).push(step@));
        }
        i = i + 1;
    }
    assert(pv.take(i as int) =~= pv);
    steps
}

/// A JSON number as it was written: a non-negative integer, a negative
/// integer, or any other number carried by the bits of its `f64`.
#[derive(Debug, Clone, Copy, PartialEq, Eq)]
pub enum JsonNumber {
    PosInt(u64),
    NegInt(i64),
    FloatBits(u64),
}

/// A JSON value. An object keeps its fields in order, each key once.
#[derive(Debug, PartialEq)]
pub enum Json {
    Null,
    Bool(bool),
    Number(JsonNumber),
    Str(String),
    Array(Vec<Json>),
    Object(Vec<(String, Json)>),
}

/// The value of the first field named `key`, if there is one.
pub open spec fn field_value(fields: Seq<(String, Json)>, key: Seq<char>) -> Option<Json>
    decreases fields.len(),
{
    if fields.len() == 0 {
        None
    } else if fields[0].0@ == key {
        Some(fields[0].1)
    } else {
        field_value(fields.drop_first(), key)
    }
}

/// What one step finds in a value: an index step the element of an array,
/// a key step the field of an object; nothing in any other case.
pub open spec fn json_step(v: Json, step: StepView) -> Option<Json> {
    match step {
        StepView::Index(i) => match v {
            Json::Array(items) => if 0 <= i < items@.len() {
                Some(items@[i])
            } else {
                None
            },
            _ => None,
        },
        StepView::Key(k) => match v {
            Json::Object(fields) => field_value(fields@, k),
            _ => None,
        },
    }
}

/// The value that the steps reach from `v`, one after the other; `None`
/// from the first step that finds nothing.
pub open spec fn json_at(v: Json, steps: Seq<StepView>) -> Option<Json>
    decreases steps.len(),
{
    if steps.len() == 0 {
        Some(v)
    } else {
        match json_step(v, steps[0]) {
            Some(next) => json_at(next, steps.drop_first()),
            None => None,
        }
    }
}

/// The value of the first field named `key`.
fn find_field<'a>(fields: &'a Vec<(String, Json)>, key: &str) -> (r: Option<&'a Json>)
    ensures
        match r {
            Some(x) => field_value(fields@, key@) == Some(*x),
            None => field_value(fields@, key@) is None,
        },
{
    let mut j: usize = 0;
    assert(fields@.skip(0) =~= fields@);
    while j < fields.len()
        invariant
            j <= fields@.len(),
            field_value(fields@, key@) == field_value(fields@.skip(j as int), key@),
        decreases fields@.len() - j,
    {
        assert(fields@.skip(j as int)[0] == fields@[j as int]);
        assert(fields@.skip(j as int).drop_first() =~= fields@.skip(j + 1));
        if str_eq(fields[j].0.as_str(), key) {
            return Some(&fields[j].1);
        }
        j = j + 1;
    }
    None
}

/// What one step finds in a value.
fn step_into<'a>(v: &'a Json, step: &PathStep) -> (r: Option<&'a Json>)
    ensures
        match r {
            Some(x) => json_step(*v, step@) == Some(*x),
            None => json_step(*v, step@) is None,
        },
{
    match step {
        PathStep::Index(n) => match v {
            Json::Array(items) => if *n < items.len() {
                Some(&items[*n])
            } else {
                None
            },
            _ => None,
        },
        PathStep::Key(k) => match v {
            Json::Object(fields) => find_field(fields, k.as_str()),
            _ => None,
        },
    }
}

/// Follows a dotted path into a JSON value, step by step: the value that the
/// path's steps reach, or `None` from the first step that finds nothing. A
/// path without steps gives the value itself.
pub fn value_at_jsonpath<'a>(value: &'a Json, path: &str) -> (r: Option<&'a Json>)
    ensures
        match r {
            Some(x) => json_at(*value, path_steps(path@)) == Some(*x),
            None => json_at(*value, path_steps(path@)) is None,
        },
{
    let steps = jsonpath_steps(path);
    let ghost all = step_views(steps@);
    assert(all.len() == steps@.len());
    let mut cursor: &'a Json = value;
    let mut i: usize = 0;
    assert(all.skip(0) =~= all);
    while i < steps.len()
        invariant
            i <= steps@.len(),
            all == step_views(steps@),
            all == path_steps(path@),
            all.len() == steps@.len(),
            json_at(*value, all) == json_at(*cursor, all.skip(i as int)),
        decreases steps@.len() - i,
    {
        assert(all.skip(i as int)[0] == steps@[i as int]@);
        assert(all.skip(i as int).drop_first() =~= all.skip(i + 1));
        match step_into(cursor, &steps[i]) {
            Some(v) => {
                cursor = v;
            },
            None => {
                return None;
            },
        }
        i = i + 1;
    }
    assert(all.skip(i as int).len() == 0);
    Some(cursor)
}

} // verus!
