//! Editing a queue as one text and committing that text unchanged gives the
//! queue back, for the queues where the separator cannot be misread.
use crate::queue::{queue_from_text, queue_separator, trimmed_nonempty};
use crate::text::{
    contains_seq, first_match_from, is_ws, join_seq, lemma_first_match_bounds, matches_at,
    split_from, split_seq, trim, trim_end, trim_start,
};
use vstd::prelude::*;

verus! {

/// A queue that its text gives back: each message is trimmed, not empty and
/// holds no separator, and each but the last does not end with the first
/// seven characters of the separator (the line breaks and the dashes).
pub open spec fn editable_queue(q: Seq<Seq<char>>) -> bool {
    &&& forall|i: int| 0 <= i < q.len() ==> (#[trigger] q[i]).len() > 0 && trim(q[i]) == q[i]
    &&& forall|i: int| 0 <= i < q.len() ==> !contains_seq(#[trigger] q[i], queue_separator())
    &&& forall|i: int| 0 <= i < q.len() - 1 ==> !ends_with_dashes(#[trigger] q[i])
}

/// The text ends with the separator's first seven characters.
pub open spec fn ends_with_dashes(m: Seq<char>) -> bool {
    m.len() >= 7 && m.subrange(m.len() - 7, m.len() as int) == queue_separator().subrange(0, 7)
}

proof fn lemma_trimmed_last(s: Seq<char>)
    requires
        s.len() > 0,
        trim(s) == s,
    ensures
        !is_ws(s.last()),
        !is_ws(s[0]),
{
    if is_ws(s.last()) {
        lemma_trim_end_shorter(trim_start(s));
        lemma_trim_start_shorter(s);
        if trim_start(s).len() == s.len() {
            assert(trim_start(s) == s) by {
                lemma_trim_start_same(s);
            }
        }
    }
    if is_ws(s[0]) {
        lemma_trim_start_shorter(s);
        lemma_trim_end_shorter(trim_start(s));
        assert(trim_start(s).len() < s.len()) by {
            assert(trim_start(s) == trim_start(s.drop_first()));
            lemma_trim_start_shorter(s.drop_first());
        }
    }
}

proof fn lemma_trim_start_shorter(s: Seq<char>)
    ensures
        trim_start(s).len() <= s.len(),
    decreases s.len(),
{
    if s.len() > 0 && is_ws(s[0]) {
        lemma_trim_start_shorter(s.drop_first());
    }
}

proof fn lemma_trim_start_same(s: Seq<char>)
    requires
        trim_start(s).len() == s.len(),
    ensures
        trim_start(s) == s,
    decreases s.len(),
{
    if s.len() > 0 && is_ws(s[0]) {
        lemma_trim_start_shorter(s.drop_first());
    }
}

proof fn lemma_trim_end_shorter(s: Seq<char>)
    ensures
        trim_end(s).len() <= s.len(),
        s.len() > 0 && is_ws(s.last()) ==> trim_end(s).len() < s.len(),
    decreases s.len(),
{
    if s.len() > 0 && is_ws(s.last()) {
        lemma_trim_end_shorter(s.drop_last());
    }
}

/// A join of two or more parts is the first part, the separator and the
/// join of the rest.
proof fn lemma_join_front(q: Seq<Seq<char>>, sep: Seq<char>)
    requires
        q.len() >= 2,
    ensures
        join_seq(q, sep) == q[0] + sep + join_seq(q.drop_first(), sep),
    decreases q.len(),
{
    if q.len() == 2 {
        assert(q.drop_last() =~= seq![q[0]]);
        assert(q.drop_first() =~= seq![q[1]]);
        assert(join_seq(q.drop_last(), sep) == q[0]);
    } else {
        lemma_join_front(q.drop_last(), sep);
        assert(q.drop_last().drop_first() =~= q.drop_first().drop_last());
        assert(q.drop_last()[0] == q[0]);
        assert(q.drop_first().last() == q.last());
        assert(join_seq(q.drop_first(), sep) == join_seq(q.drop_first().drop_last(), sep) + sep
            + q.drop_first().last());
        assert(q[0] + sep + join_seq(q.drop_first(), sep) =~= (q[0] + sep + join_seq(
            q.drop_last().drop_first(),
            sep,
        )) + sep + q.last());
    }
}

/// Searching from inside a suffix finds what searching the suffix finds.
proof fn lemma_first_match_shift(pre: Seq<char>, y: Seq<char>, p: Seq<char>, j: int)
    requires
        0 <= j <= y.len(),
    ensures
        first_match_from(pre + y, p, pre.len() + j) == (match first_match_from(y, p, j) {
            Some(k) => Some(k + pre.len()),
            None => None,
        }),
    decreases y.len() - j,
{
    let x = pre + y;
    let i = pre.len() + j;
    if i + p.len() > x.len() {
    } else {
        assert(x.subrange(i, i + p.len()) =~= y.subrange(j, j + p.len()));
        if matches_at(y, p, j) {
        } else if j >= y.len() {
        } else {
            lemma_first_match_shift(pre, y, p, j + 1);
        }
    }
}

/// Splitting from inside a suffix splits the suffix.
proof fn lemma_split_shift(pre: Seq<char>, y: Seq<char>, p: Seq<char>, j: int)
    requires
        0 <= j <= y.len(),
        p.len() > 0,
    ensures
        split_from(pre + y, p, pre.len() + j) == split_from(y, p, j),
    decreases y.len() - j,
{
    let x = pre + y;
    let i = pre.len() + j;
    lemma_first_match_shift(pre, y, p, j);
    lemma_first_match_bounds(y, p, j);
    match first_match_from(y, p, j) {
        Some(k) => {
            assert(x.subrange(i, k + pre.len()) =~= y.subrange(j, k));
            lemma_split_shift(pre, y, p, k + p.len());
        },
        None => {
            assert(x.subrange(i, x.len() as int) =~= y.subrange(j, y.len() as int));
        },
    }
}

/// No match of `p` starts before `k`, from `i` on.
proof fn lemma_first_match_at(s: Seq<char>, p: Seq<char>, i: int, k: int)
    requires
        0 <= i <= k,
        matches_at(s, p, k),
        forall|t: int| i <= t < k ==> !matches_at(s, p, t),
    ensures
        first_match_from(s, p, i) == Some(k),
    decreases k - i,
{
    if i < k {
        lemma_first_match_at(s, p, i + 1, k);
    }
}

proof fn lemma_no_match(s: Seq<char>, p: Seq<char>, i: int)
    requires
        0 <= i,
        forall|t: int| i <= t ==> !matches_at(s, p, t),
    ensures
        first_match_from(s, p, i) is None,
    decreases s.len() - i,
{
    if i + p.len() <= s.len() && i < s.len() {
        lemma_no_match(s, p, i + 1);
    }
}

/// In `a + sep + rest`, the separator after `a` is the first match, when `a`
/// is a message of an editable queue that is not the last.
proof fn lemma_joint_is_first(a: Seq<char>, rest: Seq<char>)
    requires
        a.len() > 0,
        trim(a) == a,
        !contains_seq(a, queue_separator()),
        !ends_with_dashes(a),
    ensures
        first_match_from(a + queue_separator() + rest, queue_separator(), 0) == Some(a.len() as int),
{
    let s = queue_separator();
    let x = a + s + rest;
    lemma_trimmed_last(a);
    assert(x.subrange(a.len() as int, a.len() as int + 9) =~= s);
    assert forall|t: int| 0 <= t < a.len() implies !matches_at(x, s, t) by {
        if matches_at(x, s, t) {
            if t + 9 <= a.len() {
                assert(a.subrange(t, t + 9) =~= x.subrange(t, t + 9));
                assert(matches_at(a, s, t));
            } else {
                let l = a.len() - t;
                assert(x.subrange(t, t + 9)[l] == x[a.len() as int]);
                assert(x[a.len() as int] == s[0]);
                assert(x.subrange(t, t + 9)[l] == s[l]);
                if l == 1 {
                    assert(x.subrange(t, t + 9)[2] == x[a.len() as int + 1]);
                    assert(x[a.len() as int + 1] == s[1]);
                } else if l == 8 {
                    assert(x.subrange(t, t + 9)[7] == a.last());
                } else if l == 7 {
                    assert(a.subrange(a.len() - 7, a.len() as int) =~= s.subrange(0, 7)) by {
                        assert forall|u: int| 0 <= u < 7 implies a.subrange(a.len() - 7, a.len() as int)[u]
                            == s.subrange(0, 7)[u] by {
                            assert(x.subrange(t, t + 9)[u] == a[t + u]);
                        }
                    }
                }
            }
        }
    }
    lemma_first_match_at(x, s, 0, a.len() as int);
}

/// Splitting the text of an editable queue with at least one message gives
/// the messages.
proof fn lemma_split_join(q: Seq<Seq<char>>)
    requires
        q.len() > 0,
        editable_queue(q),
    ensures
        split_seq(join_seq(q, queue_separator()), queue_separator()) == q,
    decreases q.len(),
{
    let s = queue_separator();
    if q.len() == 1 {
        let m = q[0];
        assert(join_seq(q, s) == m);
        assert forall|t: int| 0 <= t implies !matches_at(m, s, t) by {
            assert(!contains_seq(q[0], s));
        }
        lemma_no_match(m, s, 0);
        assert(m.subrange(0, m.len() as int) =~= m);
        assert(split_seq(m, s) =~= q);
    } else {
        lemma_join_front(q, s);
        let rest = join_seq(q.drop_first(), s);
        let x = q[0] + s + rest;
        assert(!ends_with_dashes(q[0]));
        lemma_joint_is_first(q[0], rest);
        assert(x.subrange(0, q[0].len() as int) =~= q[0]);
        lemma_split_shift(q[0] + s, rest, s, 0);
        assert((q[0] + s).len() == q[0].len() + 9);
        assert(editable_queue(q.drop_first())) by {
            assert forall|i: int| 0 <= i < q.drop_first().len() implies (#[trigger] q.drop_first()[i]).len() > 0
                && trim(q.drop_first()[i]) == q.drop_first()[i] by {
                assert(q.drop_first()[i] == q[i + 1]);
            }
            assert forall|i: int| 0 <= i < q.drop_first().len() implies !contains_seq(
                #[trigger] q.drop_first()[i],
                s,
            ) by {
                assert(q.drop_first()[i] == q[i + 1]);
            }
            assert forall|i: int| 0 <= i < q.drop_first().len() - 1 implies !ends_with_dashes(
                #[trigger] q.drop_first()[i],
            ) by {
                assert(q.drop_first()[i] == q[i + 1]);
            }
        }
        lemma_split_join(q.drop_first());
        assert(split_seq(x, s) =~= seq![q[0]] + q.drop_first());
        assert(seq![q[0]] + q.drop_first() =~= q);
    }
}

proof fn lemma_trimmed_nonempty_keeps(q: Seq<Seq<char>>)
    requires
        forall|i: int| 0 <= i < q.len() ==> (#[trigger] q[i]).len() > 0 && trim(q[i]) == q[i],
    ensures
        trimmed_nonempty(q) == q,
    decreases q.len(),
{
    if q.len() > 0 {
        assert forall|i: int| 0 <= i < q.drop_last().len() implies (#[trigger] q.drop_last()[i]).len() > 0
            && trim(q.drop_last()[i]) == q.drop_last()[i] by {
            assert(q.drop_last()[i] == q[i]);
        }
        lemma_trimmed_nonempty_keeps(q.drop_last());
        assert(q.drop_last().push(q.last()) =~= q);
        assert(trim(q.last()) == q.last());
    }
}

/// Opening the queue editor and committing its text unchanged leaves the
/// queue as it was, for every queue whose messages are trimmed and not
/// empty, hold no separator and, but for the last, do not end with the
/// separator's line breaks and dashes.
pub proof fn law_queue_text_roundtrip(q: Seq<Seq<char>>)
    requires
        editable_queue(q),
    ensures
        queue_from_text(join_seq(q, queue_separator())) == q,
{
    if q.len() == 0 {
        let e = Seq::<char>::empty();
        assert(join_seq(q, queue_separator()) == e);
        lemma_no_match(e, queue_separator(), 0);
        assert(e.subrange(0, 0) =~= e);
        assert(split_from(e, queue_separator(), 0) == seq![e.subrange(0, 0)]);
        assert(split_seq(e, queue_separator()) =~= seq![e]);
        assert(trimmed_nonempty(seq![e]).len() == 0) by {
            assert(seq![e].drop_last() =~= Seq::<Seq<char>>::empty());
            assert(trimmed_nonempty(Seq::<Seq<char>>::empty()).len() == 0);
            assert(seq![e].last() == e);
            assert(trim_start(e) == e);
            assert(trim_end(e) == e);
            assert(trim(e).len() == 0);
        }
        assert(queue_from_text(join_seq(q, queue_separator())) =~= q);
    } else {
        lemma_split_join(q);
        lemma_trimmed_nonempty_keeps(q);
    }
}

} // verus!
