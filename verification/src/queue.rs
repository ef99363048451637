//! The message queues of decision and script nodes.
use crate::model::{opt_view, DataView, NodeData};
use crate::text::{
    chars_of, copy_string, join_seq, join_strings, lemma_views_push, split_seq, split_str,
    strings_eq, trim, trim_str, views,
};
use vstd::prelude::*;

verus! {

/// The text that separates messages when a queue is edited as one text.
pub const QUEUE_SEPARATOR: &'static str = "\n\n-----\n\n";

pub open spec fn queue_separator() -> Seq<char> {
    seq!['\n', '\n', '-', '-', '-', '-', '-', '\n', '\n']
}

proof fn lemma_separator_view()
    ensures
        QUEUE_SEPARATOR@ == queue_separator(),
{
    reveal_strlit("\n\n-----\n\n");
    assert(QUEUE_SEPARATOR@ =~= queue_separator());
}

/// A message that holds more than white space.
pub open spec fn nonblank(m: Seq<char>) -> bool {
    trim(m).len() > 0
}

/// The messages that hold more than white space, in order.
pub open spec fn keep_nonblank(s: Seq<Seq<char>>) -> Seq<Seq<char>>
    decreases s.len(),
{
    if s.len() == 0 {
        s
    } else {
        let r = keep_nonblank(s.drop_last());
        if nonblank(s.last()) {
            r.push(s.last())
        } else {
            r
        }
    }
}

/// Each message trimmed, the empty ones left out, in order.
pub open spec fn trimmed_nonempty(s: Seq<Seq<char>>) -> Seq<Seq<char>>
    decreases s.len(),
{
    if s.len() == 0 {
        s
    } else {
        let r = trimmed_nonempty(s.drop_last());
        if trim(s.last()).len() > 0 {
            r.push(trim(s.last()))
        } else {
            r
        }
    }
}

pub open spec fn first_msg(s: Seq<Seq<char>>) -> Option<Seq<char>> {
    if s.len() > 0 {
        Some(s[0])
    } else {
        None
    }
}

/// The queue that an edited queue text stands for.
pub open spec fn queue_from_text(text: Seq<char>) -> Seq<Seq<char>> {
    trimmed_nonempty(split_seq(text, queue_separator()))
}

/// The queue a decision node shows: its list, or else its single message, trimmed.
pub open spec fn effective_queue(pm: Option<Seq<char>>, pms: Seq<Seq<char>>) -> Seq<Seq<char>> {
    if pms.len() > 0 {
        pms
    } else {
        match pm {
            Some(m) => if nonblank(m) {
                seq![trim(m)]
            } else {
                Seq::empty()
            },
            None => Seq::empty(),
        }
    }
}

/// The number of messages waiting at a decision node.
pub open spec fn pending_len(pm: Option<Seq<char>>, pms: Seq<Seq<char>>) -> nat {
    effective_queue(pm, pms).len()
}

/// The list of a decision node after `normalize_decision_queue`.
pub open spec fn normalized_queue(pm: Option<Seq<char>>, pms: Seq<Seq<char>>) -> Seq<Seq<char>> {
    let base = if pms.len() == 0 && pm is Some && nonblank(pm->0) {
        seq![pm->0]
    } else {
        pms
    };
    keep_nonblank(base)
}

/// A decision node's content with a new message list and first message.
pub open spec fn with_queue(d: DataView, pms: Seq<Seq<char>>) -> DataView {
    match d {
        DataView::Decision { title, buttons, pending_message, pending_messages } =>
            DataView::Decision {
            title,
            buttons,
            pending_message: first_msg(pms),
            pending_messages: pms,
        },
        DataView::Script { title, code, pending_messages } => DataView::Script {
            title,
            code,
            pending_messages: pms,
        },
        _ => d,
    }
}

fn keep_nonblank_vec(v: &Vec<String>) -> (r: Vec<String>)
    ensures
        views(r@) == keep_nonblank(views(v@)),
{
    let mut out: Vec<String> = Vec::new();
    let mut i: usize = 0;
    while i < v.len()
        invariant
            i <= v@.len(),
            views(out@) == keep_nonblank(views(v@).subrange(0, i as int)),
        decreases v@.len() - i,
    {
        let ghost before = views(v@).subrange(0, i as int);
        assert(views(v@).subrange(0, i + 1).drop_last() =~= before);
        let t = trim_str(v[i].as_str());
        if chars_of(t.as_str()).len() > 0 {
            let c = copy_string(&v[i]);
            proof {
                lemma_views_push(out@, c);
            }
            out.push(c);
        }
        i = i + 1;
    }
    assert(views(v@).subrange(0, i as int) =~= views(v@));
    out
}

fn trimmed_nonempty_vec(v: &Vec<String>) -> (r: Vec<String>)
    ensures
        views(r@) == trimmed_nonempty(views(v@)),
{
    let mut out: Vec<String> = Vec::new();
    let mut i: usize = 0;
    while i < v.len()
        invariant
            i <= v@.len(),
            views(out@) == trimmed_nonempty(views(v@).subrange(0, i as int)),
        decreases v@.len() - i,
    {
        let ghost before = views(v@).subrange(0, i as int);
        assert(views(v@).subrange(0, i + 1).drop_last() =~= before);
        let t = trim_str(v[i].as_str());
        if chars_of(t.as_str()).len() > 0 {
            proof {
                lemma_views_push(out@, t);
            }
            out.push(t);
        }
        i = i + 1;
    }
    assert(views(v@).subrange(0, i as int) =~= views(v@));
    out
}

/// The queue that an edited queue text stands for.
pub fn parse_queue_text(text: &str) -> (r: Vec<String>)
    ensures
        views(r@) == queue_from_text(text@),
{
    proof {
        lemma_separator_view();
    }
    let pieces = split_str(text, QUEUE_SEPARATOR);
    assert(views(pieces@) =~= split_seq(text@, queue_separator()));
    trimmed_nonempty_vec(&pieces)
}

fn effective_queue_vec(pm: &Option<String>, pms: &Vec<String>) -> (r: Vec<String>)
    ensures
        views(r@) == effective_queue(opt_view(*pm), views(pms@)),
{
    let mut queue = crate::model::copy_strings(pms);
    if queue.len() == 0 {
        if let Some(single) = pm {
            let t = trim_str(single.as_str());
            if chars_of(t.as_str()).len() > 0 {
                proof {
                    lemma_views_push(queue@, t);
                }
                queue.push(t);
                assert(views(queue@) =~= seq![trim(single@)]);
            }
        }
    }
    if pms.len() == 0 {
        assert(views(pms@).len() == 0);
    }
    queue
}

pub fn first_string(v: &Vec<String>) -> (r: Option<String>)
    ensures
        opt_view(r) == first_msg(views(v@)),
{
    if v.len() > 0 {
        Some(copy_string(&v[0]))
    } else {
        None
    }
}

impl NodeData {
    /// The number of messages waiting at a decision node (`None` for other kinds).
    pub fn pending_queue_len(&self) -> (r: Option<usize>)
        ensures
            match self@ {
                DataView::Decision { pending_message, pending_messages, .. } => r == Some(
                    pending_len(pending_message, pending_messages) as usize,
                ) && pending_len(pending_message, pending_messages) <= usize::MAX,
                _ => r is None,
            },
    {
        match self {
            NodeData::Decision { pending_message, pending_messages, .. } => {
                let q = effective_queue_vec(pending_message, pending_messages);
                Some(q.len())
            },
            _ => None,
        }
    }

    /// The number of waiting messages and the first of them (`None` for other kinds).
    pub fn queue_preview(&self) -> (r: Option<(usize, String)>)
        ensures
            match self@ {
                DataView::Decision { pending_message, pending_messages, .. } => {
                    let q = effective_queue(pending_message, pending_messages);
                    &&& r matches Some((n, first))
                    &&& n == q.len()
                    &&& first@ == (if q.len() > 0 {
                        q[0]
                    } else {
                        Seq::<char>::empty()
                    })
                },
                _ => r is None,
            },
    {
        match self {
            NodeData::Decision { pending_message, pending_messages, .. } => {
                let q = effective_queue_vec(pending_message, pending_messages);
                if q.len() > 0 {
                    Some((q.len(), copy_string(&q[0])))
                } else {
                    Some((0, String::new()))
                }
            },
            _ => None,
        }
    }

    /// The queue of a decision node as one editable text.
    pub fn decision_queue_text(&self) -> (r: Option<String>)
        ensures
            match self@ {
                DataView::Decision { pending_message, pending_messages, .. } => r is Some
                    && r->0@ == join_seq(
                    effective_queue(pending_message, pending_messages),
                    queue_separator(),
                ),
                _ => r is None,
            },
    {
        proof {
            lemma_separator_view();
        }
        match self {
            NodeData::Decision { pending_message, pending_messages, .. } => {
                let q = effective_queue_vec(pending_message, pending_messages);
                Some(join_strings(&q, QUEUE_SEPARATOR))
            },
            _ => None,
        }
    }

    /// Replaces a decision node's queue by the one an edited text stands for;
    /// `true` when the queue changed.
    pub fn commit_decision_queue_text(&mut self, text: &str) -> (changed: bool)
        ensures
            match old(self)@ {
                DataView::Decision { pending_message, pending_messages, .. } => {
                    let next = queue_from_text(text@);
                    if effective_queue(pending_message, pending_messages) != next {
                        changed && final(self)@ == with_queue(old(self)@, next)
                    } else {
                        !changed && final(self)@ == old(self)@
                    }
                },
                _ => !changed && final(self)@ == old(self)@,
            },
    {
        match self {
            NodeData::Decision { pending_message, pending_messages, .. } => {
                let next = parse_queue_text(text);
                let current = effective_queue_vec(pending_message, pending_messages);
                if !strings_eq(&current, &next) {
                    let first = first_string(&next);
                    *pending_messages = next;
                    *pending_message = first;
                    true
                } else {
                    false
                }
            },
            _ => false,
        }
    }

    /// The queue of a script node as one editable text.
    pub fn script_queue_text(&self) -> (r: Option<String>)
        ensures
            match self@ {
                DataView::Script { pending_messages, .. } => r is Some && r->0@ == join_seq(
                    pending_messages,
                    queue_separator(),
                ),
                _ => r is None,
            },
    {
        proof {
            lemma_separator_view();
        }
        match self {
            NodeData::Script { pending_messages, .. } => Some(
                join_strings(pending_messages, QUEUE_SEPARATOR),
            ),
            _ => None,
        }
    }

    /// Replaces a script node's queue by the one an edited text stands for;
    /// `true` when the queue changed.
    pub fn commit_script_queue_text(&mut self, text: &str) -> (changed: bool)
        ensures
            match old(self)@ {
                DataView::Script { pending_messages, .. } => {
                    let next = queue_from_text(text@);
                    if pending_messages != next {
                        changed && final(self)@ == with_queue(old(self)@, next)
                    } else {
                        !changed && final(self)@ == old(self)@
                    }
                },
                _ => !changed && final(self)@ == old(self)@,
            },
    {
        match self {
            NodeData::Script { pending_messages, .. } => {
                let next = parse_queue_text(text);
                if !strings_eq(pending_messages, &next) {
                    *pending_messages = next;
                    true
                } else {
                    false
                }
            },
            _ => false,
        }
    }

    /// Moves a lone pending message into the list, drops blank messages and
    /// makes the single message the first of the list.
    pub fn normalize_decision_queue(&mut self)
        ensures
            match old(self)@ {
                DataView::Decision { pending_message, pending_messages, .. } => final(self)@
                    == with_queue(old(self)@, normalized_queue(pending_message, pending_messages)),
                _ => final(self)@ == old(self)@,
            },
    {
        match self {
            NodeData::Decision { pending_message, pending_messages, .. } => {
                let mut base = crate::model::copy_strings(pending_messages);
                if base.len() == 0 {
                    if let Some(single) = pending_message {
                        let t = trim_str(single.as_str());
                        if chars_of(t.as_str()).len() > 0 {
                            let c = copy_string(single);
                            proof {
                                lemma_views_push(base@, c);
                            }
                            base.push(c);
                            assert(views(base@) =~= seq![single@]);
                        }
                    }
                }
                assert(views(pending_messages@).len() == pending_messages@.len());
                let kept = keep_nonblank_vec(&base);
                let first = first_string(&kept);
                *pending_messages = kept;
                *pending_message = first;
            },
            _ => {},
        }
    }

    /// Appends a message, trimmed, to a decision node's queue; `false` when the
    /// message is blank or the node is no decision node.
    pub fn enqueue_decision_message(&mut self, message: &str) -> (r: bool)
        ensures
            match old(self)@ {
                DataView::Decision { pending_messages, .. } => if nonblank(message@) {
                    r && final(self)@ == with_queue(
                        old(self)@,
                        pending_messages.push(trim(message@)),
                    )
                } else {
                    !r && final(self)@ == old(self)@
                },
                _ => !r && final(self)@ == old(self)@,
            },
    {
        let t = trim_str(message);
        if chars_of(t.as_str()).len() == 0 {
            return false;
        }
        match self {
            NodeData::Decision { pending_message, pending_messages, .. } => {
                proof {
                    lemma_views_push(pending_messages@, t);
                }
                pending_messages.push(t);
                *pending_message = first_string(pending_messages);
                true
            },
            _ => false,
        }
    }

    /// Normalizes the queue, then removes its first message; `false` when the
    /// queue is empty.
    pub fn clear_pending_first(&mut self) -> (r: bool)
        ensures
            match old(self)@ {
                DataView::Decision { pending_message, pending_messages, .. } => {
                    let q = normalized_queue(pending_message, pending_messages);
                    if q.len() > 0 {
                        r && final(self)@ == with_queue(old(self)@, q.drop_first())
                    } else {
                        !r && final(self)@ == with_queue(old(self)@, q)
                    }
                },
                _ => !r && final(self)@ == old(self)@,
            },
    {
        self.normalize_decision_queue();
        match self {
            NodeData::Decision { pending_message, pending_messages, .. } => {
                if pending_messages.len() == 0 {
                    return false;
                }
                let ghost before = views(pending_messages@);
                pending_messages.remove(0);
                assert(views(pending_messages@) =~= before.drop_first());
                *pending_message = first_string(pending_messages);
                true
            },
            _ => false,
        }
    }

    /// Normalizes the queue, then removes its last message; `false` when the
    /// queue is empty.
    pub fn clear_pending_last(&mut self) -> (r: bool)
        ensures
            match old(self)@ {
                DataView::Decision { pending_message, pending_messages, .. } => {
                    let q = normalized_queue(pending_message, pending_messages);
                    if q.len() > 0 {
                        r && final(self)@ == with_queue(old(self)@, q.drop_last())
                    } else {
                        !r && final(self)@ == with_queue(old(self)@, q)
                    }
                },
                _ => !r && final(self)@ == old(self)@,
            },
    {
        self.normalize_decision_queue();
        match self {
            NodeData::Decision { pending_message, pending_messages, .. } => {
                let ghost before = views(pending_messages@);
                if pending_messages.pop().is_none() {
                    return false;
                }
                assert(views(pending_messages@) =~= before.drop_last());
                *pending_message = first_string(pending_messages);
                true
            },
            _ => false,
        }
    }

    /// Normalizes the queue, then empties it; `false` when it was already empty.
    pub fn clear_pending_all(&mut self) -> (r: bool)
        ensures
            match old(self)@ {
                DataView::Decision { pending_message, pending_messages, .. } => {
                    let q = normalized_queue(pending_message, pending_messages);
                    if q.len() > 0 {
                        r && final(self)@ == with_queue(old(self)@, Seq::empty())
                    } else {
                        !r && final(self)@ == with_queue(old(self)@, q)
                    }
                },
                _ => !r && final(self)@ == old(self)@,
            },
    {
        self.normalize_decision_queue();
        match self {
            NodeData::Decision { pending_message, pending_messages, .. } => {
                if pending_messages.len() == 0 && pending_message.is_none() {
                    return false;
                }
                pending_messages.clear();
                *pending_message = None;
                assert(views(pending_messages@) =~= Seq::<Seq<char>>::empty());
                true
            },
            _ => false,
        }
    }

    /// Normalizes the queue, then takes its first message out.
    pub fn take_first_pending(&mut self) -> (r: Option<String>)
        ensures
            match old(self)@ {
                DataView::Decision { pending_message, pending_messages, .. } => {
                    let q = normalized_queue(pending_message, pending_messages);
                    if q.len() > 0 {
                        r is Some && r->0@ == q[0] && final(self)@ == with_queue(
                            old(self)@,
                            q.drop_first(),
                        )
                    } else {
                        r is None && final(self)@ == with_queue(old(self)@, q)
                    }
                },
                _ => r is None && final(self)@ == old(self)@,
            },
    {
        self.normalize_decision_queue();
        match self {
            NodeData::Decision { pending_message, pending_messages, .. } => {
                if pending_messages.len() == 0 {
                    return None;
                }
                let ghost before = views(pending_messages@);
                let m = pending_messages.remove(0);
                assert(views(pending_messages@) =~= before.drop_first());
                *pending_message = first_string(pending_messages);
                Some(m)
            },
            _ => None,
        }
    }
}

} // verus!
