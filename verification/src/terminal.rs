//! Which terminal nodes have a running shell, which are waiting to start,
//! and the text waiting to be written to shells that are not running yet.
use crate::seqs::retain_mask;
use crate::text::{owned, views};
use vstd::prelude::*;

verus! {

pub struct TerminalRuntime {
    pub running: Vec<usize>,
    pub exited: Vec<usize>,
    pub errors: Vec<(usize, String)>,
    pub pending_injections: Vec<(usize, Vec<String>)>,
    pub pending_starts: Vec<usize>,
    /// Text to write now to shells that are running, in order.
    pub outbox: Vec<(usize, String)>,
}

pub open spec fn id_not(id: usize) -> spec_fn(usize) -> bool {
    |x: usize| x != id
}

pub open spec fn error_key_not(id: usize) -> spec_fn((usize, String)) -> bool {
    |e: (usize, String)| e.0 != id
}

pub open spec fn injection_key_not(id: usize) -> spec_fn((usize, Vec<String>)) -> bool {
    |e: (usize, Vec<String>)| e.0 != id
}

fn retain_ids_other_than(v: &mut Vec<usize>, id: usize)
    ensures
        final(v)@ == old(v)@.filter(id_not(id)),
{
    let mut mask: Vec<bool> = Vec::new();
    let mut i: usize = 0;
    while i < v.len()
        invariant
            i <= v@.len(),
            mask@.len() == i,
            forall|j: int| 0 <= j < i ==> #[trigger] mask@[j] == id_not(id)(v@[j]),
        decreases v@.len() - i,
    {
        mask.push(v[i] != id);
        i = i + 1;
    }
    retain_mask(v, &mask, Ghost(id_not(id)));
}

impl TerminalRuntime {
    pub fn new() -> (r: TerminalRuntime)
        ensures
            r.running@.len() == 0,
            r.exited@.len() == 0,
            r.errors@.len() == 0,
            r.pending_injections@.len() == 0,
            r.pending_starts@.len() == 0,
            r.outbox@.len() == 0,
    {
        TerminalRuntime {
            running: Vec::new(),
            exited: Vec::new(),
            errors: Vec::new(),
            pending_injections: Vec::new(),
            pending_starts: Vec::new(),
            outbox: Vec::new(),
        }
    }

    /// Forgets everything about a node's shell.
    pub fn forget(&mut self, id: usize)
        ensures
            final(self).running@ == old(self).running@.filter(id_not(id)),
            final(self).exited@ == old(self).exited@.filter(id_not(id)),
            final(self).errors@ == old(self).errors@.filter(error_key_not(id)),
            final(self).pending_injections@ == old(self).pending_injections@.filter(
                injection_key_not(id),
            ),
            final(self).pending_starts@ == old(self).pending_starts@.filter(id_not(id)),
            final(self).outbox == old(self).outbox,
    {
        retain_ids_other_than(&mut self.running, id);
        retain_ids_other_than(&mut self.exited, id);
        retain_ids_other_than(&mut self.pending_starts, id);
        let mut mask: Vec<bool> = Vec::new();
        let mut i: usize = 0;
        while i < self.errors.len()
            invariant
                i <= self.errors@.len(),
                mask@.len() == i,
                forall|j: int| 0 <= j < i ==> #[trigger] mask@[j] == error_key_not(id)(self.errors@[j]),
            decreases self.errors@.len() - i,
        {
            mask.push(self.errors[i].0 != id);
            i = i + 1;
        }
        retain_mask(&mut self.errors, &mask, Ghost(error_key_not(id)));
        let mut mask2: Vec<bool> = Vec::new();
        let mut i: usize = 0;
        while i < self.pending_injections.len()
            invariant
                i <= self.pending_injections@.len(),
                mask2@.len() == i,
                forall|j: int| 0 <= j < i ==> #[trigger] mask2@[j] == injection_key_not(id)(self.pending_injections@[j]),
            decreases self.pending_injections@.len() - i,
        {
            mask2.push(self.pending_injections[i].0 != id);
            i = i + 1;
        }
        retain_mask(&mut self.pending_injections, &mask2, Ghost(injection_key_not(id)));
    }
}


/// The text waiting for shells that are not running, by node.
pub open spec fn inj_views(s: Seq<(usize, Vec<String>)>) -> Seq<(usize, Seq<Seq<char>>)> {
    s.map_values(|e: (usize, Vec<String>)| (e.0, views(e.1@)))
}

/// The text to write now, by node.
pub open spec fn out_views(s: Seq<(usize, String)>) -> Seq<(usize, Seq<char>)> {
    s.map_values(|e: (usize, String)| (e.0, e.1@))
}

/// `k` is the first entry for the node `id`.
pub open spec fn first_key_at(s: Seq<(usize, Seq<Seq<char>>)>, id: usize, k: int) -> bool {
    &&& 0 <= k < s.len()
    &&& s[k].0 == id
    &&& forall|j: int| 0 <= j < k ==> #[trigger] s[j].0 != id
}

/// The waiting text with `text` added for the node `id`: at the end of its
/// entry, or in a new entry at the end.
pub open spec fn queued_for(s: Seq<(usize, Seq<Seq<char>>)>, id: usize, text: Seq<char>) -> Seq<
    (usize, Seq<Seq<char>>),
> {
    if exists|k: int| first_key_at(s, id, k) {
        let k = choose|k: int| first_key_at(s, id, k);
        s.update(k, (id, s[k].1.push(text)))
    } else {
        s.push((id, seq![text]))
    }
}

/// What the shells are told: which run, the text to write now, and the
/// text waiting for shells that do not run yet.
pub struct TermView {
    pub running: Seq<usize>,
    pub outbox: Seq<(usize, Seq<char>)>,
    pub pending: Seq<(usize, Seq<Seq<char>>)>,
}

pub open spec fn term_view(t: TerminalRuntime) -> TermView {
    TermView { running: t.running@, outbox: out_views(t.outbox@), pending: inj_views(t.pending_injections@) }
}

/// Writing `text` to the shell of `id`: now when it runs, else once it starts.
pub open spec fn inject_v(t: TermView, id: usize, text: Seq<char>) -> TermView {
    if t.running.contains(id) {
        TermView { outbox: t.outbox.push((id, text)), ..t }
    } else {
        TermView { pending: queued_for(t.pending, id, text), ..t }
    }
}

impl TerminalRuntime {
    /// Writes text to a node's shell: now when it runs, else once it starts.
    pub fn inject_text(&mut self, id: usize, text: &str)
        ensures
            term_view(*final(self)) == inject_v(term_view(*old(self)), id, text@),
            old(self).running@.contains(id) ==> {
                &&& out_views(final(self).outbox@) == out_views(old(self).outbox@).push((id, text@))
                &&& final(self).pending_injections == old(self).pending_injections
            },
            !old(self).running@.contains(id) ==> {
                &&& inj_views(final(self).pending_injections@) == queued_for(
                    inj_views(old(self).pending_injections@),
                    id,
                    text@,
                )
                &&& final(self).outbox == old(self).outbox
            },
            final(self).running == old(self).running,
            final(self).exited == old(self).exited,
            final(self).errors == old(self).errors,
            final(self).pending_starts == old(self).pending_starts,
    {
        if crate::selection::contains_id(&self.running, id) {
            let ghost before = self.outbox@;
            self.outbox.push((id, owned(text)));
            assert(out_views(self.outbox@) =~= out_views(before).push((id, text@)));
            return;
        }
        let ghost o = inj_views(self.pending_injections@);
        let mut k: usize = 0;
        while k < self.pending_injections.len()
            invariant
                k <= self.pending_injections@.len(),
                o == inj_views(self.pending_injections@),
                self.pending_injections == old(self).pending_injections,
                forall|j: int| 0 <= j < k ==> #[trigger] o[j].0 != id,
                !old(self).running@.contains(id),
                self.running == old(self).running,
                self.outbox == old(self).outbox,
                self.exited == old(self).exited,
                self.errors == old(self).errors,
                self.pending_starts == old(self).pending_starts,
            decreases self.pending_injections@.len() - k,
        {
            if self.pending_injections[k].0 == id {
                assert(first_key_at(o, id, k as int));
                let (key, mut list) = self.pending_injections.remove(k);
                let ghost lb = list@;
                list.push(owned(text));
                proof {
                    crate::text::lemma_views_push(lb, list@.last());
                }
                self.pending_injections.insert(k, (key, list));
                proof {
                    let kk = choose|q: int| first_key_at(o, id, q);
                    if kk != k {
                        if kk < k {
                            assert(o[kk].0 != id);
                        } else {
                            assert(o[k as int].0 != id) by {
                                assert(first_key_at(o, id, kk));
                            }
                        }
                    }
                    assert(inj_views(self.pending_injections@) =~= o.update(k as int, (id, o[k as int].1.push(text@))));
                }
                return;
            }
            k = k + 1;
        }
        let mut list: Vec<String> = Vec::new();
        list.push(owned(text));
        assert(views(list@) =~= seq![text@]);
        self.pending_injections.push((id, list));
        proof {
            assert(!exists|q: int| first_key_at(o, id, q));
            assert(inj_views(self.pending_injections@) =~= o.push((id, seq![text@])));
        }
    }
}

} // verus!
