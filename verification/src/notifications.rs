//! Short notices shown to the user, which fade out after a fixed time.
use crate::seqs::retain_mask;
use crate::workspace::Workspace;
use vstd::prelude::*;

verus! {

/// How long a notice stays fully visible, and how long it fades in and out.
pub const TOAST_VISIBLE_MS: u64 = 2200;
pub const TOAST_FADE_IN_MS: u64 = 180;
pub const TOAST_FADE_OUT_MS: u64 = 260;

/// `std::time::Instant`, a reading of the monotonic clock, carried without
/// being read.
#[verifier::external_type_specification]
#[verifier::external_body]
pub struct ExInstant(std::time::Instant);

/// `Instant::now`: the monotonic clock's reading. It rests on the clock, so
/// nothing is claimed of it.
#[verifier::external_body]
pub(crate) fn instant_now() -> std::time::Instant {
    std::time::Instant::now()
}

/// `Instant::elapsed`, in whole milliseconds: the time passed since
/// `origin` by the monotonic clock. It rests on the clock, so nothing is
/// claimed of it.
#[verifier::external_body]
fn millis_elapsed(origin: &std::time::Instant) -> u128 {
    origin.elapsed().as_millis()
}

/// A notice, with the time it was created: milliseconds of the monotonic
/// clock since the workspace was made.
pub struct ToastNotification {
    pub id: u64,
    pub message: String,
    pub created_at_ms: u64,
    pub visible_for_ms: u64,
    pub fade_in_ms: u64,
    pub fade_out_ms: u64,
}

impl ToastNotification {
    pub fn new(id: u64, message: String, now_ms: u64) -> (r: ToastNotification)
        ensures
            r.id == id,
            r.message@ == message@,
            r.created_at_ms == now_ms,
            r.visible_for_ms == TOAST_VISIBLE_MS,
            r.fade_in_ms == TOAST_FADE_IN_MS,
            r.fade_out_ms == TOAST_FADE_OUT_MS,
    {
        ToastNotification {
            id,
            message,
            created_at_ms: now_ms,
            visible_for_ms: TOAST_VISIBLE_MS,
            fade_in_ms: TOAST_FADE_IN_MS,
            fade_out_ms: TOAST_FADE_OUT_MS,
        }
    }

    /// The whole time a notice is shown.
    pub open spec fn lifetime(&self) -> int {
        self.fade_in_ms + self.visible_for_ms + self.fade_out_ms
    }

    /// The time passed since the notice was created, zero for an earlier `now`.
    pub open spec fn age(&self, now_ms: u64) -> int {
        if now_ms >= self.created_at_ms {
            now_ms - self.created_at_ms
        } else {
            0
        }
    }

    /// A notice has expired once its whole lifetime has passed.
    pub fn is_expired(&self, now_ms: u64) -> (r: bool)
        ensures
            r == (self.age(now_ms) >= self.lifetime()),
    {
        let age: u128 = now_ms.saturating_sub(self.created_at_ms) as u128;
        let lifetime: u128 = self.fade_in_ms as u128 + self.visible_for_ms as u128
            + self.fade_out_ms as u128;
        age >= lifetime
    }
}


/// The ids and messages of the notices, in order.
pub open spec fn toast_msgs(s: Seq<ToastNotification>) -> Seq<(u64, Seq<char>)> {
    s.map_values(|t: ToastNotification| (t.id, t.message@))
}

/// The notice has not expired at `now_ms`.
pub open spec fn alive_at(now_ms: u64) -> spec_fn(ToastNotification) -> bool {
    |t: ToastNotification| t.age(now_ms) < t.lifetime()
}

impl Workspace {
    /// Milliseconds of the monotonic clock since the workspace was made,
    /// capped at `u64::MAX`. The reading rests on the clock, so nothing about
    /// the value is stated here; `timestamp_from_reading` states the cap.
    pub fn monotonic_now_ms(&self) -> u64 {
        crate::protocol::timestamp_from_reading(Some(millis_elapsed(&self.clock_origin)))
    }

    /// Shows a notice: it gets the next notice id, is stamped with the
    /// monotonic clock, and stays 2200 ms after fading in for 180 ms, then
    /// fades out for 260 ms.
    pub fn push_toast_notification(&mut self, message: String)
        requires
            old(self).next_toast_id < u64::MAX,
        ensures
            toast_msgs(final(self).toast_notifications@) == toast_msgs(old(self).toast_notifications@).push(
                (old(self).next_toast_id, message@),
            ),
            final(self).toast_notifications@.len() == old(self).toast_notifications@.len() + 1,
            final(self).toast_notifications@.drop_last() == old(self).toast_notifications@,
            final(self).toast_notifications@.last().id == old(self).next_toast_id,
            final(self).toast_notifications@.last().message@ == message@,
            final(self).toast_notifications@.last().visible_for_ms == TOAST_VISIBLE_MS,
            final(self).toast_notifications@.last().fade_in_ms == TOAST_FADE_IN_MS,
            final(self).toast_notifications@.last().fade_out_ms == TOAST_FADE_OUT_MS,
            final(self).next_toast_id == old(self).next_toast_id + 1,
            final(self).graph == old(self).graph,
            final(self).selection == old(self).selection,
            final(self).history == old(self).history,
            final(self).edit == old(self).edit,
            final(self).terminals == old(self).terminals,
            final(self).ui == old(self).ui,
            final(self).workspace_dirty == old(self).workspace_dirty,
            final(self).automation_state_version == old(self).automation_state_version,
            final(self).workspace_name == old(self).workspace_name,
            final(self).editing_workspace_name == old(self).editing_workspace_name,
            final(self).pending_workspace_name_focus == old(self).pending_workspace_name_focus,
            final(self).workspace_name_edit_buffer == old(self).workspace_name_edit_buffer,
            final(self).processed_automation_requests == old(self).processed_automation_requests,
            final(self).node_clipboard == old(self).node_clipboard,
            final(self).active_graph_path == old(self).active_graph_path,
    {
        let id = self.next_toast_id;
        self.next_toast_id = self.next_toast_id + 1;
        let ghost before = self.toast_notifications@;
        let now_ms = self.monotonic_now_ms();
        let t = ToastNotification::new(id, message, now_ms);
        self.toast_notifications.push(t);
        assert(toast_msgs(self.toast_notifications@) =~= toast_msgs(before).push((id, message@)));
        assert(self.toast_notifications@.drop_last() =~= before);
    }

    /// Drops the notices that have expired at `now_ms`.
    pub fn prune_expired_toasts(&mut self, now_ms: u64)
        ensures
            final(self).toast_notifications@ == old(self).toast_notifications@.filter(alive_at(now_ms)),
            final(self).next_toast_id == old(self).next_toast_id,
            final(self).graph == old(self).graph,
    {
        let mut mask: Vec<bool> = Vec::new();
        let mut i: usize = 0;
        while i < self.toast_notifications.len()
            invariant
                i <= self.toast_notifications@.len(),
                mask@.len() == i,
                forall|j: int| 0 <= j < i ==> #[trigger] mask@[j] == alive_at(now_ms)(self.toast_notifications@[j]),
            decreases self.toast_notifications@.len() - i,
        {
            mask.push(!self.toast_notifications[i].is_expired(now_ms));
            i = i + 1;
        }
        retain_mask(&mut self.toast_notifications, &mask, Ghost(alive_at(now_ms)));
    }
}

} // verus!
