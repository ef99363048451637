//! The editor of a decision node's buttons: one row per button, checked
//! row by row when committed, and the colours written as `r,g,b` text.
use crate::editing::{
    change_applied, draft_views, edit_frame, graph_kept, inline_reset, node_with_id, DraftView,
    EditView,
};
use crate::forwarding::node_index;
use crate::model::{button_views, ButtonView, DataView, DecisionButton, NodeData, NodeView};
use crate::text::{
    decimal, owned, parse_u8_str, parse_unsigned, push_decimal, push_str, split_seq, split_str,
    trim, trim_str,
};
use crate::workspace::{DecisionButtonDraft, Workspace};
use vstd::prelude::*;

verus! {

/// The colour of a row whose button has none, and of an added row.
pub open spec fn default_row_color() -> [u8; 3] {
    [224u8, 232u8, 242u8]
}

/// The colour of the row a decision node without buttons opens with.
pub open spec fn first_row_color() -> [u8; 3] {
    [212u8, 244u8, 226u8]
}

/// The editor row of a button.
pub open spec fn draft_of(b: ButtonView) -> DraftView {
    (
        b.label,
        b.event_key,
        match b.color_rgb {
            Some(c) => c,
            None => default_row_color(),
        },
    )
}

/// The rows the editor opens with: one per button, or a single approving
/// row where the node has no buttons.
pub open spec fn opening_rows(buttons: Seq<ButtonView>) -> Seq<DraftView> {
    if buttons.len() == 0 {
        seq![("通过"@, "approve"@, first_row_color())]
    } else {
        buttons.map_values(|b: ButtonView| draft_of(b))
    }
}

/// The buttons of a decision node.
pub open spec fn buttons_of(d: DataView) -> Option<Seq<ButtonView>> {
    match d {
        DataView::Decision { buttons, .. } => Some(buttons),
        _ => None,
    }
}

pub open spec fn with_buttons(d: DataView, b: Seq<ButtonView>) -> DataView {
    match d {
        DataView::Decision { title, pending_message, pending_messages, .. } => DataView::Decision {
            title,
            buttons: b,
            pending_message,
            pending_messages,
        },
        _ => d,
    }
}

/// "第 n 行显示名称不能为空": the label of row `n` (counted from 1) is blank.
pub open spec fn blank_label_message(n: nat) -> Seq<char> {
    "第 "@ + decimal(n) + " 行显示名称不能为空"@
}

/// "第 n 行事件名不能为空": the route key of row `n` is blank.
pub open spec fn blank_key_message(n: nat) -> Seq<char> {
    "第 "@ + decimal(n) + " 行事件名不能为空"@
}

/// "第 n 行事件名重复: key": row `n` repeats an earlier route key.
pub open spec fn repeated_key_message(n: nat, key: Seq<char>) -> Seq<char> {
    "第 "@ + decimal(n) + " 行事件名重复: "@ + key
}

/// Whether one of the buttons has the route key.
pub open spec fn has_key(bs: Seq<ButtonView>, key: Seq<char>) -> bool {
    exists|j: int| 0 <= j < bs.len() && #[trigger] bs[j].event_key == key
}

/// The rows checked from the first: the buttons they make (label and key
/// trimmed), or the message of the first row with a blank label, a blank
/// key or a key that an earlier row has.
pub open spec fn checked_rows(rows: Seq<DraftView>) -> Result<Seq<ButtonView>, Seq<char>>
    decreases rows.len(),
{
    if rows.len() == 0 {
        Ok(Seq::empty())
    } else {
        match checked_rows(rows.drop_last()) {
            Err(e) => Err(e),
            Ok(prev) => {
                let n = rows.len() as nat;
                let r = rows.last();
                if trim(r.0).len() == 0 {
                    Err(blank_label_message(n))
                } else if trim(r.1).len() == 0 {
                    Err(blank_key_message(n))
                } else if has_key(prev, trim(r.1)) {
                    Err(repeated_key_message(n, trim(r.1)))
                } else {
                    Ok(prev.push(ButtonView { label: trim(r.0), event_key: trim(r.1), color_rgb: Some(r.2) }))
                }
            },
        }
    }
}

/// Where a prefix of the rows fails, the rows fail with its message.
pub proof fn lemma_checked_err_prefix(rows: Seq<DraftView>, k: int)
    requires
        0 <= k <= rows.len(),
        checked_rows(rows.take(k)) is Err,
    ensures
        checked_rows(rows) == checked_rows(rows.take(k)),
    decreases rows.len() - k,
{
    if k == rows.len() {
        assert(rows.take(k) =~= rows);
    } else {
        assert(rows.drop_last().take(k) =~= rows.take(k));
        lemma_checked_err_prefix(rows.drop_last(), k);
    }
}

/// What committing the rows changes: the checked buttons replace the
/// decision node's buttons where they differ.
pub open spec fn buttons_change(nodes: Seq<NodeView>, id: usize, bs: Seq<ButtonView>) -> Option<(int, DataView)> {
    match node_index(nodes, id) {
        Some(i) => match buttons_of(nodes[i].data) {
            Some(cur) => if cur != bs {
                Some((i, with_buttons(nodes[i].data, bs)))
            } else {
                None
            },
            None => None,
        },
        None => None,
    }
}

/// The buttons editor closed.
pub open spec fn buttons_editor_closed(e: EditView) -> EditView {
    EditView {
        editing_decision_buttons_node: None,
        pending_decision_buttons_focus: None,
        decision_buttons_edit_rows: Seq::empty(),
        decision_color_popup: None,
        decision_buttons_edit_error: None,
        ..e
    }
}

/// The colour picker after row `row` is removed: closed where it was open
/// on that row, moved up where it was open on a later one.
pub open spec fn popup_after_removal(p: Option<(usize, usize)>, row: usize) -> Option<(usize, usize)> {
    match p {
        Some((id, r)) => if r == row {
            None
        } else if r > row {
            Some((id, (r - 1) as usize))
        } else {
            p
        },
        None => None,
    }
}

/// `r,g,b` in decimal.
pub open spec fn rgb_text(c: [u8; 3]) -> Seq<char> {
    decimal(c[0] as nat) + ","@ + decimal(c[1] as nat) + ","@ + decimal(c[2] as nat)
}

/// The colour an `r,g,b` text stands for: three comma-separated parts,
/// each a `u8` once trimmed.
pub open spec fn parsed_rgb(text: Seq<char>) -> Option<(int, int, int)> {
    let parts = split_seq(text, ","@);
    if parts.len() != 3 {
        None
    } else {
        match (
            parse_unsigned(trim(parts[0]), 255),
            parse_unsigned(trim(parts[1]), 255),
            parse_unsigned(trim(parts[2]), 255),
        ) {
            (Some(r), Some(g), Some(b)) => Some((r, g, b)),
            _ => None,
        }
    }
}

/// Writes a colour as `r,g,b`.
pub fn rgb_color_text(rgb: [u8; 3]) -> (r: String)
    ensures
        r@ == rgb_text(rgb),
{
    let mut out = String::new();
    push_decimal(&mut out, rgb[0] as u64);
    push_str(&mut out, ",");
    push_decimal(&mut out, rgb[1] as u64);
    push_str(&mut out, ",");
    push_decimal(&mut out, rgb[2] as u64);
    out
}

/// Reads an `r,g,b` colour text.
pub fn parse_rgb_color_text(text: &str) -> (r: Option<[u8; 3]>)
    ensures
        match r {
            Some(c) => parsed_rgb(text@) == Some((c[0] as int, c[1] as int, c[2] as int)),
            None => parsed_rgb(text@) is None,
        },
{
    proof {
        reveal_strlit(",");
    }
    let parts = split_str(text, ",");
    if parts.len() != 3 {
        return None;
    }
    let r = parse_u8_str(trim_str(parts[0].as_str()).as_str());
    let g = parse_u8_str(trim_str(parts[1].as_str()).as_str());
    let b = parse_u8_str(trim_str(parts[2].as_str()).as_str());
    match (r, g, b) {
        (Some(r), Some(g), Some(b)) => Some([r, g, b]),
        _ => None,
    }
}

fn same_color(a: Option<[u8; 3]>, b: Option<[u8; 3]>) -> (r: bool)
    ensures
        r == (a == b),
{
    match (a, b) {
        (Some(x), Some(y)) => {
            let same = x[0] == y[0] && x[1] == y[1] && x[2] == y[2];
            if same {
                assert(x =~= y);
            }
            same
        },
        (None, None) => true,
        _ => false,
    }
}

fn same_buttons(a: &Vec<DecisionButton>, b: &Vec<DecisionButton>) -> (r: bool)
    ensures
        r == (button_views(a@) == button_views(b@)),
{
    if a.len() != b.len() {
        assert(button_views(a@).len() != button_views(b@).len());
        return false;
    }
    let mut i: usize = 0;
    while i < a.len()
        invariant
            a@.len() == b@.len(),
            i <= a@.len(),
            forall|j: int| 0 <= j < i ==> #[trigger] a@[j]@ == b@[j]@,
        decreases a@.len() - i,
    {
        let same = crate::text::str_eq(a[i].label.as_str(), b[i].label.as_str())
            && crate::text::str_eq(a[i].event_key.as_str(), b[i].event_key.as_str())
            && same_color(a[i].color_rgb, b[i].color_rgb);
        if !same {
            assert(button_views(a@)[i as int] != button_views(b@)[i as int]);
            return false;
        }
        i = i + 1;
    }
    assert(button_views(a@) =~= button_views(b@));
    true
}

fn has_event_key(bs: &Vec<DecisionButton>, key: &str) -> (r: bool)
    ensures
        r == has_key(button_views(bs@), key@),
{
    let mut i: usize = 0;
    while i < bs.len()
        invariant
            i <= bs@.len(),
            forall|j: int| 0 <= j < i ==> #[trigger] bs@[j].event_key@ != key@,
        decreases bs@.len() - i,
    {
        if crate::text::str_eq(bs[i].event_key.as_str(), key) {
            assert(button_views(bs@)[i as int].event_key == key@);
            return true;
        }
        i = i + 1;
    }
    proof {
        assert forall|j: int| 0 <= j < button_views(bs@).len() implies #[trigger] button_views(bs@)[j].event_key
            != key@ by {
            assert(bs@[j].event_key@ != key@);
        }
    }
    false
}

/// "第 n 行" followed by `tail`.
fn row_message(n: usize, tail: &str) -> (r: String)
    ensures
        r@ == "第 "@ + decimal(n as nat) + tail@,
{
    let mut out = owned("第 ");
    push_decimal(&mut out, n as u64);
    push_str(&mut out, tail);
    out
}

/// Checks the rows from the first, as `checked_rows` says.
pub fn check_rows(rows: &Vec<DecisionButtonDraft>) -> (r: Result<Vec<DecisionButton>, String>)
    ensures
        match r {
            Ok(bs) => checked_rows(draft_views(rows@)) == Ok::<Seq<ButtonView>, Seq<char>>(button_views(bs@)),
            Err(e) => checked_rows(draft_views(rows@)) == Err::<Seq<ButtonView>, Seq<char>>(e@),
        },
{
    let ghost all = draft_views(rows@);
    let mut parsed: Vec<DecisionButton> = Vec::new();
    let mut i: usize = 0;
    assert(all.take(0) =~= Seq::<DraftView>::empty());
    assert(button_views(parsed@) =~= Seq::<ButtonView>::empty());
    while i < rows.len()
        invariant
            i <= rows@.len(),
            all == draft_views(rows@),
            checked_rows(all.take(i as int)) == Ok::<Seq<ButtonView>, Seq<char>>(button_views(parsed@)),
        decreases rows@.len() - i,
    {
        let ghost pre = all.take(i + 1);
        assert(pre.drop_last() =~= all.take(i as int));
        assert(pre.last() == all[i as int]);
        let label = trim_str(rows[i].label.as_str());
        let key = trim_str(rows[i].event_key.as_str());
        if label.as_str().is_empty() {
            let e = row_message(i + 1, " 行显示名称不能为空");
            proof {
                lemma_checked_err_prefix(all, i + 1);
            }
            return Err(e);
        }
        if key.as_str().is_empty() {
            let e = row_message(i + 1, " 行事件名不能为空");
            proof {
                lemma_checked_err_prefix(all, i + 1);
            }
            return Err(e);
        }
        if has_event_key(&parsed, key.as_str()) {
            let mut e = row_message(i + 1, " 行事件名重复: ");
            push_str(&mut e, key.as_str());
            proof {
                lemma_checked_err_prefix(all, i + 1);
            }
            return Err(e);
        }
        let ghost before = parsed@;
        parsed.push(DecisionButton { label, event_key: key, color_rgb: Some(rows[i].color_rgb) });
        assert(button_views(parsed@) =~= button_views(before).push(parsed@.last()@));
        i = i + 1;
    }
    assert(all.take(i as int) =~= all);
    Ok(parsed)
}

impl NodeData {
    pub fn buttons(&self) -> (r: Option<Vec<DecisionButton>>)
        ensures
            match r {
                Some(b) => buttons_of(self@) == Some(button_views(b@)),
                None => buttons_of(self@) is None,
            },
    {
        match self {
            NodeData::Decision { buttons, .. } => Some(crate::model::copy_buttons(buttons)),
            _ => None,
        }
    }

    pub fn set_buttons(&mut self, b: Vec<DecisionButton>)
        ensures
            final(self)@ == with_buttons(old(self)@, button_views(b@)),
    {
        match self {
            NodeData::Decision { buttons, .. } => {
                *buttons = b;
            },
            _ => {},
        }
    }
}

/// The editor rows of buttons, as `opening_rows` says.
fn rows_for(buttons: &Vec<DecisionButton>) -> (r: Vec<DecisionButtonDraft>)
    ensures
        draft_views(r@) == opening_rows(button_views(buttons@)),
{
    let mut rows: Vec<DecisionButtonDraft> = Vec::new();
    if buttons.len() == 0 {
        rows.push(DecisionButtonDraft { label: owned("通过"), event_key: owned("approve"), color_rgb: [212, 244, 226] });
        assert(rows@[0].color_rgb =~= first_row_color());
        assert(draft_views(rows@) =~= opening_rows(button_views(buttons@)));
        return rows;
    }
    let mut i: usize = 0;
    while i < buttons.len()
        invariant
            i <= buttons@.len(),
            rows@.len() == i,
            forall|j: int| 0 <= j < i ==> (#[trigger] rows@[j].label@, rows@[j].event_key@, rows@[j].color_rgb) == draft_of(buttons@[j]@),
        decreases buttons@.len() - i,
    {
        let color = match buttons[i].color_rgb {
            Some(c) => c,
            None => {
                let d: [u8; 3] = [224, 232, 242];
                assert(d =~= default_row_color());
                d
            },
        };
        rows.push(
            DecisionButtonDraft {
                label: crate::text::copy_string(&buttons[i].label),
                event_key: crate::text::copy_string(&buttons[i].event_key),
                color_rgb: color,
            },
        );
        i = i + 1;
    }
    assert(draft_views(rows@) =~= opening_rows(button_views(buttons@)));
    rows
}

impl Workspace {
    /// Opens the buttons editor on a decision node: one row per button, or
    /// a single approving row where it has none.
    pub fn start_decision_buttons_edit(&mut self, node_id: usize)
        requires
            old(self).wf(),
        ensures
            final(self).wf(),
            match node_with_id(old(self).graph.nodes_v(), node_id) {
                Some(n) if buttons_of(n.data) is Some => {
                    &&& final(self).selection.selected == Some(node_id)
                    &&& final(self).selection.selected_nodes@ == seq![node_id]
                    &&& final(self).selection.selected_edge is None
                    &&& final(self).edit@ == (EditView {
                        editing_decision_buttons_node: Some(node_id),
                        pending_decision_buttons_focus: Some(node_id),
                        decision_buttons_edit_rows: opening_rows(buttons_of(n.data)->0),
                        ..inline_reset(old(self).edit@)
                    })
                    &&& graph_kept(*old(self), *final(self))
                    &&& final(self).terminals == old(self).terminals
                    &&& edit_frame(*old(self), *final(self))
                },
                _ => *final(self) == *old(self),
            },
    {
        let i = match self.graph.index_of(node_id) {
            Some(i) => i,
            None => return,
        };
        let buttons = match self.graph.nodes[i].data.buttons() {
            Some(b) => b,
            None => return,
        };
        let rows = rows_for(&buttons);
        self.prepare_inline_node_edit(node_id);
        self.edit.editing_decision_buttons_node = Some(node_id);
        self.edit.pending_decision_buttons_focus = Some(node_id);
        self.edit.decision_buttons_edit_rows = rows;
    }

    /// Adds a row "新按钮" with the route key `event_<n>`, `n` the new number
    /// of rows.
    pub fn add_decision_button_row(&mut self)
        requires
            old(self).edit.decision_buttons_edit_rows@.len() < u64::MAX,
        ensures
            final(self).edit@ == (EditView {
                decision_buttons_edit_rows: old(self).edit@.decision_buttons_edit_rows.push(
                    (
                        "新按钮"@,
                        "event_"@ + decimal((old(self).edit.decision_buttons_edit_rows@.len() + 1) as nat),
                        default_row_color(),
                    ),
                ),
                ..old(self).edit@
            }),
            final(self).graph == old(self).graph,
            final(self).selection == old(self).selection,
            final(self).terminals == old(self).terminals,
            final(self).workspace_dirty == old(self).workspace_dirty,
            final(self).automation_state_version == old(self).automation_state_version,
            edit_frame(*old(self), *final(self)),
    {
        let n = self.edit.decision_buttons_edit_rows.len() as u64 + 1;
        let mut key = owned("event_");
        push_decimal(&mut key, n);
        let color: [u8; 3] = [224, 232, 242];
        assert(color =~= default_row_color());
        let ghost before = self.edit.decision_buttons_edit_rows@;
        self.edit.decision_buttons_edit_rows.push(
            DecisionButtonDraft { label: owned("新按钮"), event_key: key, color_rgb: color },
        );
        assert(draft_views(self.edit.decision_buttons_edit_rows@) =~= draft_views(before).push(
            ("新按钮"@, key@, color),
        ));
    }

    /// Removes a row, where there is one at `row`; the colour picker follows.
    pub fn remove_decision_button_row(&mut self, row: usize)
        ensures
            row < old(self).edit.decision_buttons_edit_rows@.len() ==> final(self).edit@ == (EditView {
                decision_buttons_edit_rows: old(self).edit@.decision_buttons_edit_rows.remove(row as int),
                decision_color_popup: popup_after_removal(old(self).edit.decision_color_popup, row),
                ..old(self).edit@
            }),
            row >= old(self).edit.decision_buttons_edit_rows@.len() ==> final(self).edit == old(self).edit,
            final(self).graph == old(self).graph,
            final(self).selection == old(self).selection,
            final(self).terminals == old(self).terminals,
            final(self).workspace_dirty == old(self).workspace_dirty,
            final(self).automation_state_version == old(self).automation_state_version,
            edit_frame(*old(self), *final(self)),
    {
        if row >= self.edit.decision_buttons_edit_rows.len() {
            return;
        }
        let ghost before = self.edit.decision_buttons_edit_rows@;
        let _ = self.edit.decision_buttons_edit_rows.remove(row);
        assert(draft_views(self.edit.decision_buttons_edit_rows@) =~= draft_views(before).remove(row as int));
        if let Some((id, popup_row)) = self.edit.decision_color_popup {
            if popup_row == row {
                self.edit.decision_color_popup = None;
            } else if popup_row > row {
                self.edit.decision_color_popup = Some((id, popup_row - 1));
            }
        }
    }

    /// Closes the buttons editor.
    pub fn cancel_decision_buttons_edit(&mut self)
        ensures
            final(self).edit@ == buttons_editor_closed(old(self).edit@),
            final(self).graph == old(self).graph,
            final(self).selection == old(self).selection,
            final(self).terminals == old(self).terminals,
            final(self).workspace_dirty == old(self).workspace_dirty,
            final(self).automation_state_version == old(self).automation_state_version,
            edit_frame(*old(self), *final(self)),
    {
        self.edit.editing_decision_buttons_node = None;
        self.edit.pending_decision_buttons_focus = None;
        self.edit.decision_buttons_edit_rows = Vec::new();
        self.edit.decision_color_popup = None;
        self.edit.decision_buttons_edit_error = None;
        assert(draft_views(self.edit.decision_buttons_edit_rows@) =~= Seq::<DraftView>::empty());
    }

    /// Checks the rows; on the first bad row its message is shown and
    /// `false` returned. Otherwise the buttons replace the node's where they
    /// differ, the editor closes and `true` is returned. Without an open
    /// editor nothing happens.
    pub fn commit_decision_buttons_edit(&mut self) -> (r: bool)
        requires
            old(self).wf(),
        ensures
            final(self).wf(),
            match old(self).edit.editing_decision_buttons_node {
                None => !r && *final(self) == *old(self),
                Some(id) => match checked_rows(old(self).edit@.decision_buttons_edit_rows) {
                    Err(msg) => {
                        &&& !r
                        &&& final(self).edit@ == (EditView {
                            decision_buttons_edit_error: Some(msg),
                            ..old(self).edit@
                        })
                        &&& graph_kept(*old(self), *final(self))
                        &&& final(self).selection == old(self).selection
                        &&& final(self).terminals == old(self).terminals
                        &&& edit_frame(*old(self), *final(self))
                    },
                    Ok(bs) => {
                        &&& r
                        &&& change_applied(*old(self), *final(self), buttons_change(old(self).graph.nodes_v(), id, bs))
                        &&& final(self).edit@ == buttons_editor_closed(old(self).edit@)
                        &&& final(self).selection == old(self).selection
                        &&& final(self).terminals == old(self).terminals
                        &&& edit_frame(*old(self), *final(self))
                    },
                },
            },
    {
        let node_id = match self.edit.editing_decision_buttons_node {
            Some(id) => id,
            None => return false,
        };
        let parsed = match check_rows(&self.edit.decision_buttons_edit_rows) {
            Ok(p) => p,
            Err(e) => {
                self.edit.decision_buttons_edit_error = Some(e);
                return false;
            },
        };
        if let Some(i) = self.graph.index_of(node_id) {
            if let Some(cur) = self.graph.nodes[i].data.buttons() {
                if !same_buttons(&cur, &parsed) {
                    let mut data = self.graph.nodes[i].data.copy();
                    data.set_buttons(parsed);
                    self.graph.set_data_at(i, data);
                    self.mark_workspace_dirty();
                }
            }
        }
        self.cancel_decision_buttons_edit();
        true
    }
}

} // verus!
