//! The compositor state that the workspace indicator and the window title
//! show: the workspaces, the open windows' titles and the focused window, kept
//! up to date from niri's event stream.
//!
//! Reading the event stream and talking to the socket stay with the caller;
//! each event it reads is handed over as a [`NiriEvent`].

use std::collections::HashMap;
use vstd::prelude::*;

verus! {

/// One workspace as the indicator shows it.
#[derive(Clone, Debug)]
pub struct WorkspaceInfo {
    pub id: u64,
    pub idx: u8,
    pub name: Option<String>,
    pub is_active: bool,
    pub is_focused: bool,
    pub is_urgent: bool,
}

/// One window as the title display knows it.
#[derive(Clone, Debug)]
pub struct WindowInfo {
    pub id: u64,
    pub title: Option<String>,
    pub is_focused: bool,
}

/// The events of niri's event stream that the state depends on.
pub enum NiriEvent {
    WorkspacesChanged { workspaces: Vec<WorkspaceInfo> },
    WorkspaceActivated { id: u64, focused: bool },
    WorkspaceUrgencyChanged { id: u64, urgent: bool },
    WindowsChanged { windows: Vec<WindowInfo> },
    WindowOpenedOrChanged { window: WindowInfo },
    WindowClosed { id: u64 },
    WindowFocusChanged { id: Option<u64> },
    /// Any other event; it changes nothing.
    Other,
}

/// The workspaces of `s` whose index is below `k`, grouped by index in
/// increasing order, each group in the order of `s`.
pub open spec fn idx_groups_below(s: Seq<WorkspaceInfo>, k: int) -> Seq<WorkspaceInfo>
    decreases k,
{
    if k <= 0 {
        Seq::empty()
    } else {
        idx_groups_below(s, k - 1) + s.filter(|w: WorkspaceInfo| w.idx == (k - 1) as u8)
    }
}

/// `s` stably sorted by `idx`.
pub open spec fn sorted_by_idx(s: Seq<WorkspaceInfo>) -> Seq<WorkspaceInfo> {
    idx_groups_below(s, 256)
}

/// Position of the first workspace with id `id` at or after `i`, or `s.len()`.
pub open spec fn position_of_id(s: Seq<WorkspaceInfo>, id: u64, i: int) -> int
    decreases s.len() - i,
{
    if i >= s.len() {
        s.len() as int
    } else if s[i].id == id {
        i
    } else {
        position_of_id(s, id, i + 1)
    }
}

pub open spec fn with_focus(w: WorkspaceInfo, focused: bool) -> WorkspaceInfo {
    WorkspaceInfo { is_focused: focused, ..w }
}

pub open spec fn with_active(w: WorkspaceInfo) -> WorkspaceInfo {
    WorkspaceInfo { is_active: true, ..w }
}

pub open spec fn with_urgent(w: WorkspaceInfo, urgent: bool) -> WorkspaceInfo {
    WorkspaceInfo { is_urgent: urgent, ..w }
}

/// The workspaces after workspace `id` was activated: when the activation
/// moved focus, exactly the workspaces with that id are focused; the first
/// workspace with that id becomes active. Other workspaces keep their
/// active flag.
pub open spec fn activated(s: Seq<WorkspaceInfo>, id: u64, focused: bool) -> Seq<WorkspaceInfo> {
    let f = if focused {
        s.map_values(|w: WorkspaceInfo| with_focus(w, w.id == id))
    } else {
        s
    };
    let p = position_of_id(f, id, 0);
    if p < f.len() {
        f.update(p, with_active(f[p]))
    } else {
        f
    }
}

/// The workspaces after the urgency of workspace `id` changed: the first
/// workspace with that id takes the new urgency.
pub open spec fn urgency_changed(s: Seq<WorkspaceInfo>, id: u64, urgent: bool) -> Seq<WorkspaceInfo> {
    let p = position_of_id(s, id, 0);
    if p < s.len() {
        s.update(p, with_urgent(s[p], urgent))
    } else {
        s
    }
}

/// The titles of the windows in `ws`, a later window with the same id
/// overriding an earlier one.
pub open spec fn titles_of(ws: Seq<WindowInfo>) -> Map<u64, Option<String>>
    decreases ws.len(),
{
    if ws.len() == 0 {
        Map::empty()
    } else {
        titles_of(ws.drop_last()).insert(ws.last().id, ws.last().title)
    }
}

/// The id of the last focused window in `ws`.
pub open spec fn last_focused(ws: Seq<WindowInfo>) -> Option<u64>
    decreases ws.len(),
{
    if ws.len() == 0 {
        None
    } else if ws.last().is_focused {
        Some(ws.last().id)
    } else {
        last_focused(ws.drop_last())
    }
}

/// Whether an event changes the state (and so asks for a redraw).
pub open spec fn event_changes(ev: NiriEvent) -> bool {
    !(ev is Other)
}

/// Workspaces, window titles and focused window after `ev`.
pub open spec fn after_event(
    ws: Seq<WorkspaceInfo>,
    titles: Map<u64, Option<String>>,
    focused: Option<u64>,
    ev: NiriEvent,
) -> (Seq<WorkspaceInfo>, Map<u64, Option<String>>, Option<u64>) {
    match ev {
        NiriEvent::WorkspacesChanged { workspaces } => (sorted_by_idx(workspaces@), titles, focused),
        NiriEvent::WorkspaceActivated { id, focused: f } => (activated(ws, id, f), titles, focused),
        NiriEvent::WorkspaceUrgencyChanged { id, urgent } => (
            urgency_changed(ws, id, urgent),
            titles,
            focused,
        ),
        NiriEvent::WindowsChanged { windows } => (ws, titles_of(windows@), last_focused(windows@)),
        NiriEvent::WindowOpenedOrChanged { window } => (
            ws,
            titles.insert(window.id, window.title),
            if window.is_focused {
                Some(window.id)
            } else {
                focused
            },
        ),
        NiriEvent::WindowClosed { id } => (
            ws,
            titles.remove(id),
            if focused == Some(id) {
                None
            } else {
                focused
            },
        ),
        NiriEvent::WindowFocusChanged { id } => (ws, titles, id),
        NiriEvent::Other => (ws, titles, focused),
    }
}

/// The title of the focused window, when there is one and it has a title.
pub open spec fn focused_title(titles: Map<u64, Option<String>>, focused: Option<u64>) -> Option<String> {
    match focused {
        Some(id) => if titles.contains_key(id) {
            titles[id]
        } else {
            None
        },
        None => None,
    }
}

fn copy_name(n: &Option<String>) -> (r: Option<String>)
    ensures
        r == *n,
{
    match n {
        Some(s) => Some(s.clone()),
        None => None,
    }
}

fn copy_workspace(w: &WorkspaceInfo) -> (r: WorkspaceInfo)
    ensures
        r == *w,
{
    WorkspaceInfo {
        id: w.id,
        idx: w.idx,
        name: copy_name(&w.name),
        is_active: w.is_active,
        is_focused: w.is_focused,
        is_urgent: w.is_urgent,
    }
}

proof fn lemma_filter_step(s: Seq<WorkspaceInfo>, i: int, k: u8)
    requires
        0 <= i < s.len(),
    ensures
        s.take(i + 1).filter(|w: WorkspaceInfo| w.idx == k) == if s[i].idx == k {
            s.take(i).filter(|w: WorkspaceInfo| w.idx == k).push(s[i])
        } else {
            s.take(i).filter(|w: WorkspaceInfo| w.idx == k)
        },
{
    reveal_with_fuel(Seq::<_>::filter, 1);
    assert(s.take(i + 1).drop_last() =~= s.take(i));
}

/// `s` stably sorted by `idx` (what `sort_by_key(|w| w.idx)` gives).
pub fn sort_by_idx(s: &Vec<WorkspaceInfo>) -> (r: Vec<WorkspaceInfo>)
    ensures
        r@ == sorted_by_idx(s@),
{
    let mut out: Vec<WorkspaceInfo> = Vec::new();
    let mut k: u32 = 0;
    while k < 256
        invariant
            0 <= k <= 256,
            out@ == idx_groups_below(s@, k as int),
        decreases 256 - k,
    {
        let key = k as u8;
        let mut i: usize = 0;
        while i < s.len()
            invariant
                0 <= k < 256,
                key == k as u8,
                0 <= i <= s@.len(),
                out@ == idx_groups_below(s@, k as int) + s@.take(i as int).filter(
                    |w: WorkspaceInfo| w.idx == key,
                ),
            decreases s@.len() - i,
        {
            proof {
                lemma_filter_step(s@, i as int, key);
            }
            if s[i].idx == key {
                out.push(copy_workspace(&s[i]));
            }
            i = i + 1;
        }
        assert(s@.take(s@.len() as int) =~= s@);
        assert(((k + 1) - 1) as u8 == key);
        k = k + 1;
    }
    out
}

/// The state kept from niri's event stream.
pub struct NiriState {
    workspaces: Vec<WorkspaceInfo>,
    windows: HashMap<u64, Option<String>>,
    focused_window_id: Option<u64>,
    changed: bool,
    connected: bool,
}

impl NiriState {
    pub closed spec fn workspaces_spec(&self) -> Seq<WorkspaceInfo> {
        self.workspaces@
    }

    pub closed spec fn titles_spec(&self) -> Map<u64, Option<String>> {
        self.windows@
    }

    pub closed spec fn focused_spec(&self) -> Option<u64> {
        self.focused_window_id
    }

    /// Whether something changed since the last `take_changed`.
    pub closed spec fn changed_spec(&self) -> bool {
        self.changed
    }

    pub closed spec fn connected_spec(&self) -> bool {
        self.connected
    }

    /// Empty, disconnected, unchanged.
    pub fn new() -> (s: Self)
        ensures
            s.workspaces_spec() == Seq::<WorkspaceInfo>::empty(),
            s.titles_spec() == Map::<u64, Option<String>>::empty(),
            s.focused_spec() is None,
            !s.changed_spec(),
            !s.connected_spec(),
    {
        NiriState {
            workspaces: Vec::new(),
            windows: HashMap::new(),
            focused_window_id: None,
            changed: false,
            connected: false,
        }
    }

    /// Apply one event. Returns whether it changed the state; when it did, the
    /// state is marked changed.
    pub fn handle_event(&mut self, ev: NiriEvent) -> (changed: bool)
        ensures
            changed == event_changes(ev),
            (final(self).workspaces_spec(), final(self).titles_spec(), final(self).focused_spec())
                == after_event(
                old(self).workspaces_spec(),
                old(self).titles_spec(),
                old(self).focused_spec(),
                ev,
            ),
            final(self).changed_spec() == (old(self).changed_spec() || changed),
            final(self).connected_spec() == old(self).connected_spec(),
    {
        broadcast use vstd::std_specs::hash::group_hash_axioms;

        let changed = match ev {
            NiriEvent::WorkspacesChanged { workspaces } => {
                self.workspaces = sort_by_idx(&workspaces);
                true
            },
            NiriEvent::WorkspaceActivated { id, focused } => {
                self.activate(id, focused);
                true
            },
            NiriEvent::WorkspaceUrgencyChanged { id, urgent } => {
                let p = self.position(id);
                if p < self.workspaces.len() {
                    self.workspaces[p].is_urgent = urgent;
                }
                assert(self.workspaces@ =~= urgency_changed(old(self).workspaces@, id, urgent));
                true
            },
            NiriEvent::WindowsChanged { windows } => {
                self.windows.clear();
                self.focused_window_id = None;
                let mut i: usize = 0;
                while i < windows.len()
                    invariant
                        0 <= i <= windows@.len(),
                        self.workspaces == old(self).workspaces,
                        self.changed == old(self).changed,
                        self.connected == old(self).connected,
                        self.windows@ == titles_of(windows@.take(i as int)),
                        self.focused_window_id == last_focused(windows@.take(i as int)),
                    decreases windows@.len() - i,
                {
                    assert(windows@.take(i + 1).drop_last() =~= windows@.take(i as int));
                    let w = &windows[i];
                    self.windows.insert(w.id, copy_name(&w.title));
                    if w.is_focused {
                        self.focused_window_id = Some(w.id);
                    }
                    i = i + 1;
                }
                assert(windows@.take(windows@.len() as int) =~= windows@);
                true
            },
            NiriEvent::WindowOpenedOrChanged { window } => {
                self.windows.insert(window.id, window.title);
                if window.is_focused {
                    self.focused_window_id = Some(window.id);
                }
                true
            },
            NiriEvent::WindowClosed { id } => {
                self.windows.remove(&id);
                if self.focused_window_id == Some(id) {
                    self.focused_window_id = None;
                }
                true
            },
            NiriEvent::WindowFocusChanged { id } => {
                self.focused_window_id = id;
                true
            },
            NiriEvent::Other => false,
        };
        if changed {
            self.changed = true;
        }
        changed
    }

    fn position(&self, id: u64) -> (p: usize)
        ensures
            p == position_of_id(self.workspaces@, id, 0),
    {
        let mut i: usize = 0;
        while i < self.workspaces.len()
            invariant
                0 <= i <= self.workspaces@.len(),
                position_of_id(self.workspaces@, id, 0) == position_of_id(self.workspaces@, id, i as int),
            decreases self.workspaces@.len() - i,
        {
            if self.workspaces[i].id == id {
                return i;
            }
            i = i + 1;
        }
        i
    }

    fn activate(&mut self, id: u64, focused: bool)
        ensures
            final(self).workspaces@ == activated(old(self).workspaces@, id, focused),
            final(self).windows == old(self).windows,
            final(self).focused_window_id == old(self).focused_window_id,
            final(self).changed == old(self).changed,
            final(self).connected == old(self).connected,
    {
        if focused {
            let mut i: usize = 0;
            while i < self.workspaces.len()
                invariant
                    0 <= i <= self.workspaces@.len(),
                    self.workspaces@.len() == old(self).workspaces@.len(),
                    self.windows == old(self).windows,
                    self.focused_window_id == old(self).focused_window_id,
                    self.changed == old(self).changed,
                    self.connected == old(self).connected,
                    forall|j: int|
                        0 <= j < i ==> self.workspaces@[j] == with_focus(
                            old(self).workspaces@[j],
                            old(self).workspaces@[j].id == id,
                        ),
                    forall|j: int|
                        i <= j < self.workspaces@.len() ==> self.workspaces@[j]
                            == old(self).workspaces@[j],
                decreases self.workspaces@.len() - i,
            {
                let hit = self.workspaces[i].id == id;
                self.workspaces[i].is_focused = hit;
                i = i + 1;
            }
            assert(self.workspaces@ =~= old(self).workspaces@.map_values(
                |w: WorkspaceInfo| with_focus(w, w.id == id),
            ));
        }
        let ghost f = self.workspaces@;
        let p = self.position(id);
        if p < self.workspaces.len() {
            self.workspaces[p].is_active = true;
        }
        assert(self.workspaces@ =~= (if p < f.len() {
            f.update(p as int, with_active(f[p as int]))
        } else {
            f
        }));
    }

    /// Check and clear the changed flag.
    pub fn take_changed(&mut self) -> (changed: bool)
        ensures
            changed == old(self).changed_spec(),
            !final(self).changed_spec(),
            final(self).workspaces_spec() == old(self).workspaces_spec(),
            final(self).titles_spec() == old(self).titles_spec(),
            final(self).focused_spec() == old(self).focused_spec(),
            final(self).connected_spec() == old(self).connected_spec(),
    {
        let c = self.changed;
        self.changed = false;
        c
    }

    /// Record a successful connection; the state is marked changed.
    pub fn mark_connected(&mut self)
        ensures
            final(self).connected_spec(),
            final(self).changed_spec(),
            final(self).workspaces_spec() == old(self).workspaces_spec(),
            final(self).titles_spec() == old(self).titles_spec(),
            final(self).focused_spec() == old(self).focused_spec(),
    {
        self.connected = true;
        self.changed = true;
    }

    /// Record the loss of the connection: everything known is forgotten and
    /// the state is marked changed.
    pub fn mark_disconnected(&mut self)
        ensures
            !final(self).connected_spec(),
            final(self).changed_spec(),
            final(self).workspaces_spec() == Seq::<WorkspaceInfo>::empty(),
            final(self).titles_spec() == Map::<u64, Option<String>>::empty(),
            final(self).focused_spec() is None,
    {
        self.connected = false;
        self.workspaces.clear();
        self.windows.clear();
        self.focused_window_id = None;
        self.changed = true;
    }

    /// The workspaces, sorted as the last `WorkspacesChanged` gave them.
    pub fn workspaces(&self) -> (r: &Vec<WorkspaceInfo>)
        ensures
            r@ == self.workspaces_spec(),
    {
        &self.workspaces
    }

    /// The title of the focused window, if any.
    pub fn focused_window_title(&self) -> (r: Option<String>)
        ensures
            r == focused_title(self.titles_spec(), self.focused_spec()),
    {
        broadcast use vstd::std_specs::hash::group_hash_axioms;

        match self.focused_window_id {
            Some(id) => match self.windows.get(&id) {
                Some(t) => copy_name(t),
                None => None,
            },
            None => None,
        }
    }

    pub fn is_connected(&self) -> (r: bool)
        ensures
            r == self.connected_spec(),
    {
        self.connected
    }
}


/// How a workspace button is coloured.
#[derive(Clone, Copy, PartialEq, Eq, Structural, Debug)]
pub enum WorkspaceColor {
    /// The urgent colour.
    Urgent,
    /// The active colour.
    Active,
    /// The plain button colour.
    Plain,
}

/// Urgent workspaces take the urgent colour, else the focused one takes the
/// active colour.
pub fn workspace_color(w: &WorkspaceInfo) -> (c: WorkspaceColor)
    ensures
        c == (if w.is_urgent {
            WorkspaceColor::Urgent
        } else if w.is_focused {
            WorkspaceColor::Active
        } else {
            WorkspaceColor::Plain
        }),
{
    if w.is_urgent {
        WorkspaceColor::Urgent
    } else if w.is_focused {
        WorkspaceColor::Active
    } else {
        WorkspaceColor::Plain
    }
}

/// A workspace button's label: its name, else its index.
pub fn workspace_label(w: &WorkspaceInfo) -> (s: String)
    ensures
        s@ == (match w.name {
            Some(n) => n@,
            None => crate::text::decimal(w.idx as nat),
        }),
{
    match &w.name {
        Some(n) => n.clone(),
        None => crate::text::decimal_string(w.idx as u32),
    }
}


proof fn lemma_groups_idx_bounded(s: Seq<WorkspaceInfo>, k: int)
    requires
        0 <= k <= 256,
    ensures
        forall|i: int| 0 <= i < idx_groups_below(s, k).len() ==> (#[trigger] idx_groups_below(s, k)[i]).idx < k,
    decreases k,
{
    if k > 0 {
        lemma_groups_idx_bounded(s, k - 1);
        let g = idx_groups_below(s, k - 1);
        let f = s.filter(|w: WorkspaceInfo| w.idx == (k - 1) as u8);
        assert forall|i: int| 0 <= i < f.len() implies (#[trigger] f[i]).idx == (k - 1) as u8 by {
            s.filter_lemma(|w: WorkspaceInfo| w.idx == (k - 1) as u8);
        }
        assert forall|i: int| 0 <= i < idx_groups_below(s, k).len() implies (#[trigger] idx_groups_below(s, k)[i]).idx < k by {
            if i >= g.len() {
                assert(idx_groups_below(s, k)[i] == f[i - g.len()]);
            } else {
                assert(idx_groups_below(s, k)[i] == g[i]);
            }
        }
    }
}

proof fn lemma_groups_sorted(s: Seq<WorkspaceInfo>, k: int)
    requires
        0 <= k <= 256,
    ensures
        forall|i: int, j: int|
            0 <= i <= j < idx_groups_below(s, k).len() ==> (#[trigger] idx_groups_below(s, k)[i]).idx
                <= (#[trigger] idx_groups_below(s, k)[j]).idx,
    decreases k,
{
    if k > 0 {
        lemma_groups_sorted(s, k - 1);
        lemma_groups_idx_bounded(s, k - 1);
        let g = idx_groups_below(s, k - 1);
        let f = s.filter(|w: WorkspaceInfo| w.idx == (k - 1) as u8);
        s.filter_lemma(|w: WorkspaceInfo| w.idx == (k - 1) as u8);
        assert forall|i: int, j: int|
            0 <= i <= j < idx_groups_below(s, k).len() implies (#[trigger] idx_groups_below(s, k)[i]).idx
            <= (#[trigger] idx_groups_below(s, k)[j]).idx by {
            let h = idx_groups_below(s, k);
            if j < g.len() {
                assert(h[i] == g[i] && h[j] == g[j]);
            } else if i < g.len() {
                assert(h[i] == g[i]);
                assert(h[j] == f[j - g.len()]);
                assert(f[j - g.len()].idx == (k - 1) as u8);
            } else {
                assert(h[i] == f[i - g.len()]);
                assert(h[j] == f[j - g.len()]);
            }
        }
    }
}

/// The workspaces a `WorkspacesChanged` event leaves are in increasing index
/// order.
pub proof fn lemma_sorted_by_idx_is_sorted(s: Seq<WorkspaceInfo>)
    ensures
        forall|i: int, j: int|
            0 <= i <= j < sorted_by_idx(s).len() ==> (#[trigger] sorted_by_idx(s)[i]).idx <= (
            #[trigger] sorted_by_idx(s)[j]).idx,
{
    lemma_groups_sorted(s, 256);
}

/// After a window closes, the focused title is never that window's: either
/// no window is focused or a different one is.
pub proof fn lemma_closed_window_loses_focus(
    ws: Seq<WorkspaceInfo>,
    titles: Map<u64, Option<String>>,
    focused: Option<u64>,
    id: u64,
)
    ensures
        after_event(ws, titles, focused, NiriEvent::WindowClosed { id }).2 != Some(id),
        !after_event(ws, titles, focused, NiriEvent::WindowClosed { id }).1.contains_key(id),
{
}

proof fn lemma_position_of_first_id(s: Seq<WorkspaceInfo>, id: u64, i: int)
    requires
        0 <= i <= s.len(),
        forall|j: int| 0 <= j < i ==> (#[trigger] s[j]).id != id,
    ensures
        i <= position_of_id(s, id, i) <= s.len(),
        position_of_id(s, id, i) < s.len() ==> s[position_of_id(s, id, i)].id == id,
        forall|j: int| i <= j < position_of_id(s, id, i) ==> (#[trigger] s[j]).id != id,
    decreases s.len() - i,
{
    if i < s.len() && s[i].id != id {
        lemma_position_of_first_id(s, id, i + 1);
    }
}

/// An urgency change sets the urgency of the first workspace with that id to
/// exactly the new value, whatever it was before, and changes nothing else:
/// no other field of that workspace, no other workspace, no window title and
/// not the focused window. With no workspace of that id nothing changes.
pub proof fn lemma_urgency_change_sets_urgency(
    ws: Seq<WorkspaceInfo>,
    titles: Map<u64, Option<String>>,
    focused: Option<u64>,
    id: u64,
    urgent: bool,
)
    ensures
        ({
            let (t, ti, fo) = after_event(
                ws,
                titles,
                focused,
                NiriEvent::WorkspaceUrgencyChanged { id, urgent },
            );
            &&& ti == titles
            &&& fo == focused
            &&& t.len() == ws.len()
            &&& (forall|i: int| 0 <= i < ws.len() ==> (#[trigger] ws[i]).id != id) ==> t == ws
            &&& forall|p: int|
                0 <= p < ws.len() && (#[trigger] ws[p]).id == id && (forall|j: int|
                    0 <= j < p ==> (#[trigger] ws[j]).id != id) ==> {
                    &&& t[p].is_urgent == urgent
                    &&& t[p].id == ws[p].id && t[p].idx == ws[p].idx && t[p].name == ws[p].name
                    &&& t[p].is_active == ws[p].is_active && t[p].is_focused == ws[p].is_focused
                    &&& forall|i: int| 0 <= i < ws.len() && i != p ==> t[i] == ws[i]
                }
        }),
{
    lemma_position_of_first_id(ws, id, 0);
    let q = position_of_id(ws, id, 0);
    assert forall|p: int|
        0 <= p < ws.len() && (#[trigger] ws[p]).id == id && (forall|j: int|
            0 <= j < p ==> (#[trigger] ws[j]).id != id) implies p == q by {
        if p < q {
            assert(ws[p].id != id);
        }
        if q < p {
            assert(ws[q].id == id);
        }
    }
    if forall|i: int| 0 <= i < ws.len() ==> (#[trigger] ws[i]).id != id {
        if q < ws.len() {
            assert(ws[q].id == id);
        }
    }
}

} // verus!
