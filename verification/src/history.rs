//! Undo and redo of editor actions. Each recorded action remembers which request had the
//! focus; replaying an action under another focus first hands that focus to the caller's
//! `apply_focus`, which loads the request into the editor.
use vstd::prelude::*;

use crate::editor::{reduce, reduce_spec, Action, ActionView, AppModel, ModelView};
use crate::model::{RequestId, RequestIdView};

verus! {

/// How many actions lie between two stored snapshots of the editor.
pub const SNAPSHOT_INTERVAL: usize = 50;

/// How many actions are kept.
pub const DEFAULT_HISTORY_MAX: usize = 500;

/// The request an action was made on, if any.
#[derive(Debug)]
pub enum Focus {
    NoFocus,
    Request(RequestId),
}

impl View for Focus {
    type V = Option<RequestIdView>;

    open spec fn view(&self) -> Option<RequestIdView> {
        match self {
            Focus::NoFocus => None,
            Focus::Request(id) => Some(id@),
        }
    }
}

impl Clone for Focus {
    fn clone(&self) -> (r: Self)
        ensures
            r@ == self@,
    {
        match self {
            Focus::NoFocus => Focus::NoFocus,
            Focus::Request(id) => Focus::Request(id.clone()),
        }
    }
}

impl PartialEq for Focus {
    fn eq(&self, other: &Self) -> (r: bool) {
        match (self, other) {
            (Focus::NoFocus, Focus::NoFocus) => true,
            (Focus::Request(a), Focus::Request(b)) => a == b,
            _ => false,
        }
    }
}

impl Eq for Focus {

}

impl vstd::std_specs::cmp::PartialEqSpecImpl for Focus {
    open spec fn obeys_eq_spec() -> bool {
        true
    }

    open spec fn eq_spec(&self, other: &Focus) -> bool {
        self@ == other@
    }
}

impl Focus {
    pub fn from_selection(selection: Option<&RequestId>) -> (r: Self)
        ensures
            r@ == match selection {
                Some(id) => Some(id@),
                None => None::<RequestIdView>,
            },
    {
        match selection {
            Some(id) => Focus::Request(id.clone()),
            None => Focus::NoFocus,
        }
    }

    pub fn request(&self) -> (r: Option<&RequestId>)
        ensures
            match r {
                Some(id) => self@ == Some(id@),
                None => self@ is None,
            },
    {
        match self {
            Focus::NoFocus => None,
            Focus::Request(id) => Some(id),
        }
    }

    pub fn into_request(self) -> (r: Option<RequestId>)
        ensures
            match r {
                Some(id) => self@ == Some(id@),
                None => self@ is None,
            },
    {
        match self {
            Focus::NoFocus => None,
            Focus::Request(id) => Some(id),
        }
    }
}

#[derive(Debug)]
struct HistoryEntry {
    action: Action,
    focus: Focus,
}

#[derive(Debug)]
struct Snapshot {
    index: usize,
    model: AppModel,
    focus: Focus,
}

/// The editor and focus a replay arrives at.
#[derive(Debug)]
pub struct HistoryResult {
    pub model: AppModel,
    pub focus: Focus,
}

/// A recorded action with its focus.
pub type EntryView = (ActionView, Option<RequestIdView>);

/// A stored editor: the number of actions it follows, the editor and the focus.
pub type SnapshotView = (nat, ModelView, Option<RequestIdView>);

/// The history as plain values.
#[verifier::ext_equal]
pub ghost struct HistoryView {
    pub entries: Seq<EntryView>,
    pub cursor: nat,
    pub snapshots: Seq<SnapshotView>,
    pub max: nat,
}

#[derive(Debug)]
pub struct History {
    entries: Vec<HistoryEntry>,
    cursor: usize,
    snapshots: Vec<Snapshot>,
    max: usize,
}

spec fn entry_views(v: Seq<HistoryEntry>) -> Seq<EntryView> {
    v.map_values(|e: HistoryEntry| (e.action@, e.focus@))
}

spec fn snapshot_views(v: Seq<Snapshot>) -> Seq<SnapshotView> {
    v.map_values(|s: Snapshot| (s.index as nat, s.model@, s.focus@))
}

impl View for History {
    type V = HistoryView;

    closed spec fn view(&self) -> HistoryView {
        HistoryView {
            entries: entry_views(self.entries@),
            cursor: self.cursor as nat,
            snapshots: snapshot_views(self.snapshots@),
            max: self.max as nat,
        }
    }
}

/// A history is consistent when its cursor lies within the actions and the snapshots start
/// at the first action and follow each other in order within the actions.
pub open spec fn history_wf(h: HistoryView) -> bool {
    &&& h.cursor <= h.entries.len()
    &&& h.snapshots.len() > 0
    &&& h.snapshots[0].0 == 0
    &&& forall|i: int, j: int| 0 <= i < j < h.snapshots.len() ==> h.snapshots[i].0 < h.snapshots[j].0
    &&& forall|i: int| 0 <= i < h.snapshots.len() ==> h.snapshots[i].0 <= h.entries.len()
    &&& h.max > 0
}

/// How many snapshots, from the first, were taken at or before `c`.
pub open spec fn count_upto(s: Seq<SnapshotView>, c: nat) -> nat
    decreases s.len(),
{
    if s.len() == 0 {
        0
    } else if s[0].0 <= c {
        1 + count_upto(s.drop_first(), c)
    } else {
        0
    }
}

/// The history after recording an action at the cursor: actions after the cursor are
/// dropped, and every `SNAPSHOT_INTERVAL` actions the editor is stored.
pub open spec fn record_spec(h: HistoryView, a: ActionView, f: Option<RequestIdView>, m: ModelView) -> HistoryView {
    let kept = h.snapshots.take(count_upto(h.snapshots, h.cursor) as int);
    let cursor = h.cursor + 1;
    HistoryView {
        entries: h.entries.take(h.cursor as int).push((a, f)),
        cursor,
        snapshots: if cursor % (SNAPSHOT_INTERVAL as nat) == 0 {
            kept.push((cursor, m, f))
        } else {
            kept
        },
        max: h.max,
    }
}

/// The history after an undo: one action back, when there is one.
pub open spec fn undo_spec(h: HistoryView) -> Option<HistoryView> {
    if h.cursor == 0 {
        None
    } else {
        Some(HistoryView { cursor: (h.cursor - 1) as nat, ..h })
    }
}

/// The history after a redo: one action forward, when there is one.
pub open spec fn redo_spec(h: HistoryView) -> Option<HistoryView> {
    if h.cursor >= h.entries.len() {
        None
    } else {
        Some(HistoryView { cursor: h.cursor + 1, ..h })
    }
}

/// Index of the last snapshot taken at or before `target`.
pub open spec fn snapshot_for(s: Seq<SnapshotView>, target: nat) -> int
    decreases s.len(),
{
    if s.len() == 0 {
        -1
    } else if s.last().0 <= target {
        s.len() - 1
    } else {
        snapshot_for(s.drop_last(), target)
    }
}

/// `apply_focus` can turn editor `m` into `m1` when handed focus `focus`.
pub open spec fn focus_step<F: Fn(&Focus, AppModel) -> AppModel>(
    apply_focus: F,
    focus: Option<RequestIdView>,
    m: ModelView,
    m1: ModelView,
) -> bool {
    exists|fo: Focus, mm: AppModel, out: AppModel|
        #![trigger call_ensures(apply_focus, (&fo, mm), out)]
        fo@ == focus && mm@ == m && out@ == m1 && call_ensures(apply_focus, (&fo, mm), out)
}

/// One recorded action `e` can take editor `mid` under focus `cur` to editor `m`: the
/// focus is applied first when it differs, then the action.
pub open spec fn step_ok<F: Fn(&Focus, AppModel) -> AppModel>(
    apply_focus: F,
    e: EntryView,
    mid: ModelView,
    cur: Option<RequestIdView>,
    m: ModelView,
) -> bool {
    if e.1 != cur {
        exists|m1: ModelView|
            #![trigger focus_step(apply_focus, e.1, mid, m1)]
            focus_step(apply_focus, e.1, mid, m1) && m == reduce_spec(m1, e.0)
    } else {
        m == reduce_spec(mid, e.0)
    }
}

/// The focus in force before action `i` of a replay that starts under focus `f0`.
pub open spec fn focus_before(f0: Option<RequestIdView>, entries: Seq<EntryView>, i: int) -> Option<RequestIdView> {
    if i == 0 {
        f0
    } else {
        entries[i - 1].1
    }
}

/// `trace` lists the editors a replay of `entries` from `m0` under focus `f0` passes
/// through, one step per action.
pub open spec fn valid_trace<F: Fn(&Focus, AppModel) -> AppModel>(
    apply_focus: F,
    m0: ModelView,
    f0: Option<RequestIdView>,
    entries: Seq<EntryView>,
    trace: Seq<ModelView>,
) -> bool {
    &&& trace.len() == entries.len() + 1
    &&& trace[0] == m0
    &&& forall|i: int|
        0 <= i < entries.len() ==> #[trigger] step_ok(
            apply_focus,
            entries[i],
            trace[i],
            focus_before(f0, entries, i),
            trace[i + 1],
        )
}

/// Replaying `entries` from editor `m0` under focus `f0` can end at editor `m` under focus
/// `f`: before each action whose focus differs from the current one the focus is applied,
/// then the action is.
pub open spec fn replays<F: Fn(&Focus, AppModel) -> AppModel>(
    apply_focus: F,
    m0: ModelView,
    f0: Option<RequestIdView>,
    entries: Seq<EntryView>,
    m: ModelView,
    f: Option<RequestIdView>,
) -> bool {
    &&& f == focus_before(f0, entries, entries.len() as int)
    &&& exists|trace: Seq<ModelView>|
        #[trigger] valid_trace(apply_focus, m0, f0, entries, trace) && trace.last() == m
}

/// The editor and focus reached at `target` actions: replayed from the last snapshot taken
/// at or before `target`.
pub open spec fn replayed<F: Fn(&Focus, AppModel) -> AppModel>(
    apply_focus: F,
    h: HistoryView,
    target: nat,
    m: ModelView,
    f: Option<RequestIdView>,
) -> bool {
    let k = snapshot_for(h.snapshots, target);
    let s = h.snapshots[k];
    replays(apply_focus, s.1, s.2, h.entries.subrange(s.0 as int, target as int), m, f)
}

proof fn lemma_snapshot_for(s: Seq<SnapshotView>, target: nat)
    requires
        s.len() > 0,
        s[0].0 == 0,
    ensures
        0 <= snapshot_for(s, target) < s.len(),
        s[snapshot_for(s, target)].0 <= target,
    decreases s.len(),
{
    if s.len() > 1 && s.last().0 > target {
        lemma_snapshot_for(s.drop_last(), target);
    }
}

proof fn lemma_count_upto(s: Seq<SnapshotView>, c: nat)
    ensures
        count_upto(s, c) <= s.len(),
        forall|i: int| 0 <= i < count_upto(s, c) ==> s[i].0 <= c,
        count_upto(s, c) < s.len() ==> s[count_upto(s, c) as int].0 > c,
    decreases s.len(),
{
    if s.len() > 0 && s[0].0 <= c {
        lemma_count_upto(s.drop_first(), c);
        assert forall|i: int| 0 < i < s.len() implies s[i] == s.drop_first()[i - 1] by {}
    }
}


impl History {
    /// A history with no actions, starting from `initial`.
    pub fn new(initial: AppModel) -> (h: Self)
        ensures
            history_wf(h@),
            h@ == (HistoryView {
                entries: Seq::empty(),
                cursor: 0,
                snapshots: seq![(0nat, initial@, None::<RequestIdView>)],
                max: DEFAULT_HISTORY_MAX as nat,
            }),
    {
        let mut snapshots: Vec<Snapshot> = Vec::new();
        snapshots.push(Snapshot { index: 0, model: initial, focus: Focus::NoFocus });
        let h = History { entries: Vec::new(), cursor: 0, snapshots, max: DEFAULT_HISTORY_MAX };
        assert(h@ =~= HistoryView {
            entries: Seq::empty(),
            cursor: 0,
            snapshots: seq![(0nat, initial@, None::<RequestIdView>)],
            max: DEFAULT_HISTORY_MAX as nat,
        });
        h
    }

    /// Records `action`, made under `focus`, that turned the editor into `model`.
    pub fn record(&mut self, action: Action, focus: Focus, model: &AppModel)
        requires
            history_wf(old(self)@),
        ensures
            history_wf(final(self)@),
            final(self)@ == record_spec(old(self)@, action@, focus@, model@),
    {
        let ghost h = self@;
        if self.cursor < self.entries.len() {
            self.entries.truncate(self.cursor);
        }
        assert(entry_views(self.entries@) =~= h.entries.take(h.cursor as int));
        proof {
            lemma_count_upto(h.snapshots, h.cursor);
        }
        let mut k: usize = 0;
        while k < self.snapshots.len() && self.snapshots[k].index <= self.cursor
            invariant
                k <= self.snapshots@.len(),
                snapshot_views(self.snapshots@) == h.snapshots,
                self.cursor == h.cursor,
                forall|i: int| 0 <= i < k ==> h.snapshots[i].0 <= h.cursor,
                count_upto(h.snapshots, h.cursor) <= h.snapshots.len(),
                forall|i: int| 0 <= i < count_upto(h.snapshots, h.cursor) ==> h.snapshots[i].0 <= h.cursor,
                count_upto(h.snapshots, h.cursor) < h.snapshots.len() ==> h.snapshots[count_upto(h.snapshots, h.cursor) as int].0 > h.cursor,
                history_wf(h),
                k <= count_upto(h.snapshots, h.cursor),
            decreases self.snapshots.len() - k,
        {
            assert(h.snapshots[k as int].0 == self.snapshots@[k as int].index);
            k = k + 1;
        }
        proof {
            if k < count_upto(h.snapshots, h.cursor) {
                assert(h.snapshots[k as int].0 > h.cursor) by {
                    assert(h.snapshots[k as int].0 == self.snapshots@[k as int].index);
                }
            }
        }
        self.snapshots.truncate(k);
        assert(snapshot_views(self.snapshots@) =~= h.snapshots.take(count_upto(h.snapshots, h.cursor) as int));
        let ghost fv = focus@;
        let snapshot_focus = focus.clone();
        self.entries.push(HistoryEntry { action, focus });
        self.cursor = self.entries.len();
        assert(entry_views(self.entries@) =~= h.entries.take(h.cursor as int).push((action@, fv)));
        if self.cursor % SNAPSHOT_INTERVAL == 0 {
            let ghost before = self.snapshots@;
            self.snapshots.push(Snapshot { index: self.cursor, model: model.clone(), focus: snapshot_focus });
            assert(snapshot_views(self.snapshots@) =~= snapshot_views(before).push(
                (self.cursor as nat, model@, fv),
            ));
        }
        assert(self@ =~= record_spec(h, action@, fv, model@));
    }
}


/// What trimming leaves: the newest `max` actions, with the editor the dropped ones lead to
/// as the only snapshot.
pub open spec fn trimmed<F: Fn(&Focus, AppModel) -> AppModel>(apply_focus: F, h: HistoryView, t: HistoryView) -> bool {
    let overflow = (h.entries.len() - h.max) as nat;
    &&& t.entries == h.entries.skip(overflow as int)
    &&& t.cursor == (if h.cursor >= overflow {
        (h.cursor - overflow) as nat
    } else {
        0nat
    })
    &&& t.max == h.max
    &&& t.snapshots.len() == 1
    &&& t.snapshots[0].0 == 0
    &&& replayed(apply_focus, h, overflow, t.snapshots[0].1, t.snapshots[0].2)
}

impl History {
    /// Index of the last snapshot taken at or before `target`.
    fn snapshot_index(&self, target: usize) -> (best: usize)
        requires
            history_wf(self@),
        ensures
            best as int == snapshot_for(self@.snapshots, target as nat),
            best < self@.snapshots.len(),
            self@.snapshots[best as int].0 <= target,
    {
        let ghost h = self@;
        let mut best: usize = 0;
        let mut i: usize = 1;
        assert(h.snapshots.take(1).last() == h.snapshots[0]);
        while i < self.snapshots.len()
            invariant
                1 <= i <= h.snapshots.len(),
                h == self@,
                history_wf(h),
                best < i,
                best as int == snapshot_for(h.snapshots.take(i as int), target as nat),
            decreases self.snapshots.len() - i,
        {
            let ghost t = h.snapshots.take(i + 1);
            assert(t.drop_last() =~= h.snapshots.take(i as int));
            assert(t.last() == h.snapshots[i as int]);
            assert(h.snapshots[i as int].0 == self.snapshots@[i as int].index);
            if self.snapshots[i].index <= target {
                best = i;
            }
            i = i + 1;
        }
        assert(h.snapshots.take(h.snapshots.len() as int) =~= h.snapshots);
        proof {
            lemma_snapshot_for(h.snapshots, target as nat);
        }
        best
    }

    /// Replays the actions up to `target` from the last snapshot taken at or before it.
    fn replay_to<F: Fn(&Focus, AppModel) -> AppModel>(&self, target: usize, apply_focus: F) -> (r: HistoryResult)
        requires
            history_wf(self@),
            target <= self@.entries.len(),
            forall|fo: &Focus, m: AppModel| call_requires(apply_focus, (fo, m)),
        ensures
            replayed(apply_focus, self@, target as nat, r.model@, r.focus@),
    {
        let ghost h = self@;
        let best = self.snapshot_index(target);
        let snap = &self.snapshots[best];
        let ghost sv = h.snapshots[best as int];
        assert(sv.0 == snap.index);
        let mut model = snap.model.clone();
        let mut current_focus = snap.focus.clone();
        let mut last_focus = current_focus.clone();
        let mut j: usize = snap.index;
        let ghost mut trace: Seq<ModelView> = seq![model@];
        assert(h.entries.subrange(sv.0 as int, j as int) =~= Seq::<EntryView>::empty());
        while j < target
            invariant
                h == self@,
                sv.0 <= j <= target <= h.entries.len(),
                valid_trace(apply_focus, sv.1, sv.2, h.entries.subrange(sv.0 as int, j as int), trace),
                trace.last() == model@,
                current_focus@ == focus_before(sv.2, h.entries.subrange(sv.0 as int, j as int), j - sv.0),
                last_focus@ == current_focus@,
                forall|fo: &Focus, m: AppModel| call_requires(apply_focus, (fo, m)),
            decreases target - j,
        {
            let ghost prev = h.entries.subrange(sv.0 as int, j as int);
            let ghost e_all = h.entries.subrange(sv.0 as int, j + 1);
            let ghost n = prev.len() as int;
            assert(e_all.drop_last() =~= prev);
            let entry = &self.entries[j];
            assert(e_all[n] == (entry.action@, entry.focus@));
            let ghost mid = model@;
            let ghost cur = current_focus@;
            let ghost mut m1 = model@;
            if !(entry.focus == current_focus) {
                current_focus = entry.focus.clone();
                let ghost mm = model;
                model = apply_focus(&current_focus, model);
                proof {
                    m1 = model@;
                }
                assert(focus_step(apply_focus, entry.focus@, mid, m1));
            }
            let (next, _effects) = reduce(model, entry.action.clone());
            model = next;
            last_focus = current_focus.clone();
            proof {
                let t2 = trace.push(model@);
                assert(step_ok(apply_focus, e_all[n], t2[n], focus_before(sv.2, e_all, n), t2[n + 1]));
                assert forall|i: int| 0 <= i < e_all.len() implies #[trigger] step_ok(
                    apply_focus,
                    e_all[i],
                    t2[i],
                    focus_before(sv.2, e_all, i),
                    t2[i + 1],
                ) by {
                    if i < n {
                        assert(e_all[i] == prev[i]);
                        assert(focus_before(sv.2, e_all, i) == focus_before(sv.2, prev, i));
                        assert(step_ok(apply_focus, prev[i], trace[i], focus_before(sv.2, prev, i), trace[i + 1]));
                    }
                }
                assert(valid_trace(apply_focus, sv.1, sv.2, e_all, t2));
                trace = t2;
            }
            j = j + 1;
        }
        assert(valid_trace(apply_focus, sv.1, sv.2, h.entries.subrange(sv.0 as int, target as int), trace));
        HistoryResult { model, focus: last_focus }
    }

    /// Steps one action back and gives the editor and focus there; `None` when there is
    /// nothing to undo.
    pub fn undo<F: Fn(&Focus, AppModel) -> AppModel>(&mut self, apply_focus: F) -> (r: Option<HistoryResult>)
        requires
            history_wf(old(self)@),
            forall|fo: &Focus, m: AppModel| call_requires(apply_focus, (fo, m)),
        ensures
            history_wf(final(self)@),
            match undo_spec(old(self)@) {
                None => r is None && final(self)@ == old(self)@,
                Some(h) => final(self)@ == h && (r matches Some(res) && replayed(
                    apply_focus,
                    h,
                    h.cursor,
                    res.model@,
                    res.focus@,
                )),
            },
    {
        if self.cursor == 0 {
            return None;
        }
        self.cursor = self.cursor - 1;
        assert(self@ =~= undo_spec(old(self)@)->0);
        Some(self.replay_to(self.cursor, apply_focus))
    }

    /// Steps one action forward and gives the editor and focus there; `None` when there is
    /// nothing to redo.
    pub fn redo<F: Fn(&Focus, AppModel) -> AppModel>(&mut self, apply_focus: F) -> (r: Option<HistoryResult>)
        requires
            history_wf(old(self)@),
            forall|fo: &Focus, m: AppModel| call_requires(apply_focus, (fo, m)),
        ensures
            history_wf(final(self)@),
            match redo_spec(old(self)@) {
                None => r is None && final(self)@ == old(self)@,
                Some(h) => final(self)@ == h && (r matches Some(res) && replayed(
                    apply_focus,
                    h,
                    h.cursor,
                    res.model@,
                    res.focus@,
                )),
            },
    {
        if self.cursor >= self.entries.len() {
            return None;
        }
        self.cursor = self.cursor + 1;
        assert(self@ =~= redo_spec(old(self)@)->0);
        Some(self.replay_to(self.cursor, apply_focus))
    }

    /// Drops the oldest actions beyond `max`, keeping the editor they lead to as the start.
    pub fn trim_if_needed<F: Fn(&Focus, AppModel) -> AppModel>(&mut self, apply_focus: F)
        requires
            history_wf(old(self)@),
            forall|fo: &Focus, m: AppModel| call_requires(apply_focus, (fo, m)),
        ensures
            history_wf(final(self)@),
            old(self)@.entries.len() <= old(self)@.max ==> final(self)@ == old(self)@,
            old(self)@.entries.len() > old(self)@.max ==> trimmed(apply_focus, old(self)@, final(self)@),
    {
        if self.entries.len() <= self.max {
            return;
        }
        let ghost h = self@;
        let overflow = self.entries.len() - self.max;
        let base = self.replay_to(overflow, apply_focus);
        let rest = self.entries.split_off(overflow);
        self.entries = rest;
        self.cursor = if self.cursor >= overflow {
            self.cursor - overflow
        } else {
            0
        };
        self.snapshots.clear();
        self.snapshots.push(Snapshot { index: 0, model: base.model, focus: base.focus });
        assert(entry_views(self.entries@) =~= h.entries.skip(overflow as int));
        assert(snapshot_views(self.snapshots@)[0].0 == 0);
    }
}

/// Undoing and then redoing brings the history back to where it was.
pub proof fn lemma_undo_then_redo(h: HistoryView)
    requires
        history_wf(h),
        h.cursor > 0,
    ensures
        undo_spec(h) matches Some(u) && redo_spec(u) == Some(h),
{
    let u = undo_spec(h)->0;
    assert(redo_spec(u)->0 =~= h);
}

/// Redoing and then undoing brings the history back to where it was.
pub proof fn lemma_redo_then_undo(h: HistoryView)
    requires
        history_wf(h),
        h.cursor < h.entries.len(),
    ensures
        redo_spec(h) matches Some(u) && undo_spec(u) == Some(h),
{
    let u = redo_spec(h)->0;
    assert(undo_spec(u)->0 =~= h);
}

/// The history after `k` undo steps in a row, `None` once one of them finds nothing to undo.
pub open spec fn undo_times(h: HistoryView, k: nat) -> Option<HistoryView>
    decreases k,
{
    if k == 0 {
        Some(h)
    } else {
        match undo_times(h, (k - 1) as nat) {
            Some(u) => undo_spec(u),
            None => None,
        }
    }
}

/// The history after `k` redo steps in a row, `None` once one of them finds nothing to redo.
pub open spec fn redo_times(h: HistoryView, k: nat) -> Option<HistoryView>
    decreases k,
{
    if k == 0 {
        Some(h)
    } else {
        match redo_times(h, (k - 1) as nat) {
            Some(u) => redo_spec(u),
            None => None,
        }
    }
}

proof fn lemma_undo_times(h: HistoryView, k: nat)
    requires
        k <= h.cursor,
    ensures
        undo_times(h, k) == Some(HistoryView { cursor: (h.cursor - k) as nat, ..h }),
    decreases k,
{
    if k > 0 {
        lemma_undo_times(h, (k - 1) as nat);
    }
}

proof fn lemma_redo_times(h: HistoryView, k: nat)
    requires
        h.cursor + k <= h.entries.len(),
    ensures
        redo_times(h, k) == Some(HistoryView { cursor: h.cursor + k, ..h }),
    decreases k,
{
    if k > 0 {
        lemma_redo_times(h, (k - 1) as nat);
    }
}

/// What `trim_if_needed` leaves: a history of at most `max` actions is kept as it is;
/// of a longer one exactly `max` actions remain and the cursor moves back by the number
/// dropped (stopping at the start). Either way undo then succeeds exactly as many times in a
/// row as the cursor says, and redo exactly as many times as the actions after it.
pub proof fn lemma_trim_undo_redo_counts<F: Fn(&Focus, AppModel) -> AppModel>(
    apply_focus: F,
    h: HistoryView,
    t: HistoryView,
)
    requires
        history_wf(h),
        h.entries.len() <= h.max ==> t == h,
        h.entries.len() > h.max ==> trimmed(apply_focus, h, t),
    ensures
        t.entries.len() == (if h.entries.len() <= h.max {
            h.entries.len()
        } else {
            h.max
        }),
        t.cursor == (if h.entries.len() <= h.max {
            h.cursor
        } else if h.cursor >= h.entries.len() - h.max {
            (h.cursor - (h.entries.len() - h.max)) as nat
        } else {
            0
        }),
        undo_times(t, t.cursor) is Some,
        undo_times(t, t.cursor + 1) is None,
        redo_times(t, (t.entries.len() - t.cursor) as nat) is Some,
        redo_times(t, (t.entries.len() - t.cursor + 1) as nat) is None,
{
    assert(t.cursor <= t.entries.len());
    lemma_undo_times(t, t.cursor);
    lemma_redo_times(t, (t.entries.len() - t.cursor) as nat);
    assert(undo_times(t, t.cursor + 1) == (match undo_times(t, t.cursor) {
        Some(u) => undo_spec(u),
        None => None,
    }));
    assert(redo_times(t, (t.entries.len() - t.cursor + 1) as nat) == (match redo_times(
        t,
        (t.entries.len() - t.cursor) as nat,
    ) {
        Some(u) => redo_spec(u),
        None => None,
    }));
}

/// Recording an action leaves nothing to redo, keeps what was before the cursor, and puts
/// the action last; a consistent history stays consistent.
pub proof fn lemma_record_discards_redo(h: HistoryView, a: ActionView, f: Option<RequestIdView>, m: ModelView)
    requires
        history_wf(h),
    ensures
        redo_spec(record_spec(h, a, f, m)) is None,
        record_spec(h, a, f, m).entries.take(h.cursor as int) == h.entries.take(h.cursor as int),
        record_spec(h, a, f, m).entries.last() == (a, f),
        undo_spec(record_spec(h, a, f, m)) matches Some(u) && u.cursor == h.cursor,
{
    let r = record_spec(h, a, f, m);
    assert(r.entries.take(h.cursor as int) =~= h.entries.take(h.cursor as int));
}

} // verus!
