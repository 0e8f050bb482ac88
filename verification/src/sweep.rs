//! The sweep: worktrees whose work is done are offered for removal, and those chosen are removed
//! one after the other.

use vstd::prelude::*;
use vstd::string::StringExecFns;
use crate::app::App;
use crate::order;
use crate::paths;
use crate::picker;
use crate::text;
use crate::types::{FetchRequest, GitStatus, RemoveRequest, WorktreeInfo};

verus! {

/// Why a worktree is offered.
#[derive(Clone, Copy, PartialEq, Eq, Structural, Debug)]
pub enum SweepReason {
    PrMerged,
    PrClosed,
    UpstreamGone,
    MergedLocally,
}

/// A worktree on offer.
#[derive(Debug)]
pub struct SweepCandidate {
    pub handle: String,
    pub path: String,
    pub reason: SweepReason,
    pub is_dirty: bool,
    pub selected: bool,
}

/// The sweep modal.
#[derive(Debug)]
pub struct SweepState {
    pub candidates: Vec<SweepCandidate>,
    pub cursor: usize,
}

/// How far a sweep has come: the number of the worktree it is at, and its handle.
#[derive(Debug)]
pub struct SweepProgress {
    pub total: usize,
    pub current: usize,
    pub handle: String,
}

/// Why a worktree is offered, if it is: its pull request was merged or closed, or its upstream
/// branch is gone, or, where it has no pull request, it has no upstream and nothing unmerged.
pub open spec fn reason_for(
    w: WorktreeInfo,
    gone: Seq<String>,
    has_upstream: bool,
) -> Option<SweepReason> {
    if w.pr_info matches Some(pr) && pr.state@ == "MERGED"@ {
        Some(SweepReason::PrMerged)
    } else if w.pr_info matches Some(pr) && pr.state@ == "CLOSED"@ {
        Some(SweepReason::PrClosed)
    } else if order::among(gone, w.branch@) {
        Some(SweepReason::UpstreamGone)
    } else if w.pr_info is None && !has_upstream && !w.has_unmerged {
        Some(SweepReason::MergedLocally)
    } else {
        None
    }
}

/// What a worktree makes for a candidate: none where it is the main one or there is no reason; a
/// clean one is selected from the start.
pub open spec fn candidate(
    gone: Seq<String>,
    statuses: Map<Seq<Seq<char>>, GitStatus>,
) -> spec_fn(WorktreeInfo) -> Option<SweepCandidate> {
    |w: WorktreeInfo|
        {
            let path = paths::components(w.path@);
            let known = statuses.contains_key(path);
            let is_dirty = known && statuses[path].is_dirty;
            let has_upstream = known && statuses[path].has_upstream;
            if w.is_main {
                None
            } else {
                match reason_for(w, gone, has_upstream) {
                    Some(reason) => Some(
                        SweepCandidate {
                            handle: w.handle,
                            path: w.path,
                            reason,
                            is_dirty,
                            selected: !is_dirty,
                        },
                    ),
                    None => None,
                }
            }
        }
}

/// Whether no dirty candidate is selected.
pub open spec fn spares_dirty(candidates: Seq<SweepCandidate>) -> bool {
    forall|i: int|
        0 <= i < candidates.len() && (#[trigger] candidates[i]).is_dirty
            ==> !candidates[i].selected
}

impl SweepState {
    /// Whether the cursor stands on a candidate, as long as there is one, and no dirty candidate is
    /// selected.
    pub open spec fn wf(self) -> bool {
        picker::in_list(self.cursor, self.candidates@.len()) && spares_dirty(self.candidates@)
    }
}

/// The candidates with the one at the cursor toggled; a dirty one stays as it is.
pub open spec fn toggled_at(candidates: Seq<SweepCandidate>, cursor: usize) -> Seq<SweepCandidate> {
    if cursor < candidates.len() && !candidates[cursor as int].is_dirty {
        candidates.update(
            cursor as int,
            SweepCandidate {
                selected: !candidates[cursor as int].selected,
                ..candidates[cursor as int]
            },
        )
    } else {
        candidates
    }
}

/// A key of the sweep modal.
pub enum SweepKey {
    Toggle,
    Up,
    Down,
}

/// The sweep modal, as it reads.
pub struct SweepView {
    pub candidates: Seq<SweepCandidate>,
    pub cursor: usize,
}

impl SweepState {
    /// The modal, as it reads.
    pub open spec fn view(&self) -> SweepView {
        SweepView { candidates: self.candidates@, cursor: self.cursor }
    }
}

impl SweepView {
    /// The modal after a key.
    pub open spec fn pressed(self, key: SweepKey) -> SweepView {
        match key {
            SweepKey::Toggle => SweepView {
                candidates: toggled_at(self.candidates, self.cursor),
                ..self
            },
            SweepKey::Up => SweepView { cursor: picker::stepped_up(self.cursor), ..self },
            SweepKey::Down => SweepView {
                cursor: picker::stepped_down(self.cursor, self.candidates.len()),
                ..self
            },
        }
    }

    /// The modal after a row of keys.
    pub open spec fn after_keys(self, keys: Seq<SweepKey>) -> SweepView
        decreases keys.len(),
    {
        if keys.len() == 0 {
            self
        } else {
            self.after_keys(keys.drop_last()).pressed(keys.last())
        }
    }
}

/// A worktree that a sweep removes.
#[derive(Debug)]
pub struct SweepTarget {
    pub handle: String,
    pub path: String,
}

/// What a candidate makes for a target: none where it is not selected.
pub open spec fn target() -> spec_fn(SweepCandidate) -> Option<SweepTarget> {
    |c: SweepCandidate|
        if c.selected {
            Some(SweepTarget { handle: c.handle, path: c.path })
        } else {
            None
        }
}

/// A sweep under way: its targets, how many of them have been dealt with, and how many of those
/// could not be removed.
#[derive(Debug)]
pub struct SweepJob {
    pub targets: Vec<SweepTarget>,
    pub done: usize,
    pub failures: usize,
}

/// The next removal of a sweep, with its number and the number of all.
#[derive(Debug)]
pub struct SweepStep {
    pub current: usize,
    pub total: usize,
    pub request: RemoveRequest,
}

/// How many of the removals failed.
pub open spec fn failed(removals: Seq<bool>) -> nat
    decreases removals.len(),
{
    if removals.len() == 0 {
        0
    } else {
        failed(removals.drop_last()) + if removals.last() {
            0nat
        } else {
            1nat
        }
    }
}

/// What is said of a sweep that could not remove everything.
pub open spec fn sweep_failure(removed: nat, total: nat) -> Seq<char> {
    "Removed "@ + text::decimal_text(removed) + "/"@ + text::decimal_text(total) + " worktrees"@
}

impl SweepJob {
    /// No more failed than were dealt with, and no more were dealt with than there are.
    pub open spec fn wf(self) -> bool {
        self.failures <= self.done <= self.targets@.len()
    }

    /// Whether everything has been dealt with.
    pub open spec fn finished(self) -> bool {
        self.done == self.targets@.len()
    }

    /// Whether the job stands where `removals` have been its outcomes so far.
    pub open spec fn after(self, removals: Seq<bool>) -> bool {
        self.done == removals.len() && self.failures == failed(removals)
    }

    /// The next removal, which the caller attempts and then records; `None` at the end. It is forced,
    /// and the branch goes with the worktree.
    pub fn step(&self) -> (r: Option<SweepStep>)
        requires
            self.wf(),
        ensures
            r is None <==> self.finished(),
            r matches Some(step) ==> {
                &&& step.current == self.done + 1
                &&& step.total == self.targets@.len()
                &&& step.request == (RemoveRequest {
                    handle: self.targets@[self.done as int].handle,
                    path: self.targets@[self.done as int].path,
                    force: true,
                    keep_branch: false,
                })
            },
    {
        if self.done < self.targets.len() {
            Some(
                SweepStep {
                    current: self.done + 1,
                    total: self.targets.len(),
                    request: RemoveRequest {
                        handle: self.targets[self.done].handle.clone(),
                        path: self.targets[self.done].path.clone(),
                        force: true,
                        keep_branch: false,
                    },
                },
            )
        } else {
            None
        }
    }

    /// Records the outcome of a removal: a failure is counted, and the sweep goes on.
    pub fn record(&mut self, removed: bool)
        requires
            old(self).wf(),
            !old(self).finished(),
        ensures
            final(self).wf(),
            final(self).targets == old(self).targets,
            final(self).done == old(self).done + 1,
            final(self).failures == old(self).failures + if removed {
                0int
            } else {
                1int
            },
            forall|removals: Seq<bool>| #[trigger]
                old(self).after(removals) ==> final(self).after(removals.push(removed)),
    {
        assert(self.done < self.targets.len());
        self.done = self.done + 1;
        if !removed {
            self.failures = self.failures + 1;
        }
        proof {
            assert forall|removals: Seq<bool>| #[trigger] old(self).after(removals) implies self.after(
                removals.push(removed),
            ) by {
                assert(removals.push(removed).drop_last() == removals);
            }
        }
    }

    /// The outcome of a finished sweep: how many were removed, unless all were.
    pub fn outcome(&self) -> (r: Result<(), String>)
        requires
            self.wf(),
            self.finished(),
        ensures
            r is Ok <==> self.failures == 0,
            r matches Err(message) ==> message@ == sweep_failure(
                (self.targets@.len() - self.failures) as nat,
                self.targets@.len(),
            ),
    {
        if self.failures == 0 {
            return Ok(());
        }
        let total: usize = self.targets.len();
        let removed: usize = total - self.failures;
        let mut message: String = "Removed ".to_owned();
        message.append(text::decimal(removed as u64).as_str());
        message.append("/");
        message.append(text::decimal(total as u64).as_str());
        message.append(" worktrees");
        Err(message)
    }
}

impl App {
    /// Opens the sweep modal on the worktrees in view. `gone` holds the branches whose upstream is
    /// gone, where git could tell. Where no worktree is in view, a fetch is started, and the modal
    /// is empty.
    pub fn start_sweep(&mut self, gone: Option<Vec<String>>) -> (r: Option<FetchRequest>)
        ensures
            ({
                let gone_branches = match gone {
                    Some(branches) => branches@,
                    None => Seq::empty(),
                };
                &&& final(self).pending_sweep matches Some(sweep)
                &&& sweep.cursor == 0
                &&& sweep.candidates@ == old(self).worktrees@.filter_map(
                    candidate(gone_branches, old(self).git_statuses@),
                )
                &&& old(self).worktrees@.len() == 0 ==> sweep.candidates@.len() == 0
                &&& sweep.wf()
            }),
            *final(self) == (App {
                pending_sweep: final(self).pending_sweep,
                is_worktree_fetching: old(self).is_worktree_fetching || old(self).worktrees@.len()
                    == 0,
                ..*old(self)
            }),
            r is Some <==> old(self).worktrees@.len() == 0 && !old(self).is_worktree_fetching,
            r matches Some(request) ==> old(self).fetches(request),
    {
        let mut request: Option<FetchRequest> = None;
        if self.worktrees.is_empty() {
            request = self.spawn_worktree_fetch();
        }
        let gone: Vec<String> = match gone {
            Some(branches) => branches,
            None => Vec::new(),
        };
        let ghost f = candidate(gone@, self.git_statuses@);
        let mut candidates: Vec<SweepCandidate> = Vec::new();
        let mut i: usize = 0;
        while i < self.worktrees.len()
            invariant
                i <= self.worktrees@.len(),
                f == candidate(gone@, self.git_statuses@),
                candidates@ == self.worktrees@.take(i as int).filter_map(f),
                spares_dirty(candidates@),
            decreases self.worktrees@.len() - i,
        {
            let w = &self.worktrees[i];
            proof {
                assert(self.worktrees@.take(i + 1).drop_last() == self.worktrees@.take(i as int));
            }
            i = i + 1;
            if w.is_main {
                continue ;
            }
            let mut is_dirty = false;
            let mut has_upstream = false;
            if let Some(status) = self.git_statuses.get(w.path.as_str()) {
                is_dirty = status.is_dirty;
                has_upstream = status.has_upstream;
            }
            if let Some(reason) = sweep_reason(w, &gone, has_upstream) {
                candidates.push(
                    SweepCandidate {
                        handle: w.handle.clone(),
                        path: w.path.clone(),
                        reason,
                        is_dirty,
                        selected: !is_dirty,
                    },
                );
            }
        }
        assert(self.worktrees@.take(i as int) == self.worktrees@);
        self.pending_sweep = Some(SweepState { candidates, cursor: 0 });
        request
    }

    /// Toggles the candidate at the cursor; a dirty one cannot be selected.
    pub fn sweep_toggle(&mut self)
        ensures
            *final(self) == (App { pending_sweep: final(self).pending_sweep, ..*old(self) }),
            old(self).pending_sweep is None ==> final(self).pending_sweep is None,
            old(self).pending_sweep matches Some(before) ==> {
                &&& final(self).pending_sweep matches Some(after)
                &&& after.cursor == before.cursor
                &&& after.candidates@ == toggled_at(before.candidates@, before.cursor)
                &&& after@ == before@.pressed(SweepKey::Toggle)
            },
    {
        if let Some(ref mut sweep) = self.pending_sweep {
            let cursor: usize = sweep.cursor;
            if cursor < sweep.candidates.len() && !sweep.candidates[cursor].is_dirty {
                let selected = sweep.candidates[cursor].selected;
                sweep.candidates[cursor].selected = !selected;
            }
        }
    }

    /// Moves the cursor of the sweep modal up.
    pub fn sweep_up(&mut self)
        ensures
            *final(self) == (App {
                pending_sweep: match old(self).pending_sweep {
                    Some(sweep) => Some(
                        SweepState { cursor: picker::stepped_up(sweep.cursor), ..sweep },
                    ),
                    None => None,
                },
                ..*old(self)
            }),
            old(self).pending_sweep matches Some(before) ==> final(self).pending_sweep->0@
                == before@.pressed(SweepKey::Up),
    {
        if let Some(ref mut sweep) = self.pending_sweep {
            sweep.cursor = picker::step_up(sweep.cursor);
        }
    }

    /// Moves the cursor of the sweep modal down.
    pub fn sweep_down(&mut self)
        ensures
            *final(self) == (App {
                pending_sweep: match old(self).pending_sweep {
                    Some(sweep) => Some(
                        SweepState {
                            cursor: picker::stepped_down(sweep.cursor, sweep.candidates@.len()),
                            ..sweep
                        },
                    ),
                    None => None,
                },
                ..*old(self)
            }),
            old(self).pending_sweep matches Some(before) ==> final(self).pending_sweep->0@
                == before@.pressed(SweepKey::Down),
    {
        if let Some(ref mut sweep) = self.pending_sweep {
            sweep.cursor = picker::step_down(sweep.cursor, sweep.candidates.len());
        }
    }

    /// Closes the sweep modal and starts the removal of the selected candidates, in their order;
    /// where none is selected, there is nothing to do.
    pub fn confirm_sweep(&mut self) -> (r: Option<SweepJob>)
        ensures
            match old(self).pending_sweep {
                Some(sweep) => {
                    let targets = sweep.candidates@.filter_map(target());
                    if targets.len() == 0 {
                        r is None && *final(self) == (App { pending_sweep: None, ..*old(self) })
                    } else {
                        &&& r matches Some(job)
                        &&& job.targets@ == targets
                        &&& job.after(Seq::empty())
                        &&& job.wf()
                        &&& *final(self) == (App {
                            pending_sweep: None,
                            sweep_progress: Some(
                                SweepProgress {
                                    total: targets.len() as usize,
                                    current: 1,
                                    handle: targets[0].handle,
                                },
                            ),
                            ..*old(self)
                        })
                    }
                },
                None => r is None && *final(self) == *old(self),
            },
    {
        let sweep = match self.pending_sweep.take() {
            Some(sweep) => sweep,
            None => {
                return None;
            },
        };
        let mut targets: Vec<SweepTarget> = Vec::new();
        let mut i: usize = 0;
        while i < sweep.candidates.len()
            invariant
                i <= sweep.candidates@.len(),
                targets@ == sweep.candidates@.take(i as int).filter_map(target()),
            decreases sweep.candidates@.len() - i,
        {
            let c = &sweep.candidates[i];
            proof {
                assert(sweep.candidates@.take(i + 1).drop_last() == sweep.candidates@.take(
                    i as int,
                ));
            }
            if c.selected {
                targets.push(SweepTarget { handle: c.handle.clone(), path: c.path.clone() });
            }
            i = i + 1;
        }
        assert(sweep.candidates@.take(i as int) == sweep.candidates@);
        if targets.is_empty() {
            return None;
        }
        self.sweep_progress = Some(
            SweepProgress {
                total: targets.len(),
                current: 1,
                handle: targets[0].handle.clone(),
            },
        );
        Some(SweepJob { targets, done: 0, failures: 0 })
    }
}

/// Why a worktree is offered, if it is.
pub fn sweep_reason(w: &WorktreeInfo, gone: &Vec<String>, has_upstream: bool) -> (r: Option<
    SweepReason,
>)
    ensures
        r == reason_for(*w, gone@, has_upstream),
{
    if let Some(pr) = &w.pr_info {
        if text::same_text(pr.state.as_str(), "MERGED") {
            return Some(SweepReason::PrMerged);
        }
        if text::same_text(pr.state.as_str(), "CLOSED") {
            return Some(SweepReason::PrClosed);
        }
    }
    if order::is_among(gone, w.branch.as_str()) {
        return Some(SweepReason::UpstreamGone);
    }
    if w.pr_info.is_none() && !has_upstream && !w.has_unmerged {
        return Some(SweepReason::MergedLocally);
    }
    None
}

/// Toggling never selects a dirty candidate, and toggling twice at one cursor changes nothing.
pub proof fn law_toggle_spares_dirty(candidates: Seq<SweepCandidate>, cursor: usize)
    ensures
        spares_dirty(candidates) ==> spares_dirty(toggled_at(candidates, cursor)),
        toggled_at(toggled_at(candidates, cursor), cursor) == candidates,
{
    let once = toggled_at(candidates, cursor);
    if cursor < candidates.len() && !candidates[cursor as int].is_dirty {
        assert(toggled_at(once, cursor) =~= candidates);
        if spares_dirty(candidates) {
            assert forall|i: int| 0 <= i < once.len() && (#[trigger] once[i]).is_dirty implies !once[i].selected by {
                assert(once[i] == candidates[i]);
            }
        }
    }
}

/// Whichever key is pressed in the sweep modal, its cursor stays on a candidate, and no dirty
/// candidate becomes selected.
pub proof fn law_sweep_modal_stays_well_formed(before: SweepState, after: SweepState)
    requires
        before.wf(),
    ensures
        (SweepState { cursor: picker::stepped_up(before.cursor), ..before }).wf(),
        (SweepState {
            cursor: picker::stepped_down(before.cursor, before.candidates@.len()),
            ..before
        }).wf(),
        after.cursor == before.cursor && after.candidates@ == toggled_at(
            before.candidates@,
            before.cursor,
        ) ==> after.wf(),
{
    law_toggle_spares_dirty(before.candidates@, before.cursor);
}

/// A sweep removes nothing but selected candidates, and so, while no dirty one is selected, nothing
/// dirty.
pub proof fn law_sweep_removes_what_is_selected(candidates: Seq<SweepCandidate>, t: SweepTarget)
    requires
        spares_dirty(candidates),
        candidates.filter_map(target()).contains(t),
    ensures
        exists|c: SweepCandidate| #[trigger]
            candidates.contains(c) && c.selected && !c.is_dirty && c.handle == t.handle && c.path
                == t.path,
{
    candidates.lemma_filter_map_contains(target(), t);
    let c = choose|c: SweepCandidate| #[trigger] candidates.contains(c) && target()(c) == Some(t);
    assert(candidates.contains(c));
    let i = choose|i: int| 0 <= i < candidates.len() && candidates[i] == c;
    assert(!candidates[i].is_dirty);
}

/// Whichever keys are pressed, and however often, a sweep removes nothing but rows that were in view
/// when it was started: none of them the main worktree or dirty, and each offered for a reason.
pub proof fn law_sweep_is_safe(
    worktrees: Seq<WorktreeInfo>,
    gone: Seq<String>,
    statuses: Map<Seq<Seq<char>>, GitStatus>,
    keys: Seq<SweepKey>,
    t: SweepTarget,
)
    requires
        (SweepView {
            candidates: worktrees.filter_map(candidate(gone, statuses)),
            cursor: 0,
        }).after_keys(keys).candidates.filter_map(target()).contains(t),
    ensures
        exists|w: WorktreeInfo|
            {
                let path = paths::components(w.path@);
                let known = statuses.contains_key(path);
                &&& #[trigger] worktrees.contains(w)
                &&& t.handle == w.handle && t.path == w.path
                &&& !w.is_main
                &&& !(known && statuses[path].is_dirty)
                &&& reason_for(w, gone, known && statuses[path].has_upstream) is Some
            },
{
    let f = candidate(gone, statuses);
    let start = SweepView { candidates: worktrees.filter_map(f), cursor: 0 };
    let end = start.after_keys(keys);
    assert(spares_dirty(start.candidates)) by {
        assert forall|i: int|
            0 <= i < start.candidates.len() && (
            #[trigger] start.candidates[i]).is_dirty implies !start.candidates[i].selected by {
            let c = start.candidates[i];
            assert(start.candidates.contains(c));
            worktrees.lemma_filter_map_contains(f, c);
        }
    }
    lemma_keys_only_select(start, keys);
    law_sweep_removes_what_is_selected(end.candidates, t);
    let c = choose|c: SweepCandidate| #[trigger]
        end.candidates.contains(c) && c.selected && !c.is_dirty && c.handle == t.handle && c.path
            == t.path;
    let i = choose|i: int| 0 <= i < end.candidates.len() && end.candidates[i] == c;
    let first = start.candidates[i];
    assert(end.candidates[i] == (SweepCandidate { selected: c.selected, ..first }));
    assert(start.candidates.contains(first));
    worktrees.lemma_filter_map_contains(f, first);
    let w = choose|w: WorktreeInfo| #[trigger] worktrees.contains(w) && f(w) == Some(first);
    assert(worktrees.contains(w));
}

/// The keys change nothing of the candidates but which are selected, and select none that is dirty.
proof fn lemma_keys_only_select(start: SweepView, keys: Seq<SweepKey>)
    requires
        spares_dirty(start.candidates),
    ensures
        spares_dirty(start.after_keys(keys).candidates),
        start.after_keys(keys).candidates.len() == start.candidates.len(),
        forall|i: int|
            0 <= i < start.candidates.len() ==> (#[trigger] start.after_keys(keys).candidates[i])
                == (SweepCandidate {
                selected: start.after_keys(keys).candidates[i].selected,
                ..start.candidates[i]
            }),
    decreases keys.len(),
{
    if keys.len() > 0 {
        let front = start.after_keys(keys.drop_last());
        lemma_keys_only_select(start, keys.drop_last());
        law_toggle_spares_dirty(front.candidates, front.cursor);
        let end = start.after_keys(keys);
        assert forall|i: int| 0 <= i < start.candidates.len() implies (
        #[trigger] end.candidates[i]) == (SweepCandidate {
            selected: end.candidates[i].selected,
            ..start.candidates[i]
        }) by {}
    }
}

/// Every candidate is a worktree that is not the main one, offered for its own reason.
pub proof fn law_main_worktree_is_not_swept(
    worktrees: Seq<WorktreeInfo>,
    gone: Seq<String>,
    statuses: Map<Seq<Seq<char>>, GitStatus>,
    c: SweepCandidate,
)
    requires
        worktrees.filter_map(candidate(gone, statuses)).contains(c),
    ensures
        exists|w: WorktreeInfo| #[trigger]
            worktrees.contains(w) && !w.is_main && c.path == w.path && c.handle == w.handle
                && reason_for(
                w,
                gone,
                statuses.contains_key(paths::components(w.path@))
                    && statuses[paths::components(w.path@)].has_upstream,
            ) == Some(c.reason),
{
    worktrees.lemma_filter_map_contains(candidate(gone, statuses), c);
    let w = choose|w: WorktreeInfo| #[trigger]
        worktrees.contains(w) && candidate(gone, statuses)(w) == Some(c);
    assert(worktrees.contains(w));
}

/// A sweep reports success exactly where every removal succeeded, and it never counts more failures
/// than removals.
pub proof fn law_sweep_succeeds_where_every_removal_does(removals: Seq<bool>)
    ensures
        failed(removals) <= removals.len(),
        failed(removals) == 0 <==> forall|i: int| 0 <= i < removals.len() ==> #[trigger] removals[i],
    decreases removals.len(),
{
    if removals.len() > 0 {
        let front = removals.drop_last();
        law_sweep_succeeds_where_every_removal_does(front);
        if failed(front) == 0 && removals.last() {
            assert forall|i: int| 0 <= i < removals.len() implies #[trigger] removals[i] by {
                if i < front.len() {
                    assert(front[i]);
                }
            }
        }
        if forall|i: int| 0 <= i < removals.len() ==> #[trigger] removals[i] {
            assert forall|i: int| 0 <= i < front.len() implies #[trigger] front[i] by {
                assert(removals[i]);
            }
            assert(removals[removals.len() - 1]);
        }
    }
}

/// A worktree is offered for its own state and nothing else: it is not the main one, and its pull
/// request is merged or closed, or its branch is among the gone ones, or it has no pull request, no
/// upstream and nothing unmerged. The first of these that holds is the reason; the candidate is that
/// worktree, dirty as git says, and selected where it is clean.
pub proof fn law_candidates_go_by_their_worktree(
    w: WorktreeInfo,
    gone: Seq<String>,
    statuses: Map<Seq<Seq<char>>, GitStatus>,
)
    ensures
        ({
            let made = candidate(gone, statuses)(w);
            let path = paths::components(w.path@);
            let dirty = statuses.contains_key(path) && statuses[path].is_dirty;
            let upstream = statuses.contains_key(path) && statuses[path].has_upstream;
            let merged = w.pr_info is Some && w.pr_info->0.state@ == "MERGED"@;
            let closed = w.pr_info is Some && w.pr_info->0.state@ == "CLOSED"@;
            let lost = exists|i: int| 0 <= i < gone.len() && (#[trigger] gone[i])@ == w.branch@;
            let local = w.pr_info is None && !upstream && !w.has_unmerged;
            &&& made is Some <==> !w.is_main && (merged || closed || lost || local)
            &&& made matches Some(c) ==> {
                &&& c.handle == w.handle
                &&& c.path == w.path
                &&& c.is_dirty == dirty
                &&& c.selected == !dirty
                &&& c.reason == SweepReason::PrMerged <==> merged
                &&& c.reason == SweepReason::PrClosed <==> closed
                &&& c.reason == SweepReason::UpstreamGone <==> !merged && !closed && lost
                &&& c.reason == SweepReason::MergedLocally <==> !merged && !closed && !lost
            }
        }),
{
    reveal_strlit("MERGED");
    reveal_strlit("CLOSED");
    assert("MERGED"@[0] != "CLOSED"@[0]);
}

/// A worktree with a pull request that is neither merged nor closed is offered only where its branch is
/// gone, whatever else holds of it.
pub proof fn law_open_pull_requests_are_spared(
    w: WorktreeInfo,
    gone: Seq<String>,
    has_upstream: bool,
)
    requires
        w.pr_info is Some,
        w.pr_info->0.state@ != "MERGED"@,
        w.pr_info->0.state@ != "CLOSED"@,
        forall|i: int| 0 <= i < gone.len() ==> (#[trigger] gone[i])@ != w.branch@,
    ensures
        reason_for(w, gone, has_upstream) is None,
        forall|statuses: Map<Seq<Seq<char>>, GitStatus>|
            (#[trigger] candidate(gone, statuses))(w) is None,
{
    assert forall|statuses: Map<Seq<Seq<char>>, GitStatus>|
        (#[trigger] candidate(gone, statuses))(w) is None by {
        law_candidates_go_by_their_worktree(w, gone, statuses);
    }
}

/// The reason goes by the state of the pull request, then by the gone branches, then by what is merged.
pub proof fn law_reasons_go_by_their_worktree(
    w: WorktreeInfo,
    gone: Seq<String>,
    has_upstream: bool,
)
    ensures
        ({
            let reason = reason_for(w, gone, has_upstream);
            let merged = w.pr_info is Some && w.pr_info->0.state@ == "MERGED"@;
            let closed = w.pr_info is Some && w.pr_info->0.state@ == "CLOSED"@;
            let lost = exists|i: int| 0 <= i < gone.len() && (#[trigger] gone[i])@ == w.branch@;
            let local = w.pr_info is None && !has_upstream && !w.has_unmerged;
            &&& reason == Some(SweepReason::PrMerged) <==> merged
            &&& reason == Some(SweepReason::PrClosed) <==> closed
            &&& reason == Some(SweepReason::UpstreamGone) <==> !merged && !closed && lost
            &&& reason == Some(SweepReason::MergedLocally) <==> !merged && !closed && !lost && local
        }),
{
    reveal_strlit("MERGED");
    reveal_strlit("CLOSED");
    assert("MERGED"@[0] != "CLOSED"@[0]);
}

/// Toggling changes no candidate but the one at the cursor, and of that one nothing but whether it is
/// selected, and that only where it is clean.
pub proof fn law_toggle_changes_one_choice(candidates: Seq<SweepCandidate>, cursor: usize, i: int)
    requires
        0 <= i < candidates.len(),
    ensures
        toggled_at(candidates, cursor).len() == candidates.len(),
        i != cursor || candidates[i].is_dirty ==> toggled_at(candidates, cursor)[i] == candidates[i],
        toggled_at(candidates, cursor)[i].handle == candidates[i].handle,
        toggled_at(candidates, cursor)[i].path == candidates[i].path,
        toggled_at(candidates, cursor)[i].reason == candidates[i].reason,
        toggled_at(candidates, cursor)[i].is_dirty == candidates[i].is_dirty,
        i == cursor && !candidates[i].is_dirty ==> toggled_at(candidates, cursor)[i].selected
            == !candidates[i].selected,
{
}

/// A candidate is removed exactly where it is selected, by its own handle and at its own path.
pub proof fn law_selected_candidates_are_removed(c: SweepCandidate)
    ensures
        target()(c) is Some <==> c.selected,
        target()(c) matches Some(t) ==> t.handle == c.handle && t.path == c.path,
{
}

/// Every removal that failed counts as one, and no other does; what is said of a sweep names how many
/// were removed and of how many.
pub proof fn law_failures_are_counted(removals: Seq<bool>, removed: nat, total: nat)
    ensures
        failed(Seq::empty()) == 0,
        failed(removals.push(true)) == failed(removals),
        failed(removals.push(false)) == failed(removals) + 1,
        sweep_failure(removed, total).len() == "Removed "@.len() + text::decimal_text(removed).len()
            + "/"@.len() + text::decimal_text(total).len() + " worktrees"@.len(),
        ("Removed "@ + text::decimal_text(removed) + "/"@).is_prefix_of(
            sweep_failure(removed, total),
        ),
        sweep_failure(removed, total).skip(
            ("Removed "@ + text::decimal_text(removed) + "/"@).len() as int,
        ) == text::decimal_text(total) + " worktrees"@,
{
    assert(removals.push(true).drop_last() =~= removals);
    assert(removals.push(false).drop_last() =~= removals);
    let front = "Removed "@ + text::decimal_text(removed) + "/"@;
    let back = text::decimal_text(total) + " worktrees"@;
    assert(sweep_failure(removed, total) =~= front + back);
    assert((front + back).skip(front.len() as int) =~= back);
}

/// A sweep job stands where its outcomes say: as many dealt with as there are outcomes, as many failures
/// as there were, and it is finished where every target has been dealt with.
pub proof fn law_sweep_jobs_count_their_outcomes(job: SweepJob, removals: Seq<bool>)
    ensures
        job.after(removals) <==> job.done == removals.len() && job.failures == failed(removals),
        job.finished() <==> job.done == job.targets@.len(),
        job.wf() <==> job.failures <= job.done && job.done <= job.targets@.len(),
        job.after(removals) && removals.len() <= job.targets@.len() ==> job.wf(),
{
    law_sweep_succeeds_where_every_removal_does(removals);
}

/// The sweep modal reads as it is, and is well formed exactly where its cursor is on a candidate, as
/// long as there is one, and every selected candidate is clean.
pub proof fn law_sweep_modal_reads_as_it_is(sweep: SweepState)
    ensures
        sweep@.candidates == sweep.candidates@,
        sweep@.cursor == sweep.cursor,
        sweep.wf() <==> (sweep.cursor < sweep.candidates@.len() || sweep.cursor == 0) && (forall|
            i: int,
        |
            0 <= i < sweep.candidates@.len() && (#[trigger] sweep.candidates@[i]).selected
                ==> !sweep.candidates@[i].is_dirty),
{
    if forall|i: int|
        0 <= i < sweep.candidates@.len() && (#[trigger] sweep.candidates@[i]).selected
            ==> !sweep.candidates@[i].is_dirty {
        assert(spares_dirty(sweep.candidates@));
    }
}

/// Each key of the sweep modal changes one thing: the cursor goes up or down by one within the list, or
/// the choice at the cursor turns round where it is clean.
pub proof fn law_sweep_keys_change_one_thing(modal: SweepView, i: int)
    requires
        modal.candidates.len() <= usize::MAX,
    ensures
        modal.pressed(SweepKey::Up).candidates == modal.candidates,
        modal.pressed(SweepKey::Down).candidates == modal.candidates,
        modal.pressed(SweepKey::Toggle).cursor == modal.cursor,
        modal.cursor > 0 ==> modal.pressed(SweepKey::Up).cursor == modal.cursor - 1,
        modal.cursor == 0 ==> modal.pressed(SweepKey::Up).cursor == 0,
        modal.cursor + 1 < modal.candidates.len() ==> modal.pressed(SweepKey::Down).cursor
            == modal.cursor + 1,
        modal.cursor + 1 >= modal.candidates.len() ==> modal.pressed(SweepKey::Down).cursor
            == modal.cursor,
        modal.pressed(SweepKey::Toggle).candidates.len() == modal.candidates.len(),
        0 <= i < modal.candidates.len() ==> modal.pressed(SweepKey::Toggle).candidates[i]
            == (SweepCandidate {
            selected: modal.candidates[i].selected != (i == modal.cursor
                && !modal.candidates[i].is_dirty),
            ..modal.candidates[i]
        }),
{
}

} // verus!
