//! The pickers for a project and for a base branch: a list, a filter typed over it, and a cursor
//! in what the filter lets through.

use vstd::prelude::*;
use crate::select;
use crate::text;
use crate::types::ProjectEntry;

verus! {

/// Whether a filter lets a name through: an empty one lets everything through, another one what
/// contains it, letter case aside.
pub open spec fn admits(name: Seq<char>, filter: Seq<char>) -> bool {
    filter.len() == 0 || text::matches_text(name, filter)
}

/// Whether a filter lets a name through.
pub fn is_admitted(name: &str, filter: &str) -> (r: bool)
    ensures
        r == admits(name@, filter@),
{
    filter.is_empty() || text::contains_ignoring_case(name, filter)
}

/// Where a cursor in a list of `n` entries stands after a step down: it stops at the last entry.
pub open spec fn stepped_down(cursor: usize, n: nat) -> usize {
    if cursor + 1 < n {
        (cursor + 1) as usize
    } else {
        cursor
    }
}

/// Where a cursor stands after a step up: it stops at the first entry.
pub open spec fn stepped_up(cursor: usize) -> usize {
    if cursor > 0 {
        (cursor - 1) as usize
    } else {
        0
    }
}

/// Whether a cursor stands in a list of `n` entries; in an empty list it rests at the start.
pub open spec fn in_list(cursor: usize, n: nat) -> bool {
    cursor < n || cursor == 0
}

/// Steps a cursor down in a list of `n` entries.
pub fn step_down(cursor: usize, n: usize) -> (r: usize)
    ensures
        r == stepped_down(cursor, n as nat),
{
    if cursor < n && cursor + 1 < n {
        cursor + 1
    } else {
        cursor
    }
}

/// Steps a cursor up.
pub fn step_up(cursor: usize) -> (r: usize)
    ensures
        r == stepped_up(cursor),
{
    if cursor > 0 {
        cursor - 1
    } else {
        0
    }
}

/// A cursor in a list stays in it whichever way it steps.
pub proof fn law_cursor_stays_in_list(cursor: usize, n: nat)
    requires
        in_list(cursor, n),
    ensures
        in_list(stepped_down(cursor, n), n),
        in_list(stepped_up(cursor), n),
{
}

/// A step up takes back a step down, unless the cursor stood at the last entry; a step down takes
/// back a step up, unless it stood at the first.
pub proof fn law_cursor_steps_undo(cursor: usize, n: nat)
    requires
        n <= usize::MAX,
        in_list(cursor, n),
    ensures
        cursor + 1 < n ==> stepped_up(stepped_down(cursor, n)) == cursor,
        cursor > 0 ==> stepped_down(stepped_up(cursor), n) == cursor,
{
}

/// A picker for the project whose worktrees are shown.
#[derive(Debug)]
pub struct ProjectPicker {
    pub projects: Vec<ProjectEntry>,
    pub cursor: usize,
    pub filter: String,
    /// The project that is shown now.
    pub current_name: Option<String>,
}

/// The predicate of a project that a filter lets through.
pub open spec fn project_admitted(
    projects: Seq<ProjectEntry>,
    filter: Seq<char>,
) -> spec_fn(int) -> bool {
    |i: int| admits(projects[i].name@, filter)
}

impl ProjectPicker {
    /// Whether the cursor stands on an entry that the filter lets through, as long as there is one.
    pub open spec fn wf(self) -> bool {
        in_list(self.cursor, self.visible().len())
    }

    /// The indices of the projects that the filter lets through.
    pub open spec fn visible(self) -> Seq<usize> {
        select::picked(self.projects@.len(), project_admitted(self.projects@, self.filter@))
    }

    /// The project under the cursor.
    pub open spec fn chosen(self) -> Option<ProjectEntry> {
        if self.cursor < self.visible().len() {
            Some(self.projects@[self.visible()[self.cursor as int] as int])
        } else {
            None
        }
    }

    /// The indices of the projects that the filter lets through.
    pub fn filtered(&self) -> (r: Vec<usize>)
        ensures
            r@ == self.visible(),
            forall|k: int| 0 <= k < r@.len() ==> (#[trigger] r@[k]) < self.projects@.len(),
    {
        let mut r: Vec<usize> = Vec::new();
        let mut i: usize = 0;
        while i < self.projects.len()
            invariant
                i <= self.projects.len(),
                r@ == select::picked(i as nat, project_admitted(self.projects@, self.filter@)),
            decreases self.projects@.len() - i,
        {
            if is_admitted(self.projects[i].name.as_str(), self.filter.as_str()) {
                r.push(i);
            }
            i = i + 1;
        }
        proof {
            select::lemma_picked(
                self.projects.len() as nat,
                project_admitted(self.projects@, self.filter@),
            );
        }
        r
    }
}

/// A picker for the branch that a worktree's branch is based on.
#[derive(Debug)]
pub struct BaseBranchPicker {
    pub branches: Vec<String>,
    pub cursor: usize,
    pub filter: String,
    pub current_base: Option<String>,
    pub worktree_branch: String,
    pub repo_path: String,
}

/// The predicate of a branch that a filter lets through.
pub open spec fn branch_admitted(branches: Seq<String>, filter: Seq<char>) -> spec_fn(int) -> bool {
    |i: int| admits(branches[i]@, filter)
}

impl BaseBranchPicker {
    /// Whether the cursor stands on an entry that the filter lets through, as long as there is one.
    pub open spec fn wf(self) -> bool {
        in_list(self.cursor, self.visible().len())
    }

    /// The indices of the branches that the filter lets through.
    pub open spec fn visible(self) -> Seq<usize> {
        select::picked(self.branches@.len(), branch_admitted(self.branches@, self.filter@))
    }

    /// The branch under the cursor.
    pub open spec fn chosen(self) -> Option<String> {
        if self.cursor < self.visible().len() {
            Some(self.branches@[self.visible()[self.cursor as int] as int])
        } else {
            None
        }
    }

    /// The indices of the branches that the filter lets through.
    pub fn filtered(&self) -> (r: Vec<usize>)
        ensures
            r@ == self.visible(),
            forall|k: int| 0 <= k < r@.len() ==> (#[trigger] r@[k]) < self.branches@.len(),
    {
        let mut r: Vec<usize> = Vec::new();
        let mut i: usize = 0;
        while i < self.branches.len()
            invariant
                i <= self.branches.len(),
                r@ == select::picked(i as nat, branch_admitted(self.branches@, self.filter@)),
            decreases self.branches@.len() - i,
        {
            if is_admitted(self.branches[i].as_str(), self.filter.as_str()) {
                r.push(i);
            }
            i = i + 1;
        }
        proof {
            select::lemma_picked(
                self.branches.len() as nat,
                branch_admitted(self.branches@, self.filter@),
            );
        }
        r
    }
}

/// A filter lets a name through exactly where it is empty, or where its lower-case form stands in that
/// of the name.
pub proof fn law_filters_go_by_lower_case(name: Seq<char>, filter: Seq<char>)
    ensures
        filter.len() == 0 ==> admits(name, filter),
        filter.len() > 0 ==> (admits(name, filter) <==> exists|a: Seq<char>, b: Seq<char>|
            text::lowercase(name) == #[trigger] (a + text::lowercase(filter) + b)),
{
    text::law_parts_make_up_the_text(name, filter);
}

/// A cursor goes down by one where there is a next entry, up by one where there is a previous one, and
/// stays else.
pub proof fn law_cursor_steps_by_one(cursor: usize, n: nat)
    requires
        n <= usize::MAX,
    ensures
        cursor + 1 < n ==> stepped_down(cursor, n) == cursor + 1,
        cursor + 1 >= n ==> stepped_down(cursor, n) == cursor,
        cursor > 0 ==> stepped_up(cursor) == cursor - 1,
        cursor == 0 ==> stepped_up(cursor) == 0,
        in_list(cursor, n) <==> cursor < n || cursor == 0,
{
}

/// The project picker shows exactly the projects whose name the filter lets through, in their order,
/// and chooses the one at the cursor.
pub proof fn law_project_picker_shows_what_is_admitted(p: ProjectPicker)
    ensures
        forall|j: int, k: int|
            0 <= j < k < p.visible().len() ==> (#[trigger] p.visible()[j]) < (
            #[trigger] p.visible()[k]),
        forall|i: int|
            0 <= i < p.projects@.len() ==> (p.visible().contains(i as usize) <==> admits(
                (#[trigger] p.projects@[i]).name@,
                p.filter@,
            )),
        forall|k: int| 0 <= k < p.visible().len() ==> (#[trigger] p.visible()[k]) < p.projects@.len(),
        p.chosen() is Some <==> p.cursor < p.visible().len(),
        p.chosen() matches Some(entry) ==> entry == p.projects@[p.visible()[p.cursor as int] as int],
        p.wf() <==> p.cursor < p.visible().len() || p.cursor == 0,
{
    let pred = project_admitted(p.projects@, p.filter@);
    assert(p.projects@.len() == p.projects.len());
    select::lemma_picked(p.projects@.len(), pred);
    assert forall|i: int| 0 <= i < p.projects@.len() implies (p.visible().contains(i as usize)
        <==> admits((#[trigger] p.projects@[i]).name@, p.filter@)) by {
        if pred(i) {
            select::lemma_picked_complete(p.projects@.len(), pred, i);
        }
    }
}

/// The base branch picker shows exactly the branches that the filter lets through, in their order, and
/// chooses the one at the cursor.
pub proof fn law_base_picker_shows_what_is_admitted(p: BaseBranchPicker)
    ensures
        forall|j: int, k: int|
            0 <= j < k < p.visible().len() ==> (#[trigger] p.visible()[j]) < (
            #[trigger] p.visible()[k]),
        forall|i: int|
            0 <= i < p.branches@.len() ==> (p.visible().contains(i as usize) <==> admits(
                (#[trigger] p.branches@[i])@,
                p.filter@,
            )),
        forall|k: int| 0 <= k < p.visible().len() ==> (#[trigger] p.visible()[k]) < p.branches@.len(),
        p.chosen() is Some <==> p.cursor < p.visible().len(),
        p.chosen() matches Some(branch) ==> branch == p.branches@[p.visible()[p.cursor as int] as int],
        p.wf() <==> p.cursor < p.visible().len() || p.cursor == 0,
{
    let pred = branch_admitted(p.branches@, p.filter@);
    assert(p.branches@.len() == p.branches.len());
    select::lemma_picked(p.branches@.len(), pred);
    assert forall|i: int| 0 <= i < p.branches@.len() implies (p.visible().contains(i as usize)
        <==> admits((#[trigger] p.branches@[i])@, p.filter@)) by {
        if pred(i) {
            select::lemma_picked_complete(p.branches@.len(), pred, i);
        }
    }
}

} // verus!
