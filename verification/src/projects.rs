//! Picking the project whose worktrees are shown, or all of them.

use vstd::prelude::*;
use crate::app::App;
use crate::listing;
use crate::order;
use crate::picker;
use crate::picker::ProjectPicker;
use crate::select;
use crate::types::{DashboardTab, FetchRequest, ProjectEntry};

verus! {

/// Name of the picker's entry for the merged view of all projects. Its path is empty.
pub const ALL_PROJECTS_LABEL: &'static str = "all projects";

/// The predicate of an entry with a name.
pub open spec fn named(entries: Seq<ProjectEntry>, name: Seq<char>) -> spec_fn(int) -> bool {
    |i: int| entries[i].name@ == name
}

/// Index of the first entry with a name.
pub open spec fn index_named(entries: Seq<ProjectEntry>, name: Seq<char>) -> Option<usize> {
    select::first_index(entries.len(), named(entries, name))
}

/// The name of an entry.
pub open spec fn name_key() -> spec_fn(ProjectEntry) -> Seq<char> {
    |entry: ProjectEntry| entry.name@
}

/// Whether `projects` lists the projects of the roots: by name and each name once, with the root that
/// came first of those with that name.
pub open spec fn lists_projects(roots: Seq<ProjectEntry>, projects: Seq<ProjectEntry>) -> bool {
    listing::lists(roots, name_key(), order::name_order(), projects)
}

/// Whether `entries` are `projects`, behind an entry for all of them where there is more than one.
pub open spec fn offers(projects: Seq<ProjectEntry>, entries: Seq<ProjectEntry>) -> bool {
    if projects.len() > 1 {
        &&& entries.len() == projects.len() + 1
        &&& entries[0].name@ == ALL_PROJECTS_LABEL@
        &&& entries[0].path@.len() == 0
        &&& entries.skip(1) == projects
    } else {
        entries == projects
    }
}

/// Whether `after` is `before` with another filter and the cursor back at the start.
pub open spec fn refiltered(before: ProjectPicker, after: ProjectPicker, filter: Seq<char>) -> bool {
    &&& after == (ProjectPicker { cursor: 0, filter: after.filter, ..before })
    &&& after.filter@ == filter
}

/// Puts a project in its place by name, unless its name is taken.
fn insert_project(projects: &mut Vec<ProjectEntry>, roots: &Vec<ProjectEntry>, n: usize)
    requires
        n < roots@.len(),
        listing::lists_first(roots@, n as nat, name_key(), order::name_order(), old(projects)@),
    ensures
        listing::lists_first(
            roots@,
            (n + 1) as nat,
            name_key(),
            order::name_order(),
            final(projects)@,
        ),
{
    let root = &roots[n];
    let ghost key = name_key();
    let ghost less = order::name_order();
    let mut p: usize = 0;
    while p < projects.len() && order::is_name_before(
        projects[p].name.as_str(),
        root.name.as_str(),
    )
        invariant
            p <= projects@.len(),
            projects@ == old(projects)@,
            key == name_key(),
            less == order::name_order(),
            forall|j: int| 0 <= j < p ==> less(key(#[trigger] projects@[j]), key(*root)),
        decreases projects@.len() - p,
    {
        p = p + 1;
    }
    assert(n < roots.len());
    if p < projects.len() && projects[p].name == root.name {
        proof {
            listing::lemma_listed(roots@, n as nat, key, less, projects@, p as int);
        }
        return;
    }
    proof {
        order::lemma_name_order();
        listing::lemma_insert(roots@, n as nat, key, less, projects@, p as int);
    }
    projects.insert(p, root.clone());
}

/// The projects of the roots, by name and each name once, with the root that came first.
pub fn known_projects(roots: &Vec<ProjectEntry>) -> (r: Vec<ProjectEntry>)
    ensures
        lists_projects(roots@, r@),
{
    let mut projects: Vec<ProjectEntry> = Vec::new();
    let mut i: usize = 0;
    while i < roots.len()
        invariant
            i <= roots@.len(),
            listing::lists_first(
                roots@,
                i as nat,
                name_key(),
                order::name_order(),
                projects@,
            ),
        decreases roots@.len() - i,
    {
        insert_project(&mut projects, roots, i);
        i = i + 1;
    }
    projects
}

/// Index of the first entry with a name.
fn position_named(entries: &Vec<ProjectEntry>, name: &String) -> (r: Option<usize>)
    ensures
        r == index_named(entries@, name@),
{
    let ghost pred = named(entries@, name@);
    select::find_first(
        entries.len(),
        Ghost(pred),
        |i: usize| -> (b: bool)
            requires
                i < entries@.len(),
            ensures
                b == pred(i as int)
            { entries[i].name == *name },
    )
}

impl App {
    /// Name of what is shown: all projects, the chosen one or the current one.
    pub open spec fn current_project(self) -> Option<Seq<char>> {
        if self.worktree_all_projects {
            Some(ALL_PROJECTS_LABEL@)
        } else if let Some((name, _)) = self.worktree_project_override {
            Some(name@)
        } else if let Some(current) = self.current_worktree {
            Some(current.name@)
        } else {
            None
        }
    }

    /// Opens the project picker on the known projects, with the cursor on what is shown.
    pub fn show_project_picker(&mut self)
        ensures
            *final(self) == (App {
                pending_project_picker: final(self).pending_project_picker,
                ..*old(self)
            }),
            ({
                &&& final(self).pending_project_picker matches Some(picker)
                &&& exists|projects: Seq<ProjectEntry>| #[trigger]
                    lists_projects(old(self).repo_roots@, projects) && offers(
                        projects,
                        picker.projects@,
                    )
                &&& picker.filter@.len() == 0
                &&& picker.wf()
                &&& match old(self).current_project() {
                    Some(name) => {
                        &&& picker.current_name matches Some(current)
                        &&& current@ == name
                        &&& picker.cursor == index_named(picker.projects@, name).unwrap_or(0)
                    },
                    None => picker.current_name is None && picker.cursor == 0,
                }
            }),
    {
        let mut projects = known_projects(&self.repo_roots);
        let ghost listed = projects@;
        if projects.len() > 1 {
            projects.insert(
                0,
                ProjectEntry { name: ALL_PROJECTS_LABEL.to_owned(), path: String::new() },
            );
            assert(projects@.skip(1) == listed);
        }
        assert(lists_projects(self.repo_roots@, listed) && offers(listed, projects@));
        let current_name: Option<String> = if self.worktree_all_projects {
            Some(ALL_PROJECTS_LABEL.to_owned())
        } else if let Some(chosen) = &self.worktree_project_override {
            Some(chosen.0.clone())
        } else if let Some(current) = &self.current_worktree {
            Some(current.name.clone())
        } else {
            None
        };
        let cursor: usize = match &current_name {
            Some(name) => match position_named(&projects, name) {
                Some(i) => i,
                None => 0,
            },
            None => 0,
        };
        proof {
            let n = projects.len() as nat;
            let pred = picker::project_admitted(projects@, Seq::empty());
            assert forall|j: int| 0 <= j < n implies #[trigger] pred(j) by {}
            select::lemma_picked_all(n, pred);
            if let Some(name) = &current_name {
                select::lemma_first_index(n, named(projects@, name@));
            }
        }
        self.pending_project_picker = Some(
            ProjectPicker { projects, cursor, filter: String::new(), current_name },
        );
    }

    /// Moves the cursor of the project picker down.
    pub fn project_picker_down(&mut self)
        ensures
            *final(self) == (App {
                pending_project_picker: match old(self).pending_project_picker {
                    Some(p) => Some(
                        ProjectPicker {
                            cursor: picker::stepped_down(p.cursor, p.visible().len()),
                            ..p
                        },
                    ),
                    None => None,
                },
                ..*old(self)
            }),
    {
        if let Some(ref mut p) = self.pending_project_picker {
            let shown = p.filtered();
            p.cursor = picker::step_down(p.cursor, shown.len());
        }
    }

    /// Moves the cursor of the project picker up.
    pub fn project_picker_up(&mut self)
        ensures
            *final(self) == (App {
                pending_project_picker: match old(self).pending_project_picker {
                    Some(p) => Some(
                        ProjectPicker { cursor: picker::stepped_up(p.cursor), ..p },
                    ),
                    None => None,
                },
                ..*old(self)
            }),
    {
        if let Some(ref mut p) = self.pending_project_picker {
            p.cursor = picker::step_up(p.cursor);
        }
    }

    /// Appends a character to the filter of the project picker.
    pub fn project_picker_filter_append(&mut self, c: char)
        ensures
            *final(self) == (App {
                pending_project_picker: final(self).pending_project_picker,
                ..*old(self)
            }),
            match old(self).pending_project_picker {
                Some(before) => final(self).pending_project_picker matches Some(after)
                    && refiltered(before, after, before.filter@.push(c)),
                None => final(self).pending_project_picker is None,
            },
    {
        if let Some(ref mut p) = self.pending_project_picker {
            p.filter.push(c);
            p.cursor = 0;
        }
    }

    /// Deletes the last character of the filter of the project picker.
    pub fn project_picker_filter_delete(&mut self)
        ensures
            *final(self) == (App {
                pending_project_picker: final(self).pending_project_picker,
                ..*old(self)
            }),
            match old(self).pending_project_picker {
                Some(before) => final(self).pending_project_picker matches Some(after)
                    && refiltered(before, after, crate::text::without_last(before.filter@)),
                None => final(self).pending_project_picker is None,
            },
    {
        if let Some(ref mut p) = self.pending_project_picker {
            p.filter.pop();
            p.cursor = 0;
        }
    }

    /// Closes the project picker and shows the worktrees of the project under the cursor, or of all
    /// projects: the list is cleared and fetched anew, on the worktree tab. With no project under
    /// the cursor the picker just closes.
    pub fn confirm_project_picker(&mut self, now: i64) -> (r: Option<FetchRequest>)
        ensures
            match old(self).pending_project_picker {
                Some(p) => match p.chosen() {
                    Some(entry) => {
                        &&& *final(self) == (App {
                            pending_project_picker: None,
                            worktree_all_projects: entry.path@.len() == 0,
                            worktree_project_override: if entry.path@.len() == 0 {
                                None
                            } else {
                                Some((entry.name, entry.path))
                            },
                            worktrees: final(self).worktrees,
                            all_worktrees: final(self).all_worktrees,
                            last_worktree_fetch: now,
                            is_worktree_fetching: true,
                            active_tab: DashboardTab::Worktrees,
                            ..*old(self)
                        })
                        &&& final(self).worktrees@.len() == 0
                        &&& final(self).all_worktrees@.len() == 0
                        &&& r is Some <==> !old(self).is_worktree_fetching
                        &&& r matches Some(request) ==> final(self).fetches(request)
                    },
                    None => r is None && *final(self) == (App {
                        pending_project_picker: None,
                        ..*old(self)
                    }),
                },
                None => r is None && *final(self) == *old(self),
            },
    {
        let p = match self.pending_project_picker.take() {
            Some(p) => p,
            None => {
                return None;
            },
        };
        let shown = p.filtered();
        if p.cursor >= shown.len() {
            return None;
        }
        let entry = &p.projects[shown[p.cursor]];
        if entry.path.as_str().is_empty() {
            self.worktree_all_projects = true;
            self.worktree_project_override = None;
        } else {
            self.worktree_all_projects = false;
            self.worktree_project_override = Some((entry.name.clone(), entry.path.clone()));
        }
        self.worktrees.clear();
        self.all_worktrees.clear();
        self.last_worktree_fetch = now;
        let request = self.spawn_worktree_fetch();
        self.active_tab = DashboardTab::Worktrees;
        request
    }
}

/// The cursor of the project picker stays on an entry that the filter lets through, whichever key is
/// pressed; and so, as long as there is such an entry, one is chosen.
pub proof fn law_project_cursor_stays_on_an_entry(
    p: ProjectPicker,
    after: ProjectPicker,
    filter: Seq<char>,
)
    requires
        p.wf(),
    ensures
        (ProjectPicker { cursor: picker::stepped_down(p.cursor, p.visible().len()), ..p }).wf(),
        (ProjectPicker { cursor: picker::stepped_up(p.cursor), ..p }).wf(),
        refiltered(p, after, filter) ==> after.wf(),
        p.visible().len() > 0 ==> p.chosen() is Some,
{
}

/// The picker's list is determined by the roots: two lists of their projects are the same, and no name
/// stands in one twice.
pub proof fn law_project_list_is_unique(
    roots: Seq<ProjectEntry>,
    a: Seq<ProjectEntry>,
    b: Seq<ProjectEntry>,
)
    requires
        roots.len() <= usize::MAX,
        lists_projects(roots, a),
        lists_projects(roots, b),
    ensures
        a == b,
        forall|i: int, j: int|
            0 <= i < j < a.len() ==> (#[trigger] a[i]).name@ != (#[trigger] a[j]).name@,
{
    order::lemma_name_order();
    listing::law_listing_is_unique(roots, name_key(), order::name_order(), a, b);
    assert forall|i: int, j: int| 0 <= i < j < a.len() implies (#[trigger] a[i]).name@ != (
    #[trigger] a[j]).name@ by {
        assert(name_key()(a[i]) != name_key()(a[j]));
    }
}

/// The entry for all projects is offered exactly where there is more than one, as the first, and no
/// other entry stands for all projects, as long as every root has a path.
pub proof fn law_all_projects_entry(
    roots: Seq<ProjectEntry>,
    projects: Seq<ProjectEntry>,
    entries: Seq<ProjectEntry>,
    k: int,
)
    requires
        roots.len() <= usize::MAX,
        lists_projects(roots, projects),
        offers(projects, entries),
        forall|i: int| 0 <= i < roots.len() ==> (#[trigger] roots[i]).path@.len() > 0,
        0 <= k < entries.len(),
    ensures
        entries[k].path@.len() == 0 <==> k == 0 && projects.len() > 1,
{
    let i = if projects.len() > 1 { k - 1 } else { k };
    if i >= 0 {
        if projects.len() > 1 {
            assert(entries.skip(1)[i] == entries[k]);
        }
        assert(entries[k] == projects[i]);
        listing::lemma_listed_item(roots, name_key(), order::name_order(), projects, i);
    }
}

/// The picker lists every project by its name and nothing else, in the order of names; where roots share
/// a name, the first of them stands for it.
pub proof fn law_every_project_is_listed(
    roots: Seq<ProjectEntry>,
    projects: Seq<ProjectEntry>,
    k: int,
)
    requires
        roots.len() <= usize::MAX,
        lists_projects(roots, projects),
    ensures
        forall|j: int, k: int|
            0 <= j < k < projects.len() ==> order::name_before(
                (#[trigger] projects[j]).name@,
                (#[trigger] projects[k]).name@,
            ),
        forall|i: int|
            0 <= i < roots.len() ==> exists|k: int|
                0 <= k < projects.len() && (#[trigger] projects[k]).name@ == (
                #[trigger] roots[i]).name@,
        0 <= k < projects.len() ==> exists|i: int|
            {
                &&& 0 <= i < roots.len()
                &&& (#[trigger] roots[i]) == projects[k]
                &&& forall|j: int| 0 <= j < i ==> (#[trigger] roots[j]).name@ != projects[k].name@
            },
{
    let key = name_key();
    assert forall|j: int, k: int| 0 <= j < k < projects.len() implies order::name_before(
        (#[trigger] projects[j]).name@,
        (#[trigger] projects[k]).name@,
    ) by {
        assert(order::name_order()(key(projects[j]), key(projects[k])));
    }
    assert forall|i: int| 0 <= i < roots.len() implies exists|k: int|
        0 <= k < projects.len() && (#[trigger] projects[k]).name@ == (#[trigger] roots[i]).name@ by {
        let k = choose|k: int| 0 <= k < projects.len() && key(projects[k]) == key(
            #[trigger] roots[i],
        );
        assert(projects[k].name@ == roots[i].name@);
    }
    if 0 <= k < projects.len() {
        let pred = listing::with_key(roots, key, key(projects[k]));
        select::lemma_first_index(roots.len(), pred);
        let i = select::first_index(roots.len(), pred)->0 as int;
        assert(roots[i] == projects[k]);
        assert forall|j: int| 0 <= j < i implies (#[trigger] roots[j]).name@ != projects[k].name@ by {
            assert(!pred(j));
        }
    }
}

/// What is offered is the projects themselves, and above them, where there are two or more, an entry
/// named `all projects` without a path.
pub proof fn law_projects_are_offered(projects: Seq<ProjectEntry>, entries: Seq<ProjectEntry>)
    requires
        offers(projects, entries),
    ensures
        projects.len() <= 1 ==> entries == projects,
        projects.len() > 1 ==> {
            &&& entries.len() == projects.len() + 1
            &&& entries[0].name@ == "all projects"@
            &&& entries[0].path@.len() == 0
            &&& forall|i: int| 0 <= i < projects.len() ==> entries[i + 1] == #[trigger] projects[i]
        },
{
    if projects.len() > 1 {
        assert forall|i: int| 0 <= i < projects.len() implies entries[i + 1]
            == #[trigger] projects[i] by {
            assert(entries.skip(1)[i] == projects[i]);
        }
    }
}

/// What is shown is all projects where that view is chosen, else the chosen project, else the current
/// one; and an entry is found by its name where it is the first that has it.
pub proof fn law_what_is_shown_has_a_name(app: App, entries: Seq<ProjectEntry>, name: Seq<char>, i: int)
    requires
        entries.len() <= usize::MAX,
    ensures
        app.worktree_all_projects ==> app.current_project() == Some("all projects"@),
        !app.worktree_all_projects ==> {
            &&& app.worktree_project_override matches Some((chosen, _)) ==> app.current_project()
                == Some(chosen@)
            &&& app.worktree_project_override is None ==> app.current_project() == (
            match app.current_worktree {
                Some(current) => Some(current.name@),
                None => None,
            })
        },
        0 <= i < entries.len() && entries[i].name@ == name && (forall|j: int|
            0 <= j < i ==> (#[trigger] entries[j]).name@ != name) ==> index_named(entries, name)
            == Some(i as usize),
        (forall|j: int| 0 <= j < entries.len() ==> (#[trigger] entries[j]).name@ != name)
            ==> index_named(entries, name) is None,
{
    let pred = named(entries, name);
    if 0 <= i < entries.len() && entries[i].name@ == name && (forall|j: int|
        0 <= j < i ==> (#[trigger] entries[j]).name@ != name) {
        assert forall|j: int| 0 <= j < i implies !(#[trigger] pred(j)) by {
            assert(entries[j].name@ != name);
        }
        select::lemma_first_found(entries.len(), pred, i);
    }
    if forall|j: int| 0 <= j < entries.len() ==> (#[trigger] entries[j]).name@ != name {
        assert forall|j: int| 0 <= j < entries.len() implies !(#[trigger] pred(j)) by {
            assert(entries[j].name@ != name);
        }
        select::lemma_none_found(entries.len(), pred);
    }
}

/// Another filter leaves everything of the picker but the filter and the cursor, which goes back to the
/// start.
pub proof fn law_project_filter_changes_nothing_else(
    before: ProjectPicker,
    after: ProjectPicker,
    filter: Seq<char>,
)
    ensures
        refiltered(before, after, filter) <==> {
            &&& after.filter@ == filter
            &&& after.cursor == 0
            &&& after.projects == before.projects
            &&& after.current_name == before.current_name
        },
{
}

} // verus!
