//! The modal that adds a worktree: a name typed for a new branch, a list of the existing ones, a
//! list of pull requests, and the branch that a new one starts from.

use vstd::prelude::*;
use crate::collections::TextSet;
use crate::picker;
use crate::select;
use crate::text;

verus! {

/// What the modal lists.
#[derive(Clone, Copy, PartialEq, Eq, Structural, Debug)]
pub enum AddWorktreeMode {
    Branch,
    Pr,
}

/// An open pull request.
#[derive(Debug)]
pub struct PrEntry {
    pub number: u32,
    pub title: String,
}

/// The list of open pull requests, as far as it is known.
#[derive(Debug)]
pub enum PrListState {
    Loading,
    Loaded { prs: Vec<PrEntry> },
    Failed { message: String },
}

/// The add-worktree modal.
pub struct AddWorktreeState {
    pub branches: Vec<String>,
    /// The branches that have a worktree.
    pub occupied_branches: TextSet,
    pub cursor: usize,
    pub filter: String,
    /// What was typed before a completion took its place.
    pub tab_prefix: Option<String>,
    /// The branch that a new one starts from.
    pub base_branch: String,
    pub editing_base: bool,
    pub base_filter: String,
    pub base_tab_prefix: Option<String>,
    pub repo_path: String,
    pub mode: AddWorktreeMode,
    pub pr_list: Option<PrListState>,
    pub pr_request_counter: u64,
}

/// What a background job is to do.
#[derive(Debug)]
pub enum AddWorktreeJob {
    CreateBranch { name: String, base_branch: Option<String> },
    CheckoutPr { pr_number: u32 },
}

/// A job, as its texts read.
pub enum JobView {
    CreateBranch { name: Seq<char>, base_branch: Option<Seq<char>> },
    CheckoutPr { pr_number: u32 },
}

impl AddWorktreeJob {
    /// The job, as its texts read.
    pub open spec fn view(&self) -> JobView {
        match *self {
            AddWorktreeJob::CreateBranch { name, base_branch } => JobView::CreateBranch {
                name: name@,
                base_branch: match base_branch {
                    Some(base) => Some(base@),
                    None => None,
                },
            },
            AddWorktreeJob::CheckoutPr { pr_number } => JobView::CheckoutPr { pr_number },
        }
    }
}

/// The predicate of a branch that a search lets through and that has no worktree.
pub open spec fn free_branch(
    branches: Seq<String>,
    search: Seq<char>,
    occupied: Set<Seq<char>>,
) -> spec_fn(int) -> bool {
    |i: int| picker::admits(branches[i]@, search) && !occupied.contains(branches[i]@)
}

/// The predicate of a branch that a search lets through and that has a worktree.
pub open spec fn taken_branch(
    branches: Seq<String>,
    search: Seq<char>,
    occupied: Set<Seq<char>>,
) -> spec_fn(int) -> bool {
    |i: int| picker::admits(branches[i]@, search) && occupied.contains(branches[i]@)
}

/// The branches that a search lets through and that have no worktree.
pub open spec fn free_branches(
    branches: Seq<String>,
    search: Seq<char>,
    occupied: Set<Seq<char>>,
) -> Seq<usize> {
    select::picked(branches.len(), free_branch(branches, search, occupied))
}

/// The predicate of a pull request whose title or number contains the search.
pub open spec fn pr_shown(prs: Seq<PrEntry>, search: Seq<char>) -> spec_fn(int) -> bool {
    |i: int|
        picker::admits(prs[i].title@, search) || text::has_part(
            text::decimal_text(prs[i].number as nat),
            search,
        )
}

/// The number of the pull request that a text such as `#123` or `123` stands for.
pub open spec fn pr_number_in(typed: Seq<char>) -> Option<u32> {
    let t = text::trim_both(typed);
    if t.len() > 0 && t[0] == '#' {
        text::parsed_number(t.skip(1))
    } else {
        text::parsed_number(t)
    }
}

/// The branches that a search lets through and that have no worktree.
fn list_free_branches(branches: &Vec<String>, search: &String, occupied: &TextSet) -> (r: Vec<usize>)
    ensures
        r@ == free_branches(branches@, search@, occupied@),
        forall|k: int| 0 <= k < r@.len() ==> (#[trigger] r@[k]) < branches@.len(),
{
    let ghost pred = free_branch(branches@, search@, occupied@);
    let mut r: Vec<usize> = Vec::new();
    let mut i: usize = 0;
    while i < branches.len()
        invariant
            i <= branches.len(),
            pred == free_branch(branches@, search@, occupied@),
            r@ == select::picked(i as nat, pred),
        decreases branches@.len() - i,
    {
        if picker::is_admitted(branches[i].as_str(), search.as_str()) && !occupied.contains(
            branches[i].as_str(),
        ) {
            r.push(i);
        }
        i = i + 1;
    }
    proof {
        select::lemma_picked(branches.len() as nat, pred);
    }
    r
}

impl AddWorktreeState {
    /// What the list is searched for: what was typed, even while a completion stands in its place.
    pub open spec fn search(self) -> Seq<char> {
        match self.tab_prefix {
            Some(prefix) => prefix@,
            None => self.filter@,
        }
    }

    /// The indices of the branches listed that can be chosen.
    pub open spec fn free(self) -> Seq<usize> {
        free_branches(self.branches@, self.search(), self.occupied_branches@)
    }

    /// The indices of the branches listed that have a worktree.
    pub open spec fn taken(self) -> Seq<usize> {
        select::picked(
            self.branches@.len(),
            taken_branch(self.branches@, self.search(), self.occupied_branches@),
        )
    }

    /// The indices of the branches listed: those without a worktree first.
    pub open spec fn visible(self) -> Seq<usize> {
        self.free() + self.taken()
    }

    /// The indices of the pull requests listed.
    pub open spec fn visible_prs(self) -> Seq<usize> {
        match self.pr_list {
            Some(PrListState::Loaded { prs }) => select::picked(
                prs@.len(),
                pr_shown(prs@, self.filter@),
            ),
            _ => Seq::empty(),
        }
    }

    /// The last row that the cursor reaches. In branch mode the first row creates a branch, where a
    /// name is typed.
    pub open spec fn last_row(self) -> nat {
        match self.mode {
            AddWorktreeMode::Branch => if text::trim_both(self.filter@).len() > 0 {
                self.free().len()
            } else if self.free().len() > 0 {
                (self.free().len() - 1) as nat
            } else {
                0
            },
            AddWorktreeMode::Pr => if self.visible_prs().len() > 0 {
                (self.visible_prs().len() - 1) as nat
            } else {
                0
            },
        }
    }

    /// Whether the cursor stands on one of the rows that it reaches.
    pub open spec fn wf(self) -> bool {
        self.cursor <= self.last_row()
    }

    /// What was typed, even while a completion stands in its place.
    fn search_text(&self) -> (r: String)
        ensures
            r@ == self.search(),
    {
        match &self.tab_prefix {
            Some(prefix) => prefix.clone(),
            None => self.filter.clone(),
        }
    }

    /// The indices of the branches listed: those without a worktree first.
    pub fn filtered(&self) -> (r: Vec<usize>)
        ensures
            r@ == self.visible(),
            forall|k: int| 0 <= k < r@.len() ==> (#[trigger] r@[k]) < self.branches@.len(),
    {
        let search = self.search_text();
        let mut r = list_free_branches(&self.branches, &search, &self.occupied_branches);
        let ghost free = r@;
        let ghost pred = taken_branch(self.branches@, search@, self.occupied_branches@);
        let mut i: usize = 0;
        proof {
            assert(free + select::picked(0, pred) == free);
        }
        while i < self.branches.len()
            invariant
                i <= self.branches.len(),
                pred == taken_branch(self.branches@, search@, self.occupied_branches@),
                r@ == free + select::picked(i as nat, pred),
                forall|k: int| 0 <= k < r@.len() ==> (#[trigger] r@[k]) < self.branches@.len(),
            decreases self.branches@.len() - i,
        {
            if picker::is_admitted(self.branches[i].as_str(), search.as_str())
                && self.occupied_branches.contains(self.branches[i].as_str()) {
                r.push(i);
            }
            i = i + 1;
        }
        r
    }

    /// How many of the branches listed can be chosen.
    pub fn selectable_count(&self) -> (r: usize)
        ensures
            r == self.free().len(),
    {
        let search = self.search_text();
        list_free_branches(&self.branches, &search, &self.occupied_branches).len()
    }

    /// The indices of the pull requests listed; none before they are loaded.
    pub fn filtered_prs(&self) -> (r: Vec<usize>)
        ensures
            r@ == self.visible_prs(),
            self.pr_list matches Some(PrListState::Loaded { prs }) ==> forall|k: int|
                0 <= k < r@.len() ==> (#[trigger] r@[k]) < prs@.len(),
    {
        let mut r: Vec<usize> = Vec::new();
        if let Some(PrListState::Loaded { prs }) = &self.pr_list {
            let ghost pred = pr_shown(prs@, self.filter@);
            let mut i: usize = 0;
            while i < prs.len()
                invariant
                    i <= prs.len(),
                    pred == pr_shown(prs@, self.filter@),
                    r@ == select::picked(i as nat, pred),
                decreases prs@.len() - i,
            {
                if picker::is_admitted(prs[i].title.as_str(), self.filter.as_str())
                    || text::contains_text(
                    text::decimal(prs[i].number as u64).as_str(),
                    self.filter.as_str(),
                ) {
                    r.push(i);
                }
                i = i + 1;
            }
            proof {
                select::lemma_picked(prs.len() as nat, pred);
            }
        }
        r
    }

    /// The number of the pull request that what was typed stands for, such as `#123` or `123`.
    pub fn detected_pr_number(&self) -> (r: Option<u32>)
        ensures
            r == pr_number_in(self.filter@),
    {
        let t = text::trim(self.filter.as_str());
        if text::starts_with(t.as_str(), "#") {
            proof {
                reveal_strlit("#");
                assert(t@.subrange(0, 1)[0] == t@[0]);
            }
            return text::parse_number(text::suffix(t.as_str(), 1).as_str());
        }
        proof {
            reveal_strlit("#");
            if t@.len() > 0 && t@[0] == '#' {
                assert("#"@.is_prefix_of(t@));
            }
        }
        text::parse_number(t.as_str())
    }
}

/// Whether a name begins with a prefix, letter case aside; every name begins with nothing.
pub open spec fn begins(name: Seq<char>, prefix: Seq<char>) -> bool {
    prefix.len() == 0 || text::lowercase(prefix).is_prefix_of(text::lowercase(name))
}

/// Whether a name begins with a prefix, letter case aside.
fn is_begun(name: &str, prefix: &str) -> (r: bool)
    ensures
        r == begins(name@, prefix@),
{
    if prefix.is_empty() {
        return true;
    }
    let low = text::to_lowercase(name);
    let low_prefix = text::to_lowercase(prefix);
    text::starts_with(low.as_str(), low_prefix.as_str())
}

/// The members of an optional set of texts.
pub open spec fn members(occupied: Option<&TextSet>) -> Option<Set<Seq<char>>> {
    match occupied {
        Some(set) => Some(set@),
        None => None,
    }
}

/// The predicate of a branch that completes a prefix; the occupied ones do not.
pub open spec fn completes(
    branches: Seq<String>,
    prefix: Seq<char>,
    occupied: Option<Set<Seq<char>>>,
) -> spec_fn(int) -> bool {
    |i: int|
        begins(branches[i]@, prefix) && match occupied {
            Some(set) => !set.contains(branches[i]@),
            None => true,
        }
}

/// The branches that complete a prefix.
pub open spec fn completions(
    branches: Seq<String>,
    prefix: Seq<char>,
    occupied: Option<Set<Seq<char>>>,
) -> Seq<usize> {
    select::picked(branches.len(), completes(branches, prefix, occupied))
}

/// The predicate of a place whose branch has a name.
pub open spec fn reads(
    branches: Seq<String>,
    places: Seq<usize>,
    name: Seq<char>,
) -> spec_fn(int) -> bool {
    |k: int| branches[places[k] as int]@ == name
}

/// The branch that completes what was typed: at first the first match; where the field holds a
/// match already, the one after it, and after the last the first.
pub open spec fn completion(
    branches: Seq<String>,
    tab_prefix: Option<Seq<char>>,
    field: Seq<char>,
    occupied: Option<Set<Seq<char>>>,
) -> Option<usize> {
    match tab_prefix {
        None => {
            let found = completions(branches, field, occupied);
            if found.len() == 0 {
                None
            } else {
                Some(found[0])
            }
        },
        Some(prefix) => {
            let found = completions(branches, prefix, occupied);
            if found.len() == 0 {
                None
            } else {
                match select::first_index(found.len(), reads(branches, found, field)) {
                    Some(k) => Some(found[(k + 1) % (found.len() as int)]),
                    None => Some(found[0]),
                }
            }
        },
    }
}

/// The predicate of a place that holds a number.
pub open spec fn holds(places: Seq<usize>, i: usize) -> spec_fn(int) -> bool {
    |k: int| places[k] == i
}

/// The row of a branch in the picker: below the row that creates one, in the order of the list.
pub open spec fn picker_row(free: Seq<usize>, i: usize) -> Option<usize> {
    match select::first_index(free.len(), holds(free, i)) {
        Some(k) => Some((k + 1) as usize),
        None => None,
    }
}

/// A completed branch, and the row of the picker that shows it.
#[derive(Debug)]
pub struct BranchCompletion {
    pub branch: String,
    pub picker_cursor: Option<usize>,
}

/// An optional text, as it reads.
pub open spec fn reading(s: Option<String>) -> Option<Seq<char>> {
    match s {
        Some(t) => Some(t@),
        None => None,
    }
}

/// The branches that complete a prefix.
fn list_completions(
    branches: &Vec<String>,
    prefix: &String,
    occupied: Option<&TextSet>,
) -> (r: Vec<usize>)
    ensures
        r@ == completions(branches@, prefix@, members(occupied)),
        forall|k: int| 0 <= k < r@.len() ==> (#[trigger] r@[k]) < branches@.len(),
{
    let ghost pred = completes(branches@, prefix@, members(occupied));
    let mut r: Vec<usize> = Vec::new();
    let mut i: usize = 0;
    while i < branches.len()
        invariant
            i <= branches.len(),
            pred == completes(branches@, prefix@, members(occupied)),
            r@ == select::picked(i as nat, pred),
        decreases branches@.len() - i,
    {
        let free = match occupied {
            Some(set) => !set.contains(branches[i].as_str()),
            None => true,
        };
        if free && is_begun(branches[i].as_str(), prefix.as_str()) {
            r.push(i);
        }
        i = i + 1;
    }
    proof {
        select::lemma_picked(branches.len() as nat, pred);
    }
    r
}

/// Place of the first match that reads `field`.
fn position_reading(branches: &Vec<String>, found: &Vec<usize>, field: &String) -> (r: Option<
    usize,
>)
    requires
        forall|k: int| 0 <= k < found@.len() ==> (#[trigger] found@[k]) < branches@.len(),
    ensures
        r == select::first_index(found@.len(), reads(branches@, found@, field@)),
        r matches Some(k) ==> k < found@.len(),
{
    let ghost pred = reads(branches@, found@, field@);
    select::find_first(
        found.len(),
        Ghost(pred),
        |k: usize| -> (b: bool)
            requires
                k < found@.len(),
                found@[k as int] < branches@.len(),
            ensures
                b == pred(k as int)
            { branches[found[k]] == *field },
    )
}

/// Place of the first entry that is `i`.
fn position_holding(places: &Vec<usize>, i: usize) -> (r: Option<usize>)
    ensures
        r == select::first_index(places@.len(), holds(places@, i)),
        r matches Some(k) ==> k < places@.len(),
{
    let ghost pred = holds(places@, i);
    select::find_first(
        places.len(),
        Ghost(pred),
        |k: usize| -> (b: bool)
            requires
                k < places@.len(),
            ensures
                b == pred(k as int)
            { places[k] == i },
    )
}

/// Completes what was typed in a branch field, or cycles to the next match. The first press saves
/// what was typed; where the occupied branches are given, they are passed over, and the row of the
/// picker comes with the branch.
pub fn cycle_branch_completion(
    branches: &Vec<String>,
    tab_prefix: &mut Option<String>,
    field: &String,
    occupied: Option<&TextSet>,
) -> (r: Option<BranchCompletion>)
    ensures
        *final(tab_prefix) == Some(
            match *old(tab_prefix) {
                Some(prefix) => prefix,
                None => *field,
            },
        ),
        match completion(branches@, reading(*old(tab_prefix)), field@, members(occupied)) {
            Some(i) => {
                &&& i < branches@.len()
                &&& r matches Some(completed)
                &&& completed.branch == branches@[i as int]
                &&& completed.picker_cursor == match occupied {
                    Some(set) => picker_row(
                        free_branches(branches@, final(tab_prefix)->0@, set@),
                        i,
                    ),
                    None => None,
                }
            },
            None => r is None,
        },
{
    let ghost typed = reading(*tab_prefix);
    let first_press = tab_prefix.is_none();
    let prefix: String = match &*tab_prefix {
        Some(prefix) => prefix.clone(),
        None => field.clone(),
    };
    *tab_prefix = Some(prefix.clone());
    let found = list_completions(branches, &prefix, occupied);
    if found.len() == 0 {
        return None;
    }
    let mut k: usize = 0;
    if !first_press {
        if let Some(at) = position_reading(branches, &found, field) {
            k = if at + 1 < found.len() {
                at + 1
            } else {
                0
            };
            proof {
                let n = found@.len() as int;
                if at + 1 < n {
                    assert((at + 1) % n == at + 1) by (nonlinear_arith)
                        requires
                            0 <= at + 1 < n,
                    ;
                } else {
                    assert((at + 1) % n == 0) by (nonlinear_arith)
                        requires
                            at + 1 == n,
                            n > 0,
                    ;
                }
            }
        }
    }
    let i: usize = found[k];
    assert(completion(branches@, typed, field@, members(occupied)) == Some(i));
    let picker_cursor: Option<usize> = match occupied {
        Some(set) => {
            let free = list_free_branches(branches, &prefix, set);
            match position_holding(&free, i) {
                Some(at) => {
                    assert(at < free.len());
                    Some(at + 1)
                },
                None => None,
            }
        },
        None => None,
    };
    Some(BranchCompletion { branch: branches[i].clone(), picker_cursor })
}

/// A pull request's number is recognised as it is written, with `#` or without.
pub proof fn law_pr_numbers_are_detected(n: u32)
    ensures
        pr_number_in(text::decimal_text(n as nat)) == Some(n),
        pr_number_in(seq!['#'] + text::decimal_text(n as nat)) == Some(n),
{
    let d = text::decimal_text(n as nat);
    text::law_decimal_round_trip(n as nat);
    assert(text::digit(d[0]) && text::digit(d.last()));
    assert(text::trim_both(d) == d);
    let h = seq!['#'] + d;
    assert(h.last() == d.last());
    assert(text::trim_both(h) == h);
    assert(h.skip(1) == d);
}

/// A branch that completes a prefix is one that the list searched for that prefix shows.
pub proof fn lemma_completion_is_listed(
    branches: Seq<String>,
    prefix: Seq<char>,
    occupied: Set<Seq<char>>,
    i: int,
)
    requires
        completes(branches, prefix, Some(occupied))(i),
    ensures
        free_branch(branches, prefix, occupied)(i),
{
    let name = text::lowercase(branches[i]@);
    let part = text::lowercase(prefix);
    if prefix.len() > 0 {
        assert(text::part_at(name, part, 0));
    }
}

/// A completion is one of the branches that complete what was typed.
pub proof fn lemma_completion_is_a_match(
    branches: Seq<String>,
    tab_prefix: Option<Seq<char>>,
    field: Seq<char>,
    occupied: Option<Set<Seq<char>>>,
)
    requires
        branches.len() <= usize::MAX,
    ensures
        completion(branches, tab_prefix, field, occupied) matches Some(i) ==> {
            let prefix = match tab_prefix {
                Some(prefix) => prefix,
                None => field,
            };
            i < branches.len() && completes(branches, prefix, occupied)(i as int)
        },
{
    let prefix = match tab_prefix {
        Some(prefix) => prefix,
        None => field,
    };
    let found = completions(branches, prefix, occupied);
    select::lemma_picked(branches.len(), completes(branches, prefix, occupied));
    if found.len() > 0 && tab_prefix is Some {
        let n = found.len() as int;
        if let Some(k) = select::first_index(found.len(), reads(branches, found, field)) {
            vstd::arithmetic::div_mod::lemma_mod_bound(k + 1, n);
            assert(0 <= (k + 1) % n < n);
        }
    }
}

/// A branch without a worktree that the list shows has a row, and that row leads to it.
pub proof fn lemma_picker_row(
    branches: Seq<String>,
    search: Seq<char>,
    occupied: Set<Seq<char>>,
    i: usize,
)
    requires
        branches.len() <= usize::MAX,
        i < branches.len(),
        free_branch(branches, search, occupied)(i as int),
    ensures
        ({
            let free = free_branches(branches, search, occupied);
            &&& picker_row(free, i) matches Some(row)
            &&& 0 < row <= free.len()
            &&& free[row - 1] == i
        }),
{
    let pred = free_branch(branches, search, occupied);
    let free = free_branches(branches, search, occupied);
    select::lemma_picked(branches.len(), pred);
    select::lemma_picked_complete(branches.len(), pred, i as int);
    let j = choose|j: int| 0 <= j < free.len() && free[j] == i;
    assert(holds(free, i)(j));
    select::lemma_first_index(free.len(), holds(free, i));
}

/// The index of the branch in the field after `n` presses beyond the first.
pub open spec fn after_presses(
    branches: Seq<String>,
    typed: Seq<char>,
    occupied: Option<Set<Seq<char>>>,
    n: nat,
) -> Option<usize>
    decreases n,
{
    if n == 0 {
        completion(branches, None, typed, occupied)
    } else {
        match after_presses(branches, typed, occupied, (n - 1) as nat) {
            Some(i) => completion(branches, Some(typed), branches[i as int]@, occupied),
            None => None,
        }
    }
}

/// The first press completes what was typed to the first branch that matches, and each further
/// press goes on to the next one, from the last to the first, as long as no two branches have one
/// name.
pub proof fn law_completion_cycles(
    branches: Seq<String>,
    typed: Seq<char>,
    occupied: Option<Set<Seq<char>>>,
    n: nat,
)
    requires
        branches.len() <= usize::MAX,
        forall|i: int, j: int|
            0 <= i < branches.len() && 0 <= j < branches.len() && (#[trigger] branches[i])@
                == (#[trigger] branches[j])@ ==> i == j,
    ensures
        ({
            let found = completions(branches, typed, occupied);
            if found.len() == 0 {
                after_presses(branches, typed, occupied, n) is None
            } else {
                after_presses(branches, typed, occupied, n) == Some(
                    found[n as int % found.len() as int],
                )
            }
        }),
    decreases n,
{
    let found = completions(branches, typed, occupied);
    let len = found.len() as int;
    select::lemma_picked(branches.len(), completes(branches, typed, occupied));
    if n == 0 {
        if len > 0 {
            vstd::arithmetic::div_mod::lemma_small_mod(0, found.len());
        }
    } else {
        law_completion_cycles(branches, typed, occupied, (n - 1) as nat);
        if len > 0 {
            let k = (n - 1) % len;
            vstd::arithmetic::div_mod::lemma_mod_bound(n - 1, len);
            let name = branches[found[k] as int]@;
            let pred = reads(branches, found, name);
            assert(pred(k));
            assert forall|j: int| 0 <= j < k implies !(#[trigger] pred(j)) by {
                assert(found[j] < found[k]);
                assert(branches[found[j] as int]@ == name ==> found[j] == found[k]);
            }
            select::lemma_first_found(found.len(), pred, k);
            vstd::arithmetic::div_mod::lemma_add_mod_noop(n - 1, 1, len);
            vstd::arithmetic::div_mod::lemma_add_mod_noop(k, 1, len);
            vstd::arithmetic::div_mod::lemma_mod_twice(n - 1, len);
            assert((k + 1) % len == n as int % len);
        }
    }
}

/// Jobs and optional texts read as they are.
pub proof fn law_jobs_read_as_they_are(job: AddWorktreeJob, s: Option<String>, set: Option<&TextSet>)
    ensures
        match job {
            AddWorktreeJob::CreateBranch { name, base_branch } => {
                &&& job@ matches JobView::CreateBranch { name: n, base_branch: b }
                &&& n == name@
                &&& b is Some <==> base_branch is Some
                &&& b is Some ==> b->0 == base_branch->0@
            },
            AddWorktreeJob::CheckoutPr { pr_number } => job@ == (JobView::CheckoutPr { pr_number }),
        },
        reading(s) is Some <==> s is Some,
        s matches Some(t) ==> reading(s) == Some(t@),
        members(set) is Some <==> set is Some,
        set matches Some(m) ==> members(set) == Some(m@),
{
}

/// The list of branches is searched for what was typed, not for what a completion put in its place. It
/// shows exactly the branches that the search lets through, each once: those without a worktree first
/// and those with one behind them, either in the order of the branches.
pub proof fn law_branch_list_shows_what_is_searched_for(state: AddWorktreeState)
    ensures
        state.tab_prefix is None ==> state.search() == state.filter@,
        state.tab_prefix matches Some(typed) ==> state.search() == typed@,
        state.visible() == state.free() + state.taken(),
        forall|j: int, k: int|
            0 <= j < k < state.free().len() ==> (#[trigger] state.free()[j]) < (
            #[trigger] state.free()[k]),
        forall|j: int, k: int|
            0 <= j < k < state.taken().len() ==> (#[trigger] state.taken()[j]) < (
            #[trigger] state.taken()[k]),
        forall|k: int|
            0 <= k < state.visible().len() ==> (#[trigger] state.visible()[k]) < state.branches@.len(),
        forall|i: int|
            0 <= i < state.branches@.len() ==> {
                let name = (#[trigger] state.branches@[i])@;
                let admitted = picker::admits(name, state.search());
                let occupied = state.occupied_branches@.contains(name);
                &&& state.free().contains(i as usize) <==> admitted && !occupied
                &&& state.taken().contains(i as usize) <==> admitted && occupied
            },
{
    let n = state.branches@.len();
    let free = free_branch(state.branches@, state.search(), state.occupied_branches@);
    let taken = taken_branch(state.branches@, state.search(), state.occupied_branches@);
    assert(n == state.branches.len());
    select::lemma_picked(n, free);
    select::lemma_picked(n, taken);
    assert forall|i: int| 0 <= i < state.branches@.len() implies {
        let name = (#[trigger] state.branches@[i])@;
        let admitted = picker::admits(name, state.search());
        let occupied = state.occupied_branches@.contains(name);
        &&& state.free().contains(i as usize) <==> admitted && !occupied
        &&& state.taken().contains(i as usize) <==> admitted && occupied
    } by {
        if free(i) {
            select::lemma_picked_complete(n, free, i);
        }
        if taken(i) {
            select::lemma_picked_complete(n, taken, i);
        }
    }
}

/// The list of pull requests shows exactly those whose title the filter lets through or whose number
/// contains it, in their order; before they are loaded it shows none.
pub proof fn law_pr_list_shows_title_or_number(state: AddWorktreeState, prs: Vec<PrEntry>)
    ensures
        !(state.pr_list is Some && state.pr_list->0 is Loaded) ==> state.visible_prs().len() == 0,
        state.pr_list == Some(PrListState::Loaded { prs }) ==> {
            &&& forall|j: int, k: int|
                0 <= j < k < state.visible_prs().len() ==> (#[trigger] state.visible_prs()[j]) < (
                #[trigger] state.visible_prs()[k])
            &&& forall|k: int|
                0 <= k < state.visible_prs().len() ==> (#[trigger] state.visible_prs()[k])
                    < prs@.len()
            &&& forall|i: int|
                0 <= i < prs@.len() ==> (state.visible_prs().contains(i as usize) <==> (
                picker::admits((#[trigger] prs@[i]).title@, state.filter@) || text::has_part(
                    text::decimal_text(prs@[i].number as nat),
                    state.filter@,
                )))
        },
{
    if state.pr_list == Some(PrListState::Loaded { prs }) {
        let pred = pr_shown(prs@, state.filter@);
        assert(prs@.len() == prs.len());
        select::lemma_picked(prs@.len(), pred);
        assert forall|i: int| 0 <= i < prs@.len() implies (state.visible_prs().contains(i as usize)
            <==> (picker::admits((#[trigger] prs@[i]).title@, state.filter@) || text::has_part(
            text::decimal_text(prs@[i].number as nat),
            state.filter@,
        ))) by {
            if pred(i) {
                select::lemma_picked_complete(prs@.len(), pred, i);
            }
        }
    }
}

/// A number is typed for a pull request exactly where the text, trimmed, is digits, alone or behind one
/// `#`.
pub proof fn law_pr_number_is_typed_in_digits(typed: Seq<char>, n: u32)
    ensures
        ({
            let t = text::trim_both(typed);
            pr_number_in(typed) == Some(n) <==> text::parsed_number(t) == Some(n) || (t.len() > 0
                && t[0] == '#' && text::parsed_number(t.skip(1)) == Some(n))
        }),
{
    let t = text::trim_both(typed);
    text::law_numbers_are_digits(t, n);
}

/// The cursor reaches as many rows as there are to choose, and the first one always. In the list of
/// branches these are the branches without a worktree, and a row for a new branch where a name is typed;
/// in the list of pull requests, those shown.
pub proof fn law_cursor_reaches_every_row(state: AddWorktreeState)
    ensures
        ({
            let typed = text::trim_both(state.filter@).len() > 0;
            let rows: int = match state.mode {
                AddWorktreeMode::Branch => state.free().len() + if typed {
                    1int
                } else {
                    0int
                },
                AddWorktreeMode::Pr => state.visible_prs().len() as int,
            };
            state.last_row() + 1 == if rows > 0 {
                rows
            } else {
                1
            }
        }),
        state.wf() <==> state.cursor <= state.last_row(),
{
}

/// A name begins with a prefix exactly where its lower-case form is that of the prefix and something
/// behind it; every name begins with nothing.
pub proof fn law_prefixes_go_by_lower_case(name: Seq<char>, prefix: Seq<char>)
    ensures
        prefix.len() == 0 ==> begins(name, prefix),
        prefix.len() > 0 ==> (begins(name, prefix) <==> exists|rest: Seq<char>|
            text::lowercase(name) == #[trigger] (text::lowercase(prefix) + rest)),
{
    let low = text::lowercase(name);
    let start = text::lowercase(prefix);
    if start.is_prefix_of(low) {
        assert(low =~= start + low.skip(start.len() as int));
    }
    if exists|rest: Seq<char>| low == #[trigger] (start + rest) {
        let rest = choose|rest: Seq<char>| low == #[trigger] (start + rest);
        assert(start =~= (start + rest).subrange(0, start.len() as int));
    }
}

/// A branch completes a prefix exactly where it begins with it and is not passed over as occupied; the
/// completions stand in the order of the branches.
pub proof fn law_completions_begin_with_the_prefix(
    branches: Vec<String>,
    prefix: Seq<char>,
    occupied: Option<Set<Seq<char>>>,
)
    ensures
        ({
            let found = completions(branches@, prefix, occupied);
            &&& forall|j: int, k: int|
                0 <= j < k < found.len() ==> (#[trigger] found[j]) < (#[trigger] found[k])
            &&& forall|k: int| 0 <= k < found.len() ==> (#[trigger] found[k]) < branches@.len()
            &&& forall|i: int|
                0 <= i < branches@.len() ==> (found.contains(i as usize) <==> begins(
                    (#[trigger] branches@[i])@,
                    prefix,
                ) && !(occupied is Some && occupied->0.contains(branches@[i]@)))
        }),
{
    let pred = completes(branches@, prefix, occupied);
    let found = completions(branches@, prefix, occupied);
    assert(branches@.len() == branches.len());
    select::lemma_picked(branches@.len(), pred);
    assert forall|i: int| 0 <= i < branches@.len() implies (found.contains(i as usize) <==> begins(
        (#[trigger] branches@[i])@,
        prefix,
    ) && !(occupied is Some && occupied->0.contains(branches@[i]@))) by {
        if pred(i) {
            select::lemma_picked_complete(branches@.len(), pred, i);
        }
    }
}

/// The first press gives the first completion of what was typed. A later one gives the completion after
/// the first that the field holds, or the first of all behind the last and where the field holds none.
pub proof fn law_each_press_gives_a_completion(
    branches: Seq<String>,
    typed: Seq<char>,
    field: Seq<char>,
    occupied: Option<Set<Seq<char>>>,
    k: int,
)
    requires
        branches.len() <= usize::MAX,
    ensures
        ({
            let fresh = completions(branches, field, occupied);
            &&& fresh.len() == 0 ==> completion(branches, None, field, occupied) is None
            &&& fresh.len() > 0 ==> completion(branches, None, field, occupied) == Some(fresh[0])
        }),
        ({
            let found = completions(branches, typed, occupied);
            let next = completion(branches, Some(typed), field, occupied);
            &&& found.len() == 0 ==> next is None
            &&& found.len() > 0 && (forall|j: int|
                0 <= j < found.len() ==> branches[(#[trigger] found[j]) as int]@ != field) ==> next
                == Some(found[0])
            &&& 0 <= k < found.len() && branches[found[k] as int]@ == field && (forall|j: int|
                0 <= j < k ==> branches[(#[trigger] found[j]) as int]@ != field) ==> {
                &&& k + 1 < found.len() ==> next == Some(found[k + 1])
                &&& k + 1 == found.len() ==> next == Some(found[0])
            }
        }),
{
    let found = completions(branches, typed, occupied);
    let pred = reads(branches, found, field);
    select::lemma_picked(branches.len(), completes(branches, typed, occupied));
    if forall|j: int| 0 <= j < found.len() ==> branches[(#[trigger] found[j]) as int]@ != field {
        assert forall|j: int| 0 <= j < found.len() implies !(#[trigger] pred(j)) by {
            assert(branches[found[j] as int]@ != field);
        }
        select::lemma_none_found(found.len(), pred);
    }
    if 0 <= k < found.len() && branches[found[k] as int]@ == field && (forall|j: int|
        0 <= j < k ==> branches[(#[trigger] found[j]) as int]@ != field) {
        assert forall|j: int| 0 <= j < k implies !(#[trigger] pred(j)) by {
            assert(branches[found[j] as int]@ != field);
        }
        select::lemma_first_found(found.len(), pred, k);
        if k + 1 < found.len() {
            vstd::arithmetic::div_mod::lemma_small_mod((k + 1) as nat, found.len());
        } else {
            vstd::arithmetic::div_mod::lemma_mod_self_0(found.len() as int);
        }
    }
}

/// The row of a branch is one below its place among the branches without a worktree; a branch that is
/// not among them has none.
pub proof fn law_picker_rows_follow_the_list(free: Seq<usize>, i: usize, k: int)
    requires
        free.len() < usize::MAX,
    ensures
        0 <= k < free.len() && free[k] == i && (forall|j: int|
            0 <= j < k ==> (#[trigger] free[j]) != i) ==> picker_row(free, i) == Some(
            (k + 1) as usize,
        ),
        !free.contains(i) ==> picker_row(free, i) is None,
{
    let pred = holds(free, i);
    if 0 <= k < free.len() && free[k] == i && (forall|j: int|
        0 <= j < k ==> (#[trigger] free[j]) != i) {
        assert forall|j: int| 0 <= j < k implies !(#[trigger] pred(j)) by {
            assert(free[j] != i);
        }
        select::lemma_first_found(free.len(), pred, k);
    }
    if !free.contains(i) {
        assert forall|j: int| 0 <= j < free.len() implies !(#[trigger] pred(j)) by {
            assert(free.contains(free[j]));
        }
        select::lemma_none_found(free.len(), pred);
    }
}

} // verus!
