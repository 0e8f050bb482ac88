//! The background job that adds a worktree, step by step: each stage asks for one thing, and the
//! answer leads to the next stage.

use vstd::prelude::*;
use vstd::string::StringExecFns;
use crate::add_worktree;
use crate::add_worktree::{AddWorktreeJob, JobView};
use crate::text;
use crate::types::{MuxMode, SetupFlags};

verus! {

/// Where a pull request comes from: the owner of the repository and the branch in it.
#[derive(Debug)]
pub struct PrHead {
    pub owner: String,
    pub branch: String,
}

/// The branch that the worktree gets, and the mode of its window or session.
#[derive(Debug)]
pub struct BranchPlan {
    pub branch_name: String,
    pub base_branch: Option<String>,
    pub remote_branch: Option<String>,
    pub pr_number: Option<u32>,
    pub mode: MuxMode,
}

/// What creating the worktree takes. Its whole setup runs, and the new window does not take the
/// focus; there is no prompt, no agent and no fork to start from, the mode is the configured one and
/// nothing overrides it, and the handle was not given by hand.
#[derive(Debug)]
pub struct CreateArgs {
    pub branch_name: String,
    pub handle: String,
    pub base_branch: Option<String>,
    pub remote_branch: Option<String>,
    pub pr_number: Option<u32>,
    pub prompt: Option<String>,
    pub setup: SetupFlags,
    pub focus_window: bool,
    pub mode: MuxMode,
    pub mode_override: Option<MuxMode>,
    pub agent: Option<String>,
    pub is_explicit_name: bool,
    pub prompt_file_only: bool,
    pub fork_source: Option<String>,
}

/// How far a job has come.
#[derive(Debug)]
pub enum JobStage {
    /// The configuration of the repository is to be loaded.
    Config { job: AddWorktreeJob },
    /// The pull request is to be looked up.
    Pr { pr_number: u32, mode: MuxMode },
    /// The owner of the repository is to be found, and whether the pull request comes from a fork.
    Owner { pr_number: u32, mode: MuxMode, head: PrHead },
    /// The fork is to be made a remote.
    Remote { pr_number: u32, mode: MuxMode, head: PrHead },
    /// The context of the repository is to be built.
    Context { plan: BranchPlan },
    /// The handle is to be derived from the branch.
    Handle { plan: BranchPlan },
    /// The worktree is to be created.
    Create { plan: BranchPlan, handle: String },
    /// The job has ended: with the branch that was created, or the reason why none was.
    Finished { result: Result<String, String> },
}

/// What a stage asks for.
#[derive(Debug)]
pub enum JobAction {
    LoadConfig,
    FetchPr { pr_number: u32 },
    FindOwner,
    EnsureForkRemote { owner: String },
    BuildContext,
    DeriveHandle { branch: String },
    Create { args: CreateArgs },
    Finish { result: Result<String, String> },
}

/// An answer.
#[derive(Debug)]
pub enum JobEvent {
    /// With the mode that is configured.
    ConfigLoaded { mode: MuxMode },
    PrFetched { head: PrHead },
    OwnerFound { is_fork: bool },
    RemoteReady { remote: String },
    ContextBuilt,
    HandleDerived { handle: String },
    Created { branch: String },
    Failed { message: String },
}

/// An origin, as its texts read.
pub struct HeadView {
    pub owner: Seq<char>,
    pub branch: Seq<char>,
}

/// A plan, as its texts read.
pub struct PlanView {
    pub branch_name: Seq<char>,
    pub base_branch: Option<Seq<char>>,
    pub remote_branch: Option<Seq<char>>,
    pub pr_number: Option<u32>,
    pub mode: MuxMode,
}

/// A stage, as its texts read.
pub enum StageView {
    Config { job: JobView },
    Pr { pr_number: u32, mode: MuxMode },
    Owner { pr_number: u32, mode: MuxMode, head: HeadView },
    Remote { pr_number: u32, mode: MuxMode, head: HeadView },
    Context { plan: PlanView },
    Handle { plan: PlanView },
    Create { plan: PlanView, handle: Seq<char> },
    Finished { result: Result<Seq<char>, Seq<char>> },
}

/// An answer, as its texts read.
pub enum EventView {
    ConfigLoaded { mode: MuxMode },
    PrFetched { head: HeadView },
    OwnerFound { is_fork: bool },
    RemoteReady { remote: Seq<char> },
    ContextBuilt,
    HandleDerived { handle: Seq<char> },
    Created { branch: Seq<char> },
    Failed { message: Seq<char> },
}

/// A result, as its texts read.
pub open spec fn result_reading(r: Result<String, String>) -> Result<Seq<char>, Seq<char>> {
    match r {
        Ok(branch) => Ok(branch@),
        Err(message) => Err(message@),
    }
}

impl PrHead {
    /// The origin, as its texts read.
    pub open spec fn view(&self) -> HeadView {
        HeadView { owner: self.owner@, branch: self.branch@ }
    }
}

impl BranchPlan {
    /// The plan, as its texts read.
    pub open spec fn view(&self) -> PlanView {
        PlanView {
            branch_name: self.branch_name@,
            base_branch: add_worktree::reading(self.base_branch),
            remote_branch: add_worktree::reading(self.remote_branch),
            pr_number: self.pr_number,
            mode: self.mode,
        }
    }
}

impl JobEvent {
    /// The answer, as its texts read.
    pub open spec fn view(&self) -> EventView {
        match *self {
            JobEvent::ConfigLoaded { mode } => EventView::ConfigLoaded { mode },
            JobEvent::PrFetched { head } => EventView::PrFetched { head: head@ },
            JobEvent::OwnerFound { is_fork } => EventView::OwnerFound { is_fork },
            JobEvent::RemoteReady { remote } => EventView::RemoteReady { remote: remote@ },
            JobEvent::ContextBuilt => EventView::ContextBuilt,
            JobEvent::HandleDerived { handle } => EventView::HandleDerived { handle: handle@ },
            JobEvent::Created { branch } => EventView::Created { branch: branch@ },
            JobEvent::Failed { message } => EventView::Failed { message: message@ },
        }
    }
}

/// The remote of the repository itself.
pub const ORIGIN: &'static str = "origin";

/// The branch that a pull request is checked out on: under the name that it has in its own
/// repository, behind the owner's where that is a fork; it follows that branch at the remote.
pub open spec fn checkout_plan(
    pr_number: u32,
    mode: MuxMode,
    head: HeadView,
    is_fork: bool,
    remote: Seq<char>,
) -> PlanView {
    PlanView {
        branch_name: if is_fork {
            head.owner + "-"@ + head.branch
        } else {
            head.branch
        },
        base_branch: None,
        remote_branch: Some(remote + "/"@ + head.branch),
        pr_number: Some(pr_number),
        mode,
    }
}

/// What the job reports where a stage failed with `message`.
pub open spec fn failure(stage: StageView, message: Seq<char>) -> Seq<char> {
    match stage {
        StageView::Pr { pr_number, .. } => "Failed to fetch PR #"@ + text::decimal_text(
            pr_number as nat,
        ),
        StageView::Owner { .. } => "Failed to determine repository owner"@,
        _ => message,
    }
}

/// The stage after an answer. A failure ends the job; an answer to another question changes
/// nothing, and neither does any answer once the job has ended.
pub open spec fn next_stage(stage: StageView, event: EventView) -> StageView {
    match (stage, event) {
        (StageView::Finished { .. }, _) => stage,
        (_, EventView::Failed { message }) => StageView::Finished {
            result: Err(failure(stage, message)),
        },
        (StageView::Config { job }, EventView::ConfigLoaded { mode }) => match job {
            JobView::CreateBranch { name, base_branch } => StageView::Context {
                plan: PlanView {
                    branch_name: name,
                    base_branch,
                    remote_branch: None,
                    pr_number: None,
                    mode,
                },
            },
            JobView::CheckoutPr { pr_number } => StageView::Pr { pr_number, mode },
        },
        (StageView::Pr { pr_number, mode }, EventView::PrFetched { head }) => StageView::Owner {
            pr_number,
            mode,
            head,
        },
        (StageView::Owner { pr_number, mode, head }, EventView::OwnerFound { is_fork }) => if is_fork {
            StageView::Remote { pr_number, mode, head }
        } else {
            StageView::Context { plan: checkout_plan(pr_number, mode, head, false, ORIGIN@) }
        },
        (StageView::Remote { pr_number, mode, head }, EventView::RemoteReady { remote }) => {
            StageView::Context { plan: checkout_plan(pr_number, mode, head, true, remote) }
        },
        (StageView::Context { plan }, EventView::ContextBuilt) => StageView::Handle { plan },
        (StageView::Handle { plan }, EventView::HandleDerived { handle }) => StageView::Create {
            plan,
            handle,
        },
        (StageView::Create { .. }, EventView::Created { branch }) => StageView::Finished {
            result: Ok(branch),
        },
        _ => stage,
    }
}

impl JobStage {
    /// The stage, as its texts read.
    pub open spec fn view(&self) -> StageView {
        match *self {
            JobStage::Config { job } => StageView::Config { job: job@ },
            JobStage::Pr { pr_number, mode } => StageView::Pr { pr_number, mode },
            JobStage::Owner { pr_number, mode, head } => StageView::Owner {
                pr_number,
                mode,
                head: head@,
            },
            JobStage::Remote { pr_number, mode, head } => StageView::Remote {
                pr_number,
                mode,
                head: head@,
            },
            JobStage::Context { plan } => StageView::Context { plan: plan@ },
            JobStage::Handle { plan } => StageView::Handle { plan: plan@ },
            JobStage::Create { plan, handle } => StageView::Create { plan: plan@, handle: handle@ },
            JobStage::Finished { result } => StageView::Finished { result: result_reading(result) },
        }
    }

    /// The first stage of a job.
    pub fn start(job: AddWorktreeJob) -> (r: JobStage)
        ensures
            r == (JobStage::Config { job }),
    {
        JobStage::Config { job }
    }

    /// What the stage asks for.
    pub open spec fn asks(self) -> JobAction {
        match self {
            JobStage::Config { .. } => JobAction::LoadConfig,
            JobStage::Pr { pr_number, .. } => JobAction::FetchPr { pr_number },
            JobStage::Owner { .. } => JobAction::FindOwner,
            JobStage::Remote { head, .. } => JobAction::EnsureForkRemote { owner: head.owner },
            JobStage::Context { .. } => JobAction::BuildContext,
            JobStage::Handle { plan } => JobAction::DeriveHandle { branch: plan.branch_name },
            JobStage::Create { plan, handle } => JobAction::Create {
                args: CreateArgs {
                    branch_name: plan.branch_name,
                    handle,
                    base_branch: plan.base_branch,
                    remote_branch: plan.remote_branch,
                    pr_number: plan.pr_number,
                    prompt: None,
                    setup: SetupFlags { hooks: true, files: true, panes: true },
                    focus_window: false,
                    mode: plan.mode,
                    mode_override: None,
                    agent: None,
                    is_explicit_name: false,
                    prompt_file_only: false,
                    fork_source: None,
                },
            },
            JobStage::Finished { result } => JobAction::Finish { result },
        }
    }

    /// What the stage asks for.
    pub fn action(&self) -> (r: JobAction)
        ensures
            r == self.asks(),
    {
        match self {
            JobStage::Config { .. } => JobAction::LoadConfig,
            JobStage::Pr { pr_number, .. } => JobAction::FetchPr { pr_number: *pr_number },
            JobStage::Owner { .. } => JobAction::FindOwner,
            JobStage::Remote { head, .. } => JobAction::EnsureForkRemote {
                owner: head.owner.clone(),
            },
            JobStage::Context { .. } => JobAction::BuildContext,
            JobStage::Handle { plan } => JobAction::DeriveHandle {
                branch: plan.branch_name.clone(),
            },
            JobStage::Create { plan, handle } => JobAction::Create {
                args: CreateArgs {
                    branch_name: plan.branch_name.clone(),
                    handle: handle.clone(),
                    base_branch: plan.base_branch.clone(),
                    remote_branch: plan.remote_branch.clone(),
                    pr_number: plan.pr_number,
                    prompt: None,
                    setup: SetupFlags { hooks: true, files: true, panes: true },
                    focus_window: false,
                    mode: plan.mode,
                    mode_override: None,
                    agent: None,
                    is_explicit_name: false,
                    prompt_file_only: false,
                    fork_source: None,
                },
            },
            JobStage::Finished { result } => JobAction::Finish {
                result: match result {
                    Ok(branch) => Ok(branch.clone()),
                    Err(message) => Err(message.clone()),
                },
            },
        }
    }
}

/// What the job reports where a stage failed with `message`.
fn failure_text(stage: &JobStage, message: String) -> (r: String)
    ensures
        r@ == failure(stage@, message@),
{
    match stage {
        JobStage::Pr { pr_number, .. } => text::concat(
            "Failed to fetch PR #",
            text::decimal(*pr_number as u64).as_str(),
        ),
        JobStage::Owner { .. } => "Failed to determine repository owner".to_owned(),
        _ => message,
    }
}

/// The branch that a pull request is checked out on.
fn plan_checkout(
    pr_number: u32,
    mode: MuxMode,
    head: &PrHead,
    is_fork: bool,
    remote: &str,
) -> (r: BranchPlan)
    ensures
        r@ == checkout_plan(pr_number, mode, head@, is_fork, remote@),
{
    let branch_name: String = if is_fork {
        let mut name = head.owner.clone();
        name.append("-");
        name.append(head.branch.as_str());
        name
    } else {
        head.branch.clone()
    };
    let mut remote_branch: String = remote.to_owned();
    remote_branch.append("/");
    remote_branch.append(head.branch.as_str());
    BranchPlan {
        branch_name,
        base_branch: None,
        remote_branch: Some(remote_branch),
        pr_number: Some(pr_number),
        mode,
    }
}

/// Takes an answer, and goes on to the next stage.
pub fn run_add_worktree_job(stage: JobStage, event: JobEvent) -> (r: JobStage)
    ensures
        r@ == next_stage(stage@, event@),
{
    match event {
        JobEvent::Failed { message } => match stage {
            JobStage::Finished { result } => JobStage::Finished { result },
            _ => {
                let message = failure_text(&stage, message);
                JobStage::Finished { result: Err(message) }
            },
        },
        JobEvent::ConfigLoaded { mode } => match stage {
            JobStage::Config { job } => match job {
                AddWorktreeJob::CreateBranch { name, base_branch } => JobStage::Context {
                    plan: BranchPlan {
                        branch_name: name,
                        base_branch,
                        remote_branch: None,
                        pr_number: None,
                        mode,
                    },
                },
                AddWorktreeJob::CheckoutPr { pr_number } => JobStage::Pr { pr_number, mode },
            },
            _ => stage,
        },
        JobEvent::PrFetched { head } => match stage {
            JobStage::Pr { pr_number, mode } => JobStage::Owner { pr_number, mode, head },
            _ => stage,
        },
        JobEvent::OwnerFound { is_fork } => match stage {
            JobStage::Owner { pr_number, mode, head } => if is_fork {
                JobStage::Remote { pr_number, mode, head }
            } else {
                JobStage::Context { plan: plan_checkout(pr_number, mode, &head, false, ORIGIN) }
            },
            _ => stage,
        },
        JobEvent::RemoteReady { remote } => match stage {
            JobStage::Remote { pr_number, mode, head } => JobStage::Context {
                plan: plan_checkout(pr_number, mode, &head, true, remote.as_str()),
            },
            _ => stage,
        },
        JobEvent::ContextBuilt => match stage {
            JobStage::Context { plan } => JobStage::Handle { plan },
            _ => stage,
        },
        JobEvent::HandleDerived { handle } => match stage {
            JobStage::Handle { plan } => JobStage::Create { plan, handle },
            _ => stage,
        },
        JobEvent::Created { branch } => match stage {
            JobStage::Create { .. } => JobStage::Finished { result: Ok(branch) },
            _ => stage,
        },
    }
}

/// The stage after a row of answers.
pub open spec fn after_all(stage: StageView, events: Seq<EventView>) -> StageView
    decreases events.len(),
{
    if events.len() == 0 {
        stage
    } else {
        next_stage(after_all(stage, events.drop_last()), events.last())
    }
}

/// How many answers a job still takes at most.
pub open spec fn answers_left(stage: StageView) -> nat {
    match stage {
        StageView::Config { .. } => 7,
        StageView::Pr { .. } => 6,
        StageView::Owner { .. } => 5,
        StageView::Remote { .. } => 4,
        StageView::Context { .. } => 3,
        StageView::Handle { .. } => 2,
        StageView::Create { .. } => 1,
        StageView::Finished { .. } => 0,
    }
}

/// A job comes to an end: every answer that counts brings it nearer, and a failure ends it at once,
/// with a reason.
pub proof fn law_jobs_come_to_an_end(stage: StageView, event: EventView)
    ensures
        next_stage(stage, event) == stage || answers_left(next_stage(stage, event))
            < answers_left(stage),
        answers_left(stage) == 0 ==> next_stage(stage, event) == stage,
        event is Failed && answers_left(stage) > 0 ==> next_stage(stage, event)
            == (StageView::Finished { result: Err(failure(stage, event->message)) }),
{
}

/// Whether a stage keeps to what was asked for: a new branch gets the name and the base that were
/// given and follows no remote; a pull request keeps its number, follows a branch and has no base.
pub open spec fn keeps_to(job: JobView, stage: StageView) -> bool {
    match (job, stage) {
        (_, StageView::Finished { .. }) => true,
        (_, StageView::Config { job: asked }) => asked == job,
        (
            JobView::CreateBranch { name, base_branch },
            StageView::Context { plan } | StageView::Handle { plan } | StageView::Create { plan, .. },
        ) => plan == (PlanView {
            branch_name: name,
            base_branch,
            remote_branch: None,
            pr_number: None,
            mode: plan.mode,
        }),
        (
            JobView::CheckoutPr { pr_number },
            StageView::Context { plan } | StageView::Handle { plan } | StageView::Create { plan, .. },
        ) => plan.pr_number == Some(pr_number) && plan.base_branch is None && plan.remote_branch is Some,
        (
            JobView::CheckoutPr { pr_number },
            StageView::Pr { pr_number: n, .. } | StageView::Owner { pr_number: n, .. } | StageView::Remote {
                pr_number: n,
                ..
            },
        ) => n == pr_number,
        _ => false,
    }
}

/// The mode that a stage goes on with.
pub open spec fn mode_of(stage: StageView) -> Option<MuxMode> {
    match stage {
        StageView::Pr { mode, .. } | StageView::Owner { mode, .. } | StageView::Remote {
            mode,
            ..
        } => Some(mode),
        StageView::Context { plan } | StageView::Handle { plan } | StageView::Create { plan, .. } => {
            Some(plan.mode)
        },
        _ => None,
    }
}

/// Whatever the answers are, and in whichever order they come, a job keeps to what was asked for, and
/// its mode is one that was configured.
pub proof fn law_jobs_keep_to_what_was_asked(job: JobView, answers: Seq<EventView>)
    ensures
        keeps_to(job, after_all(StageView::Config { job }, answers)),
        mode_of(after_all(StageView::Config { job }, answers)) matches Some(mode)
            ==> answers.contains(EventView::ConfigLoaded { mode }),
    decreases answers.len(),
{
    if answers.len() > 0 {
        let front = answers.drop_last();
        law_jobs_keep_to_what_was_asked(job, front);
        if let Some(mode) = mode_of(after_all(StageView::Config { job }, front)) {
            let loaded = EventView::ConfigLoaded { mode };
            let i = choose|i: int| 0 <= i < front.len() && front[i] == loaded;
            assert(answers[i] == loaded);
        }
        assert(answers.contains(answers.last()));
    }
}

/// A new branch is created under the name and from the base that were asked for, in the configured
/// mode, and what was created is what the job reports.
pub proof fn law_new_branch_is_created_as_asked(
    name: Seq<char>,
    base_branch: Option<Seq<char>>,
    mode: MuxMode,
    handle: Seq<char>,
    branch: Seq<char>,
)
    ensures
        ({
            let start = StageView::Config { job: JobView::CreateBranch { name, base_branch } };
            let plan = PlanView {
                branch_name: name,
                base_branch,
                remote_branch: None,
                pr_number: None,
                mode,
            };
            let answers = seq![
                EventView::ConfigLoaded { mode },
                EventView::ContextBuilt,
                EventView::HandleDerived { handle },
            ];
            &&& after_all(start, answers) == (StageView::Create { plan, handle })
            &&& after_all(start, answers.push(EventView::Created { branch }))
                == (StageView::Finished { result: Ok(branch) })
        }),
{
    let start = StageView::Config { job: JobView::CreateBranch { name, base_branch } };
    let e0 = EventView::ConfigLoaded { mode };
    let e1 = EventView::ContextBuilt;
    let e2 = EventView::HandleDerived { handle };
    let e3 = EventView::Created { branch };
    let answers = seq![e0, e1, e2];
    assert(answers.push(e3).drop_last() == answers);
    assert(answers.drop_last() == seq![e0, e1]);
    assert(seq![e0, e1].drop_last() == seq![e0]);
    assert(seq![e0].drop_last() == Seq::<EventView>::empty());
    reveal_with_fuel(after_all, 5);
}

/// A pull request from the repository itself is checked out under its own name, from `origin`, and
/// no other remote comes in.
pub proof fn law_own_pr_is_checked_out_from_origin(
    pr_number: u32,
    mode: MuxMode,
    head: HeadView,
    handle: Seq<char>,
)
    ensures
        after_all(
            StageView::Config { job: JobView::CheckoutPr { pr_number } },
            seq![
                EventView::ConfigLoaded { mode },
                EventView::PrFetched { head },
                EventView::OwnerFound { is_fork: false },
                EventView::ContextBuilt,
                EventView::HandleDerived { handle },
            ],
        ) == (StageView::Create {
            plan: PlanView {
                branch_name: head.branch,
                base_branch: None,
                remote_branch: Some("origin"@ + "/"@ + head.branch),
                pr_number: Some(pr_number),
                mode,
            },
            handle,
        }),
{
    let e0 = EventView::ConfigLoaded { mode };
    let e1 = EventView::PrFetched { head };
    let e2 = EventView::OwnerFound { is_fork: false };
    let e3 = EventView::ContextBuilt;
    let e4 = EventView::HandleDerived { handle };
    assert(seq![e0, e1, e2, e3, e4].drop_last() == seq![e0, e1, e2, e3]);
    assert(seq![e0, e1, e2, e3].drop_last() == seq![e0, e1, e2]);
    assert(seq![e0, e1, e2].drop_last() == seq![e0, e1]);
    assert(seq![e0, e1].drop_last() == seq![e0]);
    assert(seq![e0].drop_last() == Seq::<EventView>::empty());
    reveal_with_fuel(after_all, 6);
}

/// A pull request from a fork is checked out behind its owner's name, from the remote that was made
/// for the fork.
pub proof fn law_fork_pr_is_checked_out_from_its_remote(
    pr_number: u32,
    mode: MuxMode,
    head: HeadView,
    remote: Seq<char>,
    handle: Seq<char>,
)
    ensures
        after_all(
            StageView::Config { job: JobView::CheckoutPr { pr_number } },
            seq![
                EventView::ConfigLoaded { mode },
                EventView::PrFetched { head },
                EventView::OwnerFound { is_fork: true },
                EventView::RemoteReady { remote },
                EventView::ContextBuilt,
                EventView::HandleDerived { handle },
            ],
        ) == (StageView::Create {
            plan: PlanView {
                branch_name: head.owner + "-"@ + head.branch,
                base_branch: None,
                remote_branch: Some(remote + "/"@ + head.branch),
                pr_number: Some(pr_number),
                mode,
            },
            handle,
        }),
{
    let e0 = EventView::ConfigLoaded { mode };
    let e1 = EventView::PrFetched { head };
    let e2 = EventView::OwnerFound { is_fork: true };
    let e3 = EventView::RemoteReady { remote };
    let e4 = EventView::ContextBuilt;
    let e5 = EventView::HandleDerived { handle };
    assert(seq![e0, e1, e2, e3, e4, e5].drop_last() == seq![e0, e1, e2, e3, e4]);
    assert(seq![e0, e1, e2, e3, e4].drop_last() == seq![e0, e1, e2, e3]);
    assert(seq![e0, e1, e2, e3].drop_last() == seq![e0, e1, e2]);
    assert(seq![e0, e1, e2].drop_last() == seq![e0, e1]);
    assert(seq![e0, e1].drop_last() == seq![e0]);
    assert(seq![e0].drop_last() == Seq::<EventView>::empty());
    reveal_with_fuel(after_all, 7);
}

/// Stages and answers read as they are, field by field.
pub proof fn law_stages_read_as_they_are(stage: JobStage, event: JobEvent, plan: BranchPlan, head: PrHead)
    ensures
        plan@.branch_name == plan.branch_name@,
        plan@.base_branch is Some <==> plan.base_branch is Some,
        plan.base_branch matches Some(base) ==> plan@.base_branch == Some(base@),
        plan@.remote_branch is Some <==> plan.remote_branch is Some,
        plan.remote_branch matches Some(remote) ==> plan@.remote_branch == Some(remote@),
        plan@.pr_number == plan.pr_number,
        plan@.mode == plan.mode,
        head@.owner == head.owner@ && head@.branch == head.branch@,
        match stage {
            JobStage::Config { job } => stage@ == (StageView::Config { job: job@ }),
            JobStage::Pr { pr_number, mode } => stage@ == (StageView::Pr { pr_number, mode }),
            JobStage::Owner { pr_number, mode, head } => stage@ == (StageView::Owner {
                pr_number,
                mode,
                head: head@,
            }),
            JobStage::Remote { pr_number, mode, head } => stage@ == (StageView::Remote {
                pr_number,
                mode,
                head: head@,
            }),
            JobStage::Context { plan } => stage@ == (StageView::Context { plan: plan@ }),
            JobStage::Handle { plan } => stage@ == (StageView::Handle { plan: plan@ }),
            JobStage::Create { plan, handle } => stage@ == (StageView::Create {
                plan: plan@,
                handle: handle@,
            }),
            JobStage::Finished { result: Ok(branch) } => stage@ == (StageView::Finished {
                result: Ok(branch@),
            }),
            JobStage::Finished { result: Err(message) } => stage@ == (StageView::Finished {
                result: Err(message@),
            }),
        },
        match event {
            JobEvent::ConfigLoaded { mode } => event@ == (EventView::ConfigLoaded { mode }),
            JobEvent::PrFetched { head } => event@ == (EventView::PrFetched { head: head@ }),
            JobEvent::OwnerFound { is_fork } => event@ == (EventView::OwnerFound { is_fork }),
            JobEvent::RemoteReady { remote } => event@ == (EventView::RemoteReady {
                remote: remote@,
            }),
            JobEvent::ContextBuilt => event@ is ContextBuilt,
            JobEvent::HandleDerived { handle } => event@ == (EventView::HandleDerived {
                handle: handle@,
            }),
            JobEvent::Created { branch } => event@ == (EventView::Created { branch: branch@ }),
            JobEvent::Failed { message } => event@ == (EventView::Failed { message: message@ }),
        },
{
}

/// What a stage asks for: the one thing that the next stage needs, about the pull request, the owner or
/// the branch that the stage is about; creation takes the plan as it is, and a finished job hands its
/// result out.
pub proof fn law_stages_ask_for_what_they_need(stage: JobStage)
    ensures
        stage is Config <==> stage.asks() is LoadConfig,
        stage is Pr <==> stage.asks() is FetchPr,
        stage is Owner <==> stage.asks() is FindOwner,
        stage is Remote <==> stage.asks() is EnsureForkRemote,
        stage is Context <==> stage.asks() is BuildContext,
        stage is Handle <==> stage.asks() is DeriveHandle,
        stage is Create <==> stage.asks() is Create,
        stage is Finished <==> stage.asks() is Finish,
        stage matches JobStage::Pr { pr_number: n, .. } ==> (stage.asks() matches JobAction::FetchPr {
            pr_number,
        } && pr_number == n),
        stage matches JobStage::Remote { head, .. } ==> (
        stage.asks() matches JobAction::EnsureForkRemote { owner } && owner == head.owner),
        stage matches JobStage::Handle { plan } ==> (
        stage.asks() matches JobAction::DeriveHandle { branch } && branch == plan.branch_name),
        stage matches JobStage::Finished { result: ended } ==> (
        stage.asks() matches JobAction::Finish { result } && result == ended),
        stage matches JobStage::Create { plan, handle } ==> {
            &&& stage.asks() matches JobAction::Create { args }
            &&& args.branch_name == plan.branch_name
            &&& args.handle == handle
            &&& args.base_branch == plan.base_branch
            &&& args.remote_branch == plan.remote_branch
            &&& args.pr_number == plan.pr_number
            &&& args.mode == plan.mode
        },
{
}

/// Whichever worktree is created, its whole setup runs: its hooks, its file operations and its pane
/// commands; its window does not take the focus, nothing overrides its mode, and no prompt, agent or
/// fork comes with it.
pub proof fn law_every_worktree_gets_its_whole_setup(stage: JobStage)
    ensures
        stage.asks() matches JobAction::Create { args } ==> {
            &&& args.setup.hooks
            &&& args.setup.files
            &&& args.setup.panes
            &&& !args.focus_window
            &&& args.mode_override is None
            &&& args.prompt is None
            &&& args.agent is None
            &&& args.fork_source is None
            &&& !args.is_explicit_name
            &&& !args.prompt_file_only
        },
{
}

/// Where a plan may come from: from the job, where it creates a branch; else from the pull request that
/// was found, either in the repository itself or in a fork that was made a remote.
pub open spec fn drawn_from(job: JobView, answers: Seq<EventView>, plan: PlanView) -> bool {
    &&& answers.contains(EventView::ConfigLoaded { mode: plan.mode })
    &&& match job {
        JobView::CreateBranch { name, base_branch } => {
            &&& plan.branch_name == name
            &&& plan.base_branch == base_branch
            &&& plan.remote_branch is None
            &&& plan.pr_number is None
        },
        JobView::CheckoutPr { pr_number } => {
            &&& plan.pr_number == Some(pr_number)
            &&& plan.base_branch is None
            &&& exists|head: HeadView|
                {
                    &&& #[trigger] answers.contains(EventView::PrFetched { head })
                    &&& {
                        ||| {
                            &&& answers.contains(EventView::OwnerFound { is_fork: false })
                            &&& plan.branch_name == head.branch
                            &&& plan.remote_branch == Some("origin"@ + "/"@ + head.branch)
                        }
                        ||| {
                            &&& answers.contains(EventView::OwnerFound { is_fork: true })
                            &&& plan.branch_name == head.owner + "-"@ + head.branch
                            &&& exists|remote: Seq<char>|
                                #[trigger] answers.contains(EventView::RemoteReady { remote })
                                    && plan.remote_branch == Some(remote + "/"@ + head.branch)
                        }
                    }
                }
        },
    }
}

/// Whether a stage rests on nothing but the job and the answers.
pub open spec fn rests_on(job: JobView, answers: Seq<EventView>, stage: StageView) -> bool {
    match stage {
        StageView::Config { job: asked } => asked == job,
        StageView::Pr { pr_number, mode } => job == (JobView::CheckoutPr { pr_number })
            && answers.contains(EventView::ConfigLoaded { mode }),
        StageView::Owner { pr_number, mode, head } => job == (JobView::CheckoutPr { pr_number })
            && answers.contains(EventView::ConfigLoaded { mode }) && answers.contains(
            EventView::PrFetched { head },
        ),
        StageView::Remote { pr_number, mode, head } => job == (JobView::CheckoutPr { pr_number })
            && answers.contains(EventView::ConfigLoaded { mode }) && answers.contains(
            EventView::PrFetched { head },
        ) && answers.contains(EventView::OwnerFound { is_fork: true }),
        StageView::Context { plan } => drawn_from(job, answers, plan),
        StageView::Handle { plan } => drawn_from(job, answers, plan),
        StageView::Create { plan, handle } => drawn_from(job, answers, plan) && answers.contains(
            EventView::HandleDerived { handle },
        ),
        StageView::Finished { result: Ok(branch) } => answers.contains(
            EventView::Created { branch },
        ),
        StageView::Finished { result: Err(_) } => exists|message: Seq<char>|
            #[trigger] answers.contains(EventView::Failed { message }),
    }
}

proof fn lemma_contains_grows(front: Seq<EventView>, last: EventView)
    ensures
        forall|e: EventView| #[trigger] front.contains(e) ==> front.push(last).contains(e),
        front.push(last).contains(last),
{
    let all = front.push(last);
    assert forall|e: EventView| #[trigger] front.contains(e) implies all.contains(e) by {
        let i = choose|i: int| 0 <= i < front.len() && front[i] == e;
        assert(all[i] == e);
    }
    assert(all[front.len() as int] == last);
}

proof fn lemma_drawn_from_grows(job: JobView, front: Seq<EventView>, last: EventView, plan: PlanView)
    requires
        drawn_from(job, front, plan),
    ensures
        drawn_from(job, front.push(last), plan),
{
    lemma_contains_grows(front, last);
    let all = front.push(last);
    if let JobView::CheckoutPr { pr_number } = job {
        let head = choose|head: HeadView|
            {
                &&& #[trigger] front.contains(EventView::PrFetched { head })
                &&& {
                    ||| {
                        &&& front.contains(EventView::OwnerFound { is_fork: false })
                        &&& plan.branch_name == head.branch
                        &&& plan.remote_branch == Some("origin"@ + "/"@ + head.branch)
                    }
                    ||| {
                        &&& front.contains(EventView::OwnerFound { is_fork: true })
                        &&& plan.branch_name == head.owner + "-"@ + head.branch
                        &&& exists|remote: Seq<char>|
                            #[trigger] front.contains(EventView::RemoteReady { remote })
                                && plan.remote_branch == Some(remote + "/"@ + head.branch)
                    }
                }
            };
        assert(all.contains(EventView::PrFetched { head }));
        if exists|remote: Seq<char>|
            #[trigger] front.contains(EventView::RemoteReady { remote }) && plan.remote_branch
                == Some(remote + "/"@ + head.branch) {
            let remote = choose|remote: Seq<char>|
                #[trigger] front.contains(EventView::RemoteReady { remote }) && plan.remote_branch
                    == Some(remote + "/"@ + head.branch);
            assert(all.contains(EventView::RemoteReady { remote }));
        }
    }
}

/// Whatever the answers are, and in whichever order they come, every stage rests on the job and on
/// answers that were given: a new branch gets the name and the base that were asked for; a pull request
/// gets its number, the branch of the one that was found, and the remote it is at; a worktree gets the
/// handle that was derived; and what is reported as created was created.
pub proof fn law_jobs_rest_on_their_answers(job: JobView, answers: Seq<EventView>)
    ensures
        rests_on(job, answers, after_all(StageView::Config { job }, answers)),
    decreases answers.len(),
{
    if answers.len() > 0 {
        let front = answers.drop_last();
        let last = answers.last();
        law_jobs_rest_on_their_answers(job, front);
        assert(answers =~= front.push(last));
        lemma_contains_grows(front, last);
        let before = after_all(StageView::Config { job }, front);
        match before {
            StageView::Context { plan } => lemma_drawn_from_grows(job, front, last, plan),
            StageView::Handle { plan } => lemma_drawn_from_grows(job, front, last, plan),
            StageView::Create { plan, .. } => lemma_drawn_from_grows(job, front, last, plan),
            StageView::Finished { result: Err(_) } => {
                let message = choose|message: Seq<char>|
                    #[trigger] front.contains(EventView::Failed { message });
                assert(answers.contains(EventView::Failed { message }));
            },
            StageView::Owner { head, .. } => {
                assert(answers.contains(EventView::PrFetched { head }));
            },
            StageView::Remote { head, .. } => {
                assert(answers.contains(EventView::PrFetched { head }));
            },
            _ => {},
        }
        if let EventView::Failed { message } = last {
            assert(answers.contains(EventView::Failed { message }));
        }
    }
}

/// What the worktree of a job is created with, on the arguments themselves: over any run of a job of
/// either kind, the whole setup, and what the job and its answers say.
pub proof fn law_creation_over_a_whole_run(job: AddWorktreeJob, answers: Seq<EventView>, stage: JobStage)
    requires
        stage@ == after_all(StageView::Config { job: job@ }, answers),
    ensures
        stage.asks() matches JobAction::Create { args } ==> {
            &&& args.setup.hooks && args.setup.files && args.setup.panes
            &&& !args.focus_window
            &&& answers.contains(EventView::HandleDerived { handle: args.handle@ })
            &&& answers.contains(EventView::ConfigLoaded { mode: args.mode })
            &&& job matches AddWorktreeJob::CreateBranch { name, base_branch } ==> {
                &&& args.branch_name@ == name@
                &&& args.base_branch is Some <==> base_branch is Some
                &&& args.base_branch is Some ==> args.base_branch->0@ == base_branch->0@
                &&& args.remote_branch is None
                &&& args.pr_number is None
            }
            &&& job matches AddWorktreeJob::CheckoutPr { pr_number } ==> {
                &&& args.pr_number == Some(pr_number)
                &&& args.base_branch is None
                &&& args.remote_branch is Some
            }
        },
{
    law_jobs_rest_on_their_answers(job@, answers);
}

/// Which answers lead on, and where to; every other answer but a failure leaves a job where it is.
pub proof fn law_answers_lead_on(stage: StageView, event: EventView)
    ensures
        ({
            let next = next_stage(stage, event);
            match (stage, event) {
                (StageView::Finished { .. }, _) => next == stage,
                (_, EventView::Failed { .. }) => next matches StageView::Finished { result }
                    && result is Err,
                (StageView::Config { job }, EventView::ConfigLoaded { mode }) => {
                    &&& job is CreateBranch <==> next is Context
                    &&& job is CheckoutPr <==> next is Pr
                    &&& mode_of(next) == Some(mode)
                },
                (StageView::Pr { pr_number, mode }, EventView::PrFetched { head }) => next
                    == (StageView::Owner { pr_number, mode, head }),
                (StageView::Owner { pr_number, mode, head }, EventView::OwnerFound { is_fork }) => {
                    &&& is_fork ==> next == (StageView::Remote { pr_number, mode, head })
                    &&& !is_fork ==> next is Context && mode_of(next) == Some(mode)
                },
                (StageView::Remote { mode, .. }, EventView::RemoteReady { .. }) => next is Context
                    && mode_of(next) == Some(mode),
                (StageView::Context { plan }, EventView::ContextBuilt) => next
                    == (StageView::Handle { plan }),
                (StageView::Handle { plan }, EventView::HandleDerived { handle }) => next
                    == (StageView::Create { plan, handle }),
                (StageView::Create { .. }, EventView::Created { branch }) => next
                    == (StageView::Finished { result: Ok(branch) }),
                _ => next == stage,
            }
        }),
{
}

/// A failure is reported in its own words, but for that of the lookup of the pull request, which is
/// reported with its number, and that of the lookup of the owner.
pub proof fn law_failures_are_reported(stage: StageView, message: Seq<char>)
    ensures
        !(stage is Finished) ==> {
            &&& next_stage(stage, EventView::Failed { message }) matches StageView::Finished { result }
            &&& result matches Err(said)
            &&& !(stage is Pr) && !(stage is Owner) ==> said == message
            &&& stage is Owner ==> said == "Failed to determine repository owner"@
            &&& stage matches StageView::Pr { pr_number, .. } ==> said == "Failed to fetch PR #"@
                + text::decimal_text(pr_number as nat)
        },
{
}

} // verus!
