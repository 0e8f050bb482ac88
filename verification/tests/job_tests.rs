use worktree_dashboard::add_worktree::AddWorktreeJob;
use worktree_dashboard::job::{run_add_worktree_job, JobAction, JobEvent, JobStage, PrHead};
use worktree_dashboard::types::{MuxMode, SetupFlags};

fn head() -> PrHead {
    PrHead {
        owner: "ann".to_string(),
        branch: "topic".to_string(),
    }
}

fn run(job: AddWorktreeJob, events: Vec<JobEvent>) -> JobStage {
    let mut stage = JobStage::start(job);
    for event in events {
        stage = run_add_worktree_job(stage, event);
    }
    stage
}

fn handle() -> JobEvent {
    JobEvent::HandleDerived {
        handle: "h".to_string(),
    }
}

fn failed() -> JobEvent {
    JobEvent::Failed {
        message: "why".to_string(),
    }
}

fn result(stage: &JobStage) -> Result<String, String> {
    match stage.action() {
        JobAction::Finish { result } => result,
        other => panic!("{:?}", other),
    }
}

#[test]
fn new_branch() {
    let job = AddWorktreeJob::CreateBranch {
        name: "topic".to_string(),
        base_branch: Some("main".to_string()),
    };
    assert!(matches!(
        JobStage::start(AddWorktreeJob::CheckoutPr { pr_number: 1 }).action(),
        JobAction::LoadConfig
    ));
    let stage = run(job, vec![JobEvent::ConfigLoaded { mode: MuxMode::Session }]);
    assert!(matches!(stage.action(), JobAction::BuildContext));
    let stage = run_add_worktree_job(stage, JobEvent::ContextBuilt);
    match stage.action() {
        JobAction::DeriveHandle { branch } => assert_eq!(branch, "topic"),
        other => panic!("{:?}", other),
    }
    let stage = run_add_worktree_job(stage, handle());
    match stage.action() {
        JobAction::Create { args } => {
            assert_eq!(args.branch_name, "topic");
            assert_eq!(args.handle, "h");
            assert_eq!(args.base_branch.as_deref(), Some("main"));
            assert_eq!(args.remote_branch, None);
            assert_eq!(args.pr_number, None);
            assert!(!args.focus_window && !args.is_explicit_name && !args.prompt_file_only);
            assert!(args.prompt.is_none() && args.agent.is_none() && args.fork_source.is_none());
            assert_eq!(args.mode, MuxMode::Session);
            assert_eq!(args.mode_override, None);
            assert_eq!(
                args.setup,
                SetupFlags {
                    hooks: true,
                    files: true,
                    panes: true
                }
            );
        }
        other => panic!("{:?}", other),
    }
    let stage = run_add_worktree_job(
        stage,
        JobEvent::Created {
            branch: "topic".to_string(),
        },
    );
    assert_eq!(result(&stage), Ok("topic".to_string()));
    let stage = run_add_worktree_job(stage, failed());
    assert_eq!(result(&stage), Ok("topic".to_string()));
}

#[test]
fn own_pull_request() {
    let stage = run(
        AddWorktreeJob::CheckoutPr { pr_number: 7 },
        vec![
            JobEvent::ConfigLoaded { mode: MuxMode::Session },
            JobEvent::PrFetched { head: head() },
            JobEvent::OwnerFound { is_fork: false },
            JobEvent::ContextBuilt,
            handle(),
        ],
    );
    match stage.action() {
        JobAction::Create { args } => {
            assert_eq!(args.branch_name, "topic");
            assert_eq!(args.base_branch, None);
            assert_eq!(args.remote_branch.as_deref(), Some("origin/topic"));
            assert_eq!(args.pr_number, Some(7));
            assert_eq!(args.mode, MuxMode::Session);
        }
        other => panic!("{:?}", other),
    }
}

#[test]
fn pull_request_from_a_fork() {
    let stage = run(
        AddWorktreeJob::CheckoutPr { pr_number: 7 },
        vec![
            JobEvent::ConfigLoaded { mode: MuxMode::Session },
            JobEvent::PrFetched { head: head() },
            JobEvent::OwnerFound { is_fork: true },
        ],
    );
    match stage.action() {
        JobAction::EnsureForkRemote { owner } => assert_eq!(owner, "ann"),
        other => panic!("{:?}", other),
    }
    let stage = run_add_worktree_job(
        stage,
        JobEvent::RemoteReady {
            remote: "fork-ann".to_string(),
        },
    );
    let stage = run_add_worktree_job(stage, JobEvent::ContextBuilt);
    let stage = run_add_worktree_job(stage, handle());
    match stage.action() {
        JobAction::Create { args } => {
            assert_eq!(args.branch_name, "ann-topic");
            assert_eq!(args.remote_branch.as_deref(), Some("fork-ann/topic"));
        }
        other => panic!("{:?}", other),
    }
}

#[test]
fn failures_end_the_job() {
    let pr = || AddWorktreeJob::CheckoutPr { pr_number: 12 };
    let fetched = || JobEvent::PrFetched { head: head() };
    assert_eq!(result(&run(pr(), vec![failed()])), Err("why".to_string()));
    let stage = run(pr(), vec![JobEvent::ConfigLoaded { mode: MuxMode::Session }]);
    assert!(matches!(stage.action(), JobAction::FetchPr { pr_number: 12 }));
    let stage = run_add_worktree_job(stage, failed());
    assert_eq!(result(&stage), Err("Failed to fetch PR #12".to_string()));
    let stage = run(pr(), vec![JobEvent::ConfigLoaded { mode: MuxMode::Session }, fetched()]);
    assert!(matches!(stage.action(), JobAction::FindOwner));
    let stage = run_add_worktree_job(stage, failed());
    assert_eq!(
        result(&stage),
        Err("Failed to determine repository owner".to_string())
    );
    let stage = run(
        pr(),
        vec![
            JobEvent::ConfigLoaded { mode: MuxMode::Session },
            fetched(),
            JobEvent::OwnerFound { is_fork: true },
            failed(),
        ],
    );
    assert_eq!(result(&stage), Err("why".to_string()));
}

#[test]
fn answers_out_of_turn_change_nothing() {
    let stage = run(
        AddWorktreeJob::CheckoutPr { pr_number: 12 },
        vec![JobEvent::ContextBuilt, handle(), JobEvent::OwnerFound { is_fork: true }],
    );
    assert!(matches!(stage.action(), JobAction::LoadConfig));
}
