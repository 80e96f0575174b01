use octomate::command::{
    Command, CreateLabelOptions, CreateTeamOptions, Outcome, RemoteRequest, Response,
};
use octomate::octomate::{Batch, Context, Job, Repository, Step};

fn empty_batch() -> Batch {
    Batch { version: "1.0".to_string(), name: None, jobs: vec![] }
}

fn sample_job(name: &str, repo_name: &str) -> Job {
    Job {
        name: Some(name.to_string()),
        on_repositories: vec![Repository {
            owner: "owner".to_string(),
            name: repo_name.to_string(),
        }],
        steps: vec![],
    }
}

#[test]
fn context_chaining_replaces_one_field_at_a_time() {
    let batch = empty_batch();
    let job = sample_job("job-a", "repo-a");
    let step = Step { name: Some("step-a".to_string()), runs: vec![] };

    let root = Context::new(&batch, None, None);
    assert!(root.job.is_none());
    assert!(root.step.is_none());

    let in_job = root.update_from_job(&job);
    assert_eq!(in_job.job.unwrap().name.as_deref(), Some("job-a"));
    assert!(in_job.step.is_none());
    // the parent context is untouched
    assert!(root.job.is_none());

    let in_step = in_job.update_from_step(&step);
    assert_eq!(in_step.job.unwrap().name.as_deref(), Some("job-a"));
    assert_eq!(in_step.step.unwrap().name.as_deref(), Some("step-a"));
    // the intermediate context is untouched
    assert!(in_job.step.is_none());
}

#[test]
fn sibling_contexts_never_mix_jobs() {
    let batch = empty_batch();
    let job_a = sample_job("job-a", "repo-a");
    let job_b = sample_job("job-b", "repo-b");

    let root = Context::new(&batch, None, None);
    let ctx_a = root.update_from_job(&job_a);
    let ctx_b = root.update_from_job(&job_b);

    assert_eq!(ctx_a.job.unwrap().on_repositories[0].name.as_str(), "repo-a");
    assert_eq!(ctx_b.job.unwrap().on_repositories[0].name.as_str(), "repo-b");
    // a targeted command planned under job A's context only sees job A's
    // repositories
    let label = CreateLabelOptions {
        name: "bug".to_string(),
        color: "f29513".to_string(),
        description: "x".to_string(),
    };
    let mut requests: Vec<RemoteRequest> = Vec::new();
    label.plan(&ctx_a, &mut requests);
    assert_eq!(requests.len(), 1);
    match &requests[0] {
        RemoteRequest::CreateLabel { repo, .. } => assert_eq!(repo.as_str(), "repo-a"),
        other => panic!("unexpected request: {:?}", other),
    }
}

#[test]
fn targeted_command_outside_a_job_is_a_no_op() {
    let batch = empty_batch();
    let ctx = Context::new(&batch, None, None);
    let label = CreateLabelOptions {
        name: "bug".to_string(),
        color: "f29513".to_string(),
        description: "x".to_string(),
    };

    // zero remote calls are planned
    let mut requests: Vec<RemoteRequest> = Vec::new();
    label.plan(&ctx, &mut requests);
    assert_eq!(requests.len(), 0);

    // exactly one no-op response comes back, and no outcome is consumed
    let mut pending: Vec<Outcome> = vec![Ok(Response::NoOp)];
    let res = label.run(&ctx, &mut pending);
    assert_eq!(res.len(), 1);
    assert!(matches!(res[0], Ok(Response::NoOp)));
    assert_eq!(pending.len(), 1);
}

#[test]
fn job_scoped_command_outside_a_job_is_a_no_op() {
    let batch = empty_batch();
    let ctx = Context::new(&batch, None, None);
    let team = Command::CreateTeam(CreateTeamOptions {
        name: "platform".to_string(),
        description: None,
        owner: "owner".to_string(),
        maintainers: None,
    });

    let mut requests: Vec<RemoteRequest> = Vec::new();
    team.plan(&ctx, &mut requests);
    assert_eq!(requests.len(), 0);

    let mut pending: Vec<Outcome> = Vec::new();
    let res = team.run(&ctx, &mut pending);
    assert_eq!(res.len(), 1);
    assert!(matches!(res[0], Ok(Response::NoOp)));
}
