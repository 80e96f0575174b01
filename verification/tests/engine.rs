use octomate::command::{
    Command, CreateGistOptions, CreateIssueOptions, CreateLabelOptions, CreateTeamOptions, Gist,
    Label, Outcome, RemoteRequest, Response, Team,
};
use octomate::error::Error;
use octomate::octomate::{Batch, Job, Repository, Step};

fn repo(owner: &str, name: &str) -> Repository {
    Repository { owner: owner.to_string(), name: name.to_string() }
}

fn bug_label_options() -> CreateLabelOptions {
    CreateLabelOptions {
        name: "bug".to_string(),
        color: "f29513".to_string(),
        description: "Something isn't working".to_string(),
    }
}

fn label_batch(repos: Vec<Repository>, description: &str) -> Batch {
    Batch {
        version: "1.0".to_string(),
        name: Some("Test".to_string()),
        jobs: vec![Job {
            name: Some("Perform some basics things for some repos".to_string()),
            on_repositories: repos,
            steps: vec![Step {
                name: Some("Hello world!".to_string()),
                runs: vec![Command::CreateLabel(CreateLabelOptions {
                    name: "bug".to_string(),
                    color: "f29513".to_string(),
                    description: description.to_string(),
                })],
            }],
        }],
    }
}

fn ok_label(name: &str) -> Outcome {
    Ok(Response::CreateLabel(Label {
        name: name.to_string(),
        color: "f29513".to_string(),
        description: "Something isn't working".to_string(),
    }))
}

#[test]
fn round_trip_single_target() {
    let batch = label_batch(vec![repo("me", "repo1")], "x");

    let plan = batch.plan();
    assert_eq!(plan.len(), 1);
    match &plan[0] {
        RemoteRequest::CreateLabel { owner, repo, name, color, description } => {
            assert_eq!(owner.as_str(), "me");
            assert_eq!(repo.as_str(), "repo1");
            assert_eq!(name.as_str(), "bug");
            assert_eq!(color.as_str(), "f29513");
            assert_eq!(description.as_str(), "x");
        }
        other => panic!("unexpected request: {:?}", other),
    }

    let results = batch.run(vec![ok_label("bug")]);
    assert_eq!(results.len(), 1);
    assert_eq!(results[0].len(), 1);
    assert_eq!(results[0][0].len(), 1);
    assert_eq!(results[0][0][0].len(), 1);
    match &results[0][0][0][0] {
        Ok(Response::CreateLabel(l)) => {
            assert_eq!(l.name.as_str(), "bug");
            assert_eq!(l.color.as_str(), "f29513");
        }
        other => panic!("unexpected leaf: {:?}", other),
    }
}

#[test]
fn multi_target_fan_out() {
    let batch = label_batch(vec![repo("me", "repo1"), repo("me", "repo2")], "x");

    let plan = batch.plan();
    assert_eq!(plan.len(), 2);
    let repos: Vec<&str> = plan
        .iter()
        .map(|req| match req {
            RemoteRequest::CreateLabel { repo, .. } => repo.as_str(),
            other => panic!("unexpected request: {:?}", other),
        })
        .collect();
    assert_eq!(repos, vec!["repo1", "repo2"]);

    let results = batch.run(vec![ok_label("bug"), ok_label("bug")]);
    assert_eq!(results[0][0][0].len(), 2);
    assert!(results[0][0][0].iter().all(|r| r.is_ok()));
}

#[test]
fn failure_of_one_target_is_isolated() {
    let batch = label_batch(vec![repo("me", "a"), repo("me", "b"), repo("me", "c")], "x");

    let outcomes: Vec<Outcome> = vec![
        ok_label("bug"),
        Err(Error::Octocrab("rate limited".to_string())),
        ok_label("bug"),
    ];
    let results = batch.run(outcomes);

    let leaves = &results[0][0][0];
    assert_eq!(leaves.len(), 3);
    assert!(leaves[0].is_ok());
    match &leaves[1] {
        Err(Error::Octocrab(m)) => assert_eq!(m.as_str(), "rate limited"),
        other => panic!("unexpected leaf: {:?}", other),
    }
    assert!(leaves[2].is_ok());
}

fn mixed_batch() -> Batch {
    Batch {
        version: "1.0".to_string(),
        name: None,
        jobs: vec![
            Job {
                name: Some("first".to_string()),
                on_repositories: vec![repo("alice", "one"), repo("alice", "two")],
                steps: vec![
                    Step {
                        name: None,
                        runs: vec![
                            Command::CreateLabel(bug_label_options()),
                            Command::CreateGist(CreateGistOptions {
                                title: "notes".to_string(),
                                content: "Hello world!".to_string(),
                                description: None,
                                public: None,
                            }),
                        ],
                    },
                    Step {
                        name: None,
                        runs: vec![Command::CreateTeam(CreateTeamOptions {
                            name: "platform".to_string(),
                            description: None,
                            owner: "alice".to_string(),
                            maintainers: Some(vec!["carol".to_string()]),
                        })],
                    },
                ],
            },
            Job {
                name: Some("second".to_string()),
                on_repositories: vec![repo("bob", "three")],
                steps: vec![Step {
                    name: None,
                    runs: vec![Command::CreateIssue(CreateIssueOptions {
                        title: "Ship it".to_string(),
                        body: "Please".to_string(),
                        milestone: None,
                        assignees: None,
                        labels: Some(vec!["bug".to_string()]),
                    })],
                }],
            },
        ],
    }
}

#[test]
fn plan_follows_declaration_order() {
    let plan = mixed_batch().plan();
    assert_eq!(plan.len(), 5);
    match &plan[0] {
        RemoteRequest::CreateLabel { owner, repo, .. } => {
            assert_eq!(owner.as_str(), "alice");
            assert_eq!(repo.as_str(), "one");
        }
        other => panic!("unexpected request: {:?}", other),
    }
    match &plan[1] {
        RemoteRequest::CreateLabel { repo, .. } => assert_eq!(repo.as_str(), "two"),
        other => panic!("unexpected request: {:?}", other),
    }
    match &plan[2] {
        RemoteRequest::CreateGist { title, description, public, .. } => {
            assert_eq!(title.as_str(), "notes");
            assert_eq!(description.as_str(), "");
            assert!(!public);
        }
        other => panic!("unexpected request: {:?}", other),
    }
    match &plan[3] {
        RemoteRequest::CreateTeam { org, name, description, maintainers, repo_names } => {
            assert_eq!(org.as_str(), "alice");
            assert_eq!(name.as_str(), "platform");
            assert_eq!(description.as_str(), "");
            assert_eq!(maintainers, &vec!["carol".to_string()]);
            assert_eq!(repo_names, &vec!["one".to_string(), "two".to_string()]);
        }
        other => panic!("unexpected request: {:?}", other),
    }
    match &plan[4] {
        RemoteRequest::CreateIssue { owner, repo, milestone, assignees, labels, .. } => {
            assert_eq!(owner.as_str(), "bob");
            assert_eq!(repo.as_str(), "three");
            assert_eq!(*milestone, None);
            assert!(assignees.is_empty());
            assert_eq!(labels, &vec!["bug".to_string()]);
        }
        other => panic!("unexpected request: {:?}", other),
    }
}

#[test]
fn results_keep_shape_and_positions() {
    let batch = mixed_batch();
    let outcomes: Vec<Outcome> = vec![
        ok_label("first-label"),
        ok_label("second-label"),
        Ok(Response::CreateGist(Gist { id: "g1".to_string() })),
        Ok(Response::CreateTeam(Team {
            name: "platform".to_string(),
            slug: "platform".to_string(),
        })),
        Err(Error::Octocrab("forbidden".to_string())),
    ];
    let results = batch.run(outcomes);

    assert_eq!(results.len(), 2);
    assert_eq!(results[0].len(), 2);
    assert_eq!(results[1].len(), 1);
    assert_eq!(results[0][0].len(), 2);
    assert_eq!(results[0][1].len(), 1);
    assert_eq!(results[1][0].len(), 1);
    assert_eq!(results[0][0][0].len(), 2);
    assert_eq!(results[0][0][1].len(), 1);
    assert_eq!(results[0][1][0].len(), 1);
    assert_eq!(results[1][0][0].len(), 1);

    match &results[0][0][0][0] {
        Ok(Response::CreateLabel(l)) => assert_eq!(l.name.as_str(), "first-label"),
        other => panic!("unexpected leaf: {:?}", other),
    }
    match &results[0][0][0][1] {
        Ok(Response::CreateLabel(l)) => assert_eq!(l.name.as_str(), "second-label"),
        other => panic!("unexpected leaf: {:?}", other),
    }
    match &results[0][0][1][0] {
        Ok(Response::CreateGist(g)) => assert_eq!(g.id.as_str(), "g1"),
        other => panic!("unexpected leaf: {:?}", other),
    }
    match &results[0][1][0][0] {
        Ok(Response::CreateTeam(t)) => assert_eq!(t.slug.as_str(), "platform"),
        other => panic!("unexpected leaf: {:?}", other),
    }
    match &results[1][0][0][0] {
        Err(Error::Octocrab(m)) => assert_eq!(m.as_str(), "forbidden"),
        other => panic!("unexpected leaf: {:?}", other),
    }
}

#[test]
fn job_with_zero_targets_plans_no_targeted_calls() {
    let batch = label_batch(vec![], "x");
    let plan = batch.plan();
    assert_eq!(plan.len(), 0);
    let results = batch.run(vec![]);
    assert_eq!(results.len(), 1);
    assert_eq!(results[0].len(), 1);
    assert_eq!(results[0][0].len(), 1);
    assert_eq!(results[0][0][0].len(), 0);
}

#[test]
fn issue_options_default_when_absent() {
    let batch = Batch {
        version: "1".to_string(),
        name: None,
        jobs: vec![Job {
            name: None,
            on_repositories: vec![repo("o", "r")],
            steps: vec![Step {
                name: None,
                runs: vec![Command::CreateIssue(CreateIssueOptions {
                    title: "t".to_string(),
                    body: "b".to_string(),
                    milestone: Some(7),
                    assignees: None,
                    labels: None,
                })],
            }],
        }],
    };
    let plan = batch.plan();
    match &plan[0] {
        RemoteRequest::CreateIssue { milestone, assignees, labels, .. } => {
            assert_eq!(*milestone, Some(7));
            assert!(assignees.is_empty());
            assert!(labels.is_empty());
        }
        other => panic!("unexpected request: {:?}", other),
    }
}

#[test]
fn error_message_is_kept() {
    let errors = vec![
        Error::IO("gone".to_string()),
        Error::SerdeJson("bad json".to_string()),
        Error::SerdeYaml("bad yaml".to_string()),
        Error::Octocrab("no auth".to_string()),
    ];
    let expected = vec!["gone", "bad json", "bad yaml", "no auth"];
    for (e, m) in errors.iter().zip(expected) {
        assert_eq!(e.message().as_str(), m);
    }
}
