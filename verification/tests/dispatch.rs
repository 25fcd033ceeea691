use chetter_app::dispatch::{
    is_handled, on_pull_request, on_pull_request_review, repo_client, webhook_dispatcher,
    Command, EventPayload, PullRequestAction, PullRequestEvent, Repository, ReviewEvent,
    ReviewState, WebhookEvent, SHUTDOWN_GRACE_SECONDS,
};
use chetter_app::error::{ChetterError, GraphqlError, GraphqlErrors};
use chetter_app::github::{deletion_outcome, Installation, Ref};
use chetter_app::lifecycle::{open_pr, Call};

fn pull_request(action: PullRequestAction) -> PullRequestEvent {
    PullRequestEvent {
        action,
        number: 1234,
        head_sha: "abcd".to_string(),
        base_sha: "deaf".to_string(),
    }
}

fn approval() -> ReviewEvent {
    ReviewEvent {
        number: 1234,
        base_sha: "deaf".to_string(),
        reviewer: Some("me".to_string()),
        commit_id: Some("abcd".to_string()),
        state: Some(ReviewState::Approved),
    }
}

fn event(payload: EventPayload) -> WebhookEvent {
    WebhookEvent {
        repository: Some(Repository {
            name: "cat".to_string(),
            owner: Some("octo".to_string()),
        }),
        installation: Some(42),
        payload,
    }
}

fn bookmark() -> Command {
    Command::Bookmark {
        pr: 1234,
        reviewer: "me".to_string(),
        sha: "abcd".to_string(),
        base: "deaf".to_string(),
    }
}

fn message(r: Result<Command, ChetterError>) -> String {
    match r.unwrap_err() {
        ChetterError::GithubParseError(text) => text,
        other => panic!("not a parse error: {:?}", other),
    }
}

#[test]
fn pull_request_actions() {
    assert_eq!(
        on_pull_request(&pull_request(PullRequestAction::Opened)),
        Command::Open {
            pr: 1234,
            sha: "abcd".to_string(),
            base: "deaf".to_string()
        }
    );
    assert_eq!(
        on_pull_request(&pull_request(PullRequestAction::Reopened)),
        Command::Open {
            pr: 1234,
            sha: "abcd".to_string(),
            base: "deaf".to_string()
        }
    );
    assert_eq!(
        on_pull_request(&pull_request(PullRequestAction::Synchronize)),
        Command::Synchronize {
            pr: 1234,
            sha: "abcd".to_string(),
            base: "deaf".to_string()
        }
    );
    assert_eq!(
        on_pull_request(&pull_request(PullRequestAction::Closed)),
        Command::Close { pr: 1234 }
    );
    assert_eq!(
        on_pull_request(&pull_request(PullRequestAction::Other)),
        Command::Ignore
    );
}

#[test]
fn reviews_with_a_verdict_are_bookmarked() {
    let mut review = approval();
    assert_eq!(on_pull_request_review("me", &review).unwrap(), bookmark());
    review.state = Some(ReviewState::ChangesRequested);
    assert_eq!(on_pull_request_review("me", &review).unwrap(), bookmark());
    review.state = Some(ReviewState::Other);
    assert_eq!(
        on_pull_request_review("me", &review).unwrap(),
        Command::Ignore
    );
    review.state = None;
    assert_eq!(
        on_pull_request_review("me", &review).unwrap(),
        Command::Ignore
    );
}

#[test]
fn review_without_commit_is_refused() {
    let mut review = approval();
    review.commit_id = None;
    assert_eq!(
        message(on_pull_request_review("me", &review)),
        "missing .review.commit_id"
    );
    review.state = Some(ReviewState::Other);
    assert_eq!(
        message(on_pull_request_review("me", &review)),
        "missing .review.commit_id"
    );
}

#[test]
fn dispatcher_picks_the_operation() {
    let opened = event(EventPayload::PullRequest(pull_request(
        PullRequestAction::Opened,
    )));
    assert_eq!(
        webhook_dispatcher(&opened).unwrap(),
        Command::Open {
            pr: 1234,
            sha: "abcd".to_string(),
            base: "deaf".to_string()
        }
    );
    let reviewed = event(EventPayload::PullRequestReview(approval()));
    assert_eq!(webhook_dispatcher(&reviewed).unwrap(), bookmark());
    assert_eq!(
        webhook_dispatcher(&event(EventPayload::Other)).unwrap(),
        Command::Ignore
    );
}

#[test]
fn dispatcher_refuses_a_review_without_author() {
    let mut review = approval();
    review.reviewer = None;
    review.commit_id = None;
    let reviewed = event(EventPayload::PullRequestReview(review));
    assert_eq!(message(webhook_dispatcher(&reviewed)), "Missing .review.user");
    let mut review = approval();
    review.commit_id = None;
    let reviewed = event(EventPayload::PullRequestReview(review));
    assert_eq!(
        message(webhook_dispatcher(&reviewed)),
        "missing .review.commit_id"
    );
}

#[test]
fn repo_client_reads_the_installation() {
    let opened = event(EventPayload::PullRequest(pull_request(
        PullRequestAction::Opened,
    )));
    assert_eq!(
        repo_client(&opened).unwrap(),
        Installation {
            id: 42,
            org: "octo".to_string(),
            repo: "cat".to_string()
        }
    );
    assert_eq!(
        repo_client(&event(EventPayload::Other)).unwrap(),
        Installation {
            id: 42,
            org: "octo".to_string(),
            repo: "cat".to_string()
        }
    );
}

#[test]
fn only_pull_requests_and_reviews_are_handled() {
    assert!(is_handled(&event(EventPayload::PullRequest(pull_request(
        PullRequestAction::Other
    )))));
    assert!(is_handled(&event(EventPayload::PullRequestReview(
        approval()
    ))));
    let mut other = event(EventPayload::Other);
    assert!(!is_handled(&other));
    other.repository = None;
    other.installation = None;
    assert!(!is_handled(&other));
}

fn refusal(e: &WebhookEvent) -> String {
    match repo_client(e).unwrap_err() {
        ChetterError::GithubParseError(text) => text,
        other => panic!("not a parse error: {:?}", other),
    }
}

#[test]
fn repo_client_refuses_what_is_incomplete() {
    let mut reviewed = event(EventPayload::PullRequestReview(approval()));
    reviewed.installation = None;
    assert_eq!(refusal(&reviewed), "missing event.installation.id");
    reviewed.repository = Some(Repository {
        name: "cat".to_string(),
        owner: None,
    });
    assert_eq!(refusal(&reviewed), "missing .repository.owner");
    reviewed.repository = None;
    assert_eq!(refusal(&reviewed), "missing .repository");
}

#[test]
fn repo_client_refuses_whatever_the_kind() {
    let mut other = event(EventPayload::Other);
    other.installation = None;
    assert_eq!(refusal(&other), "missing event.installation.id");
    other.repository = Some(Repository {
        name: "cat".to_string(),
        owner: None,
    });
    assert_eq!(refusal(&other), "missing .repository.owner");
    other.repository = None;
    assert_eq!(refusal(&other), "missing .repository");
}

#[test]
fn a_failed_search_ends_the_operation() {
    let commands = vec![
        Command::Synchronize {
            pr: 1234,
            sha: "abcd".to_string(),
            base: "deaf".to_string(),
        },
        bookmark(),
        Command::Close { pr: 1234 },
    ];
    for command in commands {
        let found = Err(ChetterError::GithubParseError("no answer".to_string()));
        match command.after_search(found) {
            Err(ChetterError::GithubParseError(text)) => assert_eq!(text, "no answer"),
            other => panic!("not the failure of the search: {:?}", other),
        }
    }
}

#[test]
fn a_search_that_succeeds_gives_the_plan() {
    let sync = Command::Synchronize {
        pr: 1234,
        sha: "abcd".to_string(),
        base: "deaf".to_string(),
    };
    assert_eq!(
        sync.after_search(Ok(vec![])).unwrap(),
        open_pr(1234, "abcd", "deaf")
    );
    let close = Command::Close { pr: 1234 };
    assert_eq!(
        close.after_search(Ok(vec![])).unwrap(),
        vec![Call::DeleteRefs { refs: vec![] }]
    );
}

#[test]
fn searches_and_plans() {
    let open = Command::Open {
        pr: 1234,
        sha: "abcd".to_string(),
        base: "deaf".to_string(),
    };
    assert_eq!(open.search(), None);
    assert_eq!(open.plan(vec![]), open_pr(1234, "abcd", "deaf"));
    assert!(!open.in_background());

    let sync = Command::Synchronize {
        pr: 1234,
        sha: "abcd".to_string(),
        base: "deaf".to_string(),
    };
    assert_eq!(sync.search(), Some("1234/".to_string()));
    assert_eq!(sync.plan(vec![]), open_pr(1234, "abcd", "deaf"));
    assert!(!sync.in_background());

    assert_eq!(bookmark().search(), Some("1234/me".to_string()));
    assert_eq!(bookmark().plan(vec![]).len(), 4);
    assert!(!bookmark().in_background());

    let close = Command::Close { pr: 1234 };
    assert_eq!(close.search(), Some("1234/".to_string()));
    let refs = vec![Ref {
        full_name: "1234/head".to_string(),
        sha: "_".to_string(),
        node_id: "n".to_string(),
    }];
    assert_eq!(
        close.plan(refs.clone()),
        vec![Call::DeleteRefs { refs }]
    );
    assert!(close.in_background());

    assert_eq!(Command::Ignore.search(), None);
    assert!(Command::Ignore.plan(vec![]).is_empty());
    assert!(!Command::Ignore.in_background());
}

#[test]
fn deletion_outcomes() {
    assert!(deletion_outcome(Ok(None)).is_ok());
    let errors = GraphqlErrors {
        errors: vec![GraphqlError {
            message: "msg1".to_string(),
        }],
    };
    assert_eq!(
        deletion_outcome(Ok(Some(errors))).unwrap_err().to_string(),
        "GraphQL Errors: msg1"
    );
}

#[test]
fn shutdown_waits_ten_minutes() {
    assert_eq!(SHUTDOWN_GRACE_SECONDS, 600);
}
