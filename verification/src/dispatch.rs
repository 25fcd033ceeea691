//! From a webhook event to the operation that it asks for.
use crate::error::ChetterError;
use crate::github::{ref_views, Installation, Ref, RefView};
use crate::lifecycle::{
    bookmark_pr, bookmark_search, call_views, close_pr, closed, open_pr, opened, pr_scope,
    pr_search, recorded, reviewer_scope, reviewer_search, synchronize_pr, Call, CallView,
};
use vstd::prelude::*;

verus! {

/// The repository that an event is about.
#[derive(Debug, PartialEq)]
pub struct Repository {
    pub name: String,
    /// Login of the owner, where the event names one.
    pub owner: Option<String>,
}

/// What happened to a pull request.
#[derive(Debug, PartialEq, Eq, Clone, Copy)]
pub enum PullRequestAction {
    Opened,
    Reopened,
    Synchronize,
    Closed,
    /// Anything else: an edit, a label, an assignment.
    Other,
}

/// The verdict of a review.
#[derive(Debug, PartialEq, Eq, Clone, Copy)]
pub enum ReviewState {
    Approved,
    ChangesRequested,
    /// Anything else: a comment, a pending or dismissed review.
    Other,
}

/// A pull request event.
#[derive(Debug, PartialEq)]
pub struct PullRequestEvent {
    pub action: PullRequestAction,
    /// Number of the pull request.
    pub number: u64,
    /// Commit at the head of the pull request.
    pub head_sha: String,
    /// Commit that the pull request is based on.
    pub base_sha: String,
}

/// A pull request review event.
#[derive(Debug, PartialEq)]
pub struct ReviewEvent {
    /// Number of the pull request.
    pub number: u64,
    /// Commit that the pull request is based on.
    pub base_sha: String,
    /// Login of who reviewed, where the event names one.
    pub reviewer: Option<String>,
    /// Commit that was reviewed, where the event names one.
    pub commit_id: Option<String>,
    /// Verdict of the review, where the event gives one.
    pub state: Option<ReviewState>,
}

/// What an event is about.
#[derive(Debug, PartialEq)]
pub enum EventPayload {
    PullRequest(PullRequestEvent),
    PullRequestReview(ReviewEvent),
    /// An event of any other kind.
    Other,
}

/// A webhook event, as far as handling it reads it.
#[derive(Debug, PartialEq)]
pub struct WebhookEvent {
    pub repository: Option<Repository>,
    /// Identifier of the installation that the event came through.
    pub installation: Option<u64>,
    pub payload: EventPayload,
}

/// The operation that an event asks for.
#[derive(Debug, PartialEq)]
pub enum Command {
    /// Record a pull request that was opened or reopened.
    Open { pr: u64, sha: String, base: String },
    /// Record the commits pushed to a pull request.
    Synchronize { pr: u64, sha: String, base: String },
    /// Record what the author of a review has seen.
    Bookmark { pr: u64, reviewer: String, sha: String, base: String },
    /// Delete the references of a closed pull request.
    Close { pr: u64 },
    /// Nothing to do.
    Ignore,
}

/// What a [`Command`] holds, as plain text.
pub enum CommandView {
    Open { pr: u64, sha: Seq<char>, base: Seq<char> },
    Synchronize { pr: u64, sha: Seq<char>, base: Seq<char> },
    Bookmark { pr: u64, reviewer: Seq<char>, sha: Seq<char>, base: Seq<char> },
    Close { pr: u64 },
    Ignore,
}

impl View for Command {
    type V = CommandView;

    open spec fn view(&self) -> CommandView {
        match self {
            Command::Open { pr, sha, base } => CommandView::Open { pr: *pr, sha: sha@, base: base@ },
            Command::Synchronize { pr, sha, base } => CommandView::Synchronize {
                pr: *pr,
                sha: sha@,
                base: base@,
            },
            Command::Bookmark { pr, reviewer, sha, base } => CommandView::Bookmark {
                pr: *pr,
                reviewer: reviewer@,
                sha: sha@,
                base: base@,
            },
            Command::Close { pr } => CommandView::Close { pr: *pr },
            Command::Ignore => CommandView::Ignore,
        }
    }
}

impl CommandView {
    /// What is searched for before the operation, if it starts from the
    /// references that exist.
    pub open spec fn search(self) -> Option<Seq<char>> {
        match self {
            CommandView::Open { .. } => None,
            CommandView::Synchronize { pr, .. } => Some(pr_scope(pr)),
            CommandView::Bookmark { pr, reviewer, .. } => Some(reviewer_search(pr, reviewer)),
            CommandView::Close { pr } => Some(pr_scope(pr)),
            CommandView::Ignore => None,
        }
    }

    /// The calls of the operation, given the references that the search
    /// listed.
    pub open spec fn plan(self, refs: Seq<RefView>) -> Seq<CallView> {
        match self {
            CommandView::Open { pr, sha, base } => opened(pr, sha, base),
            CommandView::Synchronize { pr, sha, base } => recorded(pr_scope(pr), sha, base, refs),
            CommandView::Bookmark { pr, reviewer, sha, base } => recorded(
                reviewer_scope(pr, reviewer),
                sha,
                base,
                refs,
            ),
            CommandView::Close { .. } => closed(refs),
            CommandView::Ignore => Seq::empty(),
        }
    }

    /// Whether the operation runs after the event was answered, because
    /// it may take longer than the sender waits.
    pub open spec fn in_background(self) -> bool {
        self is Close
    }
}

/// How many seconds operations in the background are given to finish
/// when the service shuts down.
pub const SHUTDOWN_GRACE_SECONDS: u64 = 600;

impl Command {
    /// What to search for before the operation: `None` where it does not
    /// start from the references that exist.
    pub fn search(&self) -> (search: Option<String>)
        ensures
            match search {
                Some(text) => self@.search() == Some(text@),
                None => self@.search() is None,
            },
    {
        match self {
            Command::Open { .. } => None,
            Command::Synchronize { pr, .. } => Some(pr_search(*pr)),
            Command::Bookmark { pr, reviewer, .. } => Some(bookmark_search(*pr, reviewer.as_str())),
            Command::Close { pr } => Some(pr_search(*pr)),
            Command::Ignore => None,
        }
    }

    /// The calls of the operation, given the references `refs` that the
    /// search listed.
    pub fn plan(&self, refs: Vec<Ref>) -> (calls: Vec<Call>)
        ensures
            call_views(calls@) == self@.plan(ref_views(refs@)),
    {
        match self {
            Command::Open { pr, sha, base } => open_pr(*pr, sha.as_str(), base.as_str()),
            Command::Synchronize { pr, sha, base } => synchronize_pr(
                *pr,
                sha.as_str(),
                base.as_str(),
                refs.as_slice(),
            ),
            Command::Bookmark { pr, reviewer, sha, base } => bookmark_pr(
                *pr,
                reviewer.as_str(),
                sha.as_str(),
                base.as_str(),
                refs.as_slice(),
            ),
            Command::Close { .. } => close_pr(refs),
            Command::Ignore => {
                let calls: Vec<Call> = Vec::new();
                assert(call_views(calls@) =~= Seq::<CallView>::empty());
                calls
            },
        }
    }

    /// The calls of the operation, given what the search came to. A failed
    /// search ends the operation with its failure, and no call is made.
    /// An operation that starts from no search is handed `Ok` with no
    /// references.
    pub fn after_search(&self, found: Result<Vec<Ref>, ChetterError>) -> (r: Result<
        Vec<Call>,
        ChetterError,
    >)
        ensures
            match found {
                Ok(refs) => r is Ok && call_views(r->Ok_0@) == self@.plan(ref_views(refs@)),
                Err(e) => r == Err::<Vec<Call>, ChetterError>(e),
            },
    {
        match found {
            Ok(refs) => Ok(self.plan(refs)),
            Err(e) => Err(e),
        }
    }

    /// Whether the operation runs after the event was answered.
    pub fn in_background(&self) -> (background: bool)
        ensures
            background == self@.in_background(),
    {
        match self {
            Command::Close { .. } => true,
            _ => false,
        }
    }
}

/// The complaint `text` about an event.
fn complaint(text: &str) -> (e: ChetterError)
    ensures
        e.is_parse_error(text@),
{
    ChetterError::GithubParseError(String::from_str(text))
}

/// The operation that a pull request event asks for.
pub open spec fn pull_request_command(event: PullRequestEvent) -> CommandView {
    match event.action {
        PullRequestAction::Synchronize => CommandView::Synchronize {
            pr: event.number,
            sha: event.head_sha@,
            base: event.base_sha@,
        },
        PullRequestAction::Opened | PullRequestAction::Reopened => CommandView::Open {
            pr: event.number,
            sha: event.head_sha@,
            base: event.base_sha@,
        },
        PullRequestAction::Closed => CommandView::Close { pr: event.number },
        PullRequestAction::Other => CommandView::Ignore,
    }
}

/// The operation that a pull request event asks for: pushed commits are
/// synchronized, an opened or reopened pull request is recorded, a closed
/// one has its references deleted, and nothing else matters.
pub fn on_pull_request(event: &PullRequestEvent) -> (command: Command)
    ensures
        command@ == pull_request_command(*event),
{
    match event.action {
        PullRequestAction::Synchronize => Command::Synchronize {
            pr: event.number,
            sha: event.head_sha.clone(),
            base: event.base_sha.clone(),
        },
        PullRequestAction::Opened | PullRequestAction::Reopened => Command::Open {
            pr: event.number,
            sha: event.head_sha.clone(),
            base: event.base_sha.clone(),
        },
        PullRequestAction::Closed => Command::Close { pr: event.number },
        PullRequestAction::Other => Command::Ignore,
    }
}

/// Whether a review with this verdict is bookmarked.
pub open spec fn is_verdict(state: Option<ReviewState>) -> bool {
    state == Some(ReviewState::Approved) || state == Some(ReviewState::ChangesRequested)
}

/// The operation that a review asks for, given its author. A review that
/// names no commit is refused, whatever its verdict. An approval or a
/// request for changes is bookmarked, and any other review is ignored.
pub fn on_pull_request_review(reviewer: &str, event: &ReviewEvent) -> (r: Result<
    Command,
    ChetterError,
>)
    ensures
        match r {
            Ok(command) => event.commit_id is Some && command@ == if is_verdict(event.state) {
                CommandView::Bookmark {
                    pr: event.number,
                    reviewer: reviewer@,
                    sha: event.commit_id->0@,
                    base: event.base_sha@,
                }
            } else {
                CommandView::Ignore
            },
            Err(e) => event.commit_id is None && e.is_parse_error("missing .review.commit_id"@),
        },
{
    let sha = match &event.commit_id {
        Some(sha) => sha,
        None => {
            return Err(complaint("missing .review.commit_id"));
        },
    };
    match event.state {
        Some(ReviewState::Approved) | Some(ReviewState::ChangesRequested) => Ok(
            Command::Bookmark {
                pr: event.number,
                reviewer: String::from_str(reviewer),
                sha: sha.clone(),
                base: event.base_sha.clone(),
            },
        ),
        _ => Ok(Command::Ignore),
    }
}

/// Whether an event is handled at all: only events about a pull request
/// or about a review are. Any other event is answered with success, and
/// no installation is looked for.
pub fn is_handled(event: &WebhookEvent) -> (handled: bool)
    ensures
        handled == !(event.payload is Other),
{
    match event.payload {
        EventPayload::Other => false,
        _ => true,
    }
}

/// The installation to act through for an event, whatever its kind. An
/// event is refused if it names no repository, no owner of the
/// repository, or no installation, in this order.
pub fn repo_client(event: &WebhookEvent) -> (r: Result<Installation, ChetterError>)
    ensures
        match r {
            Ok(installation) => {
                &&& event.repository is Some
                &&& event.repository->0.owner is Some
                &&& event.installation == Some(installation.id)
                &&& installation.org@ == event.repository->0.owner->0@
                &&& installation.repo@ == event.repository->0.name@
            },
            Err(e) => if event.repository is None {
                e.is_parse_error("missing .repository"@)
            } else if event.repository->0.owner is None {
                e.is_parse_error("missing .repository.owner"@)
            } else {
                event.installation is None && e.is_parse_error("missing event.installation.id"@)
            },
        },
{
    let repository = match &event.repository {
        Some(repository) => repository,
        None => {
            return Err(complaint("missing .repository"));
        },
    };
    let org = match &repository.owner {
        Some(owner) => owner.clone(),
        None => {
            return Err(complaint("missing .repository.owner"));
        },
    };
    let id = match event.installation {
        Some(id) => id,
        None => {
            return Err(complaint("missing event.installation.id"));
        },
    };
    Ok(Installation { id, org, repo: repository.name.clone() })
}

/// The operation that an event asks for. A review that names no author
/// is refused, and then one that names no commit.
pub fn webhook_dispatcher(event: &WebhookEvent) -> (r: Result<Command, ChetterError>)
    ensures
        match event.payload {
            EventPayload::PullRequest(pr) => r is Ok && r->Ok_0@ == pull_request_command(pr),
            EventPayload::PullRequestReview(review) => match r {
                Ok(command) => review.reviewer is Some && review.commit_id is Some && command@
                    == if is_verdict(review.state) {
                    CommandView::Bookmark {
                        pr: review.number,
                        reviewer: review.reviewer->0@,
                        sha: review.commit_id->0@,
                        base: review.base_sha@,
                    }
                } else {
                    CommandView::Ignore
                },
                Err(e) => if review.reviewer is None {
                    e.is_parse_error("Missing .review.user"@)
                } else {
                    review.commit_id is None && e.is_parse_error("missing .review.commit_id"@)
                },
            },
            EventPayload::Other => r is Ok && r->Ok_0@ == CommandView::Ignore,
        },
{
    match &event.payload {
        EventPayload::PullRequest(pr) => Ok(on_pull_request(pr)),
        EventPayload::PullRequestReview(review) => {
            let reviewer = match &review.reviewer {
                Some(reviewer) => reviewer,
                None => {
                    return Err(complaint("Missing .review.user"));
                },
            };
            on_pull_request_review(reviewer.as_str(), review)
        },
        EventPayload::Other => Ok(Command::Ignore),
    }
}

} // verus!
