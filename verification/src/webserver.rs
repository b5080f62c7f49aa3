//! The webhook: what the bridge makes of a payload that the tracker sends
//! when a comment is written on an issue.
//!
//! Most payloads are acknowledged and dropped: those that report something
//! other than a new comment, those that the bridge has caused itself, and
//! those about issues that no thread stands for. Only a payload that lacks
//! the repository's name is answered with an error.
//!
//! The bridge knows its own comments by their author: the caller hands in the
//! login under which the bridge writes to the tracker.

use crate::event::{TrackerComment, TrackerCommentView};
use crate::state::{
    binds_issue, is_issue_bound, lemma_issue_record_unique, lookup_by_issue, store_wf,
    CorrelationRecordView, State,
};
use crate::text::same_text;
use vstd::prelude::*;
use vstd::string::*;

verus! {

/// The installation of the bridge that a payload was sent for.
#[derive(Clone, Debug, PartialEq, Eq)]
pub struct WebhookInstallation {
    pub id: u64,
    pub node_id: String,
}

/// An account of the tracker.
#[derive(Clone, Debug, PartialEq, Eq)]
pub struct WebhookUser {
    pub login: String,
    /// The kind of the account, `User` or `Bot` among others. No decision
    /// rests on it.
    pub account_type: String,
}

/// The comment that a payload reports.
#[derive(Clone, Debug, PartialEq, Eq)]
pub struct WebhookComment {
    pub user: WebhookUser,
    pub body: Option<String>,
    pub html_url: String,
}

/// The issue that the comment was written on.
#[derive(Clone, Debug, PartialEq, Eq)]
pub struct WebhookIssue {
    pub number: u64,
}

/// The repository of the issue.
#[derive(Clone, Debug, PartialEq, Eq)]
pub struct WebhookRepository {
    pub full_name: Option<String>,
}

/// The payload of an issue-comment webhook.
#[derive(Clone, Debug, PartialEq, Eq)]
pub struct IssueCommentWebhook {
    pub action: String,
    pub comment: WebhookComment,
    pub issue: WebhookIssue,
    pub repository: WebhookRepository,
    pub installation: Option<WebhookInstallation>,
}

/// What an [`IssueCommentWebhook`] holds.
pub struct IssueCommentWebhookView {
    pub action: Seq<char>,
    pub login: Seq<char>,
    pub account_type: Seq<char>,
    pub body: Option<Seq<char>>,
    pub html_url: Seq<char>,
    pub number: u64,
    pub full_name: Option<Seq<char>>,
    pub installation: Option<(u64, Seq<char>)>,
}

impl View for IssueCommentWebhook {
    type V = IssueCommentWebhookView;

    open spec fn view(&self) -> IssueCommentWebhookView {
        IssueCommentWebhookView {
            action: self.action@,
            login: self.comment.user.login@,
            account_type: self.comment.user.account_type@,
            body: match self.comment.body {
                Some(b) => Some(b@),
                None => None,
            },
            html_url: self.comment.html_url@,
            number: self.issue.number,
            full_name: match self.repository.full_name {
                Some(n) => Some(n@),
                None => None,
            },
            installation: match self.installation {
                Some(i) => Some((i.id, i.node_id@)),
                None => None,
            },
        }
    }
}

/// Why a payload cannot be handled.
#[derive(Clone, Copy, Debug, PartialEq, Eq, Structural)]
pub enum WebhookError {
    /// The payload does not name its repository.
    MissingFullName,
}

/// What the bridge makes of a payload that it can handle.
#[derive(Clone, Debug, PartialEq, Eq)]
pub enum WebhookVerdict {
    /// The payload reports something other than a new comment.
    NotCreated,
    /// The comment was written by the bridge itself.
    OwnComment,
    /// No thread stands for the issue.
    Unbound,
    /// The comment goes into the thread that stands for the issue.
    Forward(TrackerComment),
}

/// What a [`WebhookVerdict`] holds.
pub enum WebhookVerdictView {
    NotCreated,
    OwnComment,
    Unbound,
    Forward(TrackerCommentView),
}

impl View for WebhookVerdict {
    type V = WebhookVerdictView;

    open spec fn view(&self) -> WebhookVerdictView {
        match *self {
            WebhookVerdict::NotCreated => WebhookVerdictView::NotCreated,
            WebhookVerdict::OwnComment => WebhookVerdictView::OwnComment,
            WebhookVerdict::Unbound => WebhookVerdictView::Unbound,
            WebhookVerdict::Forward(c) => WebhookVerdictView::Forward(c@),
        }
    }
}

/// The status that answers a payload which was taken, whatever became of it.
pub const STATUS_OK: u16 = 200;

/// The status that answers a payload which cannot be handled.
pub const STATUS_BAD_REQUEST: u16 = 400;

/// The answer to a payload: the status for the sender, and the event for the
/// merged stream where there is one.
#[derive(Clone, Debug, PartialEq, Eq)]
pub struct WebhookResponse {
    pub status: u16,
    pub event: Option<TrackerComment>,
}

/// Whether the payload reports a new comment.
pub open spec fn is_created(body: IssueCommentWebhookView) -> bool {
    body.action == "created"@
}

/// Whether the comment was written by the bridge itself: its author's login
/// is the login under which the bridge writes to the tracker.
pub open spec fn authored_by_bridge(body: IssueCommentWebhookView, own_login: Seq<char>) -> bool {
    body.login == own_login
}

/// The event that a comment on a bound issue becomes.
pub open spec fn forwarded_comment(
    body: IssueCommentWebhookView,
    repo: Seq<char>,
    thread_id: u64,
) -> TrackerCommentView {
    TrackerCommentView {
        thread_id,
        repo,
        author: body.login,
        body: match body.body {
            Some(b) => b,
            None => Seq::empty(),
        },
        url: body.html_url,
    }
}

/// What the bridge makes of a payload, given the correlation table and the
/// bridge's own login.
pub open spec fn webhook_verdict(
    store: Seq<CorrelationRecordView>,
    own_login: Seq<char>,
    body: IssueCommentWebhookView,
) -> Result<WebhookVerdictView, WebhookError> {
    if !is_created(body) {
        Ok(WebhookVerdictView::NotCreated)
    } else {
        match body.full_name {
            None => Err(WebhookError::MissingFullName),
            Some(repo) => if authored_by_bridge(body, own_login) {
                Ok(WebhookVerdictView::OwnComment)
            } else {
                match lookup_by_issue(store, body.number, repo) {
                    None => Ok(WebhookVerdictView::Unbound),
                    Some(thread_id) => Ok(
                        WebhookVerdictView::Forward(forwarded_comment(body, repo, thread_id)),
                    ),
                }
            },
        }
    }
}

/// The status that answers a payload.
pub open spec fn response_status(
    store: Seq<CorrelationRecordView>,
    own_login: Seq<char>,
    body: IssueCommentWebhookView,
) -> u16 {
    if webhook_verdict(store, own_login, body) is Ok {
        STATUS_OK
    } else {
        STATUS_BAD_REQUEST
    }
}

/// The event that a payload puts on the merged stream.
pub open spec fn response_event(
    store: Seq<CorrelationRecordView>,
    own_login: Seq<char>,
    body: IssueCommentWebhookView,
) -> Option<TrackerCommentView> {
    match webhook_verdict(store, own_login, body) {
        Ok(WebhookVerdictView::Forward(comment)) => Some(comment),
        _ => None,
    }
}

/// Idempotent forwarding: a comment on an issue that no thread stands for is
/// acknowledged and puts nothing on the merged stream.
pub proof fn lemma_unbound_issue_is_dropped(
    store: Seq<CorrelationRecordView>,
    own_login: Seq<char>,
    body: IssueCommentWebhookView,
    repo: Seq<char>,
)
    requires
        body.full_name == Some(repo),
        !is_issue_bound(store, body.number, repo),
    ensures
        response_status(store, own_login, body) == STATUS_OK,
        response_event(store, own_login, body) is None,
{
}

/// Echo suppression: a comment that the bridge wrote itself puts nothing on
/// the merged stream, whatever the table holds and whatever kind of account
/// the bridge has.
pub proof fn lemma_own_comment_is_dropped(
    store: Seq<CorrelationRecordView>,
    own_login: Seq<char>,
    body: IssueCommentWebhookView,
)
    requires
        body.login == own_login,
    ensures
        response_event(store, own_login, body) is None,
        !(webhook_verdict(store, own_login, body) matches Ok(WebhookVerdictView::Forward(_))),
{
}

/// Forwarding: a new comment on a bound issue, written by anyone but the
/// bridge, is acknowledged and goes into the thread that stands for the
/// issue, with its author, its text and its address. The kind of the author's
/// account does not matter.
pub proof fn lemma_foreign_comment_is_forwarded(
    store: Seq<CorrelationRecordView>,
    own_login: Seq<char>,
    body: IssueCommentWebhookView,
    repo: Seq<char>,
    i: int,
)
    requires
        store_wf(store),
        is_created(body),
        body.full_name == Some(repo),
        body.login != own_login,
        binds_issue(store, body.number, repo, i),
    ensures
        response_status(store, own_login, body) == STATUS_OK,
        response_event(store, own_login, body) == Some(
            TrackerCommentView {
                thread_id: store[i].thread_id,
                repo,
                author: body.login,
                body: match body.body {
                    Some(text) => text,
                    None => Seq::empty(),
                },
                url: body.html_url,
            },
        ),
{
    assert(is_issue_bound(store, body.number, repo));
    let k = choose|k: int| binds_issue(store, body.number, repo, k);
    lemma_issue_record_unique(store, i, k);
}

/// A payload that reports something other than a new comment is acknowledged
/// and puts nothing on the merged stream.
pub proof fn lemma_other_action_is_dropped(
    store: Seq<CorrelationRecordView>,
    own_login: Seq<char>,
    body: IssueCommentWebhookView,
)
    requires
        !is_created(body),
    ensures
        response_status(store, own_login, body) == STATUS_OK,
        response_event(store, own_login, body) is None,
{
}

/// An event on the merged stream names a thread that the table binds to the
/// payload's issue, and was not written by the bridge.
pub proof fn lemma_forwarded_is_bound(
    store: Seq<CorrelationRecordView>,
    own_login: Seq<char>,
    body: IssueCommentWebhookView,
)
    ensures
        response_event(store, own_login, body) matches Some(comment) ==> {
            &&& comment.author != own_login
            &&& exists|i: int|
                #[trigger] binds_issue(store, body.number, comment.repo, i) && store[i].thread_id
                    == comment.thread_id
        },
{
    if response_event(store, own_login, body) is Some {
        let comment = response_event(store, own_login, body)->0;
        let repo = body.full_name->0;
        assert(lookup_by_issue(store, body.number, repo) is Some);
        assert(is_issue_bound(store, body.number, repo));
        let i = choose|i: int| binds_issue(store, body.number, repo, i);
        assert(comment == forwarded_comment(body, repo, store[i].thread_id));
        assert(binds_issue(store, body.number, comment.repo, i));
    }
}

/// Decides what becomes of a payload. `own_login` is the login under which
/// the bridge writes to the tracker.
pub fn webhook_impl(state: &State, own_login: &str, body: IssueCommentWebhook) -> (verdict: Result<
    WebhookVerdict,
    WebhookError,
>)
    ensures
        match verdict {
            Ok(v) => webhook_verdict(state@, own_login@, body@) == Ok::<
                WebhookVerdictView,
                WebhookError,
            >(v@),
            Err(e) => webhook_verdict(state@, own_login@, body@) == Err::<
                WebhookVerdictView,
                WebhookError,
            >(e),
        },
{
    if !same_text(body.action.as_str(), "created") {
        return Ok(WebhookVerdict::NotCreated);
    }
    let repo = match body.repository.full_name {
        Some(repo) => repo,
        None => {
            return Err(WebhookError::MissingFullName);
        },
    };
    if same_text(body.comment.user.login.as_str(), own_login) {
        return Ok(WebhookVerdict::OwnComment);
    }
    let thread_id = match state.get_thread(body.issue.number, repo.as_str()) {
        Some(thread_id) => thread_id,
        None => {
            return Ok(WebhookVerdict::Unbound);
        },
    };
    let text = match body.comment.body {
        Some(text) => text,
        None => String::new(),
    };
    Ok(
        WebhookVerdict::Forward(
            TrackerComment {
                thread_id,
                repo,
                author: body.comment.user.login,
                body: text,
                url: body.comment.html_url,
            },
        ),
    )
}

/// Answers a payload: with success whatever became of it, with an error only
/// where it cannot be handled. `own_login` is the login under which the
/// bridge writes to the tracker.
pub fn webhook(state: &State, own_login: &str, body: IssueCommentWebhook) -> (response:
    WebhookResponse)
    ensures
        response.status == response_status(state@, own_login@, body@),
        match response.event {
            Some(comment) => response_event(state@, own_login@, body@) == Some(comment@),
            None => response_event(state@, own_login@, body@) is None,
        },
{
    match webhook_impl(state, own_login, body) {
        Ok(WebhookVerdict::Forward(comment)) => WebhookResponse {
            status: STATUS_OK,
            event: Some(comment),
        },
        Ok(_) => WebhookResponse { status: STATUS_OK, event: None },
        Err(_) => WebhookResponse { status: STATUS_BAD_REQUEST, event: None },
    }
}

} // verus!
