//! The synchronization engine: what is done about each event, step by step.
//!
//! Handling an event takes work that only the caller can do: asking the chat
//! platform for a message, opening an issue, posting into a thread. The
//! engine does none of it. It says what is to be done next, as a [`Request`],
//! and is told what came of it, as a [`Response`]; where it stands between
//! two steps is a [`Progress`]. A caller starts at [`Progress::Start`], does
//! what each step asks, hands back what came of it, and is finished when a
//! step asks for nothing more.
//!
//! Each step sees the correlation table as it is at that moment. Other events
//! may have been handled in between; the rules below hold whatever they did.

use crate::config::{any_authorized, is_authorized, resolve_repo, Config, RepoBindingView};
use crate::event::{
    is_trigger, ChatMessage, ChatMessageView, ChatReaction, ChatReactionView, Emoji, EmojiView,
    NormalizedEvent, NormalizedEventView, TrackerComment, TrackerCommentView,
};
use crate::state::{
    bind, bind_outcome, binds_thread, is_tracked, lemma_bind, lemma_thread_record_unique,
    lookup_by_thread, store_wf, Conflict, CorrelationRecordView, State,
};
use crate::text::{
    chat_label, chat_notice, issue_title, issue_url, join_repo_name, lemma_issue_title,
    lemma_thread_name_len, make_chat_notice, TITLE_CHARS,
    make_issue_title, make_issue_url, make_thread_name, make_tracker_comment_body, repo_full_name,
    split_repo, split_repo_name, thread_name, tracker_comment_body,
};
use vstd::prelude::*;
use vstd::string::*;

verus! {

/// Work that the engine asks of its caller.
#[derive(Clone, Debug, PartialEq, Eq)]
pub enum Request {
    /// Fetch a message from the chat platform.
    FetchMessage { channel_id: u64, message_id: u64 },
    /// Write a comment on an issue.
    CreateComment { owner: String, repo: String, issue_number: u64, body: String },
    /// Take one user's reaction off a message.
    DeleteReaction { channel_id: u64, message_id: u64, emoji: Emoji, user_id: u64 },
    /// Open an issue.
    CreateIssue { owner: String, repo: String, title: String, body: String, label: String },
    /// Start a thread on a message.
    CreateThread { channel_id: u64, message_id: u64, name: String },
    /// Post a message into a channel or a thread.
    CreateMessage { channel_id: u64, content: String },
}

/// What a [`Request`] holds.
pub enum RequestView {
    FetchMessage { channel_id: u64, message_id: u64 },
    CreateComment { owner: Seq<char>, repo: Seq<char>, issue_number: u64, body: Seq<char> },
    DeleteReaction { channel_id: u64, message_id: u64, emoji: EmojiView, user_id: u64 },
    CreateIssue {
        owner: Seq<char>,
        repo: Seq<char>,
        title: Seq<char>,
        body: Seq<char>,
        label: Seq<char>,
    },
    CreateThread { channel_id: u64, message_id: u64, name: Seq<char> },
    CreateMessage { channel_id: u64, content: Seq<char> },
}

impl View for Request {
    type V = RequestView;

    open spec fn view(&self) -> RequestView {
        match *self {
            Request::FetchMessage { channel_id, message_id } => RequestView::FetchMessage {
                channel_id,
                message_id,
            },
            Request::CreateComment { owner, repo, issue_number, body } => RequestView::CreateComment {
                owner: owner@,
                repo: repo@,
                issue_number,
                body: body@,
            },
            Request::DeleteReaction {
                channel_id,
                message_id,
                emoji,
                user_id,
            } => RequestView::DeleteReaction { channel_id, message_id, emoji: emoji@, user_id },
            Request::CreateIssue { owner, repo, title, body, label } => RequestView::CreateIssue {
                owner: owner@,
                repo: repo@,
                title: title@,
                body: body@,
                label: label@,
            },
            Request::CreateThread { channel_id, message_id, name } => RequestView::CreateThread {
                channel_id,
                message_id,
                name: name@,
            },
            Request::CreateMessage { channel_id, content } => RequestView::CreateMessage {
                channel_id,
                content: content@,
            },
        }
    }
}

/// What came of the work that the last step asked for.
#[derive(Clone, Debug, PartialEq, Eq)]
pub enum Response {
    /// The message that was fetched: its text, and the thread that hangs on
    /// it, if one does.
    Message { content: String, thread_id: Option<u64> },
    /// The issue was opened, under this number.
    Issue { number: u64 },
    /// The thread was started, under this id.
    Thread { thread_id: u64 },
    /// The work was done, and there is nothing to tell.
    Done,
    /// The work could not be done.
    Failed,
}

/// What a [`Response`] holds.
pub enum ResponseView {
    Message { content: Seq<char>, thread_id: Option<u64> },
    Issue { number: u64 },
    Thread { thread_id: u64 },
    Done,
    Failed,
}

impl View for Response {
    type V = ResponseView;

    open spec fn view(&self) -> ResponseView {
        match *self {
            Response::Message { content, thread_id } => ResponseView::Message {
                content: content@,
                thread_id,
            },
            Response::Issue { number } => ResponseView::Issue { number },
            Response::Thread { thread_id } => ResponseView::Thread { thread_id },
            Response::Done => ResponseView::Done,
            Response::Failed => ResponseView::Failed,
        }
    }
}

/// Why nothing was done about an event.
#[derive(Clone, Copy, Debug, PartialEq, Eq, Structural)]
pub enum Reason {
    /// A message on which a thread hangs.
    HasThread,
    /// A message that a bot wrote.
    BotAuthor,
    /// A message in a place that stands for no issue.
    PlainChat,
    /// A reaction that was taken off, or another symbol than the trigger.
    NotTrigger,
    /// A reaction on a message whose thread stands for an issue already.
    AlreadyTracked,
    /// A reaction on a message on which a thread hangs that stands for no
    /// issue.
    ThreadExists,
    /// A reaction in a place that reports to no repository.
    UntrackedPlace,
    /// A tracker comment handed to the handler of chat events.
    WrongHandler,
}

/// Why the handling of an event broke off.
#[derive(Clone, Copy, Debug, PartialEq, Eq, Structural)]
pub enum EngineError {
    /// The repository recorded for a thread is not of the form `owner/name`.
    InvalidRepo,
    /// The event came from outside any guild.
    NotInGuild,
    /// The chat platform or the tracker could not do what was asked.
    Collaborator,
    /// What the caller handed back does not answer what was asked.
    UnexpectedResponse,
}

/// How the handling of an event ended.
#[derive(Clone, Copy, Debug, PartialEq, Eq, Structural)]
pub enum Outcome {
    /// Nothing was to be done.
    Ignored(Reason),
    /// A message was mirrored as a comment, or a comment as a message.
    Forwarded,
    /// The actor may not open issues here: the reaction was taken off.
    Rejected,
    /// An issue and its thread were made and bound to each other.
    Bound { thread_id: u64, issue_number: u64 },
    /// An issue and its thread were made, but the table refused the binding.
    /// The handling counts as done; what was made stays.
    AlreadyHandled(Conflict),
    /// The handling broke off.
    Failed(EngineError),
}

/// Where the handling of one event stands.
#[derive(Clone, Debug, PartialEq, Eq)]
pub enum Progress {
    /// Nothing has been done yet.
    Start,
    /// The message under the reaction is being fetched.
    FetchingMessage,
    /// The comment that mirrors a message is being written.
    Commenting,
    /// The reaction is being taken off.
    RemovingReaction,
    /// The issue is being opened.
    CreatingIssue { owner: String, repo: String, title: String },
    /// The thread is being started.
    CreatingThread { owner: String, repo: String, issue_number: u64 },
    /// The link to the issue is being posted into the new thread.
    Announcing { owner: String, repo: String, issue_number: u64, thread_id: u64 },
    /// The message that mirrors a comment is being posted.
    Posting,
    /// The handling has ended.
    Finished(Outcome),
}

/// What a [`Progress`] holds.
pub enum ProgressView {
    Start,
    FetchingMessage,
    Commenting,
    RemovingReaction,
    CreatingIssue { owner: Seq<char>, repo: Seq<char>, title: Seq<char> },
    CreatingThread { owner: Seq<char>, repo: Seq<char>, issue_number: u64 },
    Announcing { owner: Seq<char>, repo: Seq<char>, issue_number: u64, thread_id: u64 },
    Posting,
    Finished(Outcome),
}

impl View for Progress {
    type V = ProgressView;

    open spec fn view(&self) -> ProgressView {
        match *self {
            Progress::Start => ProgressView::Start,
            Progress::FetchingMessage => ProgressView::FetchingMessage,
            Progress::Commenting => ProgressView::Commenting,
            Progress::RemovingReaction => ProgressView::RemovingReaction,
            Progress::CreatingIssue { owner, repo, title } => ProgressView::CreatingIssue {
                owner: owner@,
                repo: repo@,
                title: title@,
            },
            Progress::CreatingThread { owner, repo, issue_number } => ProgressView::CreatingThread {
                owner: owner@,
                repo: repo@,
                issue_number,
            },
            Progress::Announcing { owner, repo, issue_number, thread_id } => ProgressView::Announcing {
                owner: owner@,
                repo: repo@,
                issue_number,
                thread_id,
            },
            Progress::Posting => ProgressView::Posting,
            Progress::Finished(outcome) => ProgressView::Finished(outcome),
        }
    }
}

/// What a response that may be missing holds.
pub open spec fn response_view(response: Option<Response>) -> Option<ResponseView> {
    match response {
        Some(r) => Some(r@),
        None => None,
    }
}

/// What a request that may be missing holds.
pub open spec fn request_view(request: Option<Request>) -> Option<RequestView> {
    match request {
        Some(r) => Some(r@),
        None => None,
    }
}

/// One step of the engine: where the handling stands after it, what it asks
/// of the caller, and the correlation table as it leaves it.
pub struct Transition {
    pub progress: ProgressView,
    pub request: Option<RequestView>,
    pub store: Seq<CorrelationRecordView>,
}

/// The step that ends the handling.
pub open spec fn finish(outcome: Outcome, store: Seq<CorrelationRecordView>) -> Transition {
    Transition { progress: ProgressView::Finished(outcome), request: None, store }
}

/// The step that asks for `request` and waits in `progress`.
pub open spec fn ask(
    progress: ProgressView,
    request: RequestView,
    store: Seq<CorrelationRecordView>,
) -> Transition {
    Transition { progress, request: Some(request), store }
}

/// The step that ends the handling because the response is not the one that
/// was waited for: with [`EngineError::Collaborator`] where the work failed,
/// with [`EngineError::UnexpectedResponse`] otherwise.
pub open spec fn break_off(
    response: Option<ResponseView>,
    store: Seq<CorrelationRecordView>,
) -> Transition {
    if response == Some(ResponseView::Failed) {
        finish(Outcome::Failed(EngineError::Collaborator), store)
    } else {
        finish(Outcome::Failed(EngineError::UnexpectedResponse), store)
    }
}

/// The first step for a message. A message on which a thread hangs, or one
/// that a bot wrote, is left alone. So is one written where no issue is
/// bound. A message written in a thread that stands for an issue becomes a
/// comment on that issue.
pub open spec fn on_message(m: ChatMessageView, store: Seq<CorrelationRecordView>) -> Transition {
    if m.thread_id is Some {
        finish(Outcome::Ignored(Reason::HasThread), store)
    } else if m.is_bot {
        finish(Outcome::Ignored(Reason::BotAuthor), store)
    } else {
        match lookup_by_thread(store, m.channel_id) {
            None => finish(Outcome::Ignored(Reason::PlainChat), store),
            Some((issue_number, full)) => match split_repo(full) {
                None => finish(Outcome::Failed(EngineError::InvalidRepo), store),
                Some((owner, repo)) => match m.guild_id {
                    None => finish(Outcome::Failed(EngineError::NotInGuild), store),
                    Some(guild_id) => ask(
                        ProgressView::Commenting,
                        RequestView::CreateComment {
                            owner,
                            repo,
                            issue_number,
                            body: tracker_comment_body(
                                m.author,
                                m.content,
                                guild_id as nat,
                                m.channel_id as nat,
                                m.message_id as nat,
                            ),
                        },
                        store,
                    ),
                },
            },
        }
    }
}

/// The first step for a reaction. Only the trigger, put on a message, is
/// followed up: by fetching the message.
pub open spec fn on_reaction(r: ChatReactionView, store: Seq<CorrelationRecordView>) -> Transition {
    if r.is_add && is_trigger(r.emoji) {
        ask(
            ProgressView::FetchingMessage,
            RequestView::FetchMessage { channel_id: r.channel_id, message_id: r.message_id },
            store,
        )
    } else {
        finish(Outcome::Ignored(Reason::NotTrigger), store)
    }
}

/// The step after the message under a reaction was fetched. A message on
/// which a thread hangs is left alone, and so is one in a place that reports
/// to no repository. Otherwise the actor's roles decide: with a role that the
/// repository lets in, an issue is opened; without one, the reaction is taken
/// off.
pub open spec fn on_fetched(
    r: ChatReactionView,
    table: Seq<RepoBindingView>,
    store: Seq<CorrelationRecordView>,
    content: Seq<char>,
    thread_id: Option<u64>,
) -> Transition {
    match thread_id {
        Some(thread) => if is_tracked(store, thread) {
            finish(Outcome::Ignored(Reason::AlreadyTracked), store)
        } else {
            finish(Outcome::Ignored(Reason::ThreadExists), store)
        },
        None => match resolve_repo(table, r.channel_id, r.guild_id) {
            None => finish(Outcome::Ignored(Reason::UntrackedPlace), store),
            Some(full) => match split_repo(full) {
                None => finish(Outcome::Ignored(Reason::UntrackedPlace), store),
                Some((owner, repo)) => match r.actor_roles {
                    None => finish(Outcome::Failed(EngineError::NotInGuild), store),
                    Some(roles) => if any_authorized(table, full, roles) {
                        ask(
                            ProgressView::CreatingIssue {
                                owner,
                                repo,
                                title: issue_title(content),
                            },
                            RequestView::CreateIssue {
                                owner,
                                repo,
                                title: issue_title(content),
                                body: content,
                                label: chat_label(),
                            },
                            store,
                        )
                    } else {
                        ask(
                            ProgressView::RemovingReaction,
                            RequestView::DeleteReaction {
                                channel_id: r.channel_id,
                                message_id: r.message_id,
                                emoji: r.emoji,
                                user_id: r.user_id,
                            },
                            store,
                        )
                    },
                },
            },
        },
    }
}

/// The step after the link was posted into the new thread: the thread is
/// bound to the issue. Where the table refuses the binding the handling
/// counts as done all the same.
pub open spec fn on_announced(
    owner: Seq<char>,
    repo: Seq<char>,
    issue_number: u64,
    thread_id: u64,
    store: Seq<CorrelationRecordView>,
) -> Transition {
    let record = CorrelationRecordView {
        thread_id,
        issue_number,
        repo: repo_full_name(owner, repo),
    };
    match bind_outcome(store, record) {
        Ok(_) => finish(Outcome::Bound { thread_id, issue_number }, bind(store, record)),
        Err(conflict) => finish(Outcome::AlreadyHandled(conflict), bind(store, record)),
    }
}

/// A step in the handling of a reaction, after the first.
pub open spec fn reaction_step(
    r: ChatReactionView,
    table: Seq<RepoBindingView>,
    store: Seq<CorrelationRecordView>,
    progress: ProgressView,
    response: Option<ResponseView>,
) -> Transition {
    match progress {
        ProgressView::FetchingMessage => match response {
            Some(ResponseView::Message { content, thread_id }) => on_fetched(
                r,
                table,
                store,
                content,
                thread_id,
            ),
            _ => break_off(response, store),
        },
        ProgressView::RemovingReaction => match response {
            Some(ResponseView::Done) => finish(Outcome::Rejected, store),
            _ => break_off(response, store),
        },
        ProgressView::CreatingIssue { owner, repo, title } => match response {
            Some(ResponseView::Issue { number }) => ask(
                ProgressView::CreatingThread { owner, repo, issue_number: number },
                RequestView::CreateThread {
                    channel_id: r.channel_id,
                    message_id: r.message_id,
                    name: thread_name(number as nat, title),
                },
                store,
            ),
            _ => break_off(response, store),
        },
        ProgressView::CreatingThread { owner, repo, issue_number } => match response {
            Some(ResponseView::Thread { thread_id }) => ask(
                ProgressView::Announcing { owner, repo, issue_number, thread_id },
                RequestView::CreateMessage {
                    channel_id: thread_id,
                    content: issue_url(owner, repo, issue_number as nat),
                },
                store,
            ),
            _ => break_off(response, store),
        },
        ProgressView::Announcing { owner, repo, issue_number, thread_id } => match response {
            Some(ResponseView::Done) => on_announced(owner, repo, issue_number, thread_id, store),
            _ => break_off(response, store),
        },
        _ => finish(Outcome::Failed(EngineError::UnexpectedResponse), store),
    }
}

/// A step in the handling of a chat event.
pub open spec fn discord_step(
    event: NormalizedEventView,
    table: Seq<RepoBindingView>,
    store: Seq<CorrelationRecordView>,
    progress: ProgressView,
    response: Option<ResponseView>,
) -> Transition {
    match progress {
        ProgressView::Finished(outcome) => finish(outcome, store),
        ProgressView::Start => match event {
            NormalizedEventView::ChatMessage(m) => on_message(m, store),
            NormalizedEventView::ChatReaction(r) => on_reaction(r, store),
            NormalizedEventView::TrackerComment(_) => finish(
                Outcome::Ignored(Reason::WrongHandler),
                store,
            ),
        },
        _ => match event {
            NormalizedEventView::ChatMessage(_) => match progress {
                ProgressView::Commenting => match response {
                    Some(ResponseView::Done) => finish(Outcome::Forwarded, store),
                    _ => break_off(response, store),
                },
                _ => finish(Outcome::Failed(EngineError::UnexpectedResponse), store),
            },
            NormalizedEventView::ChatReaction(r) => reaction_step(
                r,
                table,
                store,
                progress,
                response,
            ),
            NormalizedEventView::TrackerComment(_) => finish(
                Outcome::Ignored(Reason::WrongHandler),
                store,
            ),
        },
    }
}

/// A step in the handling of a tracker comment: where the handling stands
/// after it, and what it asks for. The comment is posted into the thread that
/// stands for its issue; the table is neither read nor changed.
pub open spec fn github_step(
    comment: TrackerCommentView,
    progress: ProgressView,
    response: Option<ResponseView>,
) -> (ProgressView, Option<RequestView>) {
    match progress {
        ProgressView::Finished(outcome) => (ProgressView::Finished(outcome), None),
        ProgressView::Start => (
            ProgressView::Posting,
            Some(
                RequestView::CreateMessage {
                    channel_id: comment.thread_id,
                    content: chat_notice(comment.author, comment.body, comment.url),
                },
            ),
        ),
        ProgressView::Posting => match response {
            Some(ResponseView::Done) => (ProgressView::Finished(Outcome::Forwarded), None),
            Some(ResponseView::Failed) => (
                ProgressView::Finished(Outcome::Failed(EngineError::Collaborator)),
                None,
            ),
            _ => (ProgressView::Finished(Outcome::Failed(EngineError::UnexpectedResponse)), None),
        },
        _ => (ProgressView::Finished(Outcome::Failed(EngineError::UnexpectedResponse)), None),
    }
}

/// A step in the handling of an event of the merged stream.
pub open spec fn step(
    event: NormalizedEventView,
    table: Seq<RepoBindingView>,
    store: Seq<CorrelationRecordView>,
    progress: ProgressView,
    response: Option<ResponseView>,
) -> Transition {
    match event {
        NormalizedEventView::TrackerComment(comment) => Transition {
            progress: github_step(comment, progress, response).0,
            request: github_step(comment, progress, response).1,
            store,
        },
        _ => discord_step(event, table, store, progress, response),
    }
}

/// The record that a step adds to the table where it adds one: the step that
/// follows the posting of the link binds the new thread to the new issue.
pub open spec fn binding_of(progress: ProgressView) -> Option<CorrelationRecordView> {
    match progress {
        ProgressView::Announcing { owner, repo, issue_number, thread_id } => Some(
            CorrelationRecordView { thread_id, issue_number, repo: repo_full_name(owner, repo) },
        ),
        _ => None,
    }
}

/// What every step keeps to. It asks for work exactly when the handling has
/// not ended, and once the handling has ended nothing happens any more. It
/// leaves the table as it was, or one record longer, and only the step that
/// ends the handling with [`Outcome::Bound`] makes it longer: so one event
/// changes the table once at most. A well-formed table stays well formed.
pub proof fn lemma_step(
    event: NormalizedEventView,
    table: Seq<RepoBindingView>,
    store: Seq<CorrelationRecordView>,
    progress: ProgressView,
    response: Option<ResponseView>,
)
    ensures
        ({
            let t = step(event, table, store, progress, response);
            &&& t.request is None <==> t.progress is Finished
            &&& (progress matches ProgressView::Finished(outcome) ==> t == finish(outcome, store))
            &&& t.store == store || (binding_of(progress) matches Some(record) && t.store
                == store.push(record) && bind_outcome(store, record) is Ok)
            &&& t.store != store ==> (t.progress matches ProgressView::Finished(
                Outcome::Bound { .. },
            ))
            &&& (t.progress matches ProgressView::Finished(Outcome::Bound { thread_id, .. })
                ==> progress is Finished || (!is_tracked(store, thread_id) && is_tracked(
                t.store,
                thread_id,
            )))
            &&& store_wf(store) ==> store_wf(t.store)
        }),
{
    let t = step(event, table, store, progress, response);
    match binding_of(progress) {
        Some(record) => {
            if store_wf(store) {
                lemma_bind(store, record);
            }
            if bind_outcome(store, record) is Ok {
                assert(binds_thread(store.push(record), record.thread_id, store.len() as int));
            }
        },
        None => {},
    }
}

/// One step of the handling of some event, as it may stand anywhere among
/// the steps of other events.
pub struct Move {
    pub event: NormalizedEventView,
    pub progress: ProgressView,
    pub response: Option<ResponseView>,
}

/// The table after a row of steps, taken one after the other, each on the
/// table that the one before left.
pub open spec fn after_moves(
    table: Seq<RepoBindingView>,
    store: Seq<CorrelationRecordView>,
    moves: Seq<Move>,
) -> Seq<CorrelationRecordView>
    decreases moves.len(),
{
    if moves.len() == 0 {
        store
    } else {
        step(
            moves.last().event,
            table,
            after_moves(table, store, moves.drop_last()),
            moves.last().progress,
            moves.last().response,
        ).store
    }
}

/// Uniqueness: whatever events are handled, and however the steps of their
/// handling fall among each other, a well-formed table stays well formed. No
/// thread ever has a second record, no issue has, and what was recorded stays
/// as it was.
pub proof fn lemma_moves_keep_unique(
    table: Seq<RepoBindingView>,
    store: Seq<CorrelationRecordView>,
    moves: Seq<Move>,
)
    requires
        store_wf(store),
    ensures
        store_wf(after_moves(table, store, moves)),
        store.len() <= after_moves(table, store, moves).len() <= store.len() + moves.len(),
        forall|i: int| 0 <= i < store.len() ==> after_moves(table, store, moves)[i] == store[i],
        forall|i: int, j: int|
            #![trigger after_moves(table, store, moves)[i], after_moves(table, store, moves)[j]]
            0 <= i < after_moves(table, store, moves).len() && 0 <= j < after_moves(
                table,
                store,
                moves,
            ).len() && after_moves(table, store, moves)[i].thread_id == after_moves(
                table,
                store,
                moves,
            )[j].thread_id ==> i == j,
    decreases moves.len(),
{
    let end = after_moves(table, store, moves);
    if moves.len() > 0 {
        let before = after_moves(table, store, moves.drop_last());
        lemma_moves_keep_unique(table, store, moves.drop_last());
        lemma_step(moves.last().event, table, before, moves.last().progress, moves.last().response);
    }
    assert forall|i: int, j: int|
        0 <= i < end.len() && 0 <= j < end.len() && end[i].thread_id
            == end[j].thread_id implies i == j by {
        lemma_thread_record_unique(end, i, j);
    }
}

/// What one step of a handling sees: the response to what the step before
/// asked for, and the table as it is at that moment.
pub struct Observation {
    pub response: Option<ResponseView>,
    pub store: Seq<CorrelationRecordView>,
}

/// The work that the handling of an event asks for, in order, when it goes
/// on from `progress` and its steps see `seen`, one observation each.
pub open spec fn requests_of(
    event: NormalizedEventView,
    table: Seq<RepoBindingView>,
    progress: ProgressView,
    seen: Seq<Observation>,
) -> Seq<RequestView>
    decreases seen.len(),
{
    if seen.len() == 0 {
        Seq::empty()
    } else {
        let t = step(event, table, seen[0].store, progress, seen[0].response);
        let rest = requests_of(event, table, t.progress, seen.drop_first());
        match t.request {
            Some(request) => seq![request] + rest,
            None => rest,
        }
    }
}

/// A handling that has ended asks for nothing more, whatever it is shown.
pub proof fn lemma_finished_asks_nothing(
    event: NormalizedEventView,
    table: Seq<RepoBindingView>,
    outcome: Outcome,
    seen: Seq<Observation>,
)
    ensures
        requests_of(event, table, ProgressView::Finished(outcome), seen) == Seq::<
            RequestView,
        >::empty(),
    decreases seen.len(),
{
    if seen.len() > 0 {
        lemma_finished_asks_nothing(event, table, outcome, seen.drop_first());
    }
}

/// Whether the actor of a reaction may open an issue: the place of the
/// reaction reports to a repository, and one of the actor's roles is let in.
pub open spec fn may_open_issue(r: ChatReactionView, table: Seq<RepoBindingView>) -> bool {
    match resolve_repo(table, r.channel_id, r.guild_id) {
        Some(full) => match r.actor_roles {
            Some(roles) => any_authorized(table, full, roles),
            None => false,
        },
        None => false,
    }
}

/// Permission gating: the reaction of an actor who may not open an issue
/// never leads to one. Whatever the handling is shown, it asks for nothing,
/// or for the message only, or for the message and then for the reaction to
/// be taken off: no issue, no thread, and the reaction taken off once at
/// most.
pub proof fn lemma_no_issue_without_permission(
    r: ChatReactionView,
    table: Seq<RepoBindingView>,
    seen: Seq<Observation>,
)
    requires
        !may_open_issue(r, table),
    ensures
        ({
            let asked = requests_of(
                NormalizedEventView::ChatReaction(r),
                table,
                ProgressView::Start,
                seen,
            );
            let fetch = RequestView::FetchMessage {
                channel_id: r.channel_id,
                message_id: r.message_id,
            };
            let delete = RequestView::DeleteReaction {
                channel_id: r.channel_id,
                message_id: r.message_id,
                emoji: r.emoji,
                user_id: r.user_id,
            };
            &&& asked == Seq::<RequestView>::empty() || asked == seq![fetch] || asked
                == seq![fetch, delete]
            &&& forall|i: int| 0 <= i < asked.len() ==> !(#[trigger] asked[i] is CreateIssue)
        }),
{
    let event = NormalizedEventView::ChatReaction(r);
    let asked = requests_of(event, table, ProgressView::Start, seen);
    let fetch = RequestView::FetchMessage { channel_id: r.channel_id, message_id: r.message_id };
    let delete = RequestView::DeleteReaction {
        channel_id: r.channel_id,
        message_id: r.message_id,
        emoji: r.emoji,
        user_id: r.user_id,
    };
    if seen.len() > 0 {
        let first = step(event, table, seen[0].store, ProgressView::Start, seen[0].response);
        let seen1 = seen.drop_first();
        let asked1 = requests_of(event, table, first.progress, seen1);
        if first.progress is Finished {
            lemma_finished_asks_nothing(event, table, first.progress->Finished_0, seen1);
        } else {
            assert(first.progress == ProgressView::FetchingMessage);
            assert(first.request == Some(fetch));
            assert(asked == seq![fetch] + asked1);
            if seen1.len() > 0 {
                let second = step(event, table, seen1[0].store, first.progress, seen1[0].response);
                let seen2 = seen1.drop_first();
                let asked2 = requests_of(event, table, second.progress, seen2);
                if second.progress is Finished {
                    lemma_finished_asks_nothing(event, table, second.progress->Finished_0, seen2);
                    assert(asked1 =~= Seq::<RequestView>::empty());
                    assert(asked =~= seq![fetch]);
                } else {
                    assert(second.progress == ProgressView::RemovingReaction);
                    assert(second.request == Some(delete));
                    assert(asked1 == seq![delete] + asked2);
                    if seen2.len() > 0 {
                        let third = step(
                            event,
                            table,
                            seen2[0].store,
                            second.progress,
                            seen2[0].response,
                        );
                        assert(third.progress is Finished);
                        lemma_finished_asks_nothing(
                            event,
                            table,
                            third.progress->Finished_0,
                            seen2.drop_first(),
                        );
                    }
                    assert(asked2 =~= Seq::<RequestView>::empty());
                    assert(asked =~= seq![fetch, delete]);
                }
            } else {
                assert(asked =~= seq![fetch]);
            }
        }
    }
}

/// Permission gating, the other half: where the trigger is put on a message
/// without a thread, in a place that reports to a repository, by a member
/// none of whose roles is let in, the handling asks for the message and then
/// for the reaction to be taken off, once, and for nothing else.
pub proof fn lemma_reaction_removed_once(
    r: ChatReactionView,
    table: Seq<RepoBindingView>,
    seen: Seq<Observation>,
    content: Seq<char>,
    full: Seq<char>,
    roles: Seq<u64>,
)
    requires
        r.is_add,
        is_trigger(r.emoji),
        resolve_repo(table, r.channel_id, r.guild_id) == Some(full),
        split_repo(full) is Some,
        r.actor_roles == Some(roles),
        !any_authorized(table, full, roles),
        seen.len() >= 2,
        seen[1].response == Some(ResponseView::Message { content, thread_id: None }),
    ensures
        requests_of(NormalizedEventView::ChatReaction(r), table, ProgressView::Start, seen)
            == seq![
            RequestView::FetchMessage { channel_id: r.channel_id, message_id: r.message_id },
            RequestView::DeleteReaction {
                channel_id: r.channel_id,
                message_id: r.message_id,
                emoji: r.emoji,
                user_id: r.user_id,
            },
        ],
{
    let event = NormalizedEventView::ChatReaction(r);
    lemma_no_issue_without_permission(r, table, seen);
    let asked = requests_of(event, table, ProgressView::Start, seen);
    let first = step(event, table, seen[0].store, ProgressView::Start, seen[0].response);
    let seen1 = seen.drop_first();
    let asked1 = requests_of(event, table, first.progress, seen1);
    assert(seen1[0] == seen[1]);
    let second = step(event, table, seen1[0].store, first.progress, seen1[0].response);
    assert(second.request is Some);
    let asked2 = requests_of(event, table, second.progress, seen1.drop_first());
    assert(asked1 == seq![second.request->0] + asked2);
    assert(asked == seq![first.request->0] + asked1);
    assert(asked.len() >= 2);
}

/// What kind of work a request asks for.
#[derive(Clone, Copy, Debug, PartialEq, Eq, Structural)]
pub enum RequestKind {
    FetchMessage,
    CreateComment,
    DeleteReaction,
    CreateIssue,
    CreateThread,
    CreateMessage,
}

/// The kind of a request.
pub open spec fn kind_of(request: RequestView) -> RequestKind {
    match request {
        RequestView::FetchMessage { .. } => RequestKind::FetchMessage,
        RequestView::CreateComment { .. } => RequestKind::CreateComment,
        RequestView::DeleteReaction { .. } => RequestKind::DeleteReaction,
        RequestView::CreateIssue { .. } => RequestKind::CreateIssue,
        RequestView::CreateThread { .. } => RequestKind::CreateThread,
        RequestView::CreateMessage { .. } => RequestKind::CreateMessage,
    }
}

/// The kinds of a row of requests.
pub open spec fn kinds_of(asked: Seq<RequestView>) -> Seq<RequestKind> {
    asked.map_values(|request: RequestView| kind_of(request))
}

/// The kinds of work that are still to come, at most, once the handling of a
/// reaction has got past the fetching of the message.
pub open spec fn still_to_come(progress: ProgressView) -> Seq<RequestKind> {
    match progress {
        ProgressView::CreatingIssue { .. } => seq![
            RequestKind::CreateThread,
            RequestKind::CreateMessage,
        ],
        ProgressView::CreatingThread { .. } => seq![RequestKind::CreateMessage],
        _ => Seq::empty(),
    }
}

/// Past the fetching of the message, the handling of a reaction asks for what
/// is still to come, in that order, and stops where something fails.
pub proof fn lemma_rest_in_order(
    r: ChatReactionView,
    table: Seq<RepoBindingView>,
    progress: ProgressView,
    seen: Seq<Observation>,
)
    requires
        progress != ProgressView::Start,
        progress != ProgressView::FetchingMessage,
    ensures
        kinds_of(
            requests_of(NormalizedEventView::ChatReaction(r), table, progress, seen),
        ).is_prefix_of(still_to_come(progress)),
    decreases seen.len(),
{
    let event = NormalizedEventView::ChatReaction(r);
    let asked = requests_of(event, table, progress, seen);
    if seen.len() > 0 {
        let t = step(event, table, seen[0].store, progress, seen[0].response);
        let rest = requests_of(event, table, t.progress, seen.drop_first());
        lemma_rest_in_order(r, table, t.progress, seen.drop_first());
        match t.request {
            Some(request) => {
                assert(asked == seq![request] + rest);
                assert(kinds_of(asked) =~= seq![kind_of(request)] + kinds_of(rest));
            },
            None => {
                assert(asked == rest);
            },
        }
    }
}

/// Order of the work: the handling of a reaction asks for the message first;
/// then either for the reaction to be taken off, or for the issue, the
/// thread and the link into the thread, in that order. It may stop early,
/// where nothing is to be done or something fails, but it never skips a step
/// and never asks for anything else.
pub proof fn lemma_reaction_requests_in_order(
    r: ChatReactionView,
    table: Seq<RepoBindingView>,
    seen: Seq<Observation>,
)
    ensures
        ({
            let kinds = kinds_of(
                requests_of(NormalizedEventView::ChatReaction(r), table, ProgressView::Start, seen),
            );
            ||| kinds.is_prefix_of(seq![RequestKind::FetchMessage, RequestKind::DeleteReaction])
            ||| kinds.is_prefix_of(
                seq![
                    RequestKind::FetchMessage,
                    RequestKind::CreateIssue,
                    RequestKind::CreateThread,
                    RequestKind::CreateMessage,
                ],
            )
        }),
{
    let event = NormalizedEventView::ChatReaction(r);
    let asked = requests_of(event, table, ProgressView::Start, seen);
    if seen.len() > 0 {
        let first = step(event, table, seen[0].store, ProgressView::Start, seen[0].response);
        let seen1 = seen.drop_first();
        let asked1 = requests_of(event, table, first.progress, seen1);
        if first.progress is Finished {
            lemma_rest_in_order(r, table, first.progress, seen1);
            assert(kinds_of(asked) =~= Seq::<RequestKind>::empty());
        } else {
            assert(first.progress == ProgressView::FetchingMessage);
            assert(asked == seq![first.request->0] + asked1);
            assert(kinds_of(asked) =~= seq![RequestKind::FetchMessage] + kinds_of(asked1));
            if seen1.len() > 0 {
                let second = step(event, table, seen1[0].store, first.progress, seen1[0].response);
                let asked2 = requests_of(event, table, second.progress, seen1.drop_first());
                lemma_rest_in_order(r, table, second.progress, seen1.drop_first());
                match second.request {
                    Some(request) => {
                        assert(asked1 == seq![request] + asked2);
                        assert(kinds_of(asked1) =~= seq![kind_of(request)] + kinds_of(asked2));
                    },
                    None => {
                        assert(asked1 == asked2);
                    },
                }
            } else {
                assert(kinds_of(asked1) =~= Seq::<RequestKind>::empty());
            }
        }
    } else {
        assert(kinds_of(asked) =~= Seq::<RequestKind>::empty());
    }
}

/// The table after the handling of one event has gone on from `progress`
/// through the steps that answer `responses`, with no other event handled in
/// between.
pub open spec fn store_after_run(
    event: NormalizedEventView,
    table: Seq<RepoBindingView>,
    store: Seq<CorrelationRecordView>,
    progress: ProgressView,
    responses: Seq<Option<ResponseView>>,
) -> Seq<CorrelationRecordView>
    decreases responses.len(),
{
    if responses.len() == 0 {
        store
    } else {
        let t = step(event, table, store, progress, responses[0]);
        store_after_run(event, table, t.store, t.progress, responses.drop_first())
    }
}

/// The handling of one event changes the table once at most, by one record.
pub proof fn lemma_one_change_per_event(
    event: NormalizedEventView,
    table: Seq<RepoBindingView>,
    store: Seq<CorrelationRecordView>,
    progress: ProgressView,
    responses: Seq<Option<ResponseView>>,
)
    ensures
        ({
            let end = store_after_run(event, table, store, progress, responses);
            ||| end == store
            ||| exists|record: CorrelationRecordView|
                end == store.push(record) && bind_outcome(store, record) is Ok
        }),
        progress is Finished ==> store_after_run(event, table, store, progress, responses)
            == store,
    decreases responses.len(),
{
    if responses.len() > 0 {
        let t = step(event, table, store, progress, responses[0]);
        lemma_step(event, table, store, progress, responses[0]);
        lemma_one_change_per_event(event, table, t.store, t.progress, responses.drop_first());
        if t.store != store {
            let record = binding_of(progress)->0;
            assert(t.store == store.push(record) && bind_outcome(store, record) is Ok);
        }
    }
}

/// A reaction on a message on which a thread hangs already leads to nothing:
/// the handling asks for the message and for nothing else, and the table
/// stays as it is.
pub proof fn lemma_threaded_message_left_alone(
    r: ChatReactionView,
    table: Seq<RepoBindingView>,
    store: Seq<CorrelationRecordView>,
    content: Seq<char>,
    thread_id: u64,
)
    ensures
        ({
            let t = step(
                NormalizedEventView::ChatReaction(r),
                table,
                store,
                ProgressView::FetchingMessage,
                Some(ResponseView::Message { content, thread_id: Some(thread_id) }),
            );
            &&& t.request is None
            &&& t.store == store
            &&& t.progress == ProgressView::Finished(
                Outcome::Ignored(
                    if is_tracked(store, thread_id) {
                        Reason::AlreadyTracked
                    } else {
                        Reason::ThreadExists
                    },
                ),
            )
        }),
{
}

/// Whether the title that a handling carries is one that the engine has cut:
/// of [`TITLE_CHARS`] characters at most.
pub open spec fn carries_cut_title(progress: ProgressView) -> bool {
    progress matches ProgressView::CreatingIssue { title, .. } ==> title.len() <= TITLE_CHARS
}

/// The engine never carries a longer title than it has cut, and the name that
/// it gives a thread has between one and a hundred characters, which is what
/// the chat platform takes.
pub proof fn lemma_thread_name_fits(
    event: NormalizedEventView,
    table: Seq<RepoBindingView>,
    store: Seq<CorrelationRecordView>,
    progress: ProgressView,
    response: Option<ResponseView>,
)
    requires
        carries_cut_title(progress),
    ensures
        ({
            let t = step(event, table, store, progress, response);
            &&& carries_cut_title(t.progress)
            &&& (t.request matches Some(RequestView::CreateThread { name, .. }) ==> 1 <= name.len()
                <= 100)
            &&& (t.request matches Some(RequestView::CreateIssue { title, body, .. })
                ==> title.len() <= TITLE_CHARS && title == issue_title(body))
        }),
{
    let t = step(event, table, store, progress, response);
    match t.request {
        Some(RequestView::CreateThread { name, .. }) => {
            let number = response->0->Issue_number;
            let title = progress->CreatingIssue_title;
            lemma_thread_name_len(number as nat, title);
        },
        Some(RequestView::CreateIssue { body, .. }) => {
            lemma_issue_title(body);
        },
        _ => {},
    }
    match t.progress {
        ProgressView::CreatingIssue { title, .. } => {
            let content = response->0->Message_content;
            lemma_issue_title(content);
        },
        _ => {},
    }
}

/// Whether what a step returned, and the table as it left it, are what
/// `expected` says.
pub open spec fn steps_as(
    next: (Progress, Option<Request>),
    store: Seq<CorrelationRecordView>,
    expected: Transition,
) -> bool {
    &&& next.0@ == expected.progress
    &&& request_view(next.1) == expected.request
    &&& store == expected.store
}

fn finished(outcome: Outcome) -> (next: (Progress, Option<Request>))
    ensures
        next.0@ == ProgressView::Finished(outcome),
        next.1 is None,
{
    (Progress::Finished(outcome), None)
}

fn broke_off(response: &Option<Response>) -> (next: (Progress, Option<Request>))
    ensures
        forall|store: Seq<CorrelationRecordView>|
            steps_as(next, store, #[trigger] break_off(response_view(*response), store)),
{
    match response {
        Some(Response::Failed) => finished(Outcome::Failed(EngineError::Collaborator)),
        _ => finished(Outcome::Failed(EngineError::UnexpectedResponse)),
    }
}

/// Whether one of `roles` may open issues in `repo`.
fn actor_may_open(config: &Config, repo: &str, roles: &Vec<u64>) -> (allowed: bool)
    ensures
        allowed == any_authorized(config@.mapping, repo@, roles@),
{
    let mut k: usize = 0;
    while k < roles.len()
        invariant
            k <= roles.len(),
            forall|a: int| 0 <= a < k ==> !is_authorized(config@.mapping, repo@, #[trigger] roles@[a]),
        decreases roles.len() - k,
    {
        if config.check_permission(repo, roles[k]) {
            return true;
        }
        k = k + 1;
    }
    false
}

fn handle_message(m: &ChatMessage, state: &State) -> (next: (Progress, Option<Request>))
    ensures
        steps_as(next, state@, on_message(m@, state@)),
{
    if m.thread_id.is_some() {
        return finished(Outcome::Ignored(Reason::HasThread));
    }
    if m.is_bot {
        return finished(Outcome::Ignored(Reason::BotAuthor));
    }
    let (issue_number, full) = match state.get_issue(m.channel_id) {
        Some(found) => found,
        None => {
            return finished(Outcome::Ignored(Reason::PlainChat));
        },
    };
    let (owner, repo) = match split_repo_name(full.as_str()) {
        Some(parts) => parts,
        None => {
            return finished(Outcome::Failed(EngineError::InvalidRepo));
        },
    };
    let guild_id = match m.guild_id {
        Some(id) => id,
        None => {
            return finished(Outcome::Failed(EngineError::NotInGuild));
        },
    };
    let body = make_tracker_comment_body(
        m.author.as_str(),
        m.content.as_str(),
        guild_id,
        m.channel_id,
        m.message_id,
    );
    (Progress::Commenting, Some(Request::CreateComment { owner, repo, issue_number, body }))
}

fn handle_reaction(r: &ChatReaction) -> (next: (Progress, Option<Request>))
    ensures
        forall|store: Seq<CorrelationRecordView>|
            steps_as(next, store, #[trigger] on_reaction(r@, store)),
{
    if r.is_add && r.emoji.is_trigger() {
        (
            Progress::FetchingMessage,
            Some(Request::FetchMessage { channel_id: r.channel_id, message_id: r.message_id }),
        )
    } else {
        finished(Outcome::Ignored(Reason::NotTrigger))
    }
}

fn handle_fetched(
    r: &ChatReaction,
    config: &Config,
    state: &State,
    content: String,
    thread_id: Option<u64>,
) -> (next: (Progress, Option<Request>))
    ensures
        steps_as(next, state@, on_fetched(r@, config@.mapping, state@, content@, thread_id)),
{
    if let Some(thread) = thread_id {
        return match state.get_issue(thread) {
            Some(_) => finished(Outcome::Ignored(Reason::AlreadyTracked)),
            None => finished(Outcome::Ignored(Reason::ThreadExists)),
        };
    }
    let full = match config.get_github_repo((r.channel_id, r.guild_id)) {
        Some(full) => full,
        None => {
            return finished(Outcome::Ignored(Reason::UntrackedPlace));
        },
    };
    let (owner, repo) = match split_repo_name(full.as_str()) {
        Some(parts) => parts,
        None => {
            return finished(Outcome::Ignored(Reason::UntrackedPlace));
        },
    };
    let roles = match &r.actor_roles {
        Some(roles) => roles,
        None => {
            return finished(Outcome::Failed(EngineError::NotInGuild));
        },
    };
    if !actor_may_open(config, full.as_str(), roles) {
        return (
            Progress::RemovingReaction,
            Some(
                Request::DeleteReaction {
                    channel_id: r.channel_id,
                    message_id: r.message_id,
                    emoji: r.emoji.duplicate(),
                    user_id: r.user_id,
                },
            ),
        );
    }
    let title = make_issue_title(content.as_str());
    let label = "discord".to_owned();
    (
        Progress::CreatingIssue { owner: owner.clone(), repo: repo.clone(), title: title.clone() },
        Some(Request::CreateIssue { owner, repo, title, body: content, label }),
    )
}

fn handle_announced(
    owner: String,
    repo: String,
    issue_number: u64,
    thread_id: u64,
    state: &mut State,
) -> (next: (Progress, Option<Request>))
    ensures
        steps_as(
            next,
            final(state)@,
            on_announced(owner@, repo@, issue_number, thread_id, old(state)@),
        ),
{
    let full = join_repo_name(owner.as_str(), repo.as_str());
    match state.add((thread_id, issue_number, full)) {
        Ok(_) => finished(Outcome::Bound { thread_id, issue_number }),
        Err(conflict) => finished(Outcome::AlreadyHandled(conflict)),
    }
}

fn handle_reaction_step(
    r: &ChatReaction,
    config: &Config,
    state: &mut State,
    progress: Progress,
    response: Option<Response>,
) -> (next: (Progress, Option<Request>))
    ensures
        steps_as(
            next,
            final(state)@,
            reaction_step(r@, config@.mapping, old(state)@, progress@, response_view(response)),
        ),
{
    match progress {
        Progress::FetchingMessage => match response {
            Some(Response::Message { content, thread_id }) => handle_fetched(
                r,
                config,
                state,
                content,
                thread_id,
            ),
            other => broke_off(&other),
        },
        Progress::RemovingReaction => match response {
            Some(Response::Done) => finished(Outcome::Rejected),
            other => broke_off(&other),
        },
        Progress::CreatingIssue { owner, repo, title } => match response {
            Some(Response::Issue { number }) => {
                let name = make_thread_name(number, title.as_str());
                (
                    Progress::CreatingThread { owner, repo, issue_number: number },
                    Some(
                        Request::CreateThread {
                            channel_id: r.channel_id,
                            message_id: r.message_id,
                            name,
                        },
                    ),
                )
            },
            other => broke_off(&other),
        },
        Progress::CreatingThread { owner, repo, issue_number } => match response {
            Some(Response::Thread { thread_id }) => {
                let content = make_issue_url(owner.as_str(), repo.as_str(), issue_number);
                (
                    Progress::Announcing { owner, repo, issue_number, thread_id },
                    Some(Request::CreateMessage { channel_id: thread_id, content }),
                )
            },
            other => broke_off(&other),
        },
        Progress::Announcing { owner, repo, issue_number, thread_id } => match response {
            Some(Response::Done) => handle_announced(owner, repo, issue_number, thread_id, state),
            other => broke_off(&other),
        },
        _ => finished(Outcome::Failed(EngineError::UnexpectedResponse)),
    }
}

/// Takes the handling of a chat event one step further.
///
/// `progress` is where the handling stands, [`Progress::Start`] at first, and
/// `response` is what came of the work that the step before asked for. The
/// result is where the handling stands now and what is to be done next;
/// nothing more is to be done once it has ended. Only the step that binds a
/// new thread to its issue changes the table.
pub fn handle_discord_event(
    event: &NormalizedEvent,
    config: &Config,
    state: &mut State,
    progress: Progress,
    response: Option<Response>,
) -> (next: (Progress, Option<Request>))
    ensures
        steps_as(
            next,
            final(state)@,
            discord_step(event@, config@.mapping, old(state)@, progress@, response_view(response)),
        ),
{
    match progress {
        Progress::Finished(outcome) => finished(outcome),
        Progress::Start => match event {
            NormalizedEvent::ChatMessage(m) => handle_message(m, state),
            NormalizedEvent::ChatReaction(r) => handle_reaction(r),
            NormalizedEvent::TrackerComment(_) => finished(Outcome::Ignored(Reason::WrongHandler)),
        },
        waiting => match event {
            NormalizedEvent::ChatMessage(_) => match waiting {
                Progress::Commenting => match response {
                    Some(Response::Done) => finished(Outcome::Forwarded),
                    other => broke_off(&other),
                },
                _ => finished(Outcome::Failed(EngineError::UnexpectedResponse)),
            },
            NormalizedEvent::ChatReaction(r) => handle_reaction_step(
                r,
                config,
                state,
                waiting,
                response,
            ),
            NormalizedEvent::TrackerComment(_) => finished(Outcome::Ignored(Reason::WrongHandler)),
        },
    }
}

/// Takes the handling of a tracker comment one step further: first the
/// message that mirrors it is asked for, then the handling ends.
pub fn handle_github_event(
    comment: &TrackerComment,
    progress: Progress,
    response: Option<Response>,
) -> (next: (Progress, Option<Request>))
    ensures
        next.0@ == github_step(comment@, progress@, response_view(response)).0,
        request_view(next.1) == github_step(comment@, progress@, response_view(response)).1,
{
    match progress {
        Progress::Finished(outcome) => finished(outcome),
        Progress::Start => {
            let content = make_chat_notice(
                comment.author.as_str(),
                comment.body.as_str(),
                comment.url.as_str(),
            );
            (
                Progress::Posting,
                Some(Request::CreateMessage { channel_id: comment.thread_id, content }),
            )
        },
        Progress::Posting => match response {
            Some(Response::Done) => finished(Outcome::Forwarded),
            Some(Response::Failed) => finished(Outcome::Failed(EngineError::Collaborator)),
            _ => finished(Outcome::Failed(EngineError::UnexpectedResponse)),
        },
        _ => finished(Outcome::Failed(EngineError::UnexpectedResponse)),
    }
}

/// Takes the handling of an event of the merged stream one step further.
pub fn handle_event(
    event: &NormalizedEvent,
    config: &Config,
    state: &mut State,
    progress: Progress,
    response: Option<Response>,
) -> (next: (Progress, Option<Request>))
    ensures
        steps_as(
            next,
            final(state)@,
            step(event@, config@.mapping, old(state)@, progress@, response_view(response)),
        ),
{
    match event {
        NormalizedEvent::TrackerComment(comment) => handle_github_event(comment, progress, response),
        _ => handle_discord_event(event, config, state, progress, response),
    }
}

} // verus!
