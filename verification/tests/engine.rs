use issue_bridge::config::{Config, RepoBinding, RoutingTarget};
use issue_bridge::engine::{
    handle_discord_event, handle_event, handle_github_event, EngineError, Outcome, Progress,
    Reason, Request, Response,
};
use issue_bridge::event::{ChatMessage, ChatReaction, Emoji, NormalizedEvent, TrackerComment};
use issue_bridge::state::{Conflict, State};
use issue_bridge::webserver::{
    webhook, IssueCommentWebhook, WebhookComment, WebhookIssue, WebhookRepository, WebhookUser,
};

const CHANNEL: u64 = 10;
const GUILD: u64 = 100;
const MESSAGE: u64 = 7000;
const ACTOR: u64 = 42;
const TESTER: u64 = 1;
const GUEST: u64 = 9;

fn config() -> Config {
    Config::new(
        "chat-token".to_string(),
        "sqlite://bridge.db".to_string(),
        4711,
        "key.pem".to_string(),
        vec![
            RepoBinding {
                scope: RoutingTarget::Channel(CHANNEL),
                repo: "org/app".to_string(),
                allowed_role_ids: vec![TESTER, 2],
            },
            RepoBinding {
                scope: RoutingTarget::Guild(GUILD),
                repo: "org/site".to_string(),
                allowed_role_ids: vec![3],
            },
            RepoBinding {
                scope: RoutingTarget::Channel(66),
                repo: "no-slash".to_string(),
                allowed_role_ids: vec![TESTER],
            },
        ],
    )
    .unwrap()
}

fn bug() -> Emoji {
    Emoji::Unicode { name: "\u{1F41B}".to_string() }
}

fn reaction(roles: Option<Vec<u64>>) -> NormalizedEvent {
    NormalizedEvent::ChatReaction(ChatReaction {
        channel_id: CHANNEL,
        message_id: MESSAGE,
        guild_id: Some(GUILD),
        user_id: ACTOR,
        emoji: bug(),
        actor_roles: roles,
        is_add: true,
    })
}

fn message(channel_id: u64) -> ChatMessage {
    ChatMessage {
        channel_id,
        message_id: 7100,
        guild_id: Some(GUILD),
        thread_id: None,
        author: "alice".to_string(),
        content: "It still fails".to_string(),
        is_bot: false,
    }
}

fn fetched(content: &str, thread_id: Option<u64>) -> Option<Response> {
    Some(Response::Message { content: content.to_string(), thread_id })
}

fn finished(outcome: Outcome) -> (Progress, Option<Request>) {
    (Progress::Finished(outcome), None)
}

/// Runs the handling of `event` to its end, answering each request with the
/// next of `responses`; gives back the requests in order and the outcome.
fn run(
    event: &NormalizedEvent,
    config: &Config,
    state: &mut State,
    responses: Vec<Response>,
) -> (Vec<Request>, Outcome) {
    let mut asked = Vec::new();
    let mut answers = responses.into_iter();
    let mut progress = Progress::Start;
    let mut response = None;
    loop {
        let (next, request) = handle_event(event, config, state, progress, response);
        match request {
            Some(request) => {
                asked.push(request);
                response = Some(answers.next().expect("a response for every request"));
                progress = next;
            }
            None => match next {
                Progress::Finished(outcome) => return (asked, outcome),
                other => panic!("nothing asked in {:?}", other),
            },
        }
    }
}

fn open_issue_responses() -> Vec<Response> {
    vec![
        Response::Message { content: "Button X is broken".to_string(), thread_id: None },
        Response::Issue { number: 17 },
        Response::Thread { thread_id: 500 },
        Response::Done,
    ]
}

#[test]
fn authorized_reaction_opens_issue_and_thread() {
    let config = config();
    let mut state = State::new();
    let (asked, outcome) = run(&reaction(Some(vec![TESTER])), &config, &mut state, open_issue_responses());
    assert_eq!(
        asked,
        vec![
            Request::FetchMessage { channel_id: CHANNEL, message_id: MESSAGE },
            Request::CreateIssue {
                owner: "org".to_string(),
                repo: "app".to_string(),
                title: "Button X is broken".to_string(),
                body: "Button X is broken".to_string(),
                label: "discord".to_string(),
            },
            Request::CreateThread {
                channel_id: CHANNEL,
                message_id: MESSAGE,
                name: "Github issue 17 - Button X is broken".to_string(),
            },
            Request::CreateMessage {
                channel_id: 500,
                content: "https://github.com/org/app/issues/17".to_string(),
            },
        ]
    );
    assert_eq!(outcome, Outcome::Bound { thread_id: 500, issue_number: 17 });
    assert_eq!(state.get_issue(500), Some((17, "org/app".to_string())));
    assert_eq!(state.get_thread(17, "org/app"), Some(500));
    assert_eq!(state.len(), 1);
}

#[test]
fn long_message_gets_a_cut_title_and_a_whole_body() {
    let config = config();
    let mut state = State::new();
    let content = "The save button in the settings dialog does nothing at all";
    let mut responses = open_issue_responses();
    responses[0] = Response::Message { content: content.to_string(), thread_id: None };
    let (asked, _) = run(&reaction(Some(vec![TESTER])), &config, &mut state, responses);
    assert_eq!(
        asked[1],
        Request::CreateIssue {
            owner: "org".to_string(),
            repo: "app".to_string(),
            title: "The save button in the setting".to_string(),
            body: content.to_string(),
            label: "discord".to_string(),
        }
    );
    assert_eq!(
        asked[2],
        Request::CreateThread {
            channel_id: CHANNEL,
            message_id: MESSAGE,
            name: "Github issue 17 - The save button in the setting".to_string(),
        }
    );
}

#[test]
fn one_allowed_role_among_many_is_enough() {
    let config = config();
    let mut state = State::new();
    let (asked, outcome) =
        run(&reaction(Some(vec![GUEST, 77, 2])), &config, &mut state, open_issue_responses());
    assert_eq!(asked.len(), 4);
    assert_eq!(outcome, Outcome::Bound { thread_id: 500, issue_number: 17 });
}

#[test]
fn second_reaction_on_threaded_message_does_nothing() {
    let config = config();
    let mut state = State::new();
    run(&reaction(Some(vec![TESTER])), &config, &mut state, open_issue_responses());
    let again = vec![Response::Message { content: "Button X is broken".to_string(), thread_id: Some(500) }];
    let (asked, outcome) = run(&reaction(Some(vec![TESTER])), &config, &mut state, again);
    assert_eq!(asked, vec![Request::FetchMessage { channel_id: CHANNEL, message_id: MESSAGE }]);
    assert_eq!(outcome, Outcome::Ignored(Reason::AlreadyTracked));
    assert_eq!(state.len(), 1);
    assert_eq!(state.get_issue(500), Some((17, "org/app".to_string())));
}

#[test]
fn reaction_on_message_with_an_unbound_thread_does_nothing() {
    let config = config();
    let mut state = State::new();
    let responses = vec![Response::Message { content: "hello".to_string(), thread_id: Some(900) }];
    let (asked, outcome) = run(&reaction(Some(vec![TESTER])), &config, &mut state, responses);
    assert_eq!(asked.len(), 1);
    assert_eq!(outcome, Outcome::Ignored(Reason::ThreadExists));
    assert_eq!(state.len(), 0);
}

#[test]
fn unauthorized_reaction_is_taken_off_once() {
    let config = config();
    let mut state = State::new();
    let responses = vec![
        Response::Message { content: "Button X is broken".to_string(), thread_id: None },
        Response::Done,
    ];
    let (asked, outcome) = run(&reaction(Some(vec![GUEST, 3])), &config, &mut state, responses);
    assert_eq!(
        asked,
        vec![
            Request::FetchMessage { channel_id: CHANNEL, message_id: MESSAGE },
            Request::DeleteReaction {
                channel_id: CHANNEL,
                message_id: MESSAGE,
                emoji: bug(),
                user_id: ACTOR,
            },
        ]
    );
    assert_eq!(outcome, Outcome::Rejected);
    assert_eq!(state.len(), 0);
}

#[test]
fn actor_without_any_role_is_rejected() {
    let config = config();
    let mut state = State::new();
    let responses = vec![Response::Message { content: "x".to_string(), thread_id: None }, Response::Done];
    let (asked, outcome) = run(&reaction(Some(Vec::new())), &config, &mut state, responses);
    assert_eq!(asked.len(), 2);
    assert!(matches!(asked[1], Request::DeleteReaction { .. }));
    assert_eq!(outcome, Outcome::Rejected);
}

#[test]
fn role_of_the_guild_repository_does_not_open_the_channel_repository() {
    let config = config();
    let mut state = State::new();
    let responses = vec![Response::Message { content: "x".to_string(), thread_id: None }, Response::Done];
    let (asked, outcome) = run(&reaction(Some(vec![3])), &config, &mut state, responses);
    assert!(matches!(asked[1], Request::DeleteReaction { .. }));
    assert_eq!(outcome, Outcome::Rejected);
}

#[test]
fn reaction_in_guild_channel_reports_to_the_guild_repository() {
    let config = config();
    let mut state = State::new();
    let event = NormalizedEvent::ChatReaction(ChatReaction {
        channel_id: 55,
        message_id: MESSAGE,
        guild_id: Some(GUILD),
        user_id: ACTOR,
        emoji: bug(),
        actor_roles: Some(vec![3]),
        is_add: true,
    });
    let (asked, outcome) = run(&event, &config, &mut state, open_issue_responses());
    assert!(matches!(&asked[1], Request::CreateIssue { owner, repo, .. } if owner == "org" && repo == "site"));
    assert_eq!(outcome, Outcome::Bound { thread_id: 500, issue_number: 17 });
    assert_eq!(state.get_issue(500), Some((17, "org/site".to_string())));
}

#[test]
fn reaction_in_untracked_place_does_nothing() {
    let config = config();
    let mut state = State::new();
    let event = NormalizedEvent::ChatReaction(ChatReaction {
        channel_id: 55,
        message_id: MESSAGE,
        guild_id: Some(101),
        user_id: ACTOR,
        emoji: bug(),
        actor_roles: Some(vec![TESTER]),
        is_add: true,
    });
    let responses = vec![Response::Message { content: "x".to_string(), thread_id: None }];
    let (asked, outcome) = run(&event, &config, &mut state, responses);
    assert_eq!(asked.len(), 1);
    assert_eq!(outcome, Outcome::Ignored(Reason::UntrackedPlace));
}

#[test]
fn repository_name_without_slash_counts_as_untracked() {
    let config = config();
    let mut state = State::new();
    let event = NormalizedEvent::ChatReaction(ChatReaction {
        channel_id: 66,
        message_id: MESSAGE,
        guild_id: None,
        user_id: ACTOR,
        emoji: bug(),
        actor_roles: Some(vec![TESTER]),
        is_add: true,
    });
    let responses = vec![Response::Message { content: "x".to_string(), thread_id: None }];
    let (asked, outcome) = run(&event, &config, &mut state, responses);
    assert_eq!(asked.len(), 1);
    assert_eq!(outcome, Outcome::Ignored(Reason::UntrackedPlace));
}

#[test]
fn reaction_without_member_breaks_off() {
    let config = config();
    let mut state = State::new();
    let responses = vec![Response::Message { content: "x".to_string(), thread_id: None }];
    let (asked, outcome) = run(&reaction(None), &config, &mut state, responses);
    assert_eq!(asked.len(), 1);
    assert_eq!(outcome, Outcome::Failed(EngineError::NotInGuild));
}

#[test]
fn other_symbol_is_ignored() {
    let config = config();
    let mut state = State::new();
    for emoji in [
        Emoji::Unicode { name: "\u{1F44D}".to_string() },
        Emoji::Unicode { name: String::new() },
        Emoji::Custom { id: 5, name: Some("\u{1F41B}".to_string()), animated: false },
        Emoji::Custom { id: 5, name: None, animated: true },
    ] {
        let event = NormalizedEvent::ChatReaction(ChatReaction {
            channel_id: CHANNEL,
            message_id: MESSAGE,
            guild_id: Some(GUILD),
            user_id: ACTOR,
            emoji,
            actor_roles: Some(vec![TESTER]),
            is_add: true,
        });
        let (asked, outcome) = run(&event, &config, &mut state, Vec::new());
        assert!(asked.is_empty());
        assert_eq!(outcome, Outcome::Ignored(Reason::NotTrigger));
    }
}

#[test]
fn reaction_taken_off_is_ignored() {
    let config = config();
    let mut state = State::new();
    let event = NormalizedEvent::ChatReaction(ChatReaction {
        channel_id: CHANNEL,
        message_id: MESSAGE,
        guild_id: Some(GUILD),
        user_id: ACTOR,
        emoji: bug(),
        actor_roles: Some(vec![TESTER]),
        is_add: false,
    });
    let (asked, outcome) = run(&event, &config, &mut state, Vec::new());
    assert!(asked.is_empty());
    assert_eq!(outcome, Outcome::Ignored(Reason::NotTrigger));
}

#[test]
fn trigger_is_recognized() {
    assert!(bug().is_trigger());
    assert!(!Emoji::Unicode { name: "bug".to_string() }.is_trigger());
    assert!(!Emoji::Custom { id: 1, name: Some("\u{1F41B}".to_string()), animated: false }.is_trigger());
}

#[test]
fn duplicate_of_a_symbol_is_the_same_symbol() {
    for emoji in [
        bug(),
        Emoji::Custom { id: 5, name: Some("blob".to_string()), animated: true },
        Emoji::Custom { id: 6, name: None, animated: false },
    ] {
        assert_eq!(emoji.duplicate(), emoji);
    }
}

/// Takes two handlings of `event` forward in turn, one step each, until both
/// have ended; gives back how often each asked for work and how each ended.
fn run_in_turn(
    event: &NormalizedEvent,
    config: &Config,
    state: &mut State,
    answers: [Vec<Response>; 2],
) -> ([usize; 2], [Outcome; 2]) {
    let mut progress = [Progress::Start, Progress::Start];
    let mut response: [Option<Response>; 2] = [None, None];
    let mut asked = [0usize, 0usize];
    loop {
        for h in 0..2 {
            let (next, request) =
                handle_discord_event(event, config, state, progress[h].clone(), response[h].take());
            if request.is_some() {
                response[h] = Some(answers[h][asked[h]].clone());
                asked[h] += 1;
            }
            progress[h] = next;
        }
        if let (Progress::Finished(first), Progress::Finished(second)) = (&progress[0], &progress[1]) {
            return (asked, [*first, *second]);
        }
    }
}

#[test]
fn two_handlings_at_once_bind_one_thread_only() {
    let config = config();
    let mut state = State::new();
    let event = reaction(Some(vec![TESTER]));
    let second = vec![
        Response::Message { content: "Button X is broken".to_string(), thread_id: None },
        Response::Issue { number: 18 },
        Response::Thread { thread_id: 500 },
        Response::Done,
    ];
    let (asked, ends) = run_in_turn(&event, &config, &mut state, [open_issue_responses(), second]);
    assert_eq!(asked, [4, 4]);
    assert_eq!(
        ends,
        [
            Outcome::Bound { thread_id: 500, issue_number: 17 },
            Outcome::AlreadyHandled(Conflict::ThreadBound)
        ]
    );
    assert_eq!(state.len(), 1);
    assert_eq!(state.get_issue(500), Some((17, "org/app".to_string())));
    assert_eq!(state.get_thread(18, "org/app"), None);
}

#[test]
fn second_handling_at_once_ends_where_the_platform_refuses_a_second_thread() {
    let config = config();
    let mut state = State::new();
    let event = reaction(Some(vec![TESTER]));
    let second = vec![
        Response::Message { content: "Button X is broken".to_string(), thread_id: None },
        Response::Issue { number: 18 },
        Response::Failed,
    ];
    let (asked, ends) = run_in_turn(&event, &config, &mut state, [open_issue_responses(), second]);
    assert_eq!(asked, [4, 3]);
    assert_eq!(
        ends,
        [
            Outcome::Bound { thread_id: 500, issue_number: 17 },
            Outcome::Failed(EngineError::Collaborator)
        ]
    );
    assert_eq!(state.len(), 1);
    assert_eq!(state.get_issue(500), Some((17, "org/app".to_string())));
}

#[test]
fn binding_refused_for_a_bound_issue_counts_as_handled() {
    let config = config();
    let mut state = State::new();
    state.add((400, 17, "org/app".to_string())).unwrap();
    let (asked, outcome) = run(&reaction(Some(vec![TESTER])), &config, &mut state, open_issue_responses());
    assert_eq!(asked.len(), 4);
    assert_eq!(outcome, Outcome::AlreadyHandled(Conflict::IssueBound));
    assert_eq!(state.len(), 1);
    assert_eq!(state.get_issue(500), None);
}

#[test]
fn failure_breaks_the_handling_off_where_it_stands() {
    let config = config();
    for good in 0..4 {
        let mut state = State::new();
        let mut responses: Vec<Response> = open_issue_responses().into_iter().take(good).collect();
        responses.push(Response::Failed);
        let (asked, outcome) = run(&reaction(Some(vec![TESTER])), &config, &mut state, responses);
        assert_eq!(asked.len(), good + 1);
        assert_eq!(outcome, Outcome::Failed(EngineError::Collaborator));
        assert_eq!(state.len(), 0);
    }
}

#[test]
fn failed_removal_of_the_reaction_is_reported() {
    let config = config();
    let mut state = State::new();
    let responses = vec![Response::Message { content: "x".to_string(), thread_id: None }, Response::Failed];
    let (asked, outcome) = run(&reaction(Some(vec![GUEST])), &config, &mut state, responses);
    assert_eq!(asked.len(), 2);
    assert_eq!(outcome, Outcome::Failed(EngineError::Collaborator));
}

#[test]
fn response_of_the_wrong_kind_breaks_the_handling_off() {
    let config = config();
    let mut state = State::new();
    let event = reaction(Some(vec![TESTER]));
    assert_eq!(
        handle_discord_event(&event, &config, &mut state, Progress::FetchingMessage, Some(Response::Done)),
        finished(Outcome::Failed(EngineError::UnexpectedResponse))
    );
    assert_eq!(
        handle_discord_event(&event, &config, &mut state, Progress::FetchingMessage, None),
        finished(Outcome::Failed(EngineError::UnexpectedResponse))
    );
    assert_eq!(
        handle_discord_event(
            &event,
            &config,
            &mut state,
            Progress::CreatingIssue {
                owner: "org".to_string(),
                repo: "app".to_string(),
                title: "t".to_string()
            },
            Some(Response::Thread { thread_id: 1 })
        ),
        finished(Outcome::Failed(EngineError::UnexpectedResponse))
    );
    assert_eq!(
        handle_discord_event(&event, &config, &mut state, Progress::Commenting, Some(Response::Done)),
        finished(Outcome::Failed(EngineError::UnexpectedResponse))
    );
    assert_eq!(
        handle_discord_event(&event, &config, &mut state, Progress::Posting, Some(Response::Done)),
        finished(Outcome::Failed(EngineError::UnexpectedResponse))
    );
    assert_eq!(state.len(), 0);
}

#[test]
fn finished_handling_stays_finished() {
    let config = config();
    let mut state = State::new();
    let event = reaction(Some(vec![TESTER]));
    for outcome in [
        Outcome::Rejected,
        Outcome::Forwarded,
        Outcome::Bound { thread_id: 1, issue_number: 2 },
        Outcome::Failed(EngineError::Collaborator),
    ] {
        assert_eq!(
            handle_event(&event, &config, &mut state, Progress::Finished(outcome), Some(Response::Done)),
            finished(outcome)
        );
    }
    assert_eq!(state.len(), 0);
}

#[test]
fn message_in_bound_thread_becomes_a_comment() {
    let config = config();
    let mut state = State::new();
    state.add((500, 17, "org/app".to_string())).unwrap();
    let event = NormalizedEvent::ChatMessage(message(500));
    let (asked, outcome) = run(&event, &config, &mut state, vec![Response::Done]);
    assert_eq!(
        asked,
        vec![Request::CreateComment {
            owner: "org".to_string(),
            repo: "app".to_string(),
            issue_number: 17,
            body: "New comment from @alice\n\nIt still fails\n\n[Link](https://discord.com/channels/100/500/7100)"
                .to_string(),
        }]
    );
    assert_eq!(outcome, Outcome::Forwarded);
    assert_eq!(state.len(), 1);
}

#[test]
fn message_in_plain_channel_is_left_alone() {
    let config = config();
    let mut state = State::new();
    state.add((500, 17, "org/app".to_string())).unwrap();
    let event = NormalizedEvent::ChatMessage(message(CHANNEL));
    let (asked, outcome) = run(&event, &config, &mut state, Vec::new());
    assert!(asked.is_empty());
    assert_eq!(outcome, Outcome::Ignored(Reason::PlainChat));
}

#[test]
fn message_of_a_bot_is_left_alone() {
    let config = config();
    let mut state = State::new();
    state.add((500, 17, "org/app".to_string())).unwrap();
    let mut m = message(500);
    m.is_bot = true;
    let (asked, outcome) = run(&NormalizedEvent::ChatMessage(m), &config, &mut state, Vec::new());
    assert!(asked.is_empty());
    assert_eq!(outcome, Outcome::Ignored(Reason::BotAuthor));
}

#[test]
fn message_with_a_thread_on_it_is_left_alone() {
    let config = config();
    let mut state = State::new();
    state.add((500, 17, "org/app".to_string())).unwrap();
    let mut m = message(500);
    m.thread_id = Some(600);
    m.is_bot = true;
    let (asked, outcome) = run(&NormalizedEvent::ChatMessage(m), &config, &mut state, Vec::new());
    assert!(asked.is_empty());
    assert_eq!(outcome, Outcome::Ignored(Reason::HasThread));
}

#[test]
fn message_for_a_malformed_repository_breaks_off() {
    let config = config();
    let mut state = State::new();
    state.add((500, 17, "no-slash".to_string())).unwrap();
    let (asked, outcome) = run(&NormalizedEvent::ChatMessage(message(500)), &config, &mut state, Vec::new());
    assert!(asked.is_empty());
    assert_eq!(outcome, Outcome::Failed(EngineError::InvalidRepo));
}

#[test]
fn private_message_in_bound_thread_breaks_off() {
    let config = config();
    let mut state = State::new();
    state.add((500, 17, "org/app".to_string())).unwrap();
    let mut m = message(500);
    m.guild_id = None;
    let (asked, outcome) = run(&NormalizedEvent::ChatMessage(m), &config, &mut state, Vec::new());
    assert!(asked.is_empty());
    assert_eq!(outcome, Outcome::Failed(EngineError::NotInGuild));
}

#[test]
fn failed_comment_is_reported() {
    let config = config();
    let mut state = State::new();
    state.add((500, 17, "org/app".to_string())).unwrap();
    let event = NormalizedEvent::ChatMessage(message(500));
    let (asked, outcome) = run(&event, &config, &mut state, vec![Response::Failed]);
    assert_eq!(asked.len(), 1);
    assert_eq!(outcome, Outcome::Failed(EngineError::Collaborator));
}

fn comment() -> TrackerComment {
    TrackerComment {
        thread_id: 500,
        repo: "org/app".to_string(),
        author: "carol".to_string(),
        body: "Looks fixed to me".to_string(),
        url: "https://github.com/org/app/issues/17#issuecomment-1".to_string(),
    }
}

#[test]
fn tracker_comment_is_posted_into_its_thread() {
    let config = config();
    let mut state = State::new();
    let event = NormalizedEvent::TrackerComment(comment());
    let (asked, outcome) = run(&event, &config, &mut state, vec![Response::Done]);
    assert_eq!(
        asked,
        vec![Request::CreateMessage {
            channel_id: 500,
            content: "New comment on Github from @carol\n\nLooks fixed to me\n\nhttps://github.com/org/app/issues/17#issuecomment-1"
                .to_string(),
        }]
    );
    assert_eq!(outcome, Outcome::Forwarded);
    assert_eq!(state.len(), 0);
}

#[test]
fn tracker_comment_handler_steps() {
    let (progress, request) = handle_github_event(&comment(), Progress::Start, None);
    assert_eq!(progress, Progress::Posting);
    assert!(matches!(request, Some(Request::CreateMessage { channel_id: 500, .. })));
    assert_eq!(
        handle_github_event(&comment(), Progress::Posting, Some(Response::Done)),
        finished(Outcome::Forwarded)
    );
    assert_eq!(
        handle_github_event(&comment(), Progress::Posting, Some(Response::Failed)),
        finished(Outcome::Failed(EngineError::Collaborator))
    );
    assert_eq!(
        handle_github_event(&comment(), Progress::Posting, Some(Response::Issue { number: 1 })),
        finished(Outcome::Failed(EngineError::UnexpectedResponse))
    );
    assert_eq!(
        handle_github_event(&comment(), Progress::Commenting, Some(Response::Done)),
        finished(Outcome::Failed(EngineError::UnexpectedResponse))
    );
}

#[test]
fn tracker_comment_is_not_for_the_chat_handler() {
    let config = config();
    let mut state = State::new();
    let event = NormalizedEvent::TrackerComment(comment());
    assert_eq!(
        handle_discord_event(&event, &config, &mut state, Progress::Start, None),
        finished(Outcome::Ignored(Reason::WrongHandler))
    );
    assert_eq!(
        handle_discord_event(&event, &config, &mut state, Progress::Posting, Some(Response::Done)),
        finished(Outcome::Ignored(Reason::WrongHandler))
    );
}

#[test]
fn comment_travels_from_webhook_to_thread() {
    let config = config();
    let mut state = State::new();
    run(&reaction(Some(vec![TESTER])), &config, &mut state, open_issue_responses());
    let payload = IssueCommentWebhook {
        action: "created".to_string(),
        comment: WebhookComment {
            user: WebhookUser { login: "carol".to_string(), account_type: "User".to_string() },
            body: Some("Looks fixed to me".to_string()),
            html_url: "https://github.com/org/app/issues/17#issuecomment-1".to_string(),
        },
        issue: WebhookIssue { number: 17 },
        repository: WebhookRepository { full_name: Some("org/app".to_string()) },
        installation: None,
    };
    let response = webhook(&state, "issue-bridge[bot]", payload);
    assert_eq!(response.status, 200);
    let event = NormalizedEvent::TrackerComment(response.event.unwrap());
    let (asked, outcome) = run(&event, &config, &mut state, vec![Response::Done]);
    assert!(matches!(&asked[0], Request::CreateMessage { channel_id: 500, .. }));
    assert_eq!(outcome, Outcome::Forwarded);
}

#[test]
fn answers_are_the_same_with_the_index_built() {
    let mut config = config();
    config.initialize();
    let mut state = State::new();
    let (asked, outcome) = run(&reaction(Some(vec![TESTER])), &config, &mut state, open_issue_responses());
    assert_eq!(asked.len(), 4);
    assert_eq!(outcome, Outcome::Bound { thread_id: 500, issue_number: 17 });
    let responses = vec![Response::Message { content: "x".to_string(), thread_id: None }, Response::Done];
    let (asked, outcome) = run(&reaction(Some(vec![GUEST])), &config, &mut state, responses);
    assert_eq!(asked.len(), 2);
    assert_eq!(outcome, Outcome::Rejected);
}
