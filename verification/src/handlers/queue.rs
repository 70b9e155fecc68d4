//! The course of one client's connection to the queue.
//!
//! A connection is a state machine. What comes in is an [`Input`], what is to be done outside is a
//! list of [`Action`]s, and [`Connection::step`] leads from the one to the other.
use crate::handlers::message;
use crate::handlers::message::{parse_message, parse_number};
use crate::types::{EventView, MatchmakingEvent, PlayerId, PoolType};
use vstd::prelude::*;

verus! {

/// How far a connection has got.
#[derive(Debug, Clone)]
pub enum Connection {
    /// The client has not said anything yet.
    AwaitingJoin,
    /// The client asked to join; whether they are who they say is being found out.
    Authenticating { player_id: String, pool_name: String },
    /// The client waits in a queue or for a match to start.
    Queued { pool_type: PoolType, player_id: String },
    /// The connection is over.
    Closed,
}

/// The view of a [`Connection`].
pub enum ConnectionView {
    AwaitingJoin,
    Authenticating { player_id: PlayerId, pool_name: Seq<char> },
    Queued { pool_type: PoolType, player_id: PlayerId },
    Closed,
}

impl View for Connection {
    type V = ConnectionView;

    open spec fn view(&self) -> ConnectionView {
        match self {
            Connection::AwaitingJoin => ConnectionView::AwaitingJoin,
            Connection::Authenticating { player_id, pool_name } => ConnectionView::Authenticating {
                player_id: player_id@,
                pool_name: pool_name@,
            },
            Connection::Queued { pool_type, player_id } => ConnectionView::Queued {
                pool_type: *pool_type,
                player_id: player_id@,
            },
            Connection::Closed => ConnectionView::Closed,
        }
    }
}

/// What can come in.
#[derive(Debug, Clone)]
pub enum Input {
    /// A text from the client.
    Text(String),
    /// Anything else from the client, or a failure to receive.
    NotText,
    /// Nothing more can come in.
    Ended,
    /// The answer to [`Action::Authenticate`].
    Authenticated(bool),
    /// An event for the player, and the JSON of what it carries if it is the announcement or the
    /// start of a match.
    Event(MatchmakingEvent, String),
    /// The text of an [`Action::SendEvent`] could not be sent.
    SendFailed,
}

/// The view of an [`Input`].
pub enum InputView {
    Text(Seq<char>),
    NotText,
    Ended,
    Authenticated(bool),
    Event(EventView, Seq<char>),
    SendFailed,
}

impl View for Input {
    type V = InputView;

    open spec fn view(&self) -> InputView {
        match self {
            Input::Text(text) => InputView::Text(text@),
            Input::NotText => InputView::NotText,
            Input::Ended => InputView::Ended,
            Input::Authenticated(answer) => InputView::Authenticated(*answer),
            Input::Event(event, json) => InputView::Event(event@, json@),
            Input::SendFailed => InputView::SendFailed,
        }
    }
}

/// What is to be done outside.
#[derive(Debug, Clone)]
pub enum Action {
    /// Find out whether this session ticket is good, and feed back [`Input::Authenticated`].
    Authenticate(String),
    /// Put the player into the queue of the pool, with a channel for their events.
    JoinQueue(PoolType, String),
    /// Have the matchmaker take the player out of the queue of the pool.
    RemovePlayer(PoolType, String),
    /// Have the matchmaker mark the player of a match as ready.
    SetPlayerReady(u32, String),
    /// Send this text to the client; it does not matter if that fails.
    SendText(String),
    /// Send this text to the client, and feed back [`Input::SendFailed`] if that fails.
    SendEvent(String),
    /// Close the connection.
    CloseSocket,
}

/// The view of an [`Action`].
pub enum ActionView {
    Authenticate(Seq<char>),
    JoinQueue(PoolType, PlayerId),
    RemovePlayer(PoolType, PlayerId),
    SetPlayerReady(u32, PlayerId),
    SendText(Seq<char>),
    SendEvent(Seq<char>),
    CloseSocket,
}

impl View for Action {
    type V = ActionView;

    open spec fn view(&self) -> ActionView {
        match self {
            Action::Authenticate(ticket) => ActionView::Authenticate(ticket@),
            Action::JoinQueue(pool, player) => ActionView::JoinQueue(*pool, player@),
            Action::RemovePlayer(pool, player) => ActionView::RemovePlayer(*pool, player@),
            Action::SetPlayerReady(session, player) => ActionView::SetPlayerReady(
                *session,
                player@,
            ),
            Action::SendText(text) => ActionView::SendText(text@),
            Action::SendEvent(text) => ActionView::SendEvent(text@),
            Action::CloseSocket => ActionView::CloseSocket,
        }
    }
}

/// The views of a list of actions.
pub open spec fn actions(list: Seq<Action>) -> Seq<ActionView> {
    list.map_values(|action: Action| action@)
}

/// The pool that a client calls by a name.
pub open spec fn pool_named(name: Seq<char>) -> Option<PoolType> {
    if name == "1v1"@ {
        Some(PoolType::NormalOneVsOne)
    } else if name == "2v2"@ {
        Some(PoolType::NormalTwoVsTwo)
    } else {
        None
    }
}

/// The pool that a client calls by a name.
pub fn parse_pool_type(name: &String) -> (pool_type: Option<PoolType>)
    ensures
        pool_type == pool_named(name@),
{
    if *name == "1v1".to_string() {
        Some(PoolType::NormalOneVsOne)
    } else if *name == "2v2".to_string() {
        Some(PoolType::NormalTwoVsTwo)
    } else {
        None
    }
}

/// The text that tells a client of an event; `json` is what the event carries, if it is the
/// announcement or the start of a match.
pub open spec fn event_text(event: EventView, json: Seq<char>) -> Seq<char> {
    match event {
        EventView::MatchFound(_) => "MATCH_FOUND,"@ + json,
        EventView::PlayerReady(player) => "PLAYER_READY,"@ + player,
        EventView::MatchStart(_) => "MATCH_START,"@ + json,
        EventView::MatchNotFound => "MATCH_NOT_FOUND"@,
    }
}

/// The text that tells a client of an event; `json` is what the event carries, if it is the
/// announcement or the start of a match.
pub fn event_message(event: &MatchmakingEvent, json: &String) -> (text: String)
    ensures
        text@ == event_text(event@, json@),
{
    match event {
        MatchmakingEvent::MatchFound(_) => "MATCH_FOUND,".to_string().concat(json.as_str()),
        MatchmakingEvent::PlayerReady(player_id) => "PLAYER_READY,".to_string().concat(
            player_id.as_str(),
        ),
        MatchmakingEvent::MatchStart(_) => "MATCH_START,".to_string().concat(json.as_str()),
        MatchmakingEvent::MatchNotFound => "MATCH_NOT_FOUND".to_string(),
    }
}

impl ConnectionView {
    /// Whether a connection can deal with an input: a player who says that they are ready has to
    /// name the match by its number.
    pub open spec fn accepts(self, input: InputView) -> bool {
        match (self, input) {
            (ConnectionView::Queued { .. }, InputView::Text(text)) => message::first_field(text)
                == "PLAYER_READY"@ ==> message::number_in(
                message::first_field(message::other_fields(text)),
            ) is Some,
            _ => true,
        }
    }

    /// How far the connection is after an input.
    pub open spec fn next(self, input: InputView) -> ConnectionView {
        match (self, input) {
            (ConnectionView::AwaitingJoin, InputView::Text(text)) => if message::first_field(text)
                == "JOIN_QUEUE"@ {
                let request = message::other_fields(text);
                ConnectionView::Authenticating {
                    player_id: message::first_field(request),
                    pool_name: message::first_field(message::other_fields(request)),
                }
            } else {
                ConnectionView::Closed
            },
            (ConnectionView::AwaitingJoin, InputView::NotText) => ConnectionView::Closed,
            (ConnectionView::AwaitingJoin, InputView::Ended) => ConnectionView::Closed,
            (
                ConnectionView::Authenticating { player_id, pool_name },
                InputView::Authenticated(answer),
            ) => match pool_named(pool_name) {
                Some(pool_type) if answer => ConnectionView::Queued { pool_type, player_id },
                _ => ConnectionView::Closed,
            },
            (ConnectionView::Queued { .. }, InputView::Text(text)) => if message::first_field(text)
                == "LEAVE_QUEUE"@ {
                ConnectionView::Closed
            } else {
                self
            },
            (ConnectionView::Queued { .. }, InputView::NotText) => ConnectionView::Closed,
            (ConnectionView::Queued { .. }, InputView::Ended) => ConnectionView::Closed,
            (ConnectionView::Queued { .. }, InputView::SendFailed) => ConnectionView::Closed,
            (
                ConnectionView::Queued { .. },
                InputView::Event(EventView::MatchStart(_), _),
            ) => ConnectionView::Closed,
            _ => self,
        }
    }

    /// What is to be done after an input.
    pub open spec fn response(self, input: InputView) -> Seq<ActionView> {
        match (self, input) {
            (ConnectionView::AwaitingJoin, InputView::Text(text)) => if message::first_field(text)
                == "JOIN_QUEUE"@ {
                seq![
                    ActionView::Authenticate(
                        message::other_fields(message::other_fields(message::other_fields(text))),
                    ),
                ]
            } else {
                seq![]
            },
            (
                ConnectionView::Authenticating { player_id, pool_name },
                InputView::Authenticated(answer),
            ) => if !answer {
                seq![ActionView::SendText("AUTHENTICATION_FAILED"@), ActionView::CloseSocket]
            } else {
                match pool_named(pool_name) {
                    Some(pool_type) => seq![
                        ActionView::JoinQueue(pool_type, player_id),
                        ActionView::SendText("QUEUE_JOINED"@),
                    ],
                    None => seq![],
                }
            },
            (ConnectionView::Queued { pool_type, player_id }, InputView::Text(text)) => {
                let op_code = message::first_field(text);
                if op_code == "LEAVE_QUEUE"@ {
                    seq![
                        ActionView::RemovePlayer(pool_type, player_id),
                        ActionView::RemovePlayer(pool_type, player_id),
                    ]
                } else if op_code == "PLAYER_READY"@ {
                    let session = message::first_field(message::other_fields(text));
                    seq![
                        ActionView::SetPlayerReady(
                            message::number_in(session)->Some_0,
                            player_id,
                        ),
                    ]
                } else {
                    seq![]
                }
            },
            (ConnectionView::Queued { pool_type, player_id }, InputView::Event(event, json)) => {
                let text = seq![ActionView::SendEvent(event_text(event, json))];
                if event is MatchStart {
                    text.push(ActionView::RemovePlayer(pool_type, player_id))
                } else {
                    text
                }
            },
            (ConnectionView::Queued { pool_type, player_id }, InputView::NotText)
            | (ConnectionView::Queued { pool_type, player_id }, InputView::Ended)
            | (ConnectionView::Queued { pool_type, player_id }, InputView::SendFailed) => seq![
                ActionView::RemovePlayer(pool_type, player_id),
            ],
            _ => seq![],
        }
    }
}

impl Connection {
    /// A connection that has just been made.
    pub fn new() -> (connection: Connection)
        ensures
            connection@ == ConnectionView::AwaitingJoin,
    {
        Connection::AwaitingJoin
    }

    /// Whether the connection is over.
    pub fn is_closed(&self) -> (closed: bool)
        ensures
            closed == (self@ is Closed),
    {
        match self {
            Connection::Closed => true,
            _ => false,
        }
    }

    /// Whether the connection can deal with an input: a player who says that they are ready has to
    /// name the match by its number.
    pub fn accepts(&self, input: &Input) -> (accepted: bool)
        ensures
            accepted == self@.accepts(input@),
    {
        match (self, input) {
            (Connection::Queued { .. }, Input::Text(text)) => {
                let (op_code, remaining) = parse_message(text.as_str());
                if op_code == "PLAYER_READY".to_string() {
                    let (session_id, _) = parse_message(remaining.as_str());
                    parse_number(session_id.as_str()).is_some()
                } else {
                    true
                }
            },
            _ => true,
        }
    }

    /// Takes an input in. Returns how far the connection is then and what is to be done, in order.
    pub fn step(self, input: Input) -> (stepped: (Connection, Vec<Action>))
        requires
            self@.accepts(input@),
        ensures
            stepped.0@ == self@.next(input@),
            actions(stepped.1@) == self@.response(input@),
    {
        let ghost before = self@;
        let ghost expected = self@.response(input@);
        let mut list: Vec<Action> = Vec::new();
        let next = match (self, input) {
            (Connection::AwaitingJoin, Input::Text(text)) => {
                let (op_code, remaining) = parse_message(text.as_str());
                if op_code == "JOIN_QUEUE".to_string() {
                    let (player_id, remaining) = parse_message(remaining.as_str());
                    let (pool_name, session_ticket) = parse_message(remaining.as_str());
                    list.push(Action::Authenticate(session_ticket));
                    Connection::Authenticating { player_id, pool_name }
                } else {
                    Connection::Closed
                }
            },
            (Connection::AwaitingJoin, Input::NotText) => Connection::Closed,
            (Connection::AwaitingJoin, Input::Ended) => Connection::Closed,
            (
                Connection::Authenticating { player_id, pool_name },
                Input::Authenticated(is_authenticated),
            ) => {
                if !is_authenticated {
                    list.push(Action::SendText("AUTHENTICATION_FAILED".to_string()));
                    list.push(Action::CloseSocket);
                    Connection::Closed
                } else {
                    match parse_pool_type(&pool_name) {
                        Some(pool_type) => {
                            list.push(Action::JoinQueue(pool_type, player_id.clone()));
                            list.push(Action::SendText("QUEUE_JOINED".to_string()));
                            Connection::Queued { pool_type, player_id }
                        },
                        None => Connection::Closed,
                    }
                }
            },
            (Connection::Queued { pool_type, player_id }, Input::Text(text)) => {
                let (op_code, remaining) = parse_message(text.as_str());
                if op_code == "LEAVE_QUEUE".to_string() {
                    list.push(Action::RemovePlayer(pool_type, player_id.clone()));
                    list.push(Action::RemovePlayer(pool_type, player_id));
                    Connection::Closed
                } else {
                    if op_code == "PLAYER_READY".to_string() {
                        let (session_id, _) = parse_message(remaining.as_str());
                        match parse_number(session_id.as_str()) {
                            Some(session_id) => list.push(
                                Action::SetPlayerReady(session_id, player_id.clone()),
                            ),
                            None => {},
                        }
                    }
                    Connection::Queued { pool_type, player_id }
                }
            },
            (Connection::Queued { pool_type, player_id }, Input::Event(event, json)) => {
                list.push(Action::SendEvent(event_message(&event, &json)));
                match event {
                    MatchmakingEvent::MatchStart(_) => {
                        list.push(Action::RemovePlayer(pool_type, player_id));
                        Connection::Closed
                    },
                    _ => Connection::Queued { pool_type, player_id },
                }
            },
            (Connection::Queued { pool_type, player_id }, Input::NotText)
            | (Connection::Queued { pool_type, player_id }, Input::Ended)
            | (Connection::Queued { pool_type, player_id }, Input::SendFailed) => {
                list.push(Action::RemovePlayer(pool_type, player_id));
                Connection::Closed
            },
            (connection, _) => connection,
        };
        assert(actions(list@) =~= expected);
        (next, list)
    }
}

} // verus!
