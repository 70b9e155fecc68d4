//! The values that the matchmaker takes in and gives out, and their mathematical views.
//!
//! In a view a player id is the sequence of its characters.
use tokio::sync::mpsc;
use vstd::prelude::*;

verus! {

/// The sending half of a channel of `tokio`: an opaque handle, which is stored and handed out but
/// never looked into.
#[verifier::external_type_specification]
#[verifier::external_body]
#[verifier::reject_recursive_types(T)]
pub struct ExSender<T>(mpsc::Sender<T>);

/// A player id, as contracts speak of it.
pub type PlayerId = Seq<char>;

/// The views of a list of player ids.
pub open spec fn ids(players: Seq<String>) -> Seq<PlayerId> {
    players.map_values(|player: String| player@)
}

/// The queues a player can wait in.
#[derive(Debug, Clone, Copy, Hash, PartialEq, Eq, Structural)]
pub enum PoolType {
    NormalOneVsOne,
    NormalTwoVsTwo,
}

/// A request that is queued for the matchmaker.
#[derive(Debug, Clone)]
pub enum MatchmakingCommand {
    RemovePlayer(PoolType, String),
    CreateMatch(PoolType, Vec<String>),
    SetPlayerReady(u32, String),
    RemoveMatch(u32),
}

/// The view of a [`MatchmakingCommand`].
pub enum CommandView {
    RemovePlayer(PoolType, PlayerId),
    CreateMatch(PoolType, Seq<PlayerId>),
    SetPlayerReady(u32, PlayerId),
    RemoveMatch(u32),
}

impl View for MatchmakingCommand {
    type V = CommandView;

    open spec fn view(&self) -> CommandView {
        match self {
            MatchmakingCommand::RemovePlayer(pool, player) => CommandView::RemovePlayer(
                *pool,
                player@,
            ),
            MatchmakingCommand::CreateMatch(pool, players) => CommandView::CreateMatch(
                *pool,
                ids(players@),
            ),
            MatchmakingCommand::SetPlayerReady(session, player) => CommandView::SetPlayerReady(
                *session,
                player@,
            ),
            MatchmakingCommand::RemoveMatch(session) => CommandView::RemoveMatch(*session),
        }
    }
}

/// The views of a list of commands.
pub open spec fn commands(list: Seq<MatchmakingCommand>) -> Seq<CommandView> {
    list.map_values(|command: MatchmakingCommand| command@)
}

/// A player as the announcement of a match lists them.
#[derive(Debug, Clone)]
pub struct MatchFoundPlayerInfo {
    pub player_id: String,
    pub team: u8,
}

/// The view of a [`MatchFoundPlayerInfo`].
pub struct MatchFoundPlayerView {
    pub player_id: PlayerId,
    pub team: u8,
}

impl View for MatchFoundPlayerInfo {
    type V = MatchFoundPlayerView;

    open spec fn view(&self) -> MatchFoundPlayerView {
        MatchFoundPlayerView { player_id: self.player_id@, team: self.team }
    }
}

/// The announcement of a match.
#[derive(Debug, Clone)]
pub struct MatchFoundInfo {
    pub session_id: u32,
    pub players: Vec<MatchFoundPlayerInfo>,
}

/// The view of a [`MatchFoundInfo`].
pub struct MatchFoundView {
    pub session_id: u32,
    pub players: Seq<MatchFoundPlayerView>,
}

impl View for MatchFoundInfo {
    type V = MatchFoundView;

    open spec fn view(&self) -> MatchFoundView {
        MatchFoundView {
            session_id: self.session_id,
            players: self.players@.map_values(|player: MatchFoundPlayerInfo| player@),
        }
    }
}

/// Where the players of a match that starts find its game server.
#[derive(Debug, Clone)]
pub struct MatchStartInfo {
    pub session_id: u32,
    pub tps_server_address: String,
    pub tps_server_port: u16,
}

/// The view of a [`MatchStartInfo`].
pub struct MatchStartView {
    pub session_id: u32,
    pub tps_server_address: Seq<char>,
    pub tps_server_port: u16,
}

impl View for MatchStartInfo {
    type V = MatchStartView;

    open spec fn view(&self) -> MatchStartView {
        MatchStartView {
            session_id: self.session_id,
            tps_server_address: self.tps_server_address@,
            tps_server_port: self.tps_server_port,
        }
    }
}

/// What the matchmaker tells a player.
#[derive(Debug, Clone)]
pub enum MatchmakingEvent {
    MatchFound(MatchFoundInfo),
    PlayerReady(String),
    MatchStart(MatchStartInfo),
    MatchNotFound,
}

/// The view of a [`MatchmakingEvent`].
pub enum EventView {
    MatchFound(MatchFoundView),
    PlayerReady(PlayerId),
    MatchStart(MatchStartView),
    MatchNotFound,
}

impl View for MatchmakingEvent {
    type V = EventView;

    open spec fn view(&self) -> EventView {
        match self {
            MatchmakingEvent::MatchFound(info) => EventView::MatchFound(info@),
            MatchmakingEvent::PlayerReady(player) => EventView::PlayerReady(player@),
            MatchmakingEvent::MatchStart(info) => EventView::MatchStart(info@),
            MatchmakingEvent::MatchNotFound => EventView::MatchNotFound,
        }
    }
}

/// A player who waits in a queue.
#[derive(Debug, Clone)]
pub struct PlayerQueue {
    pub player_id: String,
}

/// A player of a match.
#[derive(Debug, Clone)]
pub struct PlayerMatchInfo {
    pub player_id: String,
    pub ready: bool,
    pub team: u8,
}

/// The view of a [`PlayerMatchInfo`].
pub struct PlayerMatchView {
    pub player_id: PlayerId,
    pub ready: bool,
    pub team: u8,
}

impl View for PlayerMatchInfo {
    type V = PlayerMatchView;

    open spec fn view(&self) -> PlayerMatchView {
        PlayerMatchView { player_id: self.player_id@, ready: self.ready, team: self.team }
    }
}

/// An event and the player to send it to.
#[derive(Debug, Clone)]
pub struct Delivery {
    pub player_id: String,
    pub event: MatchmakingEvent,
}

/// The view of a [`Delivery`].
pub struct DeliveryView {
    pub player_id: PlayerId,
    pub event: EventView,
}

impl View for Delivery {
    type V = DeliveryView;

    open spec fn view(&self) -> DeliveryView {
        DeliveryView { player_id: self.player_id@, event: self.event@ }
    }
}

/// The views of a list of deliveries.
pub open spec fn deliveries(list: Seq<Delivery>) -> Seq<DeliveryView> {
    list.map_values(|delivery: Delivery| delivery@)
}

/// What is left to do once a command has changed the state.
#[derive(Debug, Clone)]
pub enum CommandOutcome {
    /// Send these events, in this order.
    Deliver(Vec<Delivery>),
    /// The last player of a match got ready. Ask for a game session with these players, then hand
    /// the answer to `MatchmakingState::finish_set_player_ready`.
    CreateSession { session_id: u32, player_id: String, player_ids: Vec<String> },
}

/// The view of a [`CommandOutcome`].
pub enum OutcomeView {
    Deliver(Seq<DeliveryView>),
    CreateSession { session_id: u32, player_id: PlayerId, player_ids: Seq<PlayerId> },
}

impl View for CommandOutcome {
    type V = OutcomeView;

    open spec fn view(&self) -> OutcomeView {
        match self {
            CommandOutcome::Deliver(list) => OutcomeView::Deliver(deliveries(list@)),
            CommandOutcome::CreateSession { session_id, player_id, player_ids } => {
                OutcomeView::CreateSession {
                    session_id: *session_id,
                    player_id: player_id@,
                    player_ids: ids(player_ids@),
                }
            },
        }
    }
}

} // verus!
