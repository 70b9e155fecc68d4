//! What contracts say of a value is what the value holds.
use crate::handlers::queue;
use crate::handlers::queue::{
    Action, ActionView, Connection, ConnectionView, Input, InputView,
};
use crate::match_making::Match;
use crate::types;
use crate::types::{
    CommandOutcome, CommandView, Delivery, EventView, MatchFoundInfo, MatchFoundPlayerInfo,
    MatchStartInfo, MatchmakingCommand, MatchmakingEvent, PlayerMatchInfo,
};
use vstd::prelude::*;

verus! {

/// The view of a list of player ids lists each id, in place.
pub proof fn law_ids_are_shown(players: Seq<String>)
    ensures
        types::ids(players).len() == players.len(),
        forall|i: int|
            0 <= i < players.len() ==> #[trigger] types::ids(players)[i] == players[i]@,
{
}

/// The view of a command is the command, with the same pool, match and players.
pub proof fn law_command_is_shown(command: MatchmakingCommand)
    ensures
        match command {
            MatchmakingCommand::RemovePlayer(pool, player) => command@ == CommandView::RemovePlayer(
                pool,
                player@,
            ),
            MatchmakingCommand::CreateMatch(pool, players) => {
                &&& command@ is CreateMatch
                &&& command@->CreateMatch_0 == pool
                &&& command@->CreateMatch_1.len() == players@.len()
                &&& forall|i: int|
                    0 <= i < players@.len() ==> #[trigger] command@->CreateMatch_1[i]
                        == players@[i]@
            },
            MatchmakingCommand::SetPlayerReady(session, player) => command@
                == CommandView::SetPlayerReady(session, player@),
            MatchmakingCommand::RemoveMatch(session) => command@ == CommandView::RemoveMatch(
                session,
            ),
        },
{
}

/// The view of a list of commands lists each command, in place.
pub proof fn law_commands_are_shown(list: Seq<MatchmakingCommand>)
    ensures
        types::commands(list).len() == list.len(),
        forall|i: int| 0 <= i < list.len() ==> #[trigger] types::commands(list)[i] == list[i]@,
{
}

/// The view of an announcement names its match and each of its players, in place.
pub proof fn law_announcement_is_shown(info: MatchFoundInfo, player: MatchFoundPlayerInfo)
    ensures
        player@.player_id == player.player_id@,
        player@.team == player.team,
        info@.session_id == info.session_id,
        info@.players.len() == info.players@.len(),
        forall|i: int|
            0 <= i < info.players@.len() ==> {
                &&& (#[trigger] info@.players[i]).player_id == info.players@[i].player_id@
                &&& info@.players[i].team == info.players@[i].team
            },
{
}

/// The view of the news that a match starts names the match, the address and the port.
pub proof fn law_start_is_shown(info: MatchStartInfo)
    ensures
        info@.session_id == info.session_id,
        info@.tps_server_address == info.tps_server_address@,
        info@.tps_server_port == info.tps_server_port,
{
}

/// The view of an event is the event, with what it carries.
pub proof fn law_event_is_shown(event: MatchmakingEvent)
    ensures
        match event {
            MatchmakingEvent::MatchFound(info) => event@ == EventView::MatchFound(info@),
            MatchmakingEvent::PlayerReady(player) => event@ == EventView::PlayerReady(player@),
            MatchmakingEvent::MatchStart(info) => event@ == EventView::MatchStart(info@),
            MatchmakingEvent::MatchNotFound => event@ == EventView::MatchNotFound,
        },
{
}

/// The views of deliveries name the player and the event, each in place.
pub proof fn law_deliveries_are_shown(list: Seq<Delivery>)
    ensures
        types::deliveries(list).len() == list.len(),
        forall|i: int|
            0 <= i < list.len() ==> {
                &&& (#[trigger] types::deliveries(list)[i]).player_id == list[i].player_id@
                &&& types::deliveries(list)[i].event == list[i].event@
            },
{
}

/// The view of an outcome is the outcome: the deliveries in order, or the session asked for with its
/// players in order.
pub proof fn law_outcome_is_shown(outcome: CommandOutcome)
    ensures
        match outcome {
            CommandOutcome::Deliver(list) => {
                &&& outcome@ is Deliver
                &&& outcome@->Deliver_0.len() == list@.len()
                &&& forall|i: int|
                    0 <= i < list@.len() ==> {
                        &&& (#[trigger] outcome@->Deliver_0[i]).player_id == list@[i].player_id@
                        &&& outcome@->Deliver_0[i].event == list@[i].event@
                    }
            },
            CommandOutcome::CreateSession { session_id, player_id, player_ids } => {
                &&& outcome@ is CreateSession
                &&& outcome@->session_id == session_id
                &&& outcome@->player_id == player_id@
                &&& outcome@->player_ids.len() == player_ids@.len()
                &&& forall|i: int|
                    0 <= i < player_ids@.len() ==> #[trigger] outcome@->player_ids[i]
                        == player_ids@[i]@
            },
        },
{
}

/// The view of a match names it, its places and each of its players as they are.
pub proof fn law_match_is_shown(stored: Match, info: PlayerMatchInfo)
    ensures
        info@.player_id == info.player_id@,
        info@.ready == info.ready,
        info@.team == info.team,
        stored@.session_id == stored.session_id,
        stored@.remaining_ready == stored.remaining_ready,
        stored@.players == stored.players_match_info_map@,
{
}

/// The view of a connection is how far the connection is.
pub proof fn law_connection_is_shown(connection: Connection)
    ensures
        match connection {
            Connection::AwaitingJoin => connection@ == ConnectionView::AwaitingJoin,
            Connection::Authenticating { player_id, pool_name } => connection@ == (
            ConnectionView::Authenticating { player_id: player_id@, pool_name: pool_name@ }),
            Connection::Queued { pool_type, player_id } => connection@ == (
            ConnectionView::Queued { pool_type, player_id: player_id@ }),
            Connection::Closed => connection@ == ConnectionView::Closed,
        },
{
}

/// The view of an input is the input.
pub proof fn law_input_is_shown(input: Input)
    ensures
        match input {
            Input::Text(text) => input@ == InputView::Text(text@),
            Input::NotText => input@ == InputView::NotText,
            Input::Ended => input@ == InputView::Ended,
            Input::Authenticated(answer) => input@ == InputView::Authenticated(answer),
            Input::Event(event, json) => input@ == InputView::Event(event@, json@),
            Input::SendFailed => input@ == InputView::SendFailed,
        },
{
}

/// The view of an action is the action.
pub proof fn law_action_is_shown(action: Action)
    ensures
        match action {
            Action::Authenticate(ticket) => action@ == ActionView::Authenticate(ticket@),
            Action::JoinQueue(pool, player) => action@ == ActionView::JoinQueue(pool, player@),
            Action::RemovePlayer(pool, player) => action@ == ActionView::RemovePlayer(
                pool,
                player@,
            ),
            Action::SetPlayerReady(session, player) => action@ == ActionView::SetPlayerReady(
                session,
                player@,
            ),
            Action::SendText(text) => action@ == ActionView::SendText(text@),
            Action::SendEvent(text) => action@ == ActionView::SendEvent(text@),
            Action::CloseSocket => action@ == ActionView::CloseSocket,
        },
{
}

/// The view of a list of actions lists each action, in place.
pub proof fn law_actions_are_shown(list: Seq<Action>)
    ensures
        queue::actions(list).len() == list.len(),
        forall|i: int| 0 <= i < list.len() ==> #[trigger] queue::actions(list)[i] == list[i]@,
{
}

} // verus!
