use matchmaking::match_making::{Match, MatchmakingState};
use matchmaking::types::{
    CommandOutcome, Delivery, MatchmakingCommand, MatchmakingEvent, PoolType,
};
use tokio::sync::mpsc;

const ONE: PoolType = PoolType::NormalOneVsOne;
const TWO: PoolType = PoolType::NormalTwoVsTwo;

fn names(players: &[&str]) -> Vec<String> {
    players.iter().map(|player| player.to_string()).collect()
}

fn join(
    state: &mut MatchmakingState,
    pool: PoolType,
    player: &str,
) -> mpsc::Receiver<MatchmakingEvent> {
    let (sender, receiver) = mpsc::channel(10);
    state.add_player(pool, player.to_string(), sender);
    receiver
}

fn state_with(pool: PoolType, players: &[&str]) -> MatchmakingState {
    let mut state = MatchmakingState::new();
    for player in players {
        join(&mut state, pool, player);
    }
    state
}

/// The groups that a list of commands makes matches of.
fn groups(commands: Vec<MatchmakingCommand>) -> Vec<(PoolType, Vec<String>)> {
    commands
        .into_iter()
        .map(|command| match command {
            MatchmakingCommand::CreateMatch(pool, players) => (pool, players),
            other => panic!("{:?}", other),
        })
        .collect()
}

fn create(pool: PoolType, players: &[&str]) -> MatchmakingCommand {
    MatchmakingCommand::CreateMatch(pool, names(players))
}

fn handle(state: &mut MatchmakingState, command: MatchmakingCommand) -> CommandOutcome {
    assert!(state.accepts(&command));
    state.handle_command(command)
}

fn ready(state: &mut MatchmakingState, session: u32, player: &str) -> CommandOutcome {
    let command = state.set_player_ready(session, player.to_string());
    handle(state, command)
}

fn delivered(outcome: CommandOutcome) -> Vec<Delivery> {
    match outcome {
        CommandOutcome::Deliver(list) => list,
        other => panic!("{:?}", other),
    }
}

/// Deliveries in short: the player and the event.
fn short(list: Vec<Delivery>) -> Vec<(String, String)> {
    list.into_iter()
        .map(|delivery| {
            let event = match delivery.event {
                MatchmakingEvent::PlayerReady(player) => format!("ready {}", player),
                MatchmakingEvent::MatchStart(info) => format!(
                    "start {} {} {}",
                    info.session_id, info.tps_server_address, info.tps_server_port
                ),
                MatchmakingEvent::MatchFound(info) => format!(
                    "found {} {:?}",
                    info.session_id,
                    info.players
                        .iter()
                        .map(|player| format!("{}/{}", player.player_id, player.team))
                        .collect::<Vec<String>>()
                ),
                MatchmakingEvent::MatchNotFound => "none".to_string(),
            };
            (delivery.player_id, event)
        })
        .collect()
}

fn to(player: &str, event: &str) -> (String, String) {
    (player.to_string(), event.to_string())
}

#[test]
fn round_without_players_issues_nothing() {
    let mut state = MatchmakingState::new();
    assert!(state.process_matchmaking().is_empty());
}

#[test]
fn round_pairs_players_in_order() {
    let mut state = state_with(ONE, &["a", "b", "c", "d", "e"]);
    assert_eq!(
        groups(state.process_matchmaking()),
        vec![(ONE, names(&["a", "b"])), (ONE, names(&["c", "d"]))]
    );
    assert!(state.process_matchmaking().is_empty());
    join(&mut state, ONE, "f");
    assert_eq!(
        groups(state.process_matchmaking()),
        vec![(ONE, names(&["e", "f"]))]
    );
}

#[test]
fn round_takes_fours_in_the_other_pool() {
    let mut state = state_with(TWO, &["a", "b", "c"]);
    assert!(state.process_matchmaking().is_empty());
    join(&mut state, TWO, "d");
    join(&mut state, TWO, "e");
    assert_eq!(
        groups(state.process_matchmaking()),
        vec![(TWO, names(&["a", "b", "c", "d"]))]
    );
    assert!(state.process_matchmaking().is_empty());
}

#[test]
fn round_serves_pools_one_after_the_other() {
    let mut state = MatchmakingState::new();
    for player in ["p", "q", "r", "s"] {
        join(&mut state, TWO, player);
    }
    join(&mut state, ONE, "a");
    join(&mut state, ONE, "b");
    assert_eq!(
        groups(state.process_matchmaking()),
        vec![(ONE, names(&["a", "b"])), (TWO, names(&["p", "q", "r", "s"]))]
    );
}

#[test]
fn groups_of_either_size_from_either_pool() {
    let mut state = state_with(TWO, &["a", "b", "c", "d", "e"]);
    assert_eq!(
        groups(state.process_1v1_matchmaking(&TWO)),
        vec![(TWO, names(&["a", "b"])), (TWO, names(&["c", "d"]))]
    );
    let mut state = state_with(ONE, &["a", "b", "c", "d", "e"]);
    assert_eq!(
        groups(state.process_2v2_matchmaking(&ONE)),
        vec![(ONE, names(&["a", "b", "c", "d"]))]
    );
}

#[test]
fn removed_player_is_not_matched() {
    let mut state = state_with(ONE, &["a", "b", "a", "c"]);
    join(&mut state, TWO, "a");
    let command = state.remove_player(ONE, "a".to_string());
    assert!(delivered(handle(&mut state, command)).is_empty());
    assert_eq!(
        groups(state.process_matchmaking()),
        vec![(ONE, names(&["b", "c"]))]
    );
    for player in ["x", "y", "z"] {
        join(&mut state, TWO, player);
    }
    assert_eq!(
        groups(state.process_matchmaking()),
        vec![(TWO, names(&["a", "x", "y", "z"]))]
    );
}

#[test]
fn removing_undoes_joining() {
    let mut state = state_with(ONE, &["a", "b"]);
    join(&mut state, ONE, "c");
    let command = state.remove_player(ONE, "c".to_string());
    handle(&mut state, command);
    join(&mut state, ONE, "d");
    assert_eq!(
        groups(state.process_matchmaking()),
        vec![(ONE, names(&["a", "b"]))]
    );
}

#[test]
fn removing_a_stranger_changes_nothing() {
    let mut state = state_with(TWO, &["a", "b", "c", "d"]);
    let command = state.remove_player(TWO, "z".to_string());
    assert!(delivered(handle(&mut state, command)).is_empty());
    let command = state.remove_player(ONE, "a".to_string());
    assert!(delivered(handle(&mut state, command)).is_empty());
    assert_eq!(
        groups(state.process_matchmaking()),
        vec![(TWO, names(&["a", "b", "c", "d"]))]
    );
}

#[test]
fn new_match_is_announced_to_everybody() {
    let mut state = state_with(ONE, &["a", "b"]);
    let found = "found 0 [\"a/0\", \"b/0\"]";
    assert_eq!(
        short(delivered(handle(&mut state, create(ONE, &["a", "b"])))),
        vec![to("a", found), to("b", found)]
    );
    let found = "found 1 [\"c/0\", \"c/0\"]";
    assert_eq!(
        short(delivered(handle(&mut state, create(ONE, &["c", "c"])))),
        vec![to("c", found), to("c", found)]
    );
}

#[test]
fn matched_players_leave_the_queue() {
    let mut state = state_with(ONE, &["a", "x", "b", "a", "y"]);
    handle(&mut state, create(ONE, &["a", "b"]));
    assert_eq!(
        groups(state.process_matchmaking()),
        vec![(ONE, names(&["x", "y"]))]
    );
}

#[test]
fn matched_players_stay_in_the_other_pool() {
    let mut state = state_with(TWO, &["a", "b", "c", "d"]);
    handle(&mut state, create(ONE, &["a", "b"]));
    assert_eq!(
        groups(state.process_matchmaking()),
        vec![(TWO, names(&["a", "b", "c", "d"]))]
    );
}

#[test]
fn match_starts_when_everybody_is_ready() {
    let mut state = MatchmakingState::new();
    handle(&mut state, create(ONE, &["x", "y"]));
    handle(&mut state, create(ONE, &["a", "b"]));
    assert_eq!(
        short(delivered(ready(&mut state, 1, "b"))),
        vec![to("a", "ready b"), to("b", "ready b")]
    );
    match ready(&mut state, 1, "a") {
        CommandOutcome::CreateSession {
            session_id,
            player_id,
            player_ids,
        } => {
            assert_eq!(session_id, 1);
            assert_eq!(player_id, "a");
            assert_eq!(player_ids, names(&["a", "b"]));
        }
        other => panic!("{:?}", other),
    }
    let start = "start 1 192.168.1.151 5001";
    assert_eq!(
        short(state.finish_set_player_ready(1, &"a".to_string(), true)),
        vec![to("a", "ready a"), to("a", start), to("b", "ready a"), to("b", start)]
    );
}

#[test]
fn match_of_four_starts_in_any_order() {
    let orders = [
        ["a", "b", "c", "d"],
        ["d", "c", "b", "a"],
        ["b", "d", "a", "c"],
    ];
    for order in orders {
        let mut state = MatchmakingState::new();
        handle(&mut state, create(TWO, &["a", "b", "c", "d"]));
        for player in &order[..3] {
            assert_eq!(delivered(ready(&mut state, 0, player)).len(), 4);
        }
        assert!(matches!(
            ready(&mut state, 0, order[3]),
            CommandOutcome::CreateSession { session_id: 0, .. }
        ));
    }
}

#[test]
fn ready_twice_counts_once() {
    let mut state = MatchmakingState::new();
    handle(&mut state, create(ONE, &["a", "b"]));
    for _ in 0..3 {
        assert_eq!(
            short(delivered(ready(&mut state, 0, "a"))),
            vec![to("a", "ready a"), to("b", "ready a")]
        );
    }
    assert!(matches!(
        ready(&mut state, 0, "b"),
        CommandOutcome::CreateSession { .. }
    ));
}

#[test]
fn failed_start_is_silent_and_can_be_retried() {
    let mut state = MatchmakingState::new();
    handle(&mut state, create(ONE, &["a", "b"]));
    ready(&mut state, 0, "a");
    ready(&mut state, 0, "b");
    assert!(state
        .finish_set_player_ready(0, &"b".to_string(), false)
        .is_empty());
    assert!(matches!(
        ready(&mut state, 0, "a"),
        CommandOutcome::CreateSession { session_id: 0, .. }
    ));
    assert_eq!(
        state.finish_set_player_ready(0, &"a".to_string(), true).len(),
        4
    );
}

#[test]
fn match_of_a_player_with_themselves_does_not_start() {
    let mut state = MatchmakingState::new();
    handle(&mut state, create(ONE, &["a", "a"]));
    for _ in 0..3 {
        assert_eq!(
            short(delivered(ready(&mut state, 0, "a"))),
            vec![to("a", "ready a")]
        );
    }
}

#[test]
fn strangers_and_unknown_matches_change_nothing() {
    let mut state = MatchmakingState::new();
    handle(&mut state, create(ONE, &["a", "b"]));
    assert!(delivered(ready(&mut state, 0, "z")).is_empty());
    assert!(delivered(ready(&mut state, 5, "a")).is_empty());
    assert!(state
        .finish_set_player_ready(5, &"a".to_string(), true)
        .is_empty());
    assert_eq!(delivered(ready(&mut state, 0, "a")).len(), 2);
}

#[test]
fn removed_match_is_forgotten() {
    let mut state = MatchmakingState::new();
    handle(&mut state, create(ONE, &["a", "b"]));
    handle(&mut state, create(ONE, &["c", "d"]));
    let command = state.remove_match(0);
    assert!(delivered(handle(&mut state, command)).is_empty());
    assert!(delivered(ready(&mut state, 0, "a")).is_empty());
    assert_eq!(delivered(ready(&mut state, 1, "c")).len(), 2);
    let command = state.remove_match(7);
    assert!(delivered(handle(&mut state, command)).is_empty());
    assert_eq!(
        short(delivered(handle(&mut state, create(ONE, &["e"])))),
        vec![to("e", "found 2 [\"e/0\"]")]
    );
}

#[test]
fn place_is_counted_in_a_byte() {
    let players: Vec<String> = (0..256).map(|i| format!("p{}", i)).collect();
    let created = Match::new(9, &players);
    assert_eq!(created.session_id, 9);
    assert_eq!(created.remaining_ready, 0);
    assert_eq!(created.players_match_info_map.len(), 256);
    let mut state = MatchmakingState::new();
    handle(&mut state, MatchmakingCommand::CreateMatch(ONE, players));
    let command = state.set_player_ready(0, "p3".to_string());
    assert!(!state.accepts(&command));
    let command = state.set_player_ready(0, "z".to_string());
    assert!(state.accepts(&command));
}

#[test]
fn players_of_a_match_are_kept_once_in_order() {
    let mut created = Match::new(4, &names(&["b", "a", "b", "c"]));
    assert_eq!(created.players_match_info_map.keys(), names(&["b", "a", "c"]));
    assert_eq!(created.remaining_ready, 4);
    assert!(created.set_ready(&"a".to_string()));
    assert_eq!(created.remaining_ready, 3);
    assert!(created.set_ready(&"a".to_string()));
    assert_eq!(created.remaining_ready, 3);
    assert!(!created.set_ready(&"z".to_string()));
    let info = created.players_match_info_map.get_index(1);
    assert_eq!(info.player_id, "a");
    assert!(info.ready);
    assert_eq!(info.team, 0);
    assert!(!created.players_match_info_map.get_index(0).ready);
}

#[test]
fn events_go_where_the_player_joined_last() {
    let mut state = MatchmakingState::new();
    assert!(state.event_sender(&"a".to_string()).is_none());
    let mut first = join(&mut state, ONE, "a");
    let mut second = join(&mut state, TWO, "a");
    let sender = state.event_sender(&"a".to_string()).unwrap();
    sender.try_send(MatchmakingEvent::MatchNotFound).unwrap();
    assert!(matches!(
        second.try_recv(),
        Ok(MatchmakingEvent::MatchNotFound)
    ));
    assert!(first.try_recv().is_err());
    let command = state.remove_player(ONE, "a".to_string());
    handle(&mut state, command);
    assert!(state.event_sender(&"a".to_string()).is_some());
}

#[test]
fn commands_say_what_was_asked() {
    let state = MatchmakingState::new();
    assert!(matches!(
        state.remove_player(TWO, "a".to_string()),
        MatchmakingCommand::RemovePlayer(PoolType::NormalTwoVsTwo, player) if player == "a"
    ));
    assert!(matches!(
        state.set_player_ready(6, "a".to_string()),
        MatchmakingCommand::SetPlayerReady(6, player) if player == "a"
    ));
    assert!(matches!(
        state.remove_match(6),
        MatchmakingCommand::RemoveMatch(6)
    ));
}

#[test]
fn whole_course_of_a_match() {
    let mut state = MatchmakingState::new();
    let mut receivers = Vec::new();
    for player in ["a", "b", "c"] {
        receivers.push(join(&mut state, ONE, player));
    }
    for command in state.process_matchmaking() {
        for delivery in delivered(handle(&mut state, command)) {
            let sender = state.event_sender(&delivery.player_id).unwrap();
            sender.try_send(delivery.event).unwrap();
        }
    }
    assert!(matches!(
        receivers[0].try_recv(),
        Ok(MatchmakingEvent::MatchFound(info)) if info.session_id == 0 && info.players.len() == 2
    ));
    assert!(matches!(
        receivers[1].try_recv(),
        Ok(MatchmakingEvent::MatchFound(_))
    ));
    assert!(receivers[2].try_recv().is_err());
}
