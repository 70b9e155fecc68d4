use matchmaking::handlers::queue::{event_message, parse_pool_type, Connection, Input};
use matchmaking::types::{
    MatchFoundInfo, MatchFoundPlayerInfo, MatchStartInfo, MatchmakingEvent, PoolType,
};

fn text(text: &str) -> Input {
    Input::Text(text.to_string())
}

/// Steps a connection and writes down what is to be done.
fn step(connection: Connection, input: Input) -> (Connection, Vec<String>) {
    assert!(connection.accepts(&input));
    let (next, actions) = connection.step(input);
    (next, actions.iter().map(|action| format!("{:?}", action)).collect())
}

fn queued(pool: &str) -> Connection {
    let join = text(&format!("JOIN_QUEUE,alice,{},tick,et", pool));
    let (connection, done) = step(Connection::new(), join);
    assert_eq!(done, vec!["Authenticate(\"tick,et\")"]);
    let (connection, _) = step(connection, Input::Authenticated(true));
    connection
}

fn match_start() -> MatchmakingEvent {
    MatchmakingEvent::MatchStart(MatchStartInfo {
        session_id: 3,
        tps_server_address: "192.168.1.151".to_string(),
        tps_server_port: 5001,
    })
}

fn match_found() -> MatchmakingEvent {
    MatchmakingEvent::MatchFound(MatchFoundInfo {
        session_id: 3,
        players: vec![MatchFoundPlayerInfo {
            player_id: "alice".to_string(),
            team: 0,
        }],
    })
}

#[test]
fn connection_asks_for_authentication_first() {
    let (connection, done) = step(Connection::new(), text("JOIN_QUEUE,alice,1v1,ticket"));
    assert_eq!(done, vec!["Authenticate(\"ticket\")"]);
    assert!(matches!(
        connection,
        Connection::Authenticating { ref player_id, ref pool_name }
            if player_id == "alice" && pool_name == "1v1"
    ));
}

#[test]
fn connection_joins_named_pool() {
    for (name, pool) in [
        ("1v1", PoolType::NormalOneVsOne),
        ("2v2", PoolType::NormalTwoVsTwo),
    ] {
        let join = text(&format!("JOIN_QUEUE,alice,{},ticket", name));
        let (connection, _) = step(Connection::new(), join);
        let (connection, done) = step(connection, Input::Authenticated(true));
        assert_eq!(
            done,
            vec![
                format!("JoinQueue({:?}, \"alice\")", pool),
                "SendText(\"QUEUE_JOINED\")".to_string()
            ]
        );
        assert!(matches!(
            connection,
            Connection::Queued { pool_type, ref player_id }
                if pool_type == pool && player_id == "alice"
        ));
    }
}

#[test]
fn connection_without_good_ticket_is_closed() {
    let (connection, _) = step(Connection::new(), text("JOIN_QUEUE,alice,1v1,ticket"));
    let (connection, done) = step(connection, Input::Authenticated(false));
    assert_eq!(done, vec!["SendText(\"AUTHENTICATION_FAILED\")", "CloseSocket"]);
    assert!(connection.is_closed());
}

#[test]
fn connection_with_unknown_pool_ends_silently() {
    for name in ["", "3v3", "1V1", "1v1 "] {
        let join = text(&format!("JOIN_QUEUE,alice,{},ticket", name));
        let (connection, done) = step(Connection::new(), join);
        assert_eq!(done, vec!["Authenticate(\"ticket\")"]);
        let (connection, done) = step(connection, Input::Authenticated(true));
        assert!(done.is_empty());
        assert!(connection.is_closed());
    }
}

#[test]
fn connection_with_short_join_request_has_empty_fields() {
    let (connection, done) = step(Connection::new(), text("JOIN_QUEUE"));
    assert_eq!(done, vec!["Authenticate(\"\")"]);
    assert!(matches!(
        connection,
        Connection::Authenticating { ref player_id, ref pool_name }
            if player_id.is_empty() && pool_name.is_empty()
    ));
}

#[test]
fn connection_that_starts_otherwise_ends() {
    for input in [
        text("LEAVE_QUEUE"),
        text("join_queue,alice,1v1,ticket"),
        text(""),
        Input::NotText,
        Input::Ended,
    ] {
        let (connection, done) = step(Connection::new(), input);
        assert!(done.is_empty());
        assert!(connection.is_closed());
    }
}

#[test]
fn leaving_removes_the_player_twice() {
    let (connection, done) = step(queued("1v1"), text("LEAVE_QUEUE"));
    let remove = "RemovePlayer(NormalOneVsOne, \"alice\")";
    assert_eq!(done, vec![remove, remove]);
    assert!(connection.is_closed());
}

#[test]
fn ready_player_is_marked() {
    let (connection, done) = step(queued("2v2"), text("PLAYER_READY,12,more"));
    assert_eq!(done, vec!["SetPlayerReady(12, \"alice\")"]);
    assert!(!connection.is_closed());
}

#[test]
fn ready_without_a_number_is_not_accepted() {
    let connection = queued("1v1");
    for message in [
        "PLAYER_READY",
        "PLAYER_READY,",
        "PLAYER_READY,x",
        "PLAYER_READY,-1",
        "PLAYER_READY,4294967296",
    ] {
        assert!(!connection.accepts(&text(message)));
    }
    assert!(connection.accepts(&text("PLAYER_READY,4294967295")));
    assert!(Connection::new().accepts(&text("PLAYER_READY,x")));
}

#[test]
fn unknown_operation_is_ignored() {
    for message in ["", "HELLO", "JOIN_QUEUE,alice,1v1,ticket", "leave_queue"] {
        let (connection, done) = step(queued("1v1"), text(message));
        assert!(done.is_empty());
        assert!(!connection.is_closed());
    }
}

#[test]
fn lost_client_is_removed() {
    for input in [Input::NotText, Input::Ended, Input::SendFailed] {
        let (connection, done) = step(queued("2v2"), input);
        assert_eq!(done, vec!["RemovePlayer(NormalTwoVsTwo, \"alice\")"]);
        assert!(connection.is_closed());
    }
}

#[test]
fn events_are_passed_on() {
    let (connection, done) = step(
        queued("1v1"),
        Input::Event(match_found(), "{\"session_id\":3}".to_string()),
    );
    assert_eq!(done, vec!["SendEvent(\"MATCH_FOUND,{\\\"session_id\\\":3}\")"]);
    let ready = MatchmakingEvent::PlayerReady("bob".to_string());
    let (connection, done) = step(connection, Input::Event(ready, String::new()));
    assert_eq!(done, vec!["SendEvent(\"PLAYER_READY,bob\")"]);
    let none = MatchmakingEvent::MatchNotFound;
    let (connection, done) = step(connection, Input::Event(none, String::new()));
    assert_eq!(done, vec!["SendEvent(\"MATCH_NOT_FOUND\")"]);
    assert!(!connection.is_closed());
}

#[test]
fn start_of_the_match_ends_the_connection() {
    let (connection, done) =
        step(queued("1v1"), Input::Event(match_start(), "{}".to_string()));
    assert_eq!(
        done,
        vec![
            "SendEvent(\"MATCH_START,{}\")",
            "RemovePlayer(NormalOneVsOne, \"alice\")"
        ]
    );
    assert!(connection.is_closed());
}

#[test]
fn closed_connection_does_nothing() {
    let (mut connection, _) = step(Connection::new(), Input::Ended);
    for input in [
        text("JOIN_QUEUE,alice,1v1,ticket"),
        text("PLAYER_READY,x"),
        Input::Authenticated(true),
        Input::NotText,
        Input::SendFailed,
        Input::Event(match_start(), "{}".to_string()),
    ] {
        let (next, done) = step(connection, input);
        assert!(done.is_empty());
        assert!(next.is_closed());
        connection = next;
    }
}

#[test]
fn input_out_of_turn_is_ignored() {
    let (connection, done) = step(Connection::new(), Input::Authenticated(true));
    assert!(done.is_empty());
    assert!(matches!(connection, Connection::AwaitingJoin));
    let (connection, done) = step(queued("1v1"), Input::Authenticated(false));
    assert!(done.is_empty());
    assert!(matches!(connection, Connection::Queued { .. }));
}

#[test]
fn texts_of_events() {
    let json = "{\"a\":1}".to_string();
    assert_eq!(event_message(&match_found(), &json), "MATCH_FOUND,{\"a\":1}");
    assert_eq!(event_message(&match_start(), &json), "MATCH_START,{\"a\":1}");
    let ready = MatchmakingEvent::PlayerReady("bob".to_string());
    assert_eq!(event_message(&ready, &json), "PLAYER_READY,bob");
    assert_eq!(
        event_message(&MatchmakingEvent::MatchNotFound, &json),
        "MATCH_NOT_FOUND"
    );
}

#[test]
fn names_of_pools() {
    assert_eq!(parse_pool_type(&"1v1".to_string()), Some(PoolType::NormalOneVsOne));
    assert_eq!(parse_pool_type(&"2v2".to_string()), Some(PoolType::NormalTwoVsTwo));
    assert_eq!(parse_pool_type(&"".to_string()), None);
    assert_eq!(parse_pool_type(&"1v".to_string()), None);
}
