use matchmaking::services::{
    answer_grants, authentication_request, create_session_request, is_success, reply_grants,
    ServiceReply,
};

fn answer(status: u16, body: &str) -> ServiceReply {
    ServiceReply::Answer {
        status,
        body: Some(body.as_bytes().to_vec()),
    }
}

#[test]
fn session_request_names_match_and_players() {
    let players = vec!["alice".to_string(), "bob".to_string()];
    let request = create_session_request("http://sessions:8080", 17, players.clone());
    assert_eq!(request.url, "http://sessions:8080/create_session");
    assert_eq!(request.header, 100);
    assert_eq!(request.client_identifier, 1);
    assert_eq!(request.session_id, 17);
    assert_eq!(request.player_ids, players);
}

#[test]
fn authentication_request_carries_key_and_ticket() {
    let request =
        authentication_request("https://api", "key".to_string(), "a,b,c".to_string());
    assert_eq!(request.url, "https://api/Server/AuthenticateSessionTicket");
    assert_eq!(request.key_header, "X-SecretKey");
    assert_eq!(request.key, "key");
    assert_eq!(request.session_ticket, "a,b,c");
}

#[test]
fn success_is_the_two_hundreds() {
    assert!(!is_success(0));
    assert!(!is_success(199));
    assert!(is_success(200));
    assert!(is_success(204));
    assert!(is_success(299));
    assert!(!is_success(300));
    assert!(!is_success(404));
    assert!(!is_success(500));
}

#[test]
fn reply_with_success_and_json_grants() {
    assert!(reply_grants(&answer(200, "{}")));
    assert!(reply_grants(&answer(201, "{\"code\":200,\"data\":[1,2.5,null]}")));
    assert!(reply_grants(&answer(299, " null ")));
    assert!(reply_grants(&answer(200, "\"ok\"")));
}

#[test]
fn reply_with_other_body_does_not_grant() {
    assert!(!reply_grants(&answer(200, "")));
    assert!(!reply_grants(&answer(200, "<html></html>")));
    assert!(!reply_grants(&answer(200, "{")));
    assert!(!reply_grants(&answer(200, "{} {}")));
    assert!(!reply_grants(&ServiceReply::Answer {
        status: 200,
        body: Some(vec![0x22, 0xff, 0x22]),
    }));
    assert!(!reply_grants(&ServiceReply::Answer {
        status: 200,
        body: None,
    }));
}

#[test]
fn reply_with_other_status_does_not_grant() {
    assert!(!reply_grants(&answer(401, "{}")));
    assert!(!reply_grants(&answer(302, "{}")));
    assert!(!reply_grants(&answer(500, "{}")));
    assert!(!reply_grants(&ServiceReply::NoAnswer));
}

#[test]
fn answer_needs_both_status_and_body() {
    assert!(answer_grants(200, true));
    assert!(!answer_grants(200, false));
    assert!(!answer_grants(404, true));
    assert!(!answer_grants(404, false));
}
