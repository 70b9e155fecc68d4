//! What the server asks of the services it depends on, and what it makes of their answers.
use vstd::prelude::*;

verus! {

/// A request for a game session for the players of a match.
#[derive(Debug, Clone)]
pub struct CreateSessionRequest {
    pub url: String,
    pub header: u8,
    pub client_identifier: i32,
    pub session_id: u32,
    pub player_ids: Vec<String>,
}

/// The request for a game session that goes to the service at `api_url`.
pub fn create_session_request(api_url: &str, session_id: u32, player_ids: Vec<String>) -> (request:
    CreateSessionRequest)
    ensures
        request.url@ == api_url@ + "/create_session"@,
        request.header == 100,
        request.client_identifier == 1,
        request.session_id == session_id,
        request.player_ids == player_ids,
{
    CreateSessionRequest {
        url: api_url.to_string().concat("/create_session"),
        header: 100,
        client_identifier: 1,
        session_id,
        player_ids,
    }
}

/// A request to find out whether a session ticket is good.
#[derive(Debug, Clone)]
pub struct AuthenticationRequest {
    pub url: String,
    /// The name of the header that carries the key.
    pub key_header: String,
    pub key: String,
    pub session_ticket: String,
}

/// The request to check a ticket that goes to the service at `api_url`, under the server's own key.
pub fn authentication_request(api_url: &str, api_key: String, session_ticket: String) -> (request:
    AuthenticationRequest)
    ensures
        request.url@ == api_url@ + "/Server/AuthenticateSessionTicket"@,
        request.key_header@ == "X-SecretKey"@,
        request.key == api_key,
        request.session_ticket == session_ticket,
{
    AuthenticationRequest {
        url: api_url.to_string().concat("/Server/AuthenticateSessionTicket"),
        key_header: "X-SecretKey".to_string(),
        key: api_key,
        session_ticket,
    }
}

/// How a service answered.
#[derive(Debug, Clone)]
pub enum ServiceReply {
    /// It did not.
    NoAnswer,
    /// With a status, and with a body unless that could not be read.
    Answer { status: u16, body: Option<Vec<u8>> },
}

/// Whether a status says that a request succeeded.
pub open spec fn success_status(status: u16) -> bool {
    200 <= status < 300
}

/// Whether a status says that a request succeeded.
pub fn is_success(status: u16) -> (success: bool)
    ensures
        success == success_status(status),
{
    status >= 200 && status < 300
}

/// Whether `serde_json` reads `body`, all of it, as one JSON value.
pub uninterp spec fn is_json(body: Seq<u8>) -> bool;

/// `serde_json::from_slice` for `serde_json::Value`, as far as whether it succeeds. Claimed: that
/// depends on the bytes alone. Which bytes are JSON to it is left unsaid.
#[verifier::external_body]
fn parses_as_json(body: &Vec<u8>) -> (parsed: bool)
    ensures
        parsed == is_json(body@),
{
    serde_json::from_slice::<serde_json::Value>(body).is_ok()
}

/// Whether an answer with a body grants a request: its status has to say so, and its body has to
/// be JSON.
pub fn answer_grants(status: u16, body_is_json: bool) -> (granted: bool)
    ensures
        granted == (success_status(status) && body_is_json),
{
    is_success(status) && body_is_json
}

/// Whether a reply grants a request.
pub open spec fn grants(reply: ServiceReply) -> bool {
    match reply {
        ServiceReply::Answer { status, body: Some(bytes) } => success_status(status) && is_json(
            bytes@,
        ),
        _ => false,
    }
}

/// Whether a reply grants a request: the service has to answer with a status of success and with a
/// body that is JSON.
pub fn reply_grants(reply: &ServiceReply) -> (granted: bool)
    ensures
        granted == grants(*reply),
{
    match reply {
        ServiceReply::Answer { status, body: Some(bytes) } => {
            let body_is_json = parses_as_json(bytes);
            answer_grants(*status, body_is_json)
        },
        _ => false,
    }
}

} // verus!
