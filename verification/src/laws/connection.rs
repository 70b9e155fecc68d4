//! What holds of a client's connection.
use crate::handlers::message;
use crate::handlers::queue;
use crate::handlers::queue::{ActionView, ConnectionView, InputView};
use crate::laws::messages;
use crate::types::{EventView, PlayerId, PoolType};
use vstd::prelude::*;

verus! {

/// A message reads as it was written: a field that holds no comma comes back, and so does all that
/// follows its comma.
pub proof fn law_fields_read_back(field: Seq<char>, rest: Seq<char>)
    requires
        !field.contains(','),
    ensures
        message::first_field(field + ","@ + rest) == field,
        message::other_fields(field + ","@ + rest) == rest,
        message::first_field(field) == field,
        message::other_fields(field) == Seq::<char>::empty(),
{
    reveal_strlit(",");
    let text = field + ","@ + rest;
    assert forall|i: int| 0 <= i < field.len() implies text[i] != ',' && field[i] != ',' by {
        assert(field.contains(field[i]));
    }
    message::lemma_first_comma_at(text, field.len() as int);
    message::lemma_first_comma_at(field, field.len() as int);
    assert(message::first_field(text) =~= field);
    assert(message::other_fields(text) =~= rest);
    assert(message::first_field(field) =~= field);
}

/// A message is nothing but its fields: the first one, a comma, and the others.
pub proof fn law_fields_are_the_message(text: Seq<char>)
    ensures
        !message::first_field(text).contains(','),
        text.contains(',') ==> message::first_field(text) + ","@ + message::other_fields(text)
            == text,
        !text.contains(',') ==> message::first_field(text) == text,
{
    reveal_strlit(",");
    message::lemma_first_comma(text);
    let at = message::first_comma(text);
    if text.contains(',') {
        let i = choose|i: int| 0 <= i < text.len() && text[i] == ',';
        assert(i >= at);
        assert(message::first_field(text) + ","@ + message::other_fields(text) =~= text);
    } else {
        if at < text.len() {
            assert(text.contains(text[at]));
        }
        assert(message::first_field(text) =~= text);
    }
}

/// A request to join names the player, the pool and the ticket, in this order; the ticket may hold
/// commas. The ticket is what gets checked.
pub proof fn law_join_request(player: Seq<char>, pool: Seq<char>, ticket: Seq<char>)
    requires
        !player.contains(','),
        !pool.contains(','),
    ensures
        ({
            let text = "JOIN_QUEUE"@ + ","@ + (player + ","@ + (pool + ","@ + ticket));
            &&& ConnectionView::AwaitingJoin.next(InputView::Text(text))
                == (ConnectionView::Authenticating { player_id: player, pool_name: pool })
            &&& ConnectionView::AwaitingJoin.response(InputView::Text(text)) == seq![
                ActionView::Authenticate(ticket),
            ]
        }),
{
    reveal_strlit("JOIN_QUEUE");
    assert(!"JOIN_QUEUE"@.contains(','));
    law_fields_read_back("JOIN_QUEUE"@, player + ","@ + (pool + ","@ + ticket));
    law_fields_read_back(player, pool + ","@ + ticket);
    law_fields_read_back(pool, ticket);
}

/// What the first text of a client leads to. Its first field has to ask to join; the next two name
/// the player and the pool, and all that follows is the ticket to check. A field that is missing is
/// empty. Any other text ends the connection, and nothing is done.
pub proof fn law_first_text(text: Seq<char>)
    ensures
        ({
            let rest = message::other_fields(text);
            let start = ConnectionView::AwaitingJoin;
            let next = start.next(InputView::Text(text));
            let response = start.response(InputView::Text(text));
            &&& start.accepts(InputView::Text(text))
            &&& message::first_field(text) == "JOIN_QUEUE"@ ==> {
                &&& next is Authenticating
                &&& next->Authenticating_player_id == message::first_field(rest)
                &&& next->pool_name == message::first_field(message::other_fields(rest))
                &&& response.len() == 1
                &&& response[0] == ActionView::Authenticate(
                    message::other_fields(message::other_fields(rest)),
                )
            }
            &&& message::first_field(text) != "JOIN_QUEUE"@ ==> next is Closed && response.len() == 0
        }),
{
}

/// A client who says something other than a text, or nothing at all, before they asked to join loses
/// the connection. Nothing is done.
pub proof fn law_silent_client_is_dropped()
    ensures
        ConnectionView::AwaitingJoin.next(InputView::NotText) is Closed,
        ConnectionView::AwaitingJoin.next(InputView::Ended) is Closed,
        ConnectionView::AwaitingJoin.response(InputView::NotText).len() == 0,
        ConnectionView::AwaitingJoin.response(InputView::Ended).len() == 0,
{
}

/// Whoever has a good ticket joins the pool that they named and is told so, in this order; the
/// connection then stands for them in that pool. Whoever named no pool is dropped without a word.
pub proof fn law_good_ticket_joins(player: PlayerId, pool_name: Seq<char>)
    ensures
        ({
            let connection = ConnectionView::Authenticating { player_id: player, pool_name };
            let next = connection.next(InputView::Authenticated(true));
            let response = connection.response(InputView::Authenticated(true));
            &&& pool_name == "1v1"@ ==> {
                &&& next == (ConnectionView::Queued {
                    pool_type: PoolType::NormalOneVsOne,
                    player_id: player,
                })
                &&& response.len() == 2
                &&& response[0] == ActionView::JoinQueue(PoolType::NormalOneVsOne, player)
                &&& response[1] == ActionView::SendText("QUEUE_JOINED"@)
            }
            &&& pool_name == "2v2"@ ==> {
                &&& next == (ConnectionView::Queued {
                    pool_type: PoolType::NormalTwoVsTwo,
                    player_id: player,
                })
                &&& response.len() == 2
                &&& response[0] == ActionView::JoinQueue(PoolType::NormalTwoVsTwo, player)
                &&& response[1] == ActionView::SendText("QUEUE_JOINED"@)
            }
            &&& pool_name != "1v1"@ && pool_name != "2v2"@ ==> next is Closed && response.len() == 0
        }),
{
    reveal_strlit("1v1");
    reveal_strlit("2v2");
    assert("1v1"@[0] != "2v2"@[0]);
}

/// A text whose first field says that the player is ready, and whose second field writes a number,
/// marks the player of the connection as ready for the match of that number, whatever follows. That is
/// all that is done, and the connection goes on.
pub proof fn law_ready_text_marks_the_player(
    pool: PoolType,
    player: PlayerId,
    text: Seq<char>,
    number: u32,
)
    requires
        message::first_field(text) == "PLAYER_READY"@,
        message::number_in(message::first_field(message::other_fields(text))) == Some(number),
    ensures
        ({
            let connection = ConnectionView::Queued { pool_type: pool, player_id: player };
            let response = connection.response(InputView::Text(text));
            &&& connection.accepts(InputView::Text(text))
            &&& connection.next(InputView::Text(text)) == connection
            &&& response.len() == 1
            &&& response[0] == ActionView::SetPlayerReady(number, player)
        }),
{
    reveal_strlit("PLAYER_READY");
    reveal_strlit("LEAVE_QUEUE");
    assert("PLAYER_READY"@[0] != "LEAVE_QUEUE"@[0]);
}

/// The same of the text as a client writes it: the number may end it, or a comma and anything may
/// follow.
pub proof fn law_written_ready_text_marks_the_player(
    pool: PoolType,
    player: PlayerId,
    written: Seq<char>,
    number: u32,
    more: Seq<char>,
)
    requires
        message::number_in(written) == Some(number),
        !written.contains(','),
    ensures
        ({
            let connection = ConnectionView::Queued { pool_type: pool, player_id: player };
            let short = InputView::Text("PLAYER_READY"@ + ","@ + written);
            let long = InputView::Text("PLAYER_READY"@ + ","@ + (written + ","@ + more));
            &&& connection.response(short) == seq![ActionView::SetPlayerReady(number, player)]
            &&& connection.next(short) == connection
            &&& connection.response(long) == seq![ActionView::SetPlayerReady(number, player)]
            &&& connection.next(long) == connection
        }),
{
    reveal_strlit("PLAYER_READY");
    assert(!"PLAYER_READY"@.contains(','));
    let short = "PLAYER_READY"@ + ","@ + written;
    let long = "PLAYER_READY"@ + ","@ + (written + ","@ + more);
    law_fields_read_back("PLAYER_READY"@, written);
    law_fields_read_back("PLAYER_READY"@, written + ","@ + more);
    law_fields_read_back(written, more);
    law_ready_text_marks_the_player(pool, player, short, number);
    law_ready_text_marks_the_player(pool, player, long, number);
    let connection = ConnectionView::Queued { pool_type: pool, player_id: player };
    assert(connection.response(InputView::Text(short)) =~= seq![
        ActionView::SetPlayerReady(number, player),
    ]);
    assert(connection.response(InputView::Text(long)) =~= seq![
        ActionView::SetPlayerReady(number, player),
    ]);
}

/// A text whose first field says that the player leaves ends the connection, and the player is taken
/// out of the queue of their pool, once for the message and once for the end. Any text that says
/// neither that nor that the player is ready is passed over.
pub proof fn law_other_texts_of_a_queued_client(
    pool: PoolType,
    player: PlayerId,
    text: Seq<char>,
)
    ensures
        ({
            let connection = ConnectionView::Queued { pool_type: pool, player_id: player };
            let next = connection.next(InputView::Text(text));
            let response = connection.response(InputView::Text(text));
            &&& message::first_field(text) == "LEAVE_QUEUE"@ ==> {
                &&& connection.accepts(InputView::Text(text))
                &&& next is Closed
                &&& response.len() == 2
                &&& response[0] == ActionView::RemovePlayer(pool, player)
                &&& response[1] == ActionView::RemovePlayer(pool, player)
            }
            &&& message::first_field(text) != "LEAVE_QUEUE"@ && message::first_field(text)
                != "PLAYER_READY"@ ==> {
                &&& connection.accepts(InputView::Text(text))
                &&& next == connection
                &&& response.len() == 0
            }
        }),
{
    reveal_strlit("PLAYER_READY");
    reveal_strlit("LEAVE_QUEUE");
    assert("PLAYER_READY"@[0] != "LEAVE_QUEUE"@[0]);
}

/// A connection cannot deal with one thing only: a queued player who says that they are ready without
/// writing a number.
pub proof fn law_what_a_connection_accepts(connection: ConnectionView, input: InputView)
    ensures
        connection.accepts(input) <==> !(connection is Queued && input is Text
            && message::first_field(input->Text_0) == "PLAYER_READY"@ && message::number_in(
            message::first_field(message::other_fields(input->Text_0)),
        ) is None),
{
}

/// A queued client who cannot be heard or reached any more loses the connection, and the player is
/// taken out of the queue of their pool.
pub proof fn law_lost_client_leaves(pool: PoolType, player: PlayerId, input: InputView)
    requires
        input is NotText || input is Ended || input is SendFailed,
    ensures
        ({
            let connection = ConnectionView::Queued { pool_type: pool, player_id: player };
            &&& connection.next(input) is Closed
            &&& connection.response(input).len() == 1
            &&& connection.response(input)[0] == ActionView::RemovePlayer(pool, player)
        }),
{
}

/// A queued client is told of every event of their player. The start of the match is the last one:
/// the player is then taken out of the queue of their pool and the connection ends. Every other event
/// leaves the connection as it is.
pub proof fn law_events_are_passed_on(
    pool: PoolType,
    player: PlayerId,
    event: EventView,
    json: Seq<char>,
)
    ensures
        ({
            let connection = ConnectionView::Queued { pool_type: pool, player_id: player };
            let next = connection.next(InputView::Event(event, json));
            let response = connection.response(InputView::Event(event, json));
            &&& response.len() > 0
            &&& response[0] is SendEvent
            &&& match event {
                EventView::MatchFound(_) => {
                    &&& response[0]->SendEvent_0 == "MATCH_FOUND"@ + ","@ + json
                    &&& response.len() == 1
                    &&& next == connection
                },
                EventView::PlayerReady(ready) => {
                    &&& response[0]->SendEvent_0 == "PLAYER_READY"@ + ","@ + ready
                    &&& response.len() == 1
                    &&& next == connection
                },
                EventView::MatchNotFound => {
                    &&& response[0]->SendEvent_0 == "MATCH_NOT_FOUND"@
                    &&& response.len() == 1
                    &&& next == connection
                },
                EventView::MatchStart(_) => {
                    &&& response[0]->SendEvent_0 == "MATCH_START"@ + ","@ + json
                    &&& response.len() == 2
                    &&& response[1] == ActionView::RemovePlayer(pool, player)
                    &&& next is Closed
                },
            }
        }),
{
    let player = match event {
        EventView::PlayerReady(ready) => ready,
        _ => player,
    };
    let found = match event {
        EventView::MatchFound(info) => info,
        _ => arbitrary(),
    };
    let start = match event {
        EventView::MatchStart(info) => info,
        _ => arbitrary(),
    };
    messages::law_events_are_worded(found, start, player, json);
}

/// What comes in out of turn is passed over: nothing is done, and the connection stays as far as it
/// is.
pub proof fn law_input_out_of_turn_is_ignored(connection: ConnectionView, input: InputView)
    requires
        match connection {
            ConnectionView::AwaitingJoin => input is Authenticated || input is Event
                || input is SendFailed,
            ConnectionView::Authenticating { .. } => !(input is Authenticated),
            ConnectionView::Queued { .. } => input is Authenticated,
            ConnectionView::Closed => true,
        },
    ensures
        connection.next(input) == connection,
        connection.response(input).len() == 0,
{
}

/// A connection that is over stays over, and nothing is done for it.
pub proof fn law_closed_is_final(input: InputView)
    ensures
        ConnectionView::Closed.accepts(input),
        ConnectionView::Closed.next(input) == ConnectionView::Closed,
        ConnectionView::Closed.response(input) == Seq::<ActionView>::empty(),
{
}

/// Nobody joins a queue unless their ticket was just found to be good; then it is the player and
/// the pool of their request that join.
pub proof fn law_only_authenticated_players_join(
    connection: ConnectionView,
    input: InputView,
    pool: PoolType,
    player: PlayerId,
)
    requires
        connection.response(input).contains(ActionView::JoinQueue(pool, player)),
    ensures
        input == InputView::Authenticated(true),
        connection matches ConnectionView::Authenticating { player_id, pool_name } && player_id
            == player && queue::pool_named(pool_name) == Some(pool),
        connection.next(input) == (ConnectionView::Queued { pool_type: pool, player_id: player }),
{
    let list = connection.response(input);
    let i = choose|i: int| 0 <= i < list.len() && list[i] == ActionView::JoinQueue(pool, player);
    assert(list[i] is JoinQueue);
}

/// A ticket that is no good ends the connection: the client is told, and nothing else happens.
pub proof fn law_failed_authentication_ends(player: PlayerId, pool_name: Seq<char>)
    ensures
        ({
            let connection = ConnectionView::Authenticating { player_id: player, pool_name };
            &&& connection.next(InputView::Authenticated(false)) == ConnectionView::Closed
            &&& connection.response(InputView::Authenticated(false)) == seq![
                ActionView::SendText("AUTHENTICATION_FAILED"@),
                ActionView::CloseSocket,
            ]
        }),
{
}

/// A connection acts for its own player only: nobody else is taken out of a queue or marked as
/// ready.
pub proof fn law_acts_for_own_player(
    connection: ConnectionView,
    input: InputView,
    pool: PoolType,
    session: u32,
    player: PlayerId,
)
    requires
        connection.response(input).contains(ActionView::RemovePlayer(pool, player))
            || connection.response(input).contains(ActionView::SetPlayerReady(session, player)),
    ensures
        connection matches ConnectionView::Queued { pool_type, player_id } && player_id == player
            && (connection.response(input).contains(ActionView::RemovePlayer(pool, player))
            ==> pool_type == pool),
{
    let list = connection.response(input);
    if list.contains(ActionView::RemovePlayer(pool, player)) {
        let i = choose|i: int|
            0 <= i < list.len() && list[i] == ActionView::RemovePlayer(pool, player);
        assert(list[i] is RemovePlayer);
    }
    if list.contains(ActionView::SetPlayerReady(session, player)) {
        let i = choose|i: int|
            0 <= i < list.len() && list[i] == ActionView::SetPlayerReady(session, player);
        assert(list[i] is SetPlayerReady);
    }
}

/// However a connection in a queue ends, the last thing it does is to take its player out.
pub proof fn law_leaving_removes_the_player(
    pool: PoolType,
    player: PlayerId,
    input: InputView,
)
    requires
        (ConnectionView::Queued { pool_type: pool, player_id: player }).next(input) is Closed,
    ensures
        ({
            let list = (ConnectionView::Queued { pool_type: pool, player_id: player }).response(
                input,
            );
            list.len() > 0 && list.last() == ActionView::RemovePlayer(pool, player)
        }),
{
}

/// How far a new connection is after some inputs.
pub open spec fn connection_after(inputs: Seq<InputView>) -> ConnectionView
    decreases inputs.len(),
{
    if inputs.len() == 0 {
        ConnectionView::AwaitingJoin
    } else {
        connection_after(inputs.drop_last()).next(inputs.last())
    }
}

/// All that was done for a new connection after some inputs, in order.
pub open spec fn done_after(inputs: Seq<InputView>) -> Seq<ActionView>
    decreases inputs.len(),
{
    if inputs.len() == 0 {
        Seq::empty()
    } else {
        done_after(inputs.drop_last()) + connection_after(inputs.drop_last()).response(
            inputs.last(),
        )
    }
}

/// Whether a new connection can deal with all of some inputs, one after the other.
pub open spec fn all_accepted(inputs: Seq<InputView>) -> bool
    decreases inputs.len(),
{
    inputs.len() > 0 ==> all_accepted(inputs.drop_last()) && connection_after(
        inputs.drop_last(),
    ).accepts(inputs.last())
}

/// Whether nobody was put into a queue.
spec fn no_join(list: Seq<ActionView>) -> bool {
    forall|i: int| 0 <= i < list.len() ==> !((#[trigger] list[i]) is JoinQueue)
}

/// Whether exactly one player was put into a queue, and which.
spec fn joined_once(list: Seq<ActionView>, at: int, pool: PoolType, player: PlayerId) -> bool {
    &&& 0 <= at < list.len()
    &&& list[at] == ActionView::JoinQueue(pool, player)
    &&& forall|i: int| 0 <= i < list.len() && i != at ==> !((#[trigger] list[i]) is JoinQueue)
}

/// What was done for a connection, as far as it has got.
spec fn history_fits(connection: ConnectionView, list: Seq<ActionView>) -> bool {
    match connection {
        ConnectionView::AwaitingJoin | ConnectionView::Authenticating { .. } => no_join(list),
        ConnectionView::Queued { pool_type, player_id } => exists|at: int| #[trigger]
            joined_once(list, at, pool_type, player_id),
        ConnectionView::Closed => no_join(list) || exists|
            at: int,
            pool: PoolType,
            player: PlayerId,
        | #[trigger]
            joined_once(list, at, pool, player) && list.last() == ActionView::RemovePlayer(
                pool,
                player,
            ),
    }
}

proof fn lemma_history_fits(inputs: Seq<InputView>)
    ensures
        history_fits(connection_after(inputs), done_after(inputs)),
    decreases inputs.len(),
{
    if inputs.len() > 0 {
        let before = connection_after(inputs.drop_last());
        let input = inputs.last();
        let old_list = done_after(inputs.drop_last());
        let more = before.response(input);
        let list = done_after(inputs);
        lemma_history_fits(inputs.drop_last());
        assert forall|i: int| 0 <= i < list.len() implies #[trigger] list[i] == if i
            < old_list.len() {
            old_list[i]
        } else {
            more[i - old_list.len()]
        } by {}
        match before {
            ConnectionView::AwaitingJoin => {
                assert(no_join(list));
            },
            ConnectionView::Authenticating { player_id, pool_name } => {
                match connection_after(inputs) {
                    ConnectionView::Queued { pool_type, player_id } => {
                        assert(joined_once(list, old_list.len() as int, pool_type, player_id));
                    },
                    _ => {
                        assert(no_join(list));
                    },
                }
            },
            ConnectionView::Queued { pool_type, player_id } => {
                let at = choose|at: int| #[trigger]
                    joined_once(old_list, at, pool_type, player_id);
                assert(joined_once(list, at, pool_type, player_id));
            },
            ConnectionView::Closed => {
                assert(list =~= old_list);
            },
        }
    }
}

/// Over its whole course a connection puts at most one player into one queue. From then on it either
/// still stands for that player in that pool, or it is over and taking that player out was the last
/// thing it did.
pub proof fn law_whoever_joins_is_removed(
    inputs: Seq<InputView>,
    at: int,
    pool: PoolType,
    player: PlayerId,
)
    requires
        all_accepted(inputs),
        0 <= at < done_after(inputs).len(),
        done_after(inputs)[at] == ActionView::JoinQueue(pool, player),
    ensures
        forall|i: int|
            0 <= i < done_after(inputs).len() && i != at ==> !((
            #[trigger] done_after(inputs)[i]) is JoinQueue),
        connection_after(inputs) == (ConnectionView::Queued { pool_type: pool, player_id: player })
            || (connection_after(inputs) == ConnectionView::Closed && done_after(inputs).last()
            == ActionView::RemovePlayer(pool, player)),
{
    lemma_history_fits(inputs);
    assert(done_after(inputs)[at] is JoinQueue);
}

} // verus!
