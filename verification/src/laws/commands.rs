//! What each operation of the matchmaker does, told entry by entry: who stands where afterwards, who
//! hears what, and what stays as it was.
use crate::model;
use crate::model::{MatchView, StateView};
use crate::types::{CommandView, EventView, MatchmakingEvent, PlayerId, PoolType};
use tokio::sync::mpsc;
use vstd::prelude::*;

verus! {

/// The places of a queue that a filter lets through, in order.
proof fn lemma_filter_places(queue: Seq<PlayerId>, keep: spec_fn(PlayerId) -> bool) -> (places: Seq<
    int,
>)
    ensures
        places.len() == queue.filter(keep).len(),
        forall|k: int|
            0 <= k < places.len() ==> {
                &&& 0 <= #[trigger] places[k] < queue.len()
                &&& queue.filter(keep)[k] == queue[places[k]]
                &&& keep(queue[places[k]])
            },
        forall|k: int, l: int|
            0 <= k < l < places.len() ==> #[trigger] places[k] < #[trigger] places[l],
        forall|i: int|
            0 <= i < queue.len() && keep(#[trigger] queue[i]) ==> places.contains(i),
    decreases queue.len(),
{
    reveal(Seq::filter);
    if queue.len() == 0 {
        Seq::empty()
    } else {
        let front = queue.drop_last();
        let last = queue.len() - 1;
        let some = lemma_filter_places(front, keep);
        let places = if keep(queue.last()) {
            some.push(last)
        } else {
            some
        };
        assert forall|k: int| 0 <= k < places.len() implies {
            &&& 0 <= #[trigger] places[k] < queue.len()
            &&& queue.filter(keep)[k] == queue[places[k]]
            &&& keep(queue[places[k]])
        } by {
            if k < some.len() {
                assert(places[k] == some[k]);
                assert(front[some[k]] == queue[some[k]]);
            }
        }
        assert forall|k: int, l: int| 0 <= k < l < places.len() implies #[trigger] places[k]
            < #[trigger] places[l] by {
            assert(places[k] == some[k]);
            if l < some.len() {
                assert(places[l] == some[l]);
            }
        }
        assert forall|i: int| 0 <= i < queue.len() && keep(#[trigger] queue[i]) implies places.contains(
            i,
        ) by {
            if i < last {
                assert(front[i] == queue[i]);
                assert(some.contains(i));
                let k = choose|k: int| 0 <= k < some.len() && some[k] == i;
                assert(places[k] == i);
            } else {
                assert(places[some.len() as int] == i);
            }
        }
        places
    }
}

/// A player who joins stands at the end of their pool's queue, behind everybody who waited there.
/// Their events go to the new sender, whatever was there before. Nothing else changes.
pub proof fn law_joining_appends(
    s: StateView,
    pool: PoolType,
    player: PlayerId,
    sender: mpsc::Sender<MatchmakingEvent>,
)
    ensures
        ({
            let t = s.add_player(pool, player, sender);
            &&& pool == PoolType::NormalOneVsOne ==> t.one_vs_one == s.one_vs_one.push(player)
                && t.two_vs_two == s.two_vs_two
            &&& pool == PoolType::NormalTwoVsTwo ==> t.two_vs_two == s.two_vs_two.push(player)
                && t.one_vs_one == s.one_vs_one
            &&& t.senders.contains_key(player) && t.senders[player] == sender
            &&& forall|other: PlayerId|
                other != player ==> {
                    &&& #[trigger] t.senders.contains_key(other) == s.senders.contains_key(other)
                    &&& s.senders.contains_key(other) ==> t.senders[other] == s.senders[other]
                }
            &&& t.matches == s.matches
            &&& t.next_session_id == s.next_session_id
        }),
{
}

/// Each pool has a queue of its own.
pub proof fn law_pools_have_their_queues(s: StateView)
    ensures
        s.queue(PoolType::NormalOneVsOne) == s.one_vs_one,
        s.queue(PoolType::NormalTwoVsTwo) == s.two_vs_two,
{
}

/// Nobody waits, no match is there and nobody has joined at the start, and the first match gets
/// id 0.
pub proof fn law_start_is_empty()
    ensures
        StateView::init().one_vs_one.len() == 0,
        StateView::init().two_vs_two.len() == 0,
        forall|id: u32| !#[trigger] StateView::init().matches.contains_key(id),
        forall|player: PlayerId| !#[trigger] StateView::init().senders.contains_key(player),
        StateView::init().next_session_id == 0,
{
}

/// When a command can be carried out: always, but for a new match when no id is left, and for a
/// player of a match who was not ready when the match has no place left for them.
pub proof fn law_what_is_accepted(
    s: StateView,
    pool: PoolType,
    players: Seq<PlayerId>,
    session: u32,
    player: PlayerId,
)
    ensures
        s.accepts(CommandView::RemovePlayer(pool, player)),
        s.accepts(CommandView::RemoveMatch(session)),
        s.accepts(CommandView::CreateMatch(pool, players)) <==> s.next_session_id < 0xffff_ffff,
        s.accepts(CommandView::SetPlayerReady(session, player)) <==> !(s.matches.contains_key(
            session,
        ) && s.matches[session].remaining_ready == 0 && exists|i: int|
            0 <= i < s.matches[session].players.len() && (
            #[trigger] s.matches[session].players[i]).player_id == player
                && !s.matches[session].players[i].ready),
{
}

/// What makes a state well-formed: every match has the id that it is stored under, which was given
/// out before, and no two of its players are the same.
pub proof fn law_what_is_well_formed(s: StateView)
    ensures
        s.wf() <==> forall|id: u32| #[trigger]
            s.matches.contains_key(id) ==> {
                &&& id < s.next_session_id
                &&& s.matches[id].session_id == id
                &&& forall|i: int, j: int|
                    0 <= i < j < s.matches[id].players.len() ==> (
                    #[trigger] s.matches[id].players[i]).player_id != (
                    #[trigger] s.matches[id].players[j]).player_id
            },
{
    if s.wf() {
        assert forall|id: u32| #[trigger] s.matches.contains_key(id) implies {
            &&& id < s.next_session_id
            &&& s.matches[id].session_id == id
            &&& forall|i: int, j: int|
                0 <= i < j < s.matches[id].players.len() ==> (
                #[trigger] s.matches[id].players[i]).player_id != (
                #[trigger] s.matches[id].players[j]).player_id
        } by {
            assert(s.matches[id].wf());
        }
    }
}

/// A player who leaves takes nobody's place: the queue afterwards is the queue before, in the same
/// order, but for the entries of that player. `places` tells where everyone in it stood. Nobody hears
/// of it, and nothing else changes.
pub proof fn law_leaving_keeps_the_order(s: StateView, pool: PoolType, player: PlayerId) -> (places:
    Seq<int>)
    ensures
        ({
            let t = s.after(CommandView::RemovePlayer(pool, player));
            let before = s.queue(pool);
            let after = t.queue(pool);
            &&& after.len() == places.len()
            &&& forall|k: int|
                0 <= k < places.len() ==> {
                    &&& 0 <= #[trigger] places[k] < before.len()
                    &&& after[k] == before[places[k]]
                    &&& before[places[k]] != player
                }
            &&& forall|k: int, l: int|
                0 <= k < l < places.len() ==> #[trigger] places[k] < #[trigger] places[l]
            &&& forall|i: int|
                0 <= i < before.len() && #[trigger] before[i] != player ==> places.contains(i)
            &&& pool == PoolType::NormalOneVsOne ==> t.two_vs_two == s.two_vs_two
            &&& pool == PoolType::NormalTwoVsTwo ==> t.one_vs_one == s.one_vs_one
            &&& t.matches == s.matches
            &&& t.senders == s.senders
            &&& t.next_session_id == s.next_session_id
            &&& s.outcome(CommandView::RemovePlayer(pool, player)) is Deliver
            &&& s.outcome(CommandView::RemovePlayer(pool, player))->Deliver_0.len() == 0
        }),
{
    let before = s.queue(pool);
    let keep = model::other_than(player);
    let places = lemma_filter_places(before, keep);
    assert forall|i: int| 0 <= i < before.len() && #[trigger] before[i] != player implies places.contains(
        i,
    ) by {
        assert(keep(before[i]));
    }
    places
}

/// A new match takes its players, and nobody else, out of its pool's queue: the queue afterwards is
/// the queue before, in the same order, but for their entries. It gets the next id, and the id after
/// that is the next one then. Nothing else changes.
pub proof fn law_new_match_keeps_the_order(
    s: StateView,
    pool: PoolType,
    players: Seq<PlayerId>,
) -> (places: Seq<int>)
    requires
        s.next_session_id < 0xffff_ffff,
    ensures
        ({
            let t = s.after(CommandView::CreateMatch(pool, players));
            let before = s.queue(pool);
            let after = t.queue(pool);
            &&& after.len() == places.len()
            &&& forall|k: int|
                0 <= k < places.len() ==> {
                    &&& 0 <= #[trigger] places[k] < before.len()
                    &&& after[k] == before[places[k]]
                    &&& !players.contains(before[places[k]])
                }
            &&& forall|k: int, l: int|
                0 <= k < l < places.len() ==> #[trigger] places[k] < #[trigger] places[l]
            &&& forall|i: int|
                0 <= i < before.len() && !players.contains(#[trigger] before[i])
                    ==> places.contains(i)
            &&& pool == PoolType::NormalOneVsOne ==> t.two_vs_two == s.two_vs_two
            &&& pool == PoolType::NormalTwoVsTwo ==> t.one_vs_one == s.one_vs_one
            &&& t.senders == s.senders
            &&& t.next_session_id == s.next_session_id + 1
            &&& forall|id: u32|
                id != s.next_session_id ==> {
                    &&& #[trigger] t.matches.contains_key(id) == s.matches.contains_key(id)
                    &&& s.matches.contains_key(id) ==> t.matches[id] == s.matches[id]
                }
            &&& t.matches.contains_key(s.next_session_id)
            &&& t.matches[s.next_session_id] == MatchView::fresh(s.next_session_id, players)
        }),
{
    let before = s.queue(pool);
    let keep = model::none_of(players);
    let places = lemma_filter_places(before, keep);
    assert forall|i: int|
        0 <= i < before.len() && !players.contains(#[trigger] before[i]) implies places.contains(
        i,
    ) by {
        assert(keep(before[i]));
    }
    places
}

/// Where each player of a list occurs first.
proof fn lemma_first_places(players: Seq<PlayerId>) -> (firsts: Seq<int>)
    ensures
        firsts.len() == model::distinct(players).len(),
        forall|k: int|
            0 <= k < firsts.len() ==> {
                &&& 0 <= #[trigger] firsts[k] < players.len()
                &&& model::distinct(players)[k] == players[firsts[k]]
            },
        forall|k: int, j: int|
            0 <= k < firsts.len() && 0 <= j < firsts[k] ==> #[trigger] players[j]
                != players[#[trigger] firsts[k]],
        forall|k: int, l: int|
            0 <= k < l < firsts.len() ==> #[trigger] firsts[k] < #[trigger] firsts[l],
    decreases players.len(),
{
    if players.len() == 0 {
        Seq::empty()
    } else {
        let front = players.drop_last();
        let last = players.len() - 1;
        let some = lemma_first_places(front);
        let seen = model::distinct(front);
        model::lemma_distinct(front);
        let firsts = if seen.contains(players.last()) {
            some
        } else {
            some.push(last)
        };
        assert forall|k: int| 0 <= k < firsts.len() implies {
            &&& 0 <= #[trigger] firsts[k] < players.len()
            &&& model::distinct(players)[k] == players[firsts[k]]
        } by {
            if k < some.len() {
                assert(firsts[k] == some[k]);
                assert(front[some[k]] == players[some[k]]);
            }
        }
        assert forall|k: int, j: int|
            0 <= k < firsts.len() && 0 <= j < firsts[k] implies #[trigger] players[j]
            != players[#[trigger] firsts[k]] by {
            if k < some.len() {
                assert(firsts[k] == some[k]);
                assert(front[some[k]] == players[some[k]]);
                assert(front[j] == players[j]);
            } else {
                assert(front[j] == players[j]);
                assert(front.contains(front[j]));
                if players[j] == players.last() {
                    assert(seen.contains(players.last()));
                }
            }
        }
        assert forall|k: int, l: int| 0 <= k < l < firsts.len() implies #[trigger] firsts[k]
            < #[trigger] firsts[l] by {
            assert(firsts[k] == some[k]);
            if l < some.len() {
                assert(firsts[l] == some[l]);
            }
        }
        firsts
    }
}

/// The players of a new match are those named for it, each once, in the order in which they were
/// first named, nobody ready and everybody in team 0. `firsts` tells where each was named first. As
/// many places wait as names were given, counted in a byte.
pub proof fn law_new_match_has_the_players_named(session_id: u32, players: Seq<PlayerId>) -> (firsts:
    Seq<int>)
    ensures
        ({
            let m = MatchView::fresh(session_id, players);
            &&& m.session_id == session_id
            &&& m.remaining_ready as int == players.len() % 256
            &&& m.players.len() == firsts.len()
            &&& forall|k: int|
                0 <= k < firsts.len() ==> {
                    &&& 0 <= #[trigger] firsts[k] < players.len()
                    &&& m.players[k].player_id == players[firsts[k]]
                    &&& !m.players[k].ready
                    &&& m.players[k].team == 0
                }
            &&& forall|k: int, j: int|
                0 <= k < firsts.len() && 0 <= j < firsts[k] ==> #[trigger] players[j]
                    != players[#[trigger] firsts[k]]
            &&& forall|k: int, l: int|
                0 <= k < l < firsts.len() ==> #[trigger] firsts[k] < #[trigger] firsts[l]
            &&& forall|player: PlayerId| #[trigger]
                players.contains(player) ==> exists|k: int|
                    0 <= k < m.players.len() && (#[trigger] m.players[k]).player_id == player
        }),
{
    let firsts = lemma_first_places(players);
    model::lemma_distinct(players);
    let m = MatchView::fresh(session_id, players);
    assert forall|player: PlayerId| #[trigger] players.contains(player) implies exists|k: int|
        0 <= k < m.players.len() && (#[trigger] m.players[k]).player_id == player by {
        let seen = model::distinct(players);
        assert(seen.contains(player));
        let k = choose|k: int| 0 <= k < seen.len() && seen[k] == player;
        assert(m.players[k].player_id == player);
    }
    firsts
}

/// A new match is announced to everybody who was named for it, once for each name, and the
/// announcement lists all of them, in team 0, under the id of the match.
pub proof fn law_new_match_is_announced(s: StateView, pool: PoolType, players: Seq<PlayerId>)
    ensures
        ({
            let outcome = s.outcome(CommandView::CreateMatch(pool, players));
            let list = outcome->Deliver_0;
            &&& outcome is Deliver
            &&& list.len() == players.len()
            &&& forall|i: int|
                0 <= i < players.len() ==> {
                    &&& (#[trigger] list[i]).player_id == players[i]
                    &&& list[i].event is MatchFound
                    &&& list[i].event->MatchFound_0.session_id == s.next_session_id
                    &&& list[i].event->MatchFound_0.players.len() == players.len()
                }
            &&& forall|i: int, j: int|
                0 <= i < players.len() && 0 <= j < players.len() ==> {
                    &&& (#[trigger] list[i].event->MatchFound_0.players[j]).player_id == players[j]
                    &&& list[i].event->MatchFound_0.players[j].team == 0
                }
        }),
{
}

/// Whose readiness a match notices: that of its players.
pub proof fn law_who_is_in_a_match(m: MatchView, player: PlayerId)
    ensures
        m.has_player(player) <==> exists|i: int|
            0 <= i < m.players.len() && (#[trigger] m.players[i]).player_id == player,
        m.has_unready(player) <==> exists|i: int|
            0 <= i < m.players.len() && (#[trigger] m.players[i]).player_id == player
                && !m.players[i].ready,
        m.wf() <==> forall|i: int, j: int|
            0 <= i < j < m.players.len() ==> (#[trigger] m.players[i]).player_id != (
            #[trigger] m.players[j]).player_id,
{
}

/// A player who gets ready is ready, and nobody else changes: the players of the match stay who they
/// are, in their order and teams. One place fewer waits if the player was not ready before.
pub proof fn law_getting_ready_marks_the_player(m: MatchView, player: PlayerId)
    ensures
        ({
            let r = m.with_ready(player);
            let waits = exists|i: int|
                0 <= i < m.players.len() && (#[trigger] m.players[i]).player_id == player
                    && !m.players[i].ready;
            &&& r.session_id == m.session_id
            &&& r.players.len() == m.players.len()
            &&& forall|i: int|
                0 <= i < m.players.len() ==> {
                    &&& (#[trigger] r.players[i]).player_id == m.players[i].player_id
                    &&& r.players[i].team == m.players[i].team
                    &&& r.players[i].ready == (m.players[i].ready || m.players[i].player_id
                        == player)
                }
            &&& waits && m.remaining_ready > 0 ==> r.remaining_ready == m.remaining_ready - 1
            &&& !waits ==> r.remaining_ready == m.remaining_ready
        }),
{
}

/// The news that a player of a match is ready changes that match as the player getting ready does,
/// and nothing else: no other match, no queue, no sender, no id.
pub proof fn law_ready_changes_one_match(s: StateView, session: u32, player: PlayerId)
    requires
        s.matches.contains_key(session),
        exists|i: int|
            0 <= i < s.matches[session].players.len() && (
            #[trigger] s.matches[session].players[i]).player_id == player,
    ensures
        ({
            let t = s.after(CommandView::SetPlayerReady(session, player));
            &&& t.matches.contains_key(session)
            &&& t.matches[session] == s.matches[session].with_ready(player)
            &&& forall|id: u32|
                id != session ==> {
                    &&& #[trigger] t.matches.contains_key(id) == s.matches.contains_key(id)
                    &&& s.matches.contains_key(id) ==> t.matches[id] == s.matches[id]
                }
            &&& t.one_vs_one == s.one_vs_one
            &&& t.two_vs_two == s.two_vs_two
            &&& t.senders == s.senders
            &&& t.next_session_id == s.next_session_id
        }),
{
}

/// As long as places wait, everybody in the match, and nobody else, hears that the player is ready:
/// one delivery for each player of the match, in their order.
pub proof fn law_everybody_hears_who_is_ready(s: StateView, session: u32, player: PlayerId)
    requires
        s.matches.contains_key(session),
        exists|i: int|
            0 <= i < s.matches[session].players.len() && (
            #[trigger] s.matches[session].players[i]).player_id == player,
        s.after(CommandView::SetPlayerReady(session, player)).matches[session].remaining_ready > 0,
    ensures
        ({
            let outcome = s.outcome(CommandView::SetPlayerReady(session, player));
            let list = outcome->Deliver_0;
            let m = s.matches[session];
            &&& outcome is Deliver
            &&& list.len() == m.players.len()
            &&& forall|i: int|
                0 <= i < list.len() ==> {
                    &&& (#[trigger] list[i]).player_id == m.players[i].player_id
                    &&& list[i].event == EventView::PlayerReady(player)
                }
        }),
{
}

/// Once no place waits any more, a game session is asked for, for this match and all of its players
/// in their order; nobody hears anything yet.
pub proof fn law_full_match_asks_for_a_session(s: StateView, session: u32, player: PlayerId)
    requires
        s.matches.contains_key(session),
        exists|i: int|
            0 <= i < s.matches[session].players.len() && (
            #[trigger] s.matches[session].players[i]).player_id == player,
        s.after(CommandView::SetPlayerReady(session, player)).matches[session].remaining_ready == 0,
    ensures
        ({
            let outcome = s.outcome(CommandView::SetPlayerReady(session, player));
            let m = s.matches[session];
            &&& outcome is CreateSession
            &&& outcome->session_id == session
            &&& outcome->player_id == player
            &&& outcome->player_ids.len() == m.players.len()
            &&& forall|i: int|
                0 <= i < m.players.len() ==> #[trigger] outcome->player_ids[i]
                    == m.players[i].player_id
        }),
{
}

/// The news that somebody is ready who is in no such match changes nothing, and nobody hears of it.
pub proof fn law_strangers_are_ignored(s: StateView, session: u32, player: PlayerId)
    requires
        s.matches.contains_key(session) ==> forall|i: int|
            0 <= i < s.matches[session].players.len() ==> (
            #[trigger] s.matches[session].players[i]).player_id != player,
    ensures
        s.after(CommandView::SetPlayerReady(session, player)) == s,
        s.outcome(CommandView::SetPlayerReady(session, player)) is Deliver,
        s.outcome(CommandView::SetPlayerReady(session, player))->Deliver_0.len() == 0,
{
}

/// A match that is removed is gone, every other match stays, and nothing else changes. Nobody hears
/// of it.
pub proof fn law_removed_match_is_gone(s: StateView, session: u32)
    ensures
        ({
            let t = s.after(CommandView::RemoveMatch(session));
            &&& !t.matches.contains_key(session)
            &&& forall|id: u32|
                id != session ==> {
                    &&& #[trigger] t.matches.contains_key(id) == s.matches.contains_key(id)
                    &&& s.matches.contains_key(id) ==> t.matches[id] == s.matches[id]
                }
            &&& t.one_vs_one == s.one_vs_one
            &&& t.two_vs_two == s.two_vs_two
            &&& t.senders == s.senders
            &&& t.next_session_id == s.next_session_id
            &&& s.outcome(CommandView::RemoveMatch(session)) is Deliver
            &&& s.outcome(CommandView::RemoveMatch(session))->Deliver_0.len() == 0
        }),
{
}

/// A session that was created starts its match: every player in turn hears who got ready last and
/// then that the match starts, with the id of the match and where the game server is. A session that
/// was not created, or that is for no match, is heard of by nobody.
pub proof fn law_created_session_starts_the_match(s: StateView, session: u32, player: PlayerId)
    ensures
        s.session_answered(session, player, false).len() == 0,
        !s.matches.contains_key(session) ==> s.session_answered(session, player, true).len() == 0,
        s.matches.contains_key(session) ==> {
            let list = s.session_answered(session, player, true);
            let m = s.matches[session];
            &&& list.len() == 2 * m.players.len()
            &&& forall|i: int|
                0 <= i < m.players.len() ==> {
                    let to = (#[trigger] m.players[i]).player_id;
                    let start = list[2 * i + 1].event;
                    &&& list[2 * i].player_id == to
                    &&& list[2 * i].event == EventView::PlayerReady(player)
                    &&& list[2 * i + 1].player_id == to
                    &&& start is MatchStart
                    &&& start->MatchStart_0.session_id == m.session_id
                    &&& start->MatchStart_0.tps_server_address == "192.168.1.151"@
                    &&& start->MatchStart_0.tps_server_port == 5001
                }
        },
{
}

} // verus!
