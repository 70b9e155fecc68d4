//! What holds of players who get ready and of matches that start.
use crate::model;
use crate::model::{MatchView, StateView};
use crate::types::{
    CommandView, DeliveryView, EventView, MatchStartView, OutcomeView, PlayerId, PlayerMatchView,
};
use vstd::prelude::*;

verus! {

/// Nobody is left to wait for exactly when everybody is ready.
proof fn lemma_unready_none(players: Seq<PlayerMatchView>)
    ensures
        model::unready_among(players) == 0 <==> forall|i: int|
            0 <= i < players.len() ==> (#[trigger] players[i]).ready,
    decreases players.len(),
{
    if players.len() > 0 {
        let front = players.drop_last();
        lemma_unready_none(front);
        assert(forall|i: int| 0 <= i < front.len() ==> #[trigger] front[i] == players[i]);
        if model::unready_among(players) == 0 {
            assert forall|i: int| 0 <= i < players.len() implies (#[trigger] players[i]).ready by {
                if i < front.len() {
                    assert(front[i].ready);
                } else {
                    assert(players[i] == players.last());
                }
            }
        }
    }
}

/// The players of a match once `player` is ready.
spec fn made_ready(players: Seq<PlayerMatchView>, player: PlayerId) -> Seq<PlayerMatchView> {
    (MatchView { session_id: 0, players, remaining_ready: 0 }).with_ready(player).players
}

/// Getting ready takes one off the count of those who are not, if the player was one of them.
proof fn lemma_unready_made_ready(players: Seq<PlayerMatchView>, player: PlayerId)
    requires
        (MatchView { session_id: 0, players, remaining_ready: 0 }).wf(),
    ensures
        model::unready_among(players) == model::unready_among(made_ready(players, player)) + (if (
        MatchView { session_id: 0, players, remaining_ready: 0 }).has_unready(player) {
            1int
        } else {
            0int
        }),
    decreases players.len(),
{
    let m = MatchView { session_id: 0, players, remaining_ready: 0 };
    if players.len() > 0 {
        let front = players.drop_last();
        let f = MatchView { session_id: 0, players: front, remaining_ready: 0 };
        let last = players.last();
        assert forall|i: int, j: int| 0 <= i < j < front.len() implies (
        #[trigger] front[i]).player_id != (#[trigger] front[j]).player_id by {
            assert(front[i] == m.players[i] && front[j] == m.players[j]);
        }
        lemma_unready_made_ready(front, player);
        assert(made_ready(players, player).drop_last() =~= made_ready(front, player));
        if last.player_id == player {
            assert(!f.has_unready(player)) by {
                if f.has_unready(player) {
                    let i = choose|i: int|
                        0 <= i < front.len() && (#[trigger] front[i]).player_id == player
                            && !front[i].ready;
                    assert(players[i].player_id != players[players.len() - 1].player_id);
                }
            }
            assert(m.has_unready(player) == !last.ready) by {
                if !last.ready {
                    assert(players[players.len() - 1].player_id == player);
                }
                if m.has_unready(player) {
                    let i = choose|i: int|
                        0 <= i < players.len() && (#[trigger] players[i]).player_id == player
                            && !players[i].ready;
                    if i < front.len() {
                        assert(front[i] == players[i]);
                    }
                }
            }
        } else {
            assert(m.has_unready(player) == f.has_unready(player)) by {
                if m.has_unready(player) {
                    let i = choose|i: int|
                        0 <= i < players.len() && (#[trigger] players[i]).player_id == player
                            && !players[i].ready;
                    assert(front[i] == players[i]);
                }
                if f.has_unready(player) {
                    let i = choose|i: int|
                        0 <= i < front.len() && (#[trigger] front[i]).player_id == player
                            && !front[i].ready;
                    assert(players[i] == front[i]);
                }
            }
        }
    }
}

/// `lemma_unready_made_ready`, of a match.
pub proof fn lemma_with_ready_unready(m: MatchView, player: PlayerId)
    requires
        m.wf(),
    ensures
        m.unready() == m.with_ready(player).unready() + (if m.has_unready(player) {
            1int
        } else {
            0int
        }),
{
    let bare = MatchView { session_id: 0, players: m.players, remaining_ready: 0 };
    assert(bare.wf());
    lemma_unready_made_ready(m.players, player);
    assert(made_ready(m.players, player) =~= m.with_ready(player).players);
    assert(bare.has_unready(player) == m.has_unready(player));
}

/// A new match waits for all of its players.
pub proof fn lemma_fresh_unready(session_id: u32, players: Seq<PlayerId>)
    ensures
        MatchView::fresh(session_id, players).unready() == model::distinct(players).len(),
{
    lemma_all_unready(MatchView::fresh(session_id, players).players);
}

proof fn lemma_all_unready(players: Seq<PlayerMatchView>)
    requires
        forall|i: int| 0 <= i < players.len() ==> !(#[trigger] players[i]).ready,
    ensures
        model::unready_among(players) == players.len(),
    decreases players.len(),
{
    if players.len() > 0 {
        lemma_all_unready(players.drop_last());
    }
}

/// Whether the places that a match waits for are its players who are not ready.
pub open spec fn counts_exactly(m: MatchView) -> bool {
    m.remaining_ready == m.unready()
}

/// A match of distinct players, no more than a byte can count, starts out with an exact count.
pub proof fn law_new_match_counts_exactly(session_id: u32, players: Seq<PlayerId>)
    requires
        players.no_duplicates(),
        players.len() < 256,
    ensures
        counts_exactly(MatchView::fresh(session_id, players)),
{
    model::lemma_distinct(players);
    lemma_fresh_unready(session_id, players);
}

/// A player who gets ready keeps the count exact.
pub proof fn law_ready_counts_exactly(m: MatchView, player: PlayerId)
    requires
        m.wf(),
        counts_exactly(m),
    ensures
        counts_exactly(m.with_ready(player)),
{
    lemma_with_ready_unready(m, player);
}

/// A match starts when, and only when, its last player gets ready: with an exact count, the news
/// of a ready player leads to the request for a game session exactly if everybody is ready then.
/// The request names the match and all of its players.
pub proof fn law_match_starts_when_all_ready(s: StateView, session: u32, player: PlayerId)
    requires
        s.wf(),
        s.matches.contains_key(session),
        s.matches[session].has_player(player),
        counts_exactly(s.matches[session]),
    ensures
        s.accepts(CommandView::SetPlayerReady(session, player)),
        s.outcome(CommandView::SetPlayerReady(session, player)) is CreateSession <==> s.after(
            CommandView::SetPlayerReady(session, player),
        ).matches[session].all_ready(),
        s.outcome(CommandView::SetPlayerReady(session, player)) is CreateSession ==> s.outcome(
            CommandView::SetPlayerReady(session, player),
        ) == (OutcomeView::CreateSession {
            session_id: session,
            player_id: player,
            player_ids: s.matches[session].player_ids(),
        }),
{
    let m = s.matches[session];
    lemma_with_ready_unready(m, player);
    law_ready_counts_exactly(m, player);
    lemma_unready_none(m.with_ready(player).players);
    assert(m.with_ready(player).player_ids() =~= m.player_ids());
}

/// To get ready is final and counts once: whoever is ready stays so, and saying it again changes
/// nothing.
pub proof fn law_ready_twice_is_once(s: StateView, session: u32, player: PlayerId)
    requires
        s.accepts(CommandView::SetPlayerReady(session, player)),
    ensures
        s.after(CommandView::SetPlayerReady(session, player)).accepts(
            CommandView::SetPlayerReady(session, player),
        ),
        s.after(CommandView::SetPlayerReady(session, player)).after(
            CommandView::SetPlayerReady(session, player),
        ) == s.after(CommandView::SetPlayerReady(session, player)),
{
    let once = s.after(CommandView::SetPlayerReady(session, player));
    if s.matches.contains_key(session) && s.matches[session].has_player(player) {
        let m = s.matches[session];
        let r = m.with_ready(player);
        assert(!r.has_unready(player)) by {
            if r.has_unready(player) {
                let i = choose|i: int|
                    0 <= i < r.players.len() && (#[trigger] r.players[i]).player_id == player
                        && !r.players[i].ready;
                assert(r.players[i].ready);
            }
        }
        assert(r.with_ready(player).players =~= r.players);
        assert(once.after(CommandView::SetPlayerReady(session, player)).matches
            =~= once.matches.insert(session, r));
        assert(once.matches.insert(session, r) =~= once.matches);
    }
}

/// Nobody who is ready ever stops being so by a command that keeps their match.
pub proof fn law_ready_stays(s: StateView, command: CommandView, session: u32, i: int)
    requires
        s.wf(),
        s.accepts(command),
        s.matches.contains_key(session),
        s.after(command).matches.contains_key(session),
        0 <= i < s.matches[session].players.len(),
        s.matches[session].players[i].ready,
    ensures
        s.after(command).matches[session].players.len() == s.matches[session].players.len(),
        s.after(command).matches[session].players[i] == s.matches[session].players[i],
{
}

/// A request for a game session that failed can be repeated: as long as the match is there and
/// all of its places are taken, any of its players gets it asked for again.
pub proof fn law_failed_start_can_be_retried(s: StateView, session: u32, player: PlayerId)
    requires
        s.matches.contains_key(session),
        s.matches[session].remaining_ready == 0,
        s.matches[session].all_ready(),
        s.matches[session].has_player(player),
    ensures
        s.accepts(CommandView::SetPlayerReady(session, player)),
        s.outcome(CommandView::SetPlayerReady(session, player)) == (OutcomeView::CreateSession {
            session_id: session,
            player_id: player,
            player_ids: s.matches[session].player_ids(),
        }),
{
    let m = s.matches[session];
    assert(!m.has_unready(player));
    assert(m.with_ready(player).player_ids() =~= m.player_ids());
}

/// A failed request for a game session is kept from the players: nobody hears of anything.
pub proof fn law_failed_start_is_silent(s: StateView, session: u32, player: PlayerId)
    ensures
        s.session_answered(session, player, false).len() == 0,
{
}

/// When a match starts, every player of it is told twice: that the last player is ready, and right
/// after that where the game is.
pub proof fn law_start_reaches_everybody(s: StateView, session: u32, player: PlayerId, i: int)
    requires
        s.wf(),
        s.matches.contains_key(session),
        0 <= i < s.matches[session].players.len(),
    ensures
        ({
            let list = s.session_answered(session, player, true);
            let to = s.matches[session].players[i].player_id;
            &&& list.len() == 2 * s.matches[session].players.len()
            &&& list[2 * i] == (DeliveryView {
                player_id: to,
                event: EventView::PlayerReady(player),
            })
            &&& list[2 * i + 1] == (DeliveryView {
                player_id: to,
                event: EventView::MatchStart(
                    MatchStartView {
                        session_id: session,
                        tps_server_address: "192.168.1.151"@,
                        tps_server_port: 5001,
                    },
                ),
            })
        }),
{
}

/// Players who are not in a match, and matches that are not there, make no difference.
pub proof fn law_stranger_changes_nothing(s: StateView, session: u32, player: PlayerId)
    requires
        s.matches.contains_key(session) ==> !s.matches[session].has_player(player),
    ensures
        s.accepts(CommandView::SetPlayerReady(session, player)),
        s.after(CommandView::SetPlayerReady(session, player)) == s,
        s.outcome(CommandView::SetPlayerReady(session, player)) == OutcomeView::Deliver(
            Seq::empty(),
        ),
{
    if s.matches.contains_key(session) {
        let m = s.matches[session];
        assert(!m.has_unready(player));
    }
}

/// The state after the players of `order` got ready for a match, one after the other.
pub open spec fn after_ready(s: StateView, session: u32, order: Seq<PlayerId>) -> StateView
    decreases order.len(),
{
    if order.len() == 0 {
        s
    } else {
        after_ready(s, session, order.drop_last()).after(
            CommandView::SetPlayerReady(session, order.last()),
        )
    }
}

/// The players of a new match may get ready in any order. Each of them takes one place, whoever
/// they are, so the match waits for exactly those who have not got ready: once all have, it waits
/// for nobody.
pub proof fn law_any_order_starts_the_match(
    s: StateView,
    session: u32,
    players: Seq<PlayerId>,
    order: Seq<PlayerId>,
)
    requires
        s.matches.contains_key(session),
        s.matches[session] == MatchView::fresh(session, players),
        players.no_duplicates(),
        players.len() < 256,
        order.no_duplicates(),
        forall|i: int| 0 <= i < order.len() ==> players.contains(#[trigger] order[i]),
    ensures
        after_ready(s, session, order).matches.contains_key(session),
        after_ready(s, session, order).matches[session].remaining_ready == players.len()
            - order.len(),
        after_ready(s, session, order).matches[session].player_ids() == players,
        forall|i: int|
            0 <= i < players.len() ==> (#[trigger] after_ready(
                s,
                session,
                order,
            ).matches[session].players[i]).ready == order.contains(players[i]),
    decreases order.len(),
{
    let t = after_ready(s, session, order);
    lemma_no_longer(order, players);
    model::lemma_distinct(players);
    if order.len() == 0 {
        assert(t.matches[session].player_ids() =~= players);
    } else {
        let front = order.drop_last();
        let last = order.last();
        assert forall|i: int| 0 <= i < front.len() implies players.contains(#[trigger] front[i]) by {
            assert(front[i] == order[i]);
        }
        law_any_order_starts_the_match(s, session, players, front);
        let m = after_ready(s, session, front).matches[session];
        assert(players.contains(order[order.len() - 1]));
        let at = choose|i: int| 0 <= i < players.len() && players[i] == last;
        assert(m.player_ids()[at] == m.players[at].player_id);
        assert(!front.contains(last));
        assert(!m.players[at].ready);
        assert(m.has_unready(last));
        assert(m.has_player(last));
        let r = m.with_ready(last);
        assert(r.player_ids() =~= players) by {
            assert(r.player_ids() =~= m.player_ids());
        }
        assert forall|i: int| 0 <= i < players.len() implies (#[trigger] r.players[i]).ready
            == order.contains(players[i]) by {
            assert(m.player_ids()[i] == m.players[i].player_id);
            assert(m.players[i].ready == front.contains(players[i]));
            assert(order.contains(players[i]) <==> front.contains(players[i]) || players[i] == last)
                by {
                assert(order[order.len() - 1] == last);
                if front.contains(players[i]) {
                    let k = choose|k: int| 0 <= k < front.len() && front[k] == players[i];
                    assert(order[k] == players[i]);
                }
                if order.contains(players[i]) && players[i] != last {
                    let k = choose|k: int| 0 <= k < order.len() && order[k] == players[i];
                    assert(front[k] == players[i]);
                }
            }
        }
    }
}

/// A list without repetitions of members of another is no longer than that.
proof fn lemma_no_longer(some: Seq<PlayerId>, all: Seq<PlayerId>)
    requires
        some.no_duplicates(),
        forall|i: int| 0 <= i < some.len() ==> all.contains(#[trigger] some[i]),
    ensures
        some.len() <= all.len(),
{
    some.unique_seq_to_set();
    vstd::seq_lib::seq_to_set_is_finite(all);
    all.lemma_cardinality_of_set();
    assert(some.to_set().subset_of(all.to_set()));
    vstd::set_lib::lemma_len_subset(some.to_set(), all.to_set());
}

} // verus!
