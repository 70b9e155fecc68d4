//! What holds of the matches and their ids.
use crate::model;
use crate::model::StateView;
use crate::types::{CommandView, PlayerId, PoolType};
use vstd::prelude::*;

verus! {

/// Every command keeps the state well-formed: matches stay stored under ids of their own that were
/// given out before, and no match has a player twice.
pub proof fn law_command_keeps_wf(s: StateView, command: CommandView)
    requires
        s.wf(),
        s.accepts(command),
    ensures
        s.after(command).wf(),
{
    let t = s.after(command);
    assert forall|id: u32| #[trigger] t.matches.contains_key(id) implies {
        &&& id < t.next_session_id
        &&& t.matches[id].session_id == id
        &&& t.matches[id].wf()
    } by {
        match command {
            CommandView::CreateMatch(_, players) => {
                model::lemma_fresh_wf(s.next_session_id, players);
                if id != s.next_session_id {
                    assert(s.matches.contains_key(id));
                }
            },
            CommandView::SetPlayerReady(session, player) => {
                assert(s.matches.contains_key(id));
                let m = s.matches[id];
                assert(m.wf());
                assert(m.with_ready(player).wf()) by {
                    let r = m.with_ready(player);
                    assert forall|i: int, j: int| 0 <= i < j < r.players.len() implies (
                    #[trigger] r.players[i]).player_id != (#[trigger] r.players[j]).player_id by {
                        assert(r.players[i].player_id == m.players[i].player_id);
                        assert(r.players[j].player_id == m.players[j].player_id);
                    }
                }
            },
            _ => {
                assert(s.matches.contains_key(id));
            },
        }
    }
}

/// Ids are given out in order, and a new match takes the place of no other: its id is not in use,
/// and all other matches stay as they are.
pub proof fn law_new_match_has_new_id(s: StateView, pool: PoolType, players: Seq<PlayerId>)
    requires
        s.wf(),
        s.accepts(CommandView::CreateMatch(pool, players)),
    ensures
        !s.matches.contains_key(s.next_session_id),
        s.after(CommandView::CreateMatch(pool, players)).next_session_id == s.next_session_id + 1,
        s.after(CommandView::CreateMatch(pool, players)).matches.contains_key(s.next_session_id),
        forall|id: u32| #[trigger]
            s.matches.contains_key(id) ==> {
                &&& s.after(CommandView::CreateMatch(pool, players)).matches.contains_key(id)
                &&& s.after(CommandView::CreateMatch(pool, players)).matches[id] == s.matches[id]
            },
{
}

/// No command ever gives an id back.
pub proof fn law_session_ids_only_grow(s: StateView, command: CommandView)
    requires
        s.accepts(command),
    ensures
        s.next_session_id <= s.after(command).next_session_id,
{
}

} // verus!
