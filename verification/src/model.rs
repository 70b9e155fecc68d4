//! The matchmaker as a mathematical state machine.
//!
//! A [`StateView`] is what the matchmaker knows. The functions on it say what each operation makes
//! of the state and what is left to be done outside. The contracts of `match_making` are stated
//! over them, and so are the laws of `laws`.
use crate::types::{
    CommandView, DeliveryView, EventView, MatchFoundPlayerView, MatchFoundView, MatchStartView,
    MatchmakingEvent, OutcomeView, PlayerId, PlayerMatchView, PoolType,
};
use tokio::sync::mpsc;
use vstd::prelude::*;

verus! {

/// The port that the game server listens on.
pub const TPS_SERVER_PORT: u16 = 5001;

/// The address of the game server.
pub open spec fn tps_server_address() -> Seq<char> {
    "192.168.1.151"@
}

/// How many players make up a match of one against one.
pub const ONE_VS_ONE_PLAYERS: usize = 2;

/// How many players make up a match of two against two.
pub const TWO_VS_TWO_PLAYERS: usize = 4;

/// A list without its repetitions: each player stands where they stood first.
pub open spec fn distinct(players: Seq<PlayerId>) -> Seq<PlayerId>
    decreases players.len(),
{
    if players.len() == 0 {
        Seq::empty()
    } else {
        let front = distinct(players.drop_last());
        if front.contains(players.last()) {
            front
        } else {
            front.push(players.last())
        }
    }
}

/// `distinct` keeps who is in the list and no more, each once; a list without repetitions is left as
/// it is.
pub proof fn lemma_distinct(players: Seq<PlayerId>)
    ensures
        distinct(players).no_duplicates(),
        distinct(players).len() <= players.len(),
        forall|player: PlayerId|
            distinct(players).contains(player) <==> #[trigger] players.contains(player),
        players.no_duplicates() ==> distinct(players) == players,
    decreases players.len(),
{
    if players.len() > 0 {
        let front = players.drop_last();
        let last = players.last();
        lemma_distinct(front);
        assert(players =~= front.push(last));
        assert forall|player: PlayerId|
            distinct(players).contains(player) <==> #[trigger] players.contains(player) by {
            assert(players.contains(player) <==> front.contains(player) || player == last) by {
                assert(players[players.len() - 1] == last);
                if front.contains(player) {
                    let i = choose|i: int| 0 <= i < front.len() && front[i] == player;
                    assert(players[i] == player);
                }
            }
            if !distinct(front).contains(last) {
                let longer = distinct(front).push(last);
                assert(longer[distinct(front).len() as int] == last);
                if distinct(front).contains(player) {
                    let i = choose|i: int|
                        0 <= i < distinct(front).len() && distinct(front)[i] == player;
                    assert(longer[i] == player);
                }
            }
        }
        if players.no_duplicates() {
            assert(front.no_duplicates());
            assert(!front.contains(last));
        }
    }
}

/// The test for anyone but `player`.
pub open spec fn other_than(player: PlayerId) -> spec_fn(PlayerId) -> bool {
    |waiting: PlayerId| waiting != player
}

/// The test for anyone but `players`.
pub open spec fn none_of(players: Seq<PlayerId>) -> spec_fn(PlayerId) -> bool {
    |waiting: PlayerId| !players.contains(waiting)
}

/// A queue without any entry of `player`; the others keep their order.
pub open spec fn without(queue: Seq<PlayerId>, player: PlayerId) -> Seq<PlayerId> {
    queue.filter(other_than(player))
}

/// A queue without any entry of any of `players`; the others keep their order.
pub open spec fn without_all(queue: Seq<PlayerId>, players: Seq<PlayerId>) -> Seq<PlayerId> {
    queue.filter(none_of(players))
}

/// Taking nobody out changes nothing.
pub proof fn lemma_without_all_none(queue: Seq<PlayerId>, players: Seq<PlayerId>)
    requires
        players.len() == 0,
    ensures
        without_all(queue, players) == queue,
    decreases queue.len(),
{
    reveal(Seq::filter);
    if queue.len() > 0 {
        lemma_without_all_none(queue.drop_last(), players);
        assert(queue =~= queue.drop_last().push(queue.last()));
    }
}

/// Taking several players out is taking them out one after the other.
pub proof fn lemma_without_all_push(
    queue: Seq<PlayerId>,
    players: Seq<PlayerId>,
    player: PlayerId,
)
    ensures
        without(without_all(queue, players), player) == without_all(queue, players.push(player)),
    decreases queue.len(),
{
    reveal(Seq::filter);
    if queue.len() > 0 {
        let last = queue.last();
        let front = without_all(queue.drop_last(), players);
        lemma_without_all_push(queue.drop_last(), players, player);
        assert(players.push(player).contains(last) <==> players.contains(last) || last == player)
            by {
            assert(players.push(player)[players.len() as int] == player);
            if players.contains(last) {
                let i = choose|i: int| 0 <= i < players.len() && players[i] == last;
                assert(players.push(player)[i] == last);
            }
        }
        if !players.contains(last) {
            assert(front.push(last).drop_last() =~= front);
        }
    }
}

/// How many whole groups of `size` a queue holds.
pub open spec fn group_count(queue: Seq<PlayerId>, size: int) -> int {
    queue.len() as int / size
}

/// The `i`-th group of `size`, counted from the front of the queue.
pub open spec fn group(queue: Seq<PlayerId>, size: int, i: int) -> Seq<PlayerId> {
    queue.subrange(i * size, i * size + size)
}

/// The first `n` groups of `size`, counted from the front of the queue.
pub open spec fn groups(queue: Seq<PlayerId>, size: int, n: int) -> Seq<Seq<PlayerId>> {
    Seq::new(n as nat, |i: int| group(queue, size, i))
}

/// The commands that turn the whole groups of a queue into matches, front first.
pub open spec fn group_commands(pool: PoolType, queue: Seq<PlayerId>, size: int) -> Seq<
    CommandView,
> {
    Seq::new(
        group_count(queue, size) as nat,
        |i: int| CommandView::CreateMatch(pool, group(queue, size, i)),
    )
}

/// What stays in a queue when its whole groups are taken off the front.
pub open spec fn leftover(queue: Seq<PlayerId>, size: int) -> Seq<PlayerId> {
    queue.skip(group_count(queue, size) * size)
}

/// How many of `players` are not ready.
pub open spec fn unready_among(players: Seq<PlayerMatchView>) -> nat
    decreases players.len(),
{
    if players.len() == 0 {
        0
    } else {
        unready_among(players.drop_last()) + if players.last().ready {
            0nat
        } else {
            1nat
        }
    }
}

/// A match and how far its players have got.
pub struct MatchView {
    pub session_id: u32,
    /// Its players, each once, in the order in which the match was announced.
    pub players: Seq<PlayerMatchView>,
    /// How many of the places of the match still wait for a player to get ready.
    pub remaining_ready: u8,
}

impl MatchView {
    /// A match as it is created: nobody is ready, everybody is in team 0, and as many places wait
    /// as players were named, counted in a byte.
    pub open spec fn fresh(session_id: u32, players: Seq<PlayerId>) -> MatchView {
        MatchView {
            session_id,
            players: distinct(players).map_values(
                |player: PlayerId| PlayerMatchView { player_id: player, ready: false, team: 0 },
            ),
            remaining_ready: (players.len() % 256) as u8,
        }
    }

    /// No player occurs twice.
    pub open spec fn wf(self) -> bool {
        forall|i: int, j: int|
            0 <= i < j < self.players.len() ==> (#[trigger] self.players[i]).player_id != (
            #[trigger] self.players[j]).player_id
    }

    /// Whether everybody is ready.
    pub open spec fn all_ready(self) -> bool {
        forall|i: int| 0 <= i < self.players.len() ==> (#[trigger] self.players[i]).ready
    }

    /// How many of its players are not ready.
    pub open spec fn unready(self) -> nat {
        unready_among(self.players)
    }

    /// The ids of its players.
    pub open spec fn player_ids(self) -> Seq<PlayerId> {
        self.players.map_values(|info: PlayerMatchView| info.player_id)
    }

    /// Whether `player` is one of its players.
    pub open spec fn has_player(self, player: PlayerId) -> bool {
        exists|i: int|
            0 <= i < self.players.len() && (#[trigger] self.players[i]).player_id == player
    }

    /// Whether `player` is one of its players and not ready.
    pub open spec fn has_unready(self, player: PlayerId) -> bool {
        exists|i: int|
            0 <= i < self.players.len() && (#[trigger] self.players[i]).player_id == player
                && !self.players[i].ready
    }

    /// The match once `player` is ready. A player who gets ready frees a place; one who was ready
    /// already changes nothing.
    pub open spec fn with_ready(self, player: PlayerId) -> MatchView {
        MatchView {
            session_id: self.session_id,
            players: self.players.map_values(
                |info: PlayerMatchView|
                    PlayerMatchView { ready: info.ready || info.player_id == player, ..info },
            ),
            remaining_ready: if self.has_unready(player) {
                (self.remaining_ready - 1) as u8
            } else {
                self.remaining_ready
            },
        }
    }

    /// Every player hears that `player` is ready.
    pub open spec fn ready_deliveries(self, player: PlayerId) -> Seq<DeliveryView> {
        self.players.map_values(
            |info: PlayerMatchView|
                DeliveryView { player_id: info.player_id, event: EventView::PlayerReady(player) },
        )
    }

    /// Every player in turn hears that `player` is ready and then that the match starts.
    pub open spec fn start_deliveries(self, player: PlayerId) -> Seq<DeliveryView> {
        Seq::new(
            2 * self.players.len(),
            |k: int|
                DeliveryView {
                    player_id: self.players[k / 2].player_id,
                    event: if k % 2 == 0 {
                        EventView::PlayerReady(player)
                    } else {
                        EventView::MatchStart(
                            MatchStartView {
                                session_id: self.session_id,
                                tps_server_address: tps_server_address(),
                                tps_server_port: TPS_SERVER_PORT,
                            },
                        )
                    },
                },
        )
    }
}

/// A match as it is created has no player twice.
pub proof fn lemma_fresh_wf(session_id: u32, players: Seq<PlayerId>)
    ensures
        MatchView::fresh(session_id, players).wf(),
{
    lemma_distinct(players);
}

/// The announcement of a match to each of the players that were named for it.
pub open spec fn found_deliveries(session_id: u32, players: Seq<PlayerId>) -> Seq<DeliveryView> {
    let found = MatchFoundView {
        session_id,
        players: players.map_values(
            |player: PlayerId| MatchFoundPlayerView { player_id: player, team: 0 },
        ),
    };
    players.map_values(
        |player: PlayerId|
            DeliveryView { player_id: player, event: EventView::MatchFound(found) },
    )
}

/// What the matchmaker knows.
pub struct StateView {
    /// The id of the next match.
    pub next_session_id: u32,
    /// Who waits for a match of one against one, first come first.
    pub one_vs_one: Seq<PlayerId>,
    /// Who waits for a match of two against two, first come first.
    pub two_vs_two: Seq<PlayerId>,
    /// The matches by their ids.
    pub matches: Map<u32, MatchView>,
    /// Where the events of each player go that ever joined.
    pub senders: Map<PlayerId, mpsc::Sender<MatchmakingEvent>>,
}

impl StateView {
    /// The state that the matchmaker starts in.
    pub open spec fn init() -> StateView {
        StateView {
            next_session_id: 0,
            one_vs_one: Seq::empty(),
            two_vs_two: Seq::empty(),
            matches: Map::empty(),
            senders: Map::empty(),
        }
    }

    /// Every match is stored under its own id, ids come before the next one, and no match has a
    /// player twice.
    pub open spec fn wf(self) -> bool {
        forall|id: u32| #[trigger]
            self.matches.contains_key(id) ==> {
                &&& id < self.next_session_id
                &&& self.matches[id].session_id == id
                &&& self.matches[id].wf()
            }
    }

    /// Who waits in a pool.
    pub open spec fn queue(self, pool: PoolType) -> Seq<PlayerId> {
        match pool {
            PoolType::NormalOneVsOne => self.one_vs_one,
            PoolType::NormalTwoVsTwo => self.two_vs_two,
        }
    }

    /// The state with another queue in `pool`.
    pub open spec fn with_queue(self, pool: PoolType, queue: Seq<PlayerId>) -> StateView {
        match pool {
            PoolType::NormalOneVsOne => StateView { one_vs_one: queue, ..self },
            PoolType::NormalTwoVsTwo => StateView { two_vs_two: queue, ..self },
        }
    }

    /// `player` queues up at the end of `pool`; their events go to `sender` from now on.
    pub open spec fn add_player(
        self,
        pool: PoolType,
        player: PlayerId,
        sender: mpsc::Sender<MatchmakingEvent>,
    ) -> StateView {
        StateView {
            senders: self.senders.insert(player, sender),
            ..self.with_queue(pool, self.queue(pool).push(player))
        }
    }

    /// Whether the matchmaker can carry a command out: an id is left for a match to be created,
    /// and a place waits for a player who gets ready.
    pub open spec fn accepts(self, command: CommandView) -> bool {
        match command {
            CommandView::CreateMatch(_, _) => self.next_session_id < u32::MAX,
            CommandView::SetPlayerReady(session, player) => self.matches.contains_key(session)
                && self.matches[session].has_unready(player)
                ==> self.matches[session].remaining_ready > 0,
            _ => true,
        }
    }

    /// The state after a command.
    pub open spec fn after(self, command: CommandView) -> StateView {
        match command {
            CommandView::RemovePlayer(pool, player) => self.with_queue(
                pool,
                without(self.queue(pool), player),
            ),
            CommandView::CreateMatch(pool, players) => StateView {
                next_session_id: (self.next_session_id + 1) as u32,
                matches: self.matches.insert(
                    self.next_session_id,
                    MatchView::fresh(self.next_session_id, players),
                ),
                ..self.with_queue(pool, without_all(self.queue(pool), players))
            },
            CommandView::SetPlayerReady(session, player) => if self.matches.contains_key(session)
                && self.matches[session].has_player(player) {
                StateView {
                    matches: self.matches.insert(session, self.matches[session].with_ready(player)),
                    ..self
                }
            } else {
                self
            },
            CommandView::RemoveMatch(session) => StateView {
                matches: self.matches.remove(session),
                ..self
            },
        }
    }

    /// What is left to do after a command that came in this state.
    pub open spec fn outcome(self, command: CommandView) -> OutcomeView {
        match command {
            CommandView::CreateMatch(_, players) => OutcomeView::Deliver(
                found_deliveries(self.next_session_id, players),
            ),
            CommandView::SetPlayerReady(session, player) => if self.matches.contains_key(session)
                && self.matches[session].has_player(player) {
                let ready = self.matches[session].with_ready(player);
                if ready.remaining_ready == 0 {
                    OutcomeView::CreateSession {
                        session_id: session,
                        player_id: player,
                        player_ids: ready.player_ids(),
                    }
                } else {
                    OutcomeView::Deliver(ready.ready_deliveries(player))
                }
            } else {
                OutcomeView::Deliver(Seq::empty())
            },
            _ => OutcomeView::Deliver(Seq::empty()),
        }
    }

    /// What is left to send once the request for the game session of a match, made when `player`
    /// got ready, is answered.
    pub open spec fn session_answered(self, session: u32, player: PlayerId, created: bool) -> Seq<
        DeliveryView,
    > {
        if created && self.matches.contains_key(session) {
            self.matches[session].start_deliveries(player)
        } else {
            Seq::empty()
        }
    }

    /// The state once the whole groups of `size` of a pool are taken off its queue.
    pub open spec fn grouped(self, pool: PoolType, size: int) -> StateView {
        self.with_queue(pool, leftover(self.queue(pool), size))
    }

    /// The state after a round of matchmaking.
    pub open spec fn after_round(self) -> StateView {
        self.grouped(PoolType::NormalOneVsOne, ONE_VS_ONE_PLAYERS as int).grouped(
            PoolType::NormalTwoVsTwo,
            TWO_VS_TWO_PLAYERS as int,
        )
    }

    /// The commands that a round of matchmaking issues.
    pub open spec fn round_commands(self) -> Seq<CommandView> {
        group_commands(PoolType::NormalOneVsOne, self.one_vs_one, ONE_VS_ONE_PLAYERS as int)
            + group_commands(PoolType::NormalTwoVsTwo, self.two_vs_two, TWO_VS_TWO_PLAYERS as int)
    }
}

} // verus!
