//! The matchmaker: who waits, which matches there are, and what each command does to them.
use crate::laws::sessions;
use crate::model;
use crate::model::{
    MatchView, StateView, ONE_VS_ONE_PLAYERS, TPS_SERVER_PORT, TWO_VS_TWO_PLAYERS,
};
use crate::types;
use crate::types::{
    CommandOutcome, CommandView, Delivery, MatchFoundInfo, MatchFoundPlayerInfo,
    MatchFoundPlayerView, MatchStartInfo, MatchmakingCommand, MatchmakingEvent, OutcomeView,
    PlayerId, PlayerMatchInfo, PlayerMatchView, PlayerQueue, PoolType,
};
use std::collections::{HashMap, VecDeque};
use tokio::sync::mpsc;
use vstd::hash_map::StringHashMap;
use vstd::prelude::*;

verus! {

/// The players of one match, each once, found by their ids and walked in the order in which they
/// were put in.
#[derive(Debug, Clone)]
pub struct PlayerMatchInfoMap {
    entries: Vec<PlayerMatchInfo>,
}

impl View for PlayerMatchInfoMap {
    type V = Seq<PlayerMatchView>;

    closed spec fn view(&self) -> Seq<PlayerMatchView> {
        self.entries@.map_values(|info: PlayerMatchInfo| info@)
    }
}

impl PlayerMatchInfoMap {
    /// The place of a player in the order, if they are in the map.
    fn position(&self, player_id: &String) -> (position: Option<usize>)
        ensures
            match position {
                Some(i) => i < self@.len() && self@[i as int].player_id == player_id@,
                None => forall|i: int|
                    0 <= i < self@.len() ==> (#[trigger] self@[i]).player_id != player_id@,
            },
    {
        let mut i: usize = 0;
        while i < self.entries.len()
            invariant
                i <= self.entries.len(),
                forall|j: int| 0 <= j < i ==> (#[trigger] self@[j]).player_id != player_id@,
            decreases self.entries.len() - i,
        {
            if self.entries[i].player_id == *player_id {
                return Some(i);
            }
            i = i + 1;
        }
        None
    }

    /// Everyone of `players`, not ready and in team 0.
    pub fn from_players(players: &Vec<String>) -> (map: PlayerMatchInfoMap)
        ensures
            map@ == MatchView::fresh(0, types::ids(players@)).players,
    {
        let mut map = PlayerMatchInfoMap { entries: Vec::new() };
        let ghost all = types::ids(players@);
        let mut i: usize = 0;
        assert(all.take(0) =~= Seq::empty());
        while i < players.len()
            invariant
                i <= players.len(),
                all == types::ids(players@),
                map@ == MatchView::fresh(0, all.take(i as int)).players,
            decreases players.len() - i,
        {
            let ghost seen = model::distinct(all.take(i as int));
            assert(all.take(i + 1).drop_last() =~= all.take(i as int));
            assert(all.take(i + 1).last() == players@[i as int]@);
            match map.position(&players[i]) {
                Some(p) => {
                    assert(seen[p as int] == players@[i as int]@);
                },
                None => {
                    assert(!seen.contains(players@[i as int]@)) by {
                        if seen.contains(players@[i as int]@) {
                            let k = choose|k: int|
                                0 <= k < seen.len() && seen[k] == players@[i as int]@;
                            assert(map@[k].player_id == seen[k]);
                        }
                    }
                    let ghost before = map@;
                    map.entries.push(
                        PlayerMatchInfo { player_id: players[i].clone(), ready: false, team: 0 },
                    );
                    assert(map@ =~= before.push(
                        PlayerMatchView { player_id: players@[i as int]@, ready: false, team: 0 },
                    ));
                },
            }
            assert(map@ =~= MatchView::fresh(0, all.take(i + 1)).players);
            i = i + 1;
        }
        assert(all.take(players.len() as int) =~= all);
        map
    }

    /// The ids of the players, in order.
    pub fn keys(&self) -> (keys: Vec<String>)
        ensures
            types::ids(keys@) == self@.map_values(|info: PlayerMatchView| info.player_id),
    {
        let mut keys: Vec<String> = Vec::new();
        let mut i: usize = 0;
        while i < self.entries.len()
            invariant
                i <= self.entries.len(),
                keys.len() == i,
                forall|j: int| 0 <= j < i ==> (#[trigger] keys[j])@ == self@[j].player_id,
            decreases self.entries.len() - i,
        {
            keys.push(self.entries[i].player_id.clone());
            i = i + 1;
        }
        assert(types::ids(keys@) =~= self@.map_values(|info: PlayerMatchView| info.player_id));
        keys
    }

    /// The number of players.
    pub fn len(&self) -> (len: usize)
        ensures
            len == self@.len(),
    {
        self.entries.len()
    }

    /// The player at a place of the order.
    pub fn get_index(&self, i: usize) -> (info: &PlayerMatchInfo)
        requires
            i < self@.len(),
        ensures
            info@ == self@[i as int],
    {
        &self.entries[i]
    }
}

/// A match and how far its players have got.
#[derive(Debug, Clone)]
pub struct Match {
    pub session_id: u32,
    pub players_match_info_map: PlayerMatchInfoMap,
    pub remaining_ready: u8,
}

impl View for Match {
    type V = MatchView;

    open spec fn view(&self) -> MatchView {
        MatchView {
            session_id: self.session_id,
            players: self.players_match_info_map@,
            remaining_ready: self.remaining_ready,
        }
    }
}

impl Match {
    /// A match of the players named, with nobody ready.
    pub fn new(session_id: u32, players: &Vec<String>) -> (created: Match)
        ensures
            created@ == MatchView::fresh(session_id, types::ids(players@)),
    {
        Match {
            session_id,
            players_match_info_map: PlayerMatchInfoMap::from_players(players),
            remaining_ready: (players.len() % 256) as u8,
        }
    }

    /// Whether a player belongs to the match and is not ready.
    fn has_unready(&self, player_id: &String) -> (unready: bool)
        ensures
            unready == self@.has_unready(player_id@),
    {
        let mut i: usize = 0;
        while i < self.players_match_info_map.len()
            invariant
                i <= self@.players.len(),
                forall|j: int|
                    0 <= j < i ==> (#[trigger] self@.players[j]).player_id != player_id@
                        || self@.players[j].ready,
            decreases self@.players.len() - i,
        {
            let info: &PlayerMatchInfo = self.players_match_info_map.get_index(i);
            assert(info@ == self@.players[i as int]);
            if !info.ready && info.player_id == *player_id {
                return true;
            }
            i = i + 1;
        }
        false
    }

    /// Marks a player of the match as ready. Returns whether it is a player of the match at all.
    pub fn set_ready(&mut self, player_id: &String) -> (found: bool)
        requires
            old(self)@.wf(),
            old(self)@.has_unready(player_id@) ==> old(self)@.remaining_ready > 0,
        ensures
            found == old(self)@.has_player(player_id@),
            final(self)@ == (if found {
                old(self)@.with_ready(player_id@)
            } else {
                old(self)@
            }),
    {
        match self.players_match_info_map.position(player_id) {
            Some(p) => {
                let was_ready = self.players_match_info_map.entries[p].ready;
                let ghost before = self@;
                assert(before.players[p as int].ready == was_ready);
                assert(before.has_unready(player_id@) == !was_ready);
                if !was_ready {
                    let info = PlayerMatchInfo {
                        player_id: self.players_match_info_map.entries[p].player_id.clone(),
                        ready: true,
                        team: self.players_match_info_map.entries[p].team,
                    };
                    self.players_match_info_map.entries.set(p, info);
                    self.remaining_ready = self.remaining_ready - 1;
                }
                assert(self@.players =~= before.with_ready(player_id@).players);
                true
            },
            None => false,
        }
    }
}

/// Who waits in a queue, as contracts speak of it.
pub open spec fn waiting(queue: Seq<PlayerQueue>) -> Seq<PlayerId> {
    queue.map_values(|entry: PlayerQueue| entry.player_id@)
}

/// Takes every entry of a player out of a queue.
fn remove_from_queue(queue: &mut VecDeque<PlayerQueue>, player_id: &String)
    ensures
        waiting(final(queue)@) == model::without(waiting(old(queue)@), player_id@),
{
    let ghost all = waiting(queue@);
    let ghost others = model::other_than(player_id@);
    let len: usize = queue.len();
    let mut i: usize = 0;
    proof {
        reveal(Seq::filter);
        assert(all.take(0) =~= Seq::empty());
        assert(waiting(queue@) =~= all.skip(0) + all.take(0).filter(others));
    }
    while i < len
        invariant
            i <= len,
            len == all.len(),
            others == model::other_than(player_id@),
            waiting(queue@) == all.skip(i as int) + all.take(i as int).filter(others),
        decreases len - i,
    {
        let ghost before = queue@;
        assert(waiting(before).len() == before.len());
        match queue.pop_front() {
            Some(entry) => {
                assert(waiting(before)[0] == entry.player_id@);
                assert(entry.player_id@ == all[i as int]);
                assert(waiting(queue@) =~= waiting(before).skip(1));
                assert(all.take(i + 1) =~= all.take(i as int).push(all[i as int]));
                proof {
                    all.take(i as int).lemma_filter_push(all[i as int], others);
                }
                if entry.player_id != *player_id {
                    let ghost shorter = queue@;
                    queue.push_back(entry);
                    assert(waiting(queue@) =~= waiting(shorter).push(all[i as int]));
                }
                assert(waiting(queue@) =~= all.skip(i + 1) + all.take(i + 1).filter(others));
            },
            None => {},
        }
        i = i + 1;
    }
    assert(all.take(len as int) =~= all);
    assert(waiting(queue@) =~= all.filter(others));
}

/// Takes the first `size` players off a queue.
fn take_group(queue: &mut VecDeque<PlayerQueue>, size: usize) -> (players: Vec<String>)
    requires
        size <= old(queue)@.len(),
    ensures
        types::ids(players@) == waiting(old(queue)@).take(size as int),
        waiting(final(queue)@) == waiting(old(queue)@).skip(size as int),
{
    let ghost all = waiting(queue@);
    let mut players: Vec<String> = Vec::new();
    let mut i: usize = 0;
    assert(types::ids(players@) =~= all.take(0));
    assert(all.skip(0) =~= all);
    while i < size
        invariant
            i <= size <= all.len(),
            types::ids(players@) == all.take(i as int),
            waiting(queue@) == all.skip(i as int),
        decreases size - i,
    {
        let ghost before = queue@;
        let ghost taken = players@;
        assert(waiting(before).len() == before.len());
        match queue.pop_front() {
            Some(entry) => {
                assert(waiting(before)[0] == entry.player_id@);
                assert(waiting(queue@) =~= waiting(before).skip(1));
                assert(waiting(queue@) =~= all.skip(i + 1));
                players.push(entry.player_id);
                assert(types::ids(players@) =~= types::ids(taken).push(all[i as int]));
                assert(types::ids(players@) =~= all.take(i + 1));
            },
            None => {},
        }
        i = i + 1;
    }
    players
}

/// Takes the whole groups of `size` off a queue, each with the command that makes a match of it.
fn take_groups(queue: &mut VecDeque<PlayerQueue>, pool_type: PoolType, size: usize) -> (list: Vec<
    MatchmakingCommand,
>)
    requires
        size > 0,
    ensures
        types::commands(list@) == model::group_commands(
            pool_type,
            waiting(old(queue)@),
            size as int,
        ),
        waiting(final(queue)@) == model::leftover(waiting(old(queue)@), size as int),
{
    let ghost all = waiting(queue@);
    let ghost mut n: int = 0;
    let mut list: Vec<MatchmakingCommand> = Vec::new();
    assert(all.skip(0) =~= all);
    while queue.len() >= size
        invariant
            size > 0,
            n == list.len(),
            0 <= n * size <= all.len(),
            waiting(queue@) == all.skip(n * size),
            forall|j: int|
                0 <= j < n ==> (#[trigger] list[j])@ == CommandView::CreateMatch(
                    pool_type,
                    model::group(all, size as int, j),
                ),
        decreases queue@.len(),
    {
        let ghost before = queue@;
        assert(waiting(before).len() == before.len());
        let players = take_group(queue, size);
        assert(waiting(queue@).len() == queue@.len());
        assert((n + 1) * size == n * size + size) by (nonlinear_arith);
        assert(types::ids(players@) =~= model::group(all, size as int, n));
        assert(waiting(queue@) =~= all.skip((n + 1) * size));
        list.push(MatchmakingState::create_match(pool_type, players));
        proof {
            n = n + 1;
        }
    }
    proof {
        assert(waiting(queue@).len() == queue@.len());
        vstd::arithmetic::div_mod::lemma_fundamental_div_mod_converse(
            all.len() as int,
            size as int,
            n,
            all.len() - n * size,
        );
        assert(types::commands(list@) =~= model::group_commands(pool_type, all, size as int));
    }
    list
}

/// The outcome of a command that nobody hears of.
fn nothing_to_deliver() -> (outcome: CommandOutcome)
    ensures
        outcome@ == OutcomeView::Deliver(Seq::empty()),
{
    let list: Vec<Delivery> = Vec::new();
    assert(types::deliveries(list@) =~= Seq::empty());
    CommandOutcome::Deliver(list)
}

/// The announcement of a match.
fn found_info(session_id: u32, players: &Vec<String>) -> (info: MatchFoundInfo)
    ensures
        info.session_id == session_id,
        info@.players == types::ids(players@).map_values(
            |player: PlayerId| MatchFoundPlayerView { player_id: player, team: 0 },
        ),
{
    let mut listed: Vec<MatchFoundPlayerInfo> = Vec::new();
    let mut i: usize = 0;
    while i < players.len()
        invariant
            i <= players.len(),
            listed.len() == i,
            forall|j: int|
                0 <= j < i ==> (#[trigger] listed[j])@ == (MatchFoundPlayerView {
                    player_id: players[j]@,
                    team: 0,
                }),
        decreases players.len() - i,
    {
        listed.push(MatchFoundPlayerInfo { player_id: players[i].clone(), team: 0 });
        i = i + 1;
    }
    let info = MatchFoundInfo { session_id, players: listed };
    assert(info@.players =~= types::ids(players@).map_values(
        |player: PlayerId| MatchFoundPlayerView { player_id: player, team: 0 },
    ));
    info
}

/// The announcements of a match, one for each of the players named.
fn found_deliveries(session_id: u32, players: &Vec<String>) -> (list: Vec<Delivery>)
    ensures
        types::deliveries(list@) == model::found_deliveries(session_id, types::ids(players@)),
{
    let ghost expected = model::found_deliveries(session_id, types::ids(players@));
    let mut list: Vec<Delivery> = Vec::new();
    let mut i: usize = 0;
    while i < players.len()
        invariant
            i <= players.len(),
            list.len() == i,
            expected == model::found_deliveries(session_id, types::ids(players@)),
            forall|j: int| 0 <= j < i ==> (#[trigger] list[j])@ == expected[j],
        decreases players.len() - i,
    {
        list.push(
            Delivery {
                player_id: players[i].clone(),
                event: MatchmakingEvent::MatchFound(found_info(session_id, players)),
            },
        );
        i = i + 1;
    }
    assert(types::deliveries(list@) =~= expected);
    list
}

/// The news that a player is ready, one for each player of the match.
fn ready_deliveries(stored: &Match, player_id: &String) -> (list: Vec<Delivery>)
    ensures
        types::deliveries(list@) == stored@.ready_deliveries(player_id@),
{
    let mut list: Vec<Delivery> = Vec::new();
    let mut i: usize = 0;
    while i < stored.players_match_info_map.len()
        invariant
            i <= stored@.players.len(),
            list.len() == i,
            forall|j: int|
                0 <= j < i ==> (#[trigger] list[j])@ == stored@.ready_deliveries(player_id@)[j],
        decreases stored@.players.len() - i,
    {
        list.push(
            Delivery {
                player_id: stored.players_match_info_map.get_index(i).player_id.clone(),
                event: MatchmakingEvent::PlayerReady(player_id.clone()),
            },
        );
        i = i + 1;
    }
    assert(types::deliveries(list@) =~= stored@.ready_deliveries(player_id@));
    list
}

/// The news that a player is ready and that the match starts, for each player of the match.
fn start_deliveries(stored: &Match, player_id: &String) -> (list: Vec<Delivery>)
    ensures
        types::deliveries(list@) == stored@.start_deliveries(player_id@),
{
    let mut list: Vec<Delivery> = Vec::new();
    let mut i: usize = 0;
    while i < stored.players_match_info_map.len()
        invariant
            i <= stored@.players.len(),
            list.len() == 2 * i,
            forall|j: int|
                0 <= j < 2 * i ==> (#[trigger] list[j])@ == stored@.start_deliveries(player_id@)[j],
        decreases stored@.players.len() - i,
    {
        let to: &PlayerMatchInfo = stored.players_match_info_map.get_index(i);
        list.push(
            Delivery {
                player_id: to.player_id.clone(),
                event: MatchmakingEvent::PlayerReady(player_id.clone()),
            },
        );
        list.push(
            Delivery {
                player_id: to.player_id.clone(),
                event: MatchmakingEvent::MatchStart(
                    MatchStartInfo {
                        session_id: stored.session_id,
                        tps_server_address: "192.168.1.151".to_string(),
                        tps_server_port: TPS_SERVER_PORT,
                    },
                ),
            },
        );
        i = i + 1;
    }
    assert(types::deliveries(list@) =~= stored@.start_deliveries(player_id@));
    list
}

/// Everything that the matchmaker knows.
pub struct MatchmakingState {
    next_session_id: u32,
    one_vs_one: VecDeque<PlayerQueue>,
    two_vs_two: VecDeque<PlayerQueue>,
    matches: HashMap<u32, Match>,
    player_event_sender_map: StringHashMap<mpsc::Sender<MatchmakingEvent>>,
}

impl View for MatchmakingState {
    type V = StateView;

    closed spec fn view(&self) -> StateView {
        StateView {
            next_session_id: self.next_session_id,
            one_vs_one: waiting(self.one_vs_one@),
            two_vs_two: waiting(self.two_vs_two@),
            matches: self.matches@.map_values(|stored: Match| stored@),
            senders: self.player_event_sender_map@,
        }
    }
}

impl MatchmakingState {
    /// A matchmaker that knows of nobody.
    pub fn new() -> (state: MatchmakingState)
        ensures
            state@ == StateView::init(),
            state@.wf(),
    {
        let state = MatchmakingState {
            next_session_id: 0,
            one_vs_one: VecDeque::new(),
            two_vs_two: VecDeque::new(),
            matches: HashMap::new(),
            player_event_sender_map: StringHashMap::new(),
        };
        assert(state@.one_vs_one =~= StateView::init().one_vs_one);
        assert(state@.two_vs_two =~= StateView::init().two_vs_two);
        assert(state@.matches =~= StateView::init().matches);
        state
    }

    /// Puts a player at the end of the queue of a pool. Their events go to `event_sender` from now
    /// on.
    pub fn add_player(
        &mut self,
        pool_type: PoolType,
        player_id: String,
        event_sender: mpsc::Sender<MatchmakingEvent>,
    )
        ensures
            final(self)@ == old(self)@.add_player(pool_type, player_id@, event_sender),
            old(self)@.wf() ==> final(self)@.wf(),
    {
        let entry = PlayerQueue { player_id: player_id.clone() };
        match pool_type {
            PoolType::NormalOneVsOne => {
                self.one_vs_one.push_back(entry);
                assert(self@.one_vs_one =~= old(self)@.one_vs_one.push(player_id@));
            },
            PoolType::NormalTwoVsTwo => {
                self.two_vs_two.push_back(entry);
                assert(self@.two_vs_two =~= old(self)@.two_vs_two.push(player_id@));
            },
        }
        self.player_event_sender_map.insert(player_id, event_sender);
    }

    /// Takes every entry of each of `players` out of the queue of a pool.
    fn remove_all_from_pool(&mut self, pool_type: PoolType, players: &Vec<String>)
        ensures
            final(self)@ == old(self)@.with_queue(
                pool_type,
                model::without_all(old(self)@.queue(pool_type), types::ids(players@)),
            ),
    {
        let ghost all = types::ids(players@);
        let ghost queue = self@.queue(pool_type);
        let mut i: usize = 0;
        proof {
            model::lemma_without_all_none(queue, all.take(0));
        }
        assert(self@ =~= self@.with_queue(pool_type, queue));
        while i < players.len()
            invariant
                i <= players.len(),
                all == types::ids(players@),
                queue == old(self)@.queue(pool_type),
                self@ == old(self)@.with_queue(
                    pool_type,
                    model::without_all(queue, all.take(i as int)),
                ),
            decreases players.len() - i,
        {
            proof {
                model::lemma_without_all_push(queue, all.take(i as int), all[i as int]);
            }
            assert(all.take(i + 1) =~= all.take(i as int).push(all[i as int]));
            match pool_type {
                PoolType::NormalOneVsOne => remove_from_queue(&mut self.one_vs_one, &players[i]),
                PoolType::NormalTwoVsTwo => remove_from_queue(&mut self.two_vs_two, &players[i]),
            }
            i = i + 1;
        }
        assert(all.take(players.len() as int) =~= all);
    }

    /// Marks a player of a match as ready, where there is such a match and such a player in it.
    fn set_player_ready_in_match(&mut self, session_id: u32, player_id: String) -> (outcome:
        CommandOutcome)
        requires
            old(self)@.wf(),
            old(self)@.accepts(CommandView::SetPlayerReady(session_id, player_id@)),
        ensures
            final(self)@ == old(self)@.after(CommandView::SetPlayerReady(session_id, player_id@)),
            outcome@ == old(self)@.outcome(CommandView::SetPlayerReady(session_id, player_id@)),
            final(self)@.wf(),
    {
        broadcast use vstd::std_specs::hash::group_hash_axioms;

        let ghost before = self@;
        match self.matches.remove(&session_id) {
            Some(mut stored) => {
                assert(before.matches[session_id] == stored@);
                let found = stored.set_ready(&player_id);
                let outcome = if !found {
                    nothing_to_deliver()
                } else if stored.remaining_ready == 0 {
                    let player_ids = stored.players_match_info_map.keys();
                    CommandOutcome::CreateSession { session_id, player_id, player_ids }
                } else {
                    CommandOutcome::Deliver(ready_deliveries(&stored, &player_id))
                };
                let ghost after = stored@;
                self.matches.insert(session_id, stored);
                assert(self@.matches =~= before.matches.insert(session_id, after));
                assert(before.matches.insert(session_id, before.matches[session_id])
                    =~= before.matches);
                outcome
            },
            None => {
                assert(self@.matches =~= before.matches);
                nothing_to_deliver()
            },
        }
    }

    /// Carries a command out and returns what is left to do outside.
    pub fn handle_command(&mut self, command: MatchmakingCommand) -> (outcome: CommandOutcome)
        requires
            old(self)@.wf(),
            old(self)@.accepts(command@),
        ensures
            final(self)@ == old(self)@.after(command@),
            outcome@ == old(self)@.outcome(command@),
            final(self)@.wf(),
    {
        broadcast use vstd::std_specs::hash::group_hash_axioms;

        let ghost before = self@;
        proof {
            sessions::law_command_keeps_wf(before, command@);
        }
        match command {
            MatchmakingCommand::RemovePlayer(pool_type, player_id) => {
                match pool_type {
                    PoolType::NormalOneVsOne => remove_from_queue(&mut self.one_vs_one, &player_id),
                    PoolType::NormalTwoVsTwo => remove_from_queue(&mut self.two_vs_two, &player_id),
                }
                nothing_to_deliver()
            },
            MatchmakingCommand::CreateMatch(pool_type, players) => {
                let session_id = self.next_session_id;
                self.next_session_id = session_id + 1;
                let created = Match::new(session_id, &players);
                self.matches.insert(session_id, created);
                assert(self@.matches =~= before.matches.insert(
                    session_id,
                    MatchView::fresh(session_id, types::ids(players@)),
                ));
                self.remove_all_from_pool(pool_type, &players);
                CommandOutcome::Deliver(found_deliveries(session_id, &players))
            },
            MatchmakingCommand::SetPlayerReady(session_id, player_id) => {
                self.set_player_ready_in_match(session_id, player_id)
            },
            MatchmakingCommand::RemoveMatch(session_id) => {
                self.matches.remove(&session_id);
                assert(self@.matches =~= before.matches.remove(session_id));
                nothing_to_deliver()
            },
        }
    }

    /// Whether a command can be carried out: an id is left for a match to be created, and a place
    /// waits for a player who gets ready.
    pub fn accepts(&self, command: &MatchmakingCommand) -> (accepted: bool)
        ensures
            accepted == self@.accepts(command@),
    {
        broadcast use vstd::std_specs::hash::group_hash_axioms;

        match command {
            MatchmakingCommand::CreateMatch(_, _) => self.next_session_id < u32::MAX,
            MatchmakingCommand::SetPlayerReady(session_id, player_id) => {
                match self.matches.get(session_id) {
                    Some(stored) => {
                        assert(self@.matches[*session_id] == stored@);
                        stored.remaining_ready > 0 || !stored.has_unready(player_id)
                    },
                    None => true,
                }
            },
            _ => true,
        }
    }

    /// What is left to send once the request for the game session of a match, made when a player
    /// got ready, is answered.
    pub fn finish_set_player_ready(
        &self,
        session_id: u32,
        player_id: &String,
        session_created: bool,
    ) -> (list: Vec<Delivery>)
        ensures
            types::deliveries(list@) == self@.session_answered(
                session_id,
                player_id@,
                session_created,
            ),
    {
        broadcast use vstd::std_specs::hash::group_hash_axioms;

        if session_created {
            match self.matches.get(&session_id) {
                Some(stored) => {
                    assert(self@.matches[session_id] == stored@);
                    return start_deliveries(stored, player_id);
                },
                None => {},
            }
        }
        let list: Vec<Delivery> = Vec::new();
        assert(types::deliveries(list@) =~= Seq::empty());
        list
    }

    /// Where the events of a player go, if they ever joined.
    pub fn event_sender(&self, player_id: &String) -> (sender: Option<
        &mpsc::Sender<MatchmakingEvent>,
    >)
        ensures
            match sender {
                Some(found) => self@.senders.contains_key(player_id@) && *found
                    == self@.senders[player_id@],
                None => !self@.senders.contains_key(player_id@),
            },
    {
        self.player_event_sender_map.get(player_id.as_str())
    }

    /// The command that takes a player out of the queue of a pool.
    pub fn remove_player(&self, pool_type: PoolType, player_id: String) -> (command:
        MatchmakingCommand)
        ensures
            command@ == CommandView::RemovePlayer(pool_type, player_id@),
    {
        MatchmakingCommand::RemovePlayer(pool_type, player_id)
    }

    /// The command that makes a match of some players of a pool.
    fn create_match(pool_type: PoolType, players: Vec<String>) -> (command: MatchmakingCommand)
        ensures
            command@ == CommandView::CreateMatch(pool_type, types::ids(players@)),
    {
        MatchmakingCommand::CreateMatch(pool_type, players)
    }

    /// The command that marks a player of a match as ready.
    pub fn set_player_ready(&self, session_id: u32, player_id: String) -> (command:
        MatchmakingCommand)
        ensures
            command@ == CommandView::SetPlayerReady(session_id, player_id@),
    {
        MatchmakingCommand::SetPlayerReady(session_id, player_id)
    }

    /// The command that forgets a match.
    pub fn remove_match(&self, session_id: u32) -> (command: MatchmakingCommand)
        ensures
            command@ == CommandView::RemoveMatch(session_id),
    {
        MatchmakingCommand::RemoveMatch(session_id)
    }

    /// A round of matchmaking: the whole groups of every pool leave their queues. Returns the
    /// commands that make matches of them.
    pub fn process_matchmaking(&mut self) -> (list: Vec<MatchmakingCommand>)
        ensures
            final(self)@ == old(self)@.after_round(),
            types::commands(list@) == old(self)@.round_commands(),
            old(self)@.wf() ==> final(self)@.wf(),
    {
        let mut list = self.process_1v1_matchmaking(&PoolType::NormalOneVsOne);
        let mut more = self.process_2v2_matchmaking(&PoolType::NormalTwoVsTwo);
        let ghost first = list@;
        let ghost second = more@;
        list.append(&mut more);
        assert(types::commands(list@) =~= types::commands(first) + types::commands(second));
        list
    }

    /// Takes the whole groups of a match of one against one off the queue of a pool.
    pub fn process_1v1_matchmaking(&mut self, pool_type: &PoolType) -> (list: Vec<
        MatchmakingCommand,
    >)
        ensures
            final(self)@ == old(self)@.grouped(*pool_type, ONE_VS_ONE_PLAYERS as int),
            types::commands(list@) == model::group_commands(
                *pool_type,
                old(self)@.queue(*pool_type),
                ONE_VS_ONE_PLAYERS as int,
            ),
    {
        match pool_type {
            PoolType::NormalOneVsOne => take_groups(
                &mut self.one_vs_one,
                *pool_type,
                ONE_VS_ONE_PLAYERS,
            ),
            PoolType::NormalTwoVsTwo => take_groups(
                &mut self.two_vs_two,
                *pool_type,
                ONE_VS_ONE_PLAYERS,
            ),
        }
    }

    /// Takes the whole groups of a match of two against two off the queue of a pool.
    pub fn process_2v2_matchmaking(&mut self, pool_type: &PoolType) -> (list: Vec<
        MatchmakingCommand,
    >)
        ensures
            final(self)@ == old(self)@.grouped(*pool_type, TWO_VS_TWO_PLAYERS as int),
            types::commands(list@) == model::group_commands(
                *pool_type,
                old(self)@.queue(*pool_type),
                TWO_VS_TWO_PLAYERS as int,
            ),
    {
        match pool_type {
            PoolType::NormalOneVsOne => take_groups(
                &mut self.one_vs_one,
                *pool_type,
                TWO_VS_TWO_PLAYERS,
            ),
            PoolType::NormalTwoVsTwo => take_groups(
                &mut self.two_vs_two,
                *pool_type,
                TWO_VS_TWO_PLAYERS,
            ),
        }
    }
}

} // verus!
