//! What holds of the matchmaker together with the commands that wait for it.
//!
//! Between a round that finds a group and the command that makes a match of it the players stand in
//! no queue and in no match: only in a waiting command. So what the matchmaker relies on is a
//! property of the state and of those commands together.
use crate::laws::{readiness, sessions};
use crate::model;
use crate::model::{MatchView, StateView};
use crate::types::{
    CommandView, DeliveryView, MatchmakingEvent, OutcomeView, PlayerId, PoolType,
};
use tokio::sync::mpsc;
use vstd::prelude::*;

verus! {

/// The matchmaker and the commands that wait for it, first come first.
pub struct SystemView {
    pub state: StateView,
    pub pending: Seq<CommandView>,
}

/// What can happen to the matchmaker.
pub enum Step {
    /// A player joins a pool.
    Join(PoolType, PlayerId, mpsc::Sender<MatchmakingEvent>),
    /// A command comes in from outside.
    Submit(CommandView),
    /// A round of matchmaking.
    Round,
    /// The first waiting command is carried out.
    Handle,
}

impl SystemView {
    /// The system at the start.
    pub open spec fn init() -> SystemView {
        SystemView { state: StateView::init(), pending: Seq::empty() }
    }

    /// Whether a step can happen. Matches are created by rounds alone, and only while ids are left.
    pub open spec fn enabled(self, step: Step) -> bool {
        match step {
            Step::Submit(command) => !(command is CreateMatch),
            Step::Handle => self.pending.len() > 0 && (self.pending[0] is CreateMatch
                ==> self.state.next_session_id < u32::MAX),
            _ => true,
        }
    }

    /// The system after a step.
    pub open spec fn after(self, step: Step) -> SystemView {
        match step {
            Step::Join(pool, player, sender) => SystemView {
                state: self.state.add_player(pool, player, sender),
                ..self
            },
            Step::Submit(command) => SystemView { pending: self.pending.push(command), ..self },
            Step::Round => SystemView {
                state: self.state.after_round(),
                pending: self.pending + self.state.round_commands(),
            },
            Step::Handle => SystemView {
                state: self.state.after(self.pending[0]),
                pending: self.pending.skip(1),
            },
        }
    }

    /// The system after a list of steps.
    pub open spec fn after_all(self, steps: Seq<Step>) -> SystemView
        decreases steps.len(),
    {
        if steps.len() == 0 {
            self
        } else {
            self.after_all(steps.drop_last()).after(steps.last())
        }
    }

    /// Whether a list of steps can happen one after the other.
    pub open spec fn enabled_all(self, steps: Seq<Step>) -> bool
        decreases steps.len(),
    {
        steps.len() > 0 ==> self.enabled_all(steps.drop_last()) && self.after_all(
            steps.drop_last(),
        ).enabled(steps.last())
    }

    /// What the matchmaker relies on: its state is well-formed, everybody whom it may have to tell
    /// something can be reached, and no match has fewer places than players to wait for.
    pub open spec fn inv(self) -> bool {
        &&& self.state.wf()
        &&& reachable(self.state, self.state.one_vs_one)
        &&& reachable(self.state, self.state.two_vs_two)
        &&& forall|i: int|
            0 <= i < self.pending.len() ==> sound_command(self.state, #[trigger] self.pending[i])
        &&& forall|id: u32| #[trigger]
            self.state.matches.contains_key(id) ==> sound_match(self.state, self.state.matches[id])
    }
}

impl SystemView {
    /// Whether nobody stands in a queue twice, no match was or will be made of one player twice, and
    /// every match waits for exactly those of its players who are not ready.
    pub open spec fn exact(self) -> bool {
        &&& self.state.one_vs_one.no_duplicates()
        &&& self.state.two_vs_two.no_duplicates()
        &&& forall|i: int|
            0 <= i < self.pending.len() ==> exact_command(#[trigger] self.pending[i])
        &&& forall|id: u32| #[trigger]
            self.state.matches.contains_key(id) ==> readiness::counts_exactly(
                self.state.matches[id],
            )
    }

    /// Whether a step does not put a player into a queue that they stand in already.
    pub open spec fn joins_once(self, step: Step) -> bool {
        step matches Step::Join(pool, player, _) ==> !self.state.queue(pool).contains(player)
    }

    /// Whether no step of a list puts a player into a queue that they stand in already.
    pub open spec fn all_join_once(self, steps: Seq<Step>) -> bool
        decreases steps.len(),
    {
        steps.len() > 0 ==> self.all_join_once(steps.drop_last()) && self.after_all(
            steps.drop_last(),
        ).joins_once(steps.last())
    }
}

/// Whether a match that a command asks for has distinct players, no more than can be counted.
pub open spec fn exact_command(command: CommandView) -> bool {
    command matches CommandView::CreateMatch(_, players) ==> players.len() < 256
        && players.no_duplicates()
}

/// Whether there is a way to reach each of `players`.
pub open spec fn reachable(s: StateView, players: Seq<PlayerId>) -> bool {
    forall|i: int| 0 <= i < players.len() ==> s.senders.contains_key(#[trigger] players[i])
}

/// Whether a match that a command asks for has a size that can be counted and players who can be
/// reached.
pub open spec fn sound_command(s: StateView, command: CommandView) -> bool {
    command matches CommandView::CreateMatch(_, players) ==> players.len() < 256 && reachable(
        s,
        players,
    )
}

/// Whether a match has a place for each player it waits for, and players who can be reached.
pub open spec fn sound_match(s: StateView, m: MatchView) -> bool {
    m.unready() <= m.remaining_ready && reachable(s, m.player_ids())
}

/// Whether everybody in a list of deliveries can be reached.
pub open spec fn deliverable(s: StateView, list: Seq<DeliveryView>) -> bool {
    forall|i: int| 0 <= i < list.len() ==> s.senders.contains_key((#[trigger] list[i]).player_id)
}

/// The invariant holds at the start.
pub proof fn law_inv_at_start()
    ensures
        SystemView::init().inv(),
{
}

/// Every step keeps the invariant.
pub proof fn law_inv_kept(sys: SystemView, step: Step)
    requires
        sys.inv(),
        sys.enabled(step),
    ensures
        sys.after(step).inv(),
{
    let s = sys.state;
    let t = sys.after(step);
    match step {
        Step::Join(pool, player, sender) => {
            assert forall|players: Seq<PlayerId>| reachable(s, players) implies #[trigger] reachable(
                t.state,
                players,
            ) by {
                assert forall|i: int| 0 <= i < players.len() implies t.state.senders.contains_key(
                    #[trigger] players[i],
                ) by {
                    assert(s.senders.contains_key(players[i]));
                }
            }
            assert(reachable(t.state, s.queue(pool)));
            assert(reachable(t.state, s.queue(pool).push(player)));
            assert(reachable(t.state, t.state.one_vs_one));
            assert(reachable(t.state, t.state.two_vs_two));
            assert forall|i: int| 0 <= i < t.pending.len() implies sound_command(
                t.state,
                #[trigger] t.pending[i],
            ) by {
                assert(sound_command(s, sys.pending[i]));
            }
            assert forall|id: u32| #[trigger] t.state.matches.contains_key(id) implies sound_match(
                t.state,
                t.state.matches[id],
            ) by {
                assert(s.matches.contains_key(id));
            }
        },
        Step::Submit(command) => {
            assert forall|i: int| 0 <= i < t.pending.len() implies sound_command(
                t.state,
                #[trigger] t.pending[i],
            ) by {
                if i < sys.pending.len() {
                    assert(sound_command(s, sys.pending[i]));
                }
            }
        },
        Step::Round => {
            lemma_round_sound(s);
            assert forall|i: int| 0 <= i < t.pending.len() implies sound_command(
                t.state,
                #[trigger] t.pending[i],
            ) by {
                if i < sys.pending.len() {
                    assert(sound_command(s, sys.pending[i]));
                    assert(t.pending[i] == sys.pending[i]);
                } else {
                    assert(t.pending[i] == s.round_commands()[i - sys.pending.len()]);
                    assert(sound_command(s, s.round_commands()[i - sys.pending.len()]));
                }
            }
            assert forall|id: u32| #[trigger] t.state.matches.contains_key(id) implies sound_match(
                t.state,
                t.state.matches[id],
            ) by {
                assert(s.matches.contains_key(id));
            }
        },
        Step::Handle => {
            let command = sys.pending[0];
            law_waiting_command_is_accepted(sys);
            sessions::law_command_keeps_wf(s, command);
            lemma_handle_queues(sys);
            assert forall|i: int| 0 <= i < t.pending.len() implies sound_command(
                t.state,
                #[trigger] t.pending[i],
            ) by {
                assert(t.pending[i] == sys.pending[i + 1]);
                assert(sound_command(s, sys.pending[i + 1]));
            }
            assert forall|id: u32| #[trigger] t.state.matches.contains_key(id) implies sound_match(
                t.state,
                t.state.matches[id],
            ) by {
                lemma_handle_match(sys, id);
            }
        },
    }
}

/// A round takes groups of players who can be reached, and leaves such players.
proof fn lemma_round_sound(s: StateView)
    requires
        reachable(s, s.one_vs_one),
        reachable(s, s.two_vs_two),
    ensures
        reachable(s.after_round(), s.after_round().one_vs_one),
        reachable(s.after_round(), s.after_round().two_vs_two),
        forall|i: int|
            0 <= i < s.round_commands().len() ==> sound_command(
                s,
                #[trigger] s.round_commands()[i],
            ),
{
    lemma_groups_sound(s, PoolType::NormalOneVsOne, s.one_vs_one, 2);
    lemma_groups_sound(s, PoolType::NormalTwoVsTwo, s.two_vs_two, 4);
    let first = model::group_commands(PoolType::NormalOneVsOne, s.one_vs_one, 2);
    let second = model::group_commands(PoolType::NormalTwoVsTwo, s.two_vs_two, 4);
    assert forall|i: int| 0 <= i < s.round_commands().len() implies sound_command(
        s,
        #[trigger] s.round_commands()[i],
    ) by {
        if i < first.len() {
            assert(s.round_commands()[i] == first[i]);
        } else {
            assert(s.round_commands()[i] == second[i - first.len()]);
        }
    }
}

proof fn lemma_groups_sound(s: StateView, pool: PoolType, queue: Seq<PlayerId>, size: int)
    requires
        0 < size < 256,
        reachable(s, queue),
    ensures
        reachable(s, model::leftover(queue, size)),
        forall|i: int|
            0 <= i < model::group_commands(pool, queue, size).len() ==> sound_command(
                s,
                #[trigger] model::group_commands(pool, queue, size)[i],
            ),
{
    let n = model::group_count(queue, size);
    vstd::arithmetic::div_mod::lemma_fundamental_div_mod(queue.len() as int, size);
    vstd::arithmetic::div_mod::lemma_mod_bound(queue.len() as int, size);
    vstd::arithmetic::div_mod::lemma_div_pos_is_pos(queue.len() as int, size);
    assert(0 <= n * size && n * size == size * n) by (nonlinear_arith)
        requires
            0 <= n,
            0 < size,
    ;
    let rest = model::leftover(queue, size);
    assert forall|i: int| 0 <= i < rest.len() implies s.senders.contains_key(#[trigger] rest[i]) by {
        assert(rest[i] == queue[n * size + i]);
    }
    assert forall|i: int| 0 <= i < model::group_commands(pool, queue, size).len() implies sound_command(
        s,
        #[trigger] model::group_commands(pool, queue, size)[i],
    ) by {
        assert(0 <= i * size && i * size + size <= n * size) by (nonlinear_arith)
            requires
                0 <= i < n,
                0 < size,
        ;
        let players = model::group(queue, size, i);
        assert forall|k: int| 0 <= k < players.len() implies s.senders.contains_key(
            #[trigger] players[k],
        ) by {
            assert(players[k] == queue[i * size + k]);
        }
    }
}

/// A command leaves nobody in a queue who was not there.
proof fn lemma_handle_queues(sys: SystemView)
    requires
        sys.inv(),
        sys.enabled(Step::Handle),
    ensures
        reachable(sys.after(Step::Handle).state, sys.after(Step::Handle).state.one_vs_one),
        reachable(sys.after(Step::Handle).state, sys.after(Step::Handle).state.two_vs_two),
{
    let s = sys.state;
    match sys.pending[0] {
        CommandView::RemovePlayer(pool, player) => {
            lemma_filter_reachable(s, s.queue(pool), model::other_than(player));
        },
        CommandView::CreateMatch(pool, players) => {
            lemma_filter_reachable(s, s.queue(pool), model::none_of(players));
        },
        _ => {},
    }
}

proof fn lemma_filter_reachable(
    s: StateView,
    queue: Seq<PlayerId>,
    keep: spec_fn(PlayerId) -> bool,
)
    requires
        reachable(s, queue),
    ensures
        reachable(s, queue.filter(keep)),
{
    let kept = queue.filter(keep);
    assert forall|i: int| 0 <= i < kept.len() implies s.senders.contains_key(#[trigger] kept[i]) by {
        assert(kept.contains(kept[i]));
        queue.lemma_filter_contains_rev(keep, kept[i]);
        let j = choose|j: int| 0 <= j < queue.len() && queue[j] == kept[i];
        assert(s.senders.contains_key(queue[j]));
    }
}

/// A command leaves every match with enough places and with players who can be reached.
proof fn lemma_handle_match(sys: SystemView, id: u32)
    requires
        sys.inv(),
        sys.enabled(Step::Handle),
        sys.after(Step::Handle).state.matches.contains_key(id),
    ensures
        sound_match(sys.after(Step::Handle).state, sys.after(Step::Handle).state.matches[id]),
{
    let s = sys.state;
    let t = sys.after(Step::Handle).state;
    match sys.pending[0] {
        CommandView::CreateMatch(pool, players) => {
            if id == s.next_session_id {
                let m = MatchView::fresh(id, players);
                assert(sound_command(s, sys.pending[0]));
                model::lemma_distinct(players);
                readiness::lemma_fresh_unready(id, players);
                assert(m.player_ids() =~= model::distinct(players));
                assert forall|i: int| 0 <= i < m.player_ids().len() implies t.senders.contains_key(
                    #[trigger] m.player_ids()[i],
                ) by {
                    let player = m.player_ids()[i];
                    assert(model::distinct(players).contains(player));
                    assert(players.contains(player));
                    let j = choose|j: int| 0 <= j < players.len() && players[j] == player;
                    assert(s.senders.contains_key(players[j]));
                }
            } else {
                assert(s.matches.contains_key(id));
            }
        },
        CommandView::SetPlayerReady(session, player) => {
            assert(s.matches.contains_key(id));
            let m = s.matches[id];
            if id == session && m.has_player(player) {
                readiness::lemma_with_ready_unready(m, player);
                assert(m.with_ready(player).player_ids() =~= m.player_ids());
            }
        },
        _ => {
            assert(s.matches.contains_key(id));
        },
    }
}

/// The command that is next in line can be carried out, as long as ids are left: whoever gets
/// ready for the first time finds a place that waits.
pub proof fn law_waiting_command_is_accepted(sys: SystemView)
    requires
        sys.inv(),
        sys.enabled(Step::Handle),
    ensures
        sys.state.accepts(sys.pending[0]),
{
    let s = sys.state;
    match sys.pending[0] {
        CommandView::SetPlayerReady(session, player) => {
            if s.matches.contains_key(session) && s.matches[session].has_unready(player) {
                assert(sound_match(s, s.matches[session]));
                readiness::lemma_with_ready_unready(s.matches[session], player);
            }
        },
        _ => {},
    }
}

/// Whatever the next command leads to can be delivered, right away or once a game session has been
/// asked for: everybody who is to hear of it joined at some time.
pub proof fn law_outcome_can_be_delivered(sys: SystemView, created: bool)
    requires
        sys.inv(),
        sys.enabled(Step::Handle),
    ensures
        sys.state.outcome(sys.pending[0]) matches OutcomeView::Deliver(list) ==> deliverable(
            sys.after(Step::Handle).state,
            list,
        ),
        sys.state.outcome(sys.pending[0]) matches OutcomeView::CreateSession {
            session_id,
            player_id,
            player_ids,
        } ==> deliverable(
            sys.after(Step::Handle).state,
            sys.after(Step::Handle).state.session_answered(session_id, player_id, created),
        ),
{
    let s = sys.state;
    let t = sys.after(Step::Handle).state;
    match sys.pending[0] {
        CommandView::CreateMatch(_, players) => {
            assert(sound_command(s, sys.pending[0]));
            let list = model::found_deliveries(s.next_session_id, players);
            assert forall|i: int| 0 <= i < list.len() implies t.senders.contains_key(
                (#[trigger] list[i]).player_id,
            ) by {
                assert(s.senders.contains_key(players[i]));
            }
        },
        CommandView::SetPlayerReady(session, player) => {
            if s.matches.contains_key(session) && s.matches[session].has_player(player) {
                lemma_handle_match(sys, session);
                let m = t.matches[session];
                assert forall|i: int| 0 <= i < m.players.len() implies t.senders.contains_key(
                    (#[trigger] m.players[i]).player_id,
                ) by {
                    assert(t.senders.contains_key(m.player_ids()[i]));
                }
            }
        },
        _ => {},
    }
}

/// The invariant holds whatever happens from the start on.
pub proof fn law_inv_always(steps: Seq<Step>)
    requires
        SystemView::init().enabled_all(steps),
    ensures
        SystemView::init().after_all(steps).inv(),
    decreases steps.len(),
{
    if steps.len() == 0 {
        law_inv_at_start();
    } else {
        law_inv_always(steps.drop_last());
        law_inv_kept(SystemView::init().after_all(steps.drop_last()), steps.last());
    }
}

/// A part of a queue without repetitions has none either.
proof fn lemma_groups_exact(pool: PoolType, queue: Seq<PlayerId>, size: int)
    requires
        0 < size < 256,
        queue.no_duplicates(),
    ensures
        model::leftover(queue, size).no_duplicates(),
        forall|i: int|
            0 <= i < model::group_commands(pool, queue, size).len() ==> exact_command(
                #[trigger] model::group_commands(pool, queue, size)[i],
            ),
{
    let n = model::group_count(queue, size);
    vstd::arithmetic::div_mod::lemma_fundamental_div_mod(queue.len() as int, size);
    vstd::arithmetic::div_mod::lemma_mod_bound(queue.len() as int, size);
    vstd::arithmetic::div_mod::lemma_div_pos_is_pos(queue.len() as int, size);
    assert(0 <= n * size && n * size == size * n) by (nonlinear_arith)
        requires
            0 <= n,
            0 < size,
    ;
    let rest = model::leftover(queue, size);
    assert forall|i: int, j: int| 0 <= i < rest.len() && 0 <= j < rest.len() && i != j implies rest[i]
        != rest[j] by {
        assert(rest[i] == queue[n * size + i] && rest[j] == queue[n * size + j]);
    }
    assert forall|k: int| 0 <= k < model::group_commands(pool, queue, size).len() implies exact_command(
        #[trigger] model::group_commands(pool, queue, size)[k],
    ) by {
        assert(0 <= k * size && k * size + size <= n * size) by (nonlinear_arith)
            requires
                0 <= k < n,
                0 < size,
        ;
        let players = model::group(queue, size, k);
        assert forall|i: int, j: int|
            0 <= i < players.len() && 0 <= j < players.len() && i != j implies players[i]
            != players[j] by {
            assert(players[i] == queue[k * size + i] && players[j] == queue[k * size + j]);
        }
    }
}

/// A filtered queue has no repetitions if the queue had none.
proof fn lemma_filter_exact(queue: Seq<PlayerId>, keep: spec_fn(PlayerId) -> bool)
    requires
        queue.no_duplicates(),
    ensures
        queue.filter(keep).no_duplicates(),
    decreases queue.len(),
{
    reveal(Seq::filter);
    if queue.len() > 0 {
        let front = queue.drop_last();
        lemma_filter_exact(front, keep);
        if keep(queue.last()) && front.filter(keep).contains(queue.last()) {
            front.lemma_filter_contains_rev(keep, queue.last());
            let i = choose|i: int| 0 <= i < front.len() && front[i] == queue.last();
            assert(queue[i] == queue[queue.len() - 1]);
        }
    }
}

/// As long as nobody joins a queue that they stand in already, everything stays exact.
pub proof fn law_exact_kept(sys: SystemView, step: Step)
    requires
        sys.inv(),
        sys.exact(),
        sys.enabled(step),
        sys.joins_once(step),
    ensures
        sys.after(step).exact(),
{
    let s = sys.state;
    let t = sys.after(step);
    match step {
        Step::Join(pool, player, sender) => {
            assert(s.queue(pool).push(player).no_duplicates()) by {
                let longer = s.queue(pool).push(player);
                assert forall|i: int, j: int|
                    0 <= i < longer.len() && 0 <= j < longer.len() && i != j implies longer[i]
                    != longer[j] by {
                    if i < s.queue(pool).len() {
                        assert(s.queue(pool).contains(longer[i]));
                    }
                    if j < s.queue(pool).len() {
                        assert(s.queue(pool).contains(longer[j]));
                    }
                }
            }
            assert forall|i: int| 0 <= i < t.pending.len() implies exact_command(
                #[trigger] t.pending[i],
            ) by {
                assert(exact_command(sys.pending[i]));
            }
            assert forall|id: u32| #[trigger]
                t.state.matches.contains_key(id) implies readiness::counts_exactly(
                t.state.matches[id],
            ) by {
                assert(s.matches.contains_key(id));
            }
        },
        Step::Submit(command) => {
            assert forall|i: int| 0 <= i < t.pending.len() implies exact_command(
                #[trigger] t.pending[i],
            ) by {
                if i < sys.pending.len() {
                    assert(exact_command(sys.pending[i]));
                }
            }
        },
        Step::Round => {
            lemma_groups_exact(PoolType::NormalOneVsOne, s.one_vs_one, 2);
            lemma_groups_exact(PoolType::NormalTwoVsTwo, s.two_vs_two, 4);
            let first = model::group_commands(PoolType::NormalOneVsOne, s.one_vs_one, 2);
            let second = model::group_commands(PoolType::NormalTwoVsTwo, s.two_vs_two, 4);
            assert forall|i: int| 0 <= i < t.pending.len() implies exact_command(
                #[trigger] t.pending[i],
            ) by {
                let n = sys.pending.len();
                if i < n {
                    assert(t.pending[i] == sys.pending[i]);
                } else if i < n + first.len() {
                    assert(t.pending[i] == first[i - n]);
                } else {
                    assert(t.pending[i] == second[i - n - first.len()]);
                }
            }
            assert forall|id: u32| #[trigger]
                t.state.matches.contains_key(id) implies readiness::counts_exactly(
                t.state.matches[id],
            ) by {
                assert(s.matches.contains_key(id));
            }
        },
        Step::Handle => {
            let command = sys.pending[0];
            match command {
                CommandView::RemovePlayer(pool, player) => {
                    lemma_filter_exact(s.queue(pool), model::other_than(player));
                },
                CommandView::CreateMatch(pool, players) => {
                    lemma_filter_exact(s.queue(pool), model::none_of(players));
                },
                _ => {},
            }
            assert forall|i: int| 0 <= i < t.pending.len() implies exact_command(
                #[trigger] t.pending[i],
            ) by {
                assert(t.pending[i] == sys.pending[i + 1]);
            }
            assert forall|id: u32| #[trigger]
                t.state.matches.contains_key(id) implies readiness::counts_exactly(
                t.state.matches[id],
            ) by {
                match command {
                    CommandView::CreateMatch(pool, players) => {
                        if id == s.next_session_id {
                            assert(exact_command(sys.pending[0]));
                            readiness::law_new_match_counts_exactly(id, players);
                        } else {
                            assert(s.matches.contains_key(id));
                        }
                    },
                    CommandView::SetPlayerReady(session, player) => {
                        assert(s.matches.contains_key(id));
                        if id == session && s.matches[id].has_player(player) {
                            readiness::law_ready_counts_exactly(s.matches[id], player);
                        }
                    },
                    _ => {
                        assert(s.matches.contains_key(id));
                    },
                }
            }
        },
    }
}

/// Whatever happens from the start on, as long as nobody joins a queue that they stand in already,
/// a match starts exactly when its last player gets ready: if the next command says that a player
/// of a match is ready, a game session is asked for if and only if everybody in the match is ready
/// then.
pub proof fn law_matches_start_when_all_ready(steps: Seq<Step>, session: u32, player: PlayerId)
    requires
        SystemView::init().enabled_all(steps),
        SystemView::init().all_join_once(steps),
        ({
            let sys = SystemView::init().after_all(steps);
            &&& sys.pending.len() > 0
            &&& sys.pending[0] == CommandView::SetPlayerReady(session, player)
            &&& sys.state.matches.contains_key(session)
            &&& sys.state.matches[session].has_player(player)
        }),
    ensures
        ({
            let sys = SystemView::init().after_all(steps);
            sys.state.outcome(sys.pending[0]) is CreateSession <==> sys.after(
                Step::Handle,
            ).state.matches[session].all_ready()
        }),
{
    law_inv_always(steps);
    law_exact_always(steps);
    readiness::law_match_starts_when_all_ready(
        SystemView::init().after_all(steps).state,
        session,
        player,
    );
}

/// Everything is exact whatever happens from the start on, as long as nobody joins a queue that
/// they stand in already.
pub proof fn law_exact_always(steps: Seq<Step>)
    requires
        SystemView::init().enabled_all(steps),
        SystemView::init().all_join_once(steps),
    ensures
        SystemView::init().after_all(steps).exact(),
    decreases steps.len(),
{
    if steps.len() > 0 {
        law_inv_always(steps.drop_last());
        law_exact_always(steps.drop_last());
        law_exact_kept(SystemView::init().after_all(steps.drop_last()), steps.last());
    }
}

} // verus!
