//! What a round of matchmaking does: who is matched with whom, who waits on, and that nobody is lost.
use crate::model;
use crate::model::StateView;
use crate::types::{CommandView, PlayerId, PoolType};
use vstd::prelude::*;

verus! {

/// The bounds of the groups of a queue.
proof fn lemma_group_bounds(queue: Seq<PlayerId>, size: int)
    requires
        size > 0,
    ensures
        0 <= queue.len() as int / size,
        queue.len() as int / size * size + queue.len() as int % size == queue.len(),
        0 <= queue.len() as int % size < size,
        forall|i: int|
            0 <= i < queue.len() as int / size ==> 0 <= #[trigger] (i * size) && i * size + size
                <= queue.len(),
{
    let n = queue.len() as int / size;
    vstd::arithmetic::div_mod::lemma_fundamental_div_mod(queue.len() as int, size);
    vstd::arithmetic::div_mod::lemma_mod_bound(queue.len() as int, size);
    vstd::arithmetic::div_mod::lemma_div_pos_is_pos(queue.len() as int, size);
    assert(n * size == size * n) by (nonlinear_arith);
    assert forall|i: int| 0 <= i < n implies 0 <= #[trigger] (i * size) && i * size + size
        <= queue.len() by {
        assert(0 <= i * size && i * size + size <= n * size) by (nonlinear_arith)
            requires
                0 <= i < n,
                size > 0,
        ;
    }
}

/// Every whole group of a queue becomes one match: the commands are as many as there are whole
/// groups, and the `i`-th names the pool and the players who stand `i` groups from the front, in
/// their order.
pub proof fn law_every_group_becomes_a_match(pool: PoolType, queue: Seq<PlayerId>, size: int)
    requires
        size > 0,
    ensures
        model::group_commands(pool, queue, size).len() == queue.len() as int / size,
        forall|i: int|
            0 <= i < queue.len() as int / size ==> {
                let command = #[trigger] model::group_commands(pool, queue, size)[i];
                &&& command is CreateMatch
                &&& command->CreateMatch_0 == pool
                &&& command->CreateMatch_1.len() == size
            },
        forall|i: int, k: int|
            0 <= i < queue.len() as int / size && 0 <= k < size ==> (
            #[trigger] model::group_commands(pool, queue, size)[i]->CreateMatch_1[k])
                == queue[i * size + k],
{
    lemma_group_bounds(queue, size);
    assert forall|i: int| 0 <= i < queue.len() as int / size implies {
        let command = #[trigger] model::group_commands(pool, queue, size)[i];
        &&& command is CreateMatch
        &&& command->CreateMatch_0 == pool
        &&& command->CreateMatch_1.len() == size
    } by {
        assert(0 <= i * size && i * size + size <= queue.len());
    }
    assert forall|i: int, k: int|
        0 <= i < queue.len() as int / size && 0 <= k < size implies (#[trigger] model::group_commands(
        pool,
        queue,
        size,
    )[i]->CreateMatch_1[k]) == queue[i * size + k] by {
        assert(0 <= i * size && i * size + size <= queue.len());
    }
}

/// The players of commands that create matches, one command after the other.
pub open spec fn players_of(commands: Seq<CommandView>) -> Seq<PlayerId>
    decreases commands.len(),
{
    if commands.len() == 0 {
        Seq::empty()
    } else {
        players_of(commands.drop_last()) + commands.last()->CreateMatch_1
    }
}

/// The first `n` commands name the front of the queue.
proof fn lemma_commands_take_the_front(pool: PoolType, queue: Seq<PlayerId>, size: int, n: int)
    requires
        size > 0,
        0 <= n <= queue.len() as int / size,
    ensures
        0 <= n * size <= queue.len(),
        players_of(model::group_commands(pool, queue, size).take(n)) == queue.take(n * size),
    decreases n,
{
    let commands = model::group_commands(pool, queue, size);
    law_every_group_becomes_a_match(pool, queue, size);
    if n == 0 {
        assert(n * size == 0) by (nonlinear_arith)
            requires
                n == 0,
        ;
        assert(commands.take(0).len() == 0);
        assert(players_of(commands.take(0)) =~= queue.take(0));
    } else {
        lemma_group_bounds(queue, size);
        assert((n - 1) * size + size == n * size) by (nonlinear_arith);
        assert(0 <= (n - 1) * size && (n - 1) * size + size <= queue.len());
        lemma_commands_take_the_front(pool, queue, size, n - 1);
        assert(commands.take(n).drop_last() =~= commands.take(n - 1));
        assert(commands.take(n).last() == commands[n - 1]);
        let named = commands[n - 1]->CreateMatch_1;
        assert forall|k: int| 0 <= k < size implies named[k] == queue[(n - 1) * size + k] by {
            assert(model::group_commands(pool, queue, size)[n - 1]->CreateMatch_1[k] == queue[(n - 1)
                * size + k]);
        }
        assert(queue.take((n - 1) * size) + named =~= queue.take(n * size));
    }
}

/// Nobody who leaves a queue is lost: the players that the commands name, in the order of the
/// commands, and then those who wait on, are the queue as it was.
pub proof fn law_commands_name_everybody_who_leaves(
    s: StateView,
    pool: PoolType,
    size: int,
)
    requires
        size > 0,
    ensures
        players_of(model::group_commands(pool, s.queue(pool), size)) + s.grouped(pool, size).queue(
            pool,
        ) == s.queue(pool),
        s.grouped(pool, size).queue(pool).len() < size,
{
    let queue = s.queue(pool);
    let commands = model::group_commands(pool, queue, size);
    let n = queue.len() as int / size;
    law_every_group_becomes_a_match(pool, queue, size);
    lemma_group_bounds(queue, size);
    lemma_commands_take_the_front(pool, queue, size, n);
    assert(commands.take(n) =~= commands);
    assert(queue.take(n * size) + queue.skip(n * size) =~= queue);
}

/// Those who wait on after their pool was grouped are the last ones of its queue, fewer than a group,
/// in their order. No other queue changes, and nothing else does.
pub proof fn law_the_rest_waits_on(s: StateView, pool: PoolType, size: int)
    requires
        size > 0,
    ensures
        ({
            let t = s.grouped(pool, size);
            let before = s.queue(pool);
            let after = t.queue(pool);
            let left = before.len() as int % size;
            &&& after.len() == left
            &&& forall|k: int|
                0 <= k < left ==> #[trigger] after[k] == before[before.len() - left + k]
            &&& pool == PoolType::NormalOneVsOne ==> t.two_vs_two == s.two_vs_two
            &&& pool == PoolType::NormalTwoVsTwo ==> t.one_vs_one == s.one_vs_one
            &&& t.matches == s.matches
            &&& t.senders == s.senders
            &&& t.next_session_id == s.next_session_id
        }),
{
    lemma_group_bounds(s.queue(pool), size);
}

/// A match of one against one has two players, one of two against two has four.
pub proof fn law_sizes_of_matches()
    ensures
        model::ONE_VS_ONE_PLAYERS == 2,
        model::TWO_VS_TWO_PLAYERS == 4,
{
}

/// A round makes a match of every two players who wait for one against one, and then of every four
/// who wait for two against two, from the front and in their order, and of nobody else. What is left
/// of the queues is their ends. The matches, senders and ids stay as they are.
pub proof fn law_round_matches_from_the_front(s: StateView)
    ensures
        ({
            let commands = s.round_commands();
            let t = s.after_round();
            let pairs = s.one_vs_one.len() as int / 2;
            let fours = s.two_vs_two.len() as int / 4;
            &&& commands.len() == pairs + fours
            &&& forall|i: int|
                0 <= i < pairs ==> #[trigger] commands[i] == CommandView::CreateMatch(
                    PoolType::NormalOneVsOne,
                    seq![s.one_vs_one[2 * i], s.one_vs_one[2 * i + 1]],
                )
            &&& forall|i: int|
                0 <= i < fours ==> #[trigger] commands[pairs + i] == CommandView::CreateMatch(
                    PoolType::NormalTwoVsTwo,
                    seq![
                        s.two_vs_two[4 * i],
                        s.two_vs_two[4 * i + 1],
                        s.two_vs_two[4 * i + 2],
                        s.two_vs_two[4 * i + 3],
                    ],
                )
            &&& t.one_vs_one == s.one_vs_one.skip(2 * pairs)
            &&& t.two_vs_two == s.two_vs_two.skip(4 * fours)
            &&& t.matches == s.matches
            &&& t.senders == s.senders
            &&& t.next_session_id == s.next_session_id
        }),
{
    let commands = s.round_commands();
    let pairs = s.one_vs_one.len() as int / 2;
    let fours = s.two_vs_two.len() as int / 4;
    let first = model::group_commands(PoolType::NormalOneVsOne, s.one_vs_one, 2);
    let second = model::group_commands(PoolType::NormalTwoVsTwo, s.two_vs_two, 4);
    law_every_group_becomes_a_match(PoolType::NormalOneVsOne, s.one_vs_one, 2);
    law_every_group_becomes_a_match(PoolType::NormalTwoVsTwo, s.two_vs_two, 4);
    assert(commands =~= first + second);
    assert forall|i: int| 0 <= i < pairs implies #[trigger] commands[i] == CommandView::CreateMatch(
        PoolType::NormalOneVsOne,
        seq![s.one_vs_one[2 * i], s.one_vs_one[2 * i + 1]],
    ) by {
        assert(commands[i] == first[i]);
        assert(first[i]->CreateMatch_1 =~= seq![s.one_vs_one[2 * i], s.one_vs_one[2 * i + 1]]);
    }
    assert forall|i: int| 0 <= i < fours implies #[trigger] commands[pairs + i]
        == CommandView::CreateMatch(
        PoolType::NormalTwoVsTwo,
        seq![
            s.two_vs_two[4 * i],
            s.two_vs_two[4 * i + 1],
            s.two_vs_two[4 * i + 2],
            s.two_vs_two[4 * i + 3],
        ],
    ) by {
        assert(commands[pairs + i] == second[i]);
        assert(second[i]->CreateMatch_1 =~= seq![
            s.two_vs_two[4 * i],
            s.two_vs_two[4 * i + 1],
            s.two_vs_two[4 * i + 2],
            s.two_vs_two[4 * i + 3],
        ]);
    }
}

} // verus!
