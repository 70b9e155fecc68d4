//! What holds of the queues.
use crate::model;
use crate::model::StateView;
use crate::types::{CommandView, MatchmakingEvent, PlayerId, PoolType};
use tokio::sync::mpsc;
use vstd::prelude::*;

verus! {

/// What a pool's players wait for is their own affair: a command about one pool leaves the queue
/// of every other pool alone.
pub proof fn law_pools_are_independent(
    s: StateView,
    pool: PoolType,
    other: PoolType,
    player: PlayerId,
    players: Seq<PlayerId>,
    sender: mpsc::Sender<MatchmakingEvent>,
)
    requires
        pool != other,
    ensures
        s.add_player(pool, player, sender).queue(other) == s.queue(other),
        s.after(CommandView::RemovePlayer(pool, player)).queue(other) == s.queue(other),
        s.after(CommandView::CreateMatch(pool, players)).queue(other) == s.queue(other),
{
}

/// A filtered queue holds those that were in it and that the filter lets through.
proof fn lemma_filter_members(queue: Seq<PlayerId>, keep: spec_fn(PlayerId) -> bool)
    ensures
        forall|player: PlayerId|
            queue.filter(keep).contains(player) <==> #[trigger] queue.contains(player) && keep(
                player,
            ),
{
    let kept = queue.filter(keep);
    assert forall|player: PlayerId|
        kept.contains(player) <==> #[trigger] queue.contains(player) && keep(player) by {
        if queue.contains(player) && keep(player) {
            let i = choose|i: int| 0 <= i < queue.len() && queue[i] == player;
            queue.lemma_filter_contains(keep, i);
        }
        if kept.contains(player) {
            let i = choose|i: int| 0 <= i < kept.len() && kept[i] == player;
            queue.lemma_filter_pred(keep, i);
            queue.lemma_filter_contains_rev(keep, player);
        }
    }
}

/// A player who is removed from a pool waits there no more, however often they joined, and nobody
/// else leaves.
pub proof fn law_removed_player_is_gone(s: StateView, pool: PoolType, player: PlayerId)
    ensures
        !s.after(CommandView::RemovePlayer(pool, player)).queue(pool).contains(player),
        forall|other: PlayerId|
            other != player ==> (s.after(CommandView::RemovePlayer(pool, player)).queue(
                pool,
            ).contains(other) <==> #[trigger] s.queue(pool).contains(other)),
{
    let keep = model::other_than(player);
    lemma_filter_members(s.queue(pool), keep);
    assert(!s.queue(pool).filter(keep).contains(player)) by {
        if s.queue(pool).filter(keep).contains(player) {
            assert(s.queue(pool).contains(player) && keep(player));
        }
    }
}

/// Removing a player undoes their joining: the queue is as it was if they did not wait in it
/// before.
pub proof fn law_remove_undoes_add(
    s: StateView,
    pool: PoolType,
    player: PlayerId,
    sender: mpsc::Sender<MatchmakingEvent>,
)
    requires
        !s.queue(pool).contains(player),
    ensures
        s.add_player(pool, player, sender).after(CommandView::RemovePlayer(pool, player)).queue(
            pool,
        ) == s.queue(pool),
{
    let keep = model::other_than(player);
    let queue = s.queue(pool);
    lemma_without_absent(queue, player);
    queue.lemma_filter_push(player, keep);
}

/// Taking out a player who does not wait changes nothing.
proof fn lemma_without_absent(queue: Seq<PlayerId>, player: PlayerId)
    requires
        !queue.contains(player),
    ensures
        model::without(queue, player) == queue,
    decreases queue.len(),
{
    reveal(Seq::filter);
    if queue.len() > 0 {
        let front = queue.drop_last();
        assert(queue =~= front.push(queue.last()));
        assert(queue.contains(queue.last()));
        assert(!front.contains(player)) by {
            if front.contains(player) {
                let i = choose|i: int| 0 <= i < front.len() && front[i] == player;
                assert(queue[i] == player);
            }
        }
        lemma_without_absent(front, player);
    }
}

/// The players of a new match wait no more in the pool that it was made from.
pub proof fn law_matched_players_leave_queue(
    s: StateView,
    pool: PoolType,
    players: Seq<PlayerId>,
    player: PlayerId,
)
    ensures
        s.after(CommandView::CreateMatch(pool, players)).queue(pool).contains(player) <==> s.queue(
            pool,
        ).contains(player) && !players.contains(player),
{
    lemma_filter_members(s.queue(pool), model::none_of(players));
    assert(s.queue(pool).contains(player) || !s.queue(pool).contains(player));
}

/// Nobody is lost in a round and nobody is doubled: the groups, one after the other, and then the
/// players left over are the queue as it was. Fewer than a group are left over.
pub proof fn law_round_keeps_everybody(queue: Seq<PlayerId>, size: int)
    requires
        size > 0,
    ensures
        model::groups(queue, size, model::group_count(queue, size)).flatten() + model::leftover(
            queue,
            size,
        ) == queue,
        model::leftover(queue, size).len() < size,
{
    let n = model::group_count(queue, size);
    vstd::arithmetic::div_mod::lemma_fundamental_div_mod(queue.len() as int, size);
    vstd::arithmetic::div_mod::lemma_mod_bound(queue.len() as int, size);
    vstd::arithmetic::div_mod::lemma_div_pos_is_pos(queue.len() as int, size);
    assert(n * size == size * n) by (nonlinear_arith);
    lemma_groups_concatenate(queue, size, n);
    assert(queue.take(n * size) + queue.skip(n * size) =~= queue);
}

/// The first `n` groups, one after the other, are the front of the queue.
proof fn lemma_groups_concatenate(queue: Seq<PlayerId>, size: int, n: int)
    requires
        size > 0,
        0 <= n,
        n * size <= queue.len(),
    ensures
        model::groups(queue, size, n).flatten() == queue.take(n * size),
    decreases n,
{
    let groups = model::groups(queue, size, n);
    if n == 0 {
        assert(groups.flatten() =~= queue.take(0));
        assert(n * size == 0) by (nonlinear_arith)
            requires
                n == 0,
        ;
    } else {
        assert((n - 1) * size + size == n * size) by (nonlinear_arith);
        assert(0 <= (n - 1) * size) by (nonlinear_arith)
            requires
                n > 0,
                size > 0,
        ;
        lemma_groups_concatenate(queue, size, n - 1);
        let front = model::groups(queue, size, n - 1);
        assert(groups.drop_last() =~= front);
        groups.lemma_flatten_and_flatten_alt_are_equivalent();
        front.lemma_flatten_and_flatten_alt_are_equivalent();
        assert(groups.last() == model::group(queue, size, n - 1));
        assert(groups.flatten_alt() == groups.drop_last().flatten_alt() + groups.last());
        assert(queue.take((n - 1) * size) + model::group(queue, size, n - 1) =~= queue.take(
            n * size,
        ));
    }
}

/// First come, first served: whoever stands at place `at` of a queue is in the group that their
/// place falls into, unless the queue ends before that group is whole.
pub proof fn law_groups_keep_order(queue: Seq<PlayerId>, size: int, at: int)
    requires
        size > 0,
        0 <= at < model::group_count(queue, size) * size,
    ensures
        0 <= at / size < model::group_count(queue, size),
        model::group(queue, size, at / size)[at % size] == queue[at],
{
    let n = model::group_count(queue, size);
    let i = at / size;
    vstd::arithmetic::div_mod::lemma_fundamental_div_mod(queue.len() as int, size);
    vstd::arithmetic::div_mod::lemma_mod_bound(queue.len() as int, size);
    vstd::arithmetic::div_mod::lemma_fundamental_div_mod(at, size);
    vstd::arithmetic::div_mod::lemma_mod_bound(at, size);
    assert(0 <= i < n) by (nonlinear_arith)
        requires
            size > 0,
            at == size * i + at % size,
            0 <= at % size < size,
            0 <= at < n * size,
    ;
    assert(i * size + size <= n * size) by (nonlinear_arith)
        requires
            i < n,
            size > 0,
    ;
    assert(n * size == size * n && i * size == size * i) by (nonlinear_arith);
    assert(0 <= i * size) by (nonlinear_arith)
        requires
            0 <= i,
            size > 0,
    ;
}

/// A round settles: right after one, another issues no command and changes nothing.
pub proof fn law_round_settles(s: StateView)
    ensures
        s.after_round().round_commands() == Seq::<CommandView>::empty(),
        s.after_round().after_round() == s.after_round(),
{
    let t = s.after_round();
    law_round_keeps_everybody(s.one_vs_one, model::ONE_VS_ONE_PLAYERS as int);
    law_round_keeps_everybody(s.two_vs_two, model::TWO_VS_TWO_PLAYERS as int);
    assert(t.round_commands() =~= Seq::<CommandView>::empty());
    assert(t.after_round().one_vs_one =~= t.one_vs_one);
    assert(t.after_round().two_vs_two =~= t.two_vs_two);
}

} // verus!
