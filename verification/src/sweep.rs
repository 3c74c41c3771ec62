//! What a sweep of the ball over the active power-ups leaves behind.

use vstd::prelude::*;
use crate::ball::BallView;
use crate::player::PlayerView;
use crate::powerup::{effect, ActivePowerUp, PowerUpView};

verus! {

/// The views of a sequence of power-ups.
pub open spec fn views(powerups: Seq<ActivePowerUp>) -> Seq<PowerUpView> {
    powerups.map_values(|p: ActivePowerUp| p@)
}

/// The power-ups that the ball does not take, in their order.
pub open spec fn kept(powerups: Seq<PowerUpView>, ball: BallView) -> Seq<PowerUpView> {
    powerups.filter(|p: PowerUpView| !p.taken_by(ball))
}

/// The positions of the power-ups that the ball takes, in rising order.
pub open spec fn taken_indices(powerups: Seq<PowerUpView>, ball: BallView) -> Seq<int>
    decreases powerups.len(),
{
    if powerups.len() == 0 {
        Seq::empty()
    } else {
        let before = taken_indices(powerups.drop_last(), ball);
        if powerups.last().taken_by(ball) {
            before.push(powerups.len() - 1)
        } else {
            before
        }
    }
}

/// The paddles after the effect of every power-up that the ball takes, the
/// last of the sequence first.
pub open spec fn rewarded(
    powerups: Seq<PowerUpView>,
    ball: BallView,
    player1: PlayerView,
    player2: PlayerView,
) -> (PlayerView, PlayerView)
    decreases powerups.len(),
{
    if powerups.len() == 0 {
        (player1, player2)
    } else {
        let last = powerups.last();
        let after = if last.taken_by(ball) {
            effect(last.kind, ball.last_hit, player1, player2)
        } else {
            (player1, player2)
        };
        rewarded(powerups.drop_last(), ball, after.0, after.1)
    }
}

/// The views of a sequence without its element at `i` are the views of the
/// sequence without theirs.
pub proof fn lemma_views_remove(powerups: Seq<ActivePowerUp>, i: int)
    requires
        0 <= i < powerups.len(),
    ensures
        views(powerups.remove(i)) == views(powerups).remove(i),
{
    assert(views(powerups.remove(i)) =~= views(powerups).remove(i));
}

/// The views of a sequence with one more element are the views of the
/// sequence with the view of that element.
pub proof fn lemma_views_push(powerups: Seq<ActivePowerUp>, powerup: ActivePowerUp)
    ensures
        views(powerups.push(powerup)) == views(powerups).push(powerup@),
{
    assert(views(powerups.push(powerup)) =~= views(powerups).push(powerup@));
}

/// `taken_indices` lists, in strictly rising order, exactly the positions of
/// the power-ups that the ball takes.
pub proof fn lemma_taken_indices(powerups: Seq<PowerUpView>, ball: BallView)
    ensures
        taken_indices(powerups, ball).len() <= powerups.len(),
        forall|k: int|
            0 <= k < taken_indices(powerups, ball).len() ==> {
                let i = #[trigger] taken_indices(powerups, ball)[k];
                0 <= i < powerups.len() && powerups[i].taken_by(ball)
            },
        forall|j: int, k: int|
            0 <= j < k < taken_indices(powerups, ball).len() ==> #[trigger] taken_indices(
                powerups,
                ball,
            )[j] < #[trigger] taken_indices(powerups, ball)[k],
        forall|i: int|
            0 <= i < powerups.len() && #[trigger] powerups[i].taken_by(ball) ==> taken_indices(
                powerups,
                ball,
            ).contains(i),
    decreases powerups.len(),
{
    if powerups.len() > 0 {
        let front = powerups.drop_last();
        let before = taken_indices(front, ball);
        let all = taken_indices(powerups, ball);
        lemma_taken_indices(front, ball);
        assert forall|i: int| 0 <= i < powerups.len() && #[trigger] powerups[i].taken_by(
            ball,
        ) implies all.contains(i) by {
            if i < front.len() {
                assert(front[i].taken_by(ball));
                let k = choose|k: int| 0 <= k < before.len() && before[k] == i;
                assert(all[k] == i);
            } else {
                assert(all[all.len() - 1] == i);
            }
        }
    }
}

/// A stretch of power-ups of which the ball takes none is kept whole, and
/// changes no paddle.
pub proof fn lemma_untouched_stretch(
    powerups: Seq<PowerUpView>,
    ball: BallView,
    from: int,
    to: int,
    player1: PlayerView,
    player2: PlayerView,
)
    requires
        0 <= from <= to <= powerups.len(),
        forall|i: int| from <= i < to ==> !(#[trigger] powerups[i]).taken_by(ball),
    ensures
        kept(powerups.subrange(from, to), ball) == powerups.subrange(from, to),
        rewarded(powerups.subrange(0, to), ball, player1, player2) == rewarded(
            powerups.subrange(0, from),
            ball,
            player1,
            player2,
        ),
    decreases to - from,
{
    reveal(Seq::filter);
    if from < to {
        lemma_untouched_stretch(powerups, ball, from, to - 1, player1, player2);
        assert(powerups.subrange(from, to).drop_last() =~= powerups.subrange(from, to - 1));
        assert(powerups.subrange(0, to).drop_last() =~= powerups.subrange(0, to - 1));
        assert(powerups.subrange(from, to).last() == powerups[to - 1]);
        assert(powerups.subrange(0, to).last() == powerups[to - 1]);
        assert(kept(powerups.subrange(from, to), ball) =~= powerups.subrange(from, to));
    } else {
        assert(powerups.subrange(from, to) =~= Seq::<PowerUpView>::empty());
    }
}

/// Keeping what the ball does not take can be done stretch by stretch.
pub proof fn lemma_kept_split(powerups: Seq<PowerUpView>, ball: BallView, from: int, mid: int)
    requires
        0 <= from <= mid <= powerups.len(),
    ensures
        kept(powerups.subrange(from, powerups.len() as int), ball) == kept(
            powerups.subrange(from, mid),
            ball,
        ) + kept(powerups.subrange(mid, powerups.len() as int), ball),
{
    let n = powerups.len() as int;
    let keep = |p: PowerUpView| !p.taken_by(ball);
    assert(powerups.subrange(from, n) =~= powerups.subrange(from, mid) + powerups.subrange(mid, n));
    Seq::filter_distributes_over_add(
        powerups.subrange(from, mid),
        powerups.subrange(mid, n),
        keep,
    );
}

/// A power-up that the ball takes is not kept, and changes the paddles before
/// those in front of it do.
pub proof fn lemma_taken_one(
    powerups: Seq<PowerUpView>,
    ball: BallView,
    i: int,
    player1: PlayerView,
    player2: PlayerView,
)
    requires
        0 <= i < powerups.len(),
        powerups[i].taken_by(ball),
    ensures
        kept(powerups.subrange(i, i + 1), ball) == Seq::<PowerUpView>::empty(),
        rewarded(powerups.subrange(0, i + 1), ball, player1, player2) == ({
            let after = effect(powerups[i].kind, ball.last_hit, player1, player2);
            rewarded(powerups.subrange(0, i), ball, after.0, after.1)
        }),
{
    reveal_with_fuel(Seq::filter, 2);
    let one = powerups.subrange(i, i + 1);
    assert(one.last() == powerups[i]);
    assert(one.drop_last() =~= Seq::<PowerUpView>::empty());
    assert(powerups.subrange(0, i + 1).last() == powerups[i]);
    assert(powerups.subrange(0, i + 1).drop_last() =~= powerups.subrange(0, i));
}

/// No power-up moves a paddle out of its lane or changes its width.
pub proof fn lemma_rewarded_keeps_lanes(
    powerups: Seq<PowerUpView>,
    ball: BallView,
    player1: PlayerView,
    player2: PlayerView,
)
    ensures
        rewarded(powerups, ball, player1, player2).0.x == player1.x,
        rewarded(powerups, ball, player1, player2).1.x == player2.x,
        rewarded(powerups, ball, player1, player2).0.width == player1.width,
        rewarded(powerups, ball, player1, player2).1.width == player2.width,
    decreases powerups.len(),
{
    if powerups.len() > 0 {
        let last = powerups.last();
        let after = if last.taken_by(ball) {
            effect(last.kind, ball.last_hit, player1, player2)
        } else {
            (player1, player2)
        };
        lemma_rewarded_keeps_lanes(powerups.drop_last(), ball, after.0, after.1);
    }
}

} // verus!
