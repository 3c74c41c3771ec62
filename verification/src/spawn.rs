//! Where and what the next power-up is: drawn at random.

use rand::rngs::ThreadRng;
use rand::seq::IndexedRandom;
use rand::Rng;
use vstd::prelude::*;
use crate::constants::{HEIGHT, SPRITE_SPAWN_INSET, SPRITE_SPAWN_MARGIN, WIDTH};
use crate::powerup::{ActivePowerUp, PowerUpType};

verus! {

/// The random number generator of the current thread, `rand::rngs::ThreadRng`.
/// Nothing is known of what it holds.
#[verifier::external_type_specification]
#[verifier::external_body]
pub struct ExThreadRng(ThreadRng);

/// `rand::rng` hands out the generator of the current thread. Nothing is
/// claimed of it.
pub assume_specification[ rand::rng ]() -> (rng: ThreadRng)
;

/// `Rng::random_range` on the inclusive range from `low` to `high`: some
/// number of that range. The call panics on an empty range, which `requires`
/// leaves out.
#[verifier::external_body]
fn random_between(rng: &mut ThreadRng, low: i64, high: i64) -> (value: i64)
    requires
        low <= high,
    ensures
        low <= value <= high,
{
    rng.random_range(low..=high)
}

/// `IndexedRandom::choose` on a slice of kinds: one of the slice's elements,
/// and `None` exactly when the slice is empty.
#[verifier::external_body]
fn choose_type(rng: &mut ThreadRng, types: &[PowerUpType]) -> (chosen: Option<PowerUpType>)
    ensures
        types@.len() == 0 ==> chosen is None,
        types@.len() > 0 ==> chosen is Some && types@.contains(chosen->0),
{
    types.choose(rng).copied()
}

/// Draws a power-up to spawn: any of the four kinds, anywhere in the spawn
/// region.
pub fn random_power_up() -> (powerup: ActivePowerUp)
    ensures
        powerup@.in_spawn_region(),
{
    let mut rng = rand::rng();
    let types = [
        PowerUpType::Enlarge,
        PowerUpType::Shrink,
        PowerUpType::SpeedUp,
        PowerUpType::SlowDown,
    ];
    let kind = match choose_type(&mut rng, &types) {
        Some(kind) => kind,
        None => PowerUpType::Enlarge,
    };
    let x: i64 = random_between(&mut rng, SPRITE_SPAWN_MARGIN, WIDTH - SPRITE_SPAWN_MARGIN);
    let y: i64 = random_between(&mut rng, SPRITE_SPAWN_INSET, HEIGHT - SPRITE_SPAWN_INSET);
    ActivePowerUp::new(kind, x, y)
}

} // verus!
