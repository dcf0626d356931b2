//! The gravity system: accelerates velocity downward.

use crate::db::{gravity_at, has_gravity, in_i64, Database, GravityRow, XyRow};
use crate::error::EcsError;
use crate::system::System;
use crate::systems::movement::lemma_i64_product_bounds;
use vstd::prelude::*;

verus! {

/// Accelerates velocity for every entity that has both `velocity` and
/// `gravity`: positive amounts increase `y`, and the world's +y axis points
/// downward.
pub struct GravitySystem {}

/// The y component of velocity row `v` after one gravity tick.
pub open spec fn accelerated_y(v: XyRow, gravs: Seq<GravityRow>, delta: i64) -> int {
    if has_gravity(gravs, v.id) {
        v.y + gravity_at(gravs, v.id).amount * delta
    } else {
        v.y as int
    }
}

/// Whether every accelerated velocity stays representable as an `i64`.
pub open spec fn gravity_fits(vels: Seq<XyRow>, gravs: Seq<GravityRow>, delta: i64) -> bool {
    forall|i: int|
        0 <= i < vels.len() ==> in_i64(accelerated_y(#[trigger] vels[i], gravs, delta))
}

/// Gravity monotonicity: one gravity tick never lowers the y velocity when
/// the amount and the elapsed time are nonnegative, and strictly raises it
/// when both are positive.
pub proof fn lemma_gravity_monotonic(vy: int, amount: int, delta: int)
    ensures
        amount >= 0 && delta >= 0 ==> vy + amount * delta >= vy,
        amount > 0 && delta > 0 ==> vy + amount * delta > vy,
{
    assert(amount >= 0 && delta >= 0 ==> amount * delta >= 0) by (nonlinear_arith);
    assert(amount > 0 && delta > 0 ==> amount * delta > 0) by (nonlinear_arith);
}

/// Gravity monotonicity at the row level, as `accelerate` states one tick:
/// the y velocity never decreases under a nonnegative amount, increases
/// strictly under a positive one when time passed, and velocities without a
/// gravity row are untouched.
pub proof fn lemma_gravity_tick_monotonic(v: XyRow, gravs: Seq<GravityRow>, delta: i64)
    ensures
        has_gravity(gravs, v.id) && gravity_at(gravs, v.id).amount >= 0 && delta >= 0
            ==> accelerated_y(v, gravs, delta) >= v.y,
        has_gravity(gravs, v.id) && gravity_at(gravs, v.id).amount > 0 && delta > 0
            ==> accelerated_y(v, gravs, delta) > v.y,
        !has_gravity(gravs, v.id) ==> accelerated_y(v, gravs, delta) == v.y,
{
    lemma_gravity_monotonic(v.y as int, gravity_at(gravs, v.id).amount as int, delta as int);
}

impl GravitySystem {
    /// For each entity that has both `velocity` and `gravity`, raises the y
    /// velocity by `amount * delta`; entities without gravity keep their
    /// velocity. The update is atomic: if any accelerated velocity would
    /// leave the representable range, the store is unchanged and a store
    /// error is returned.
    pub fn accelerate(db: &mut Database, delta: i64) -> (r: Result<(), EcsError>)
        requires
            old(db).wf(),
        ensures
            final(db).wf(),
            final(db).entities@ == old(db).entities@,
            final(db).positions@ == old(db).positions@,
            final(db).gravities@ == old(db).gravities@,
            final(db).graphics@ == old(db).graphics@,
            if gravity_fits(old(db).velocities@, old(db).gravities@, delta) {
                &&& r == Ok::<(), EcsError>(())
                &&& final(db).velocities@.len() == old(db).velocities@.len()
                &&& forall|i: int|
                    0 <= i < old(db).velocities@.len() ==> {
                        &&& (#[trigger] final(db).velocities@[i]).id == old(db).velocities@[i].id
                        &&& final(db).velocities@[i].x == old(db).velocities@[i].x
                        &&& final(db).velocities@[i].y == accelerated_y(
                            old(db).velocities@[i],
                            old(db).gravities@,
                            delta,
                        )
                    }
            } else {
                &&& r == Err::<(), EcsError>(EcsError::Store)
                &&& final(db).velocities@ == old(db).velocities@
            },
    {
        let n = db.velocities.len();
        let mut i: usize = 0;
        while i < n
            invariant
                db.wf(),
                *db == *old(db),
                n == db.velocities@.len(),
                0 <= i <= n,
                forall|k: int|
                    0 <= k < i ==> in_i64(
                        accelerated_y(#[trigger] db.velocities@[k], db.gravities@, delta),
                    ),
            decreases n - i,
        {
            let v = db.velocities[i];
            match db.gravity_of(v.id) {
                Some(g) => {
                    proof {
                        lemma_i64_product_bounds(g.amount as int, delta as int);
                    }
                    let ny: i128 = v.y as i128 + (g.amount as i128) * (delta as i128);
                    proof {
                        assert(db.velocities@[i as int] == v);
                        assert(ny == accelerated_y(v, db.gravities@, delta));
                    }
                    if ny < i64::MIN as i128 || ny > i64::MAX as i128 {
                        proof {
                            assert(!gravity_fits(db.velocities@, db.gravities@, delta));
                        }
                        return Err(EcsError::Store);
                    }
                },
                None => {},
            }
            i = i + 1;
        }
        let mut i: usize = 0;
        while i < n
            invariant
                db.wf(),
                old(db).wf(),
                0 <= i <= n,
                n == db.velocities@.len(),
                n == old(db).velocities@.len(),
                db.entities@ == old(db).entities@,
                db.positions@ == old(db).positions@,
                db.gravities@ == old(db).gravities@,
                db.graphics@ == old(db).graphics@,
                gravity_fits(old(db).velocities@, old(db).gravities@, delta),
                forall|k: int| i <= k < n ==> db.velocities@[k] == old(db).velocities@[k],
                forall|k: int|
                    0 <= k < i ==> {
                        &&& (#[trigger] db.velocities@[k]).id == old(db).velocities@[k].id
                        &&& db.velocities@[k].x == old(db).velocities@[k].x
                        &&& db.velocities@[k].y == accelerated_y(
                            old(db).velocities@[k],
                            old(db).gravities@,
                            delta,
                        )
                    },
            decreases n - i,
        {
            let v = db.velocities[i];
            proof {
                assert(v == old(db).velocities@[i as int]);
            }
            match db.gravity_of(v.id) {
                Some(g) => {
                    proof {
                        lemma_i64_product_bounds(g.amount as int, delta as int);
                        assert(in_i64(accelerated_y(old(db).velocities@[i as int],
                        old(db).gravities@, delta)));
                    }
                    let ny128: i128 = v.y as i128 + (g.amount as i128) * (delta as i128);
                    proof {
                        assert(ny128 == accelerated_y(v, old(db).gravities@, delta));
                    }
                    let ny: i64 = ny128 as i64;
                    db.velocities.set(i, XyRow { id: v.id, x: v.x, y: ny });
                },
                None => {
                    proof {
                        assert(accelerated_y(v, old(db).gravities@, delta) == v.y as int);
                    }
                },
            }
            proof {
                assert forall|a: int, b: int|
                    0 <= a < b < db.velocities@.len() implies db.velocities@[a].id
                    != db.velocities@[b].id by {
                    assert(db.velocities@[a].id == old(db).velocities@[a].id);
                    assert(db.velocities@[b].id == old(db).velocities@[b].id);
                    assert(old(db).velocities@[a].id != old(db).velocities@[b].id);
                }
                assert forall|a: int|
                    0 <= a < db.velocities@.len() implies db.spec_entity_exists(
                    #[trigger] db.velocities@[a].id,
                ) by {
                    assert(db.velocities@[a].id == old(db).velocities@[a].id);
                    assert(old(db).spec_entity_exists(old(db).velocities@[a].id));
                }
            }
            i = i + 1;
        }
        Ok(())
    }
}

impl System for GravitySystem {
    open spec fn inv(&self) -> bool {
        true
    }

    fn new(db: &Database) -> (r: Result<Box<GravitySystem>, EcsError>)
        ensures
            r is Ok,
    {
        Ok(Box::new(GravitySystem {}))
    }

    /// One gravity pass: exactly [`GravitySystem::accelerate`].
    fn tick(&mut self, db: &mut Database, delta: i64) -> (r: Result<(), EcsError>)
        ensures
            final(db).entities@ == old(db).entities@,
            final(db).positions@ == old(db).positions@,
            final(db).gravities@ == old(db).gravities@,
            final(db).graphics@ == old(db).graphics@,
            if gravity_fits(old(db).velocities@, old(db).gravities@, delta) {
                &&& r == Ok::<(), EcsError>(())
                &&& final(db).velocities@.len() == old(db).velocities@.len()
                &&& forall|i: int|
                    0 <= i < old(db).velocities@.len() ==> {
                        &&& (#[trigger] final(db).velocities@[i]).id == old(db).velocities@[i].id
                        &&& final(db).velocities@[i].x == old(db).velocities@[i].x
                        &&& final(db).velocities@[i].y == accelerated_y(
                            old(db).velocities@[i],
                            old(db).gravities@,
                            delta,
                        )
                    }
            } else {
                &&& r == Err::<(), EcsError>(EcsError::Store)
                &&& final(db).velocities@ == old(db).velocities@
            },
    {
        GravitySystem::accelerate(db, delta)
    }
}

} // verus!
