//! The movement system: integrates velocity into position.

use crate::db::{has_xy, in_i64, xy_at, Database, XyRow};
use crate::error::EcsError;
use crate::system::System;
use vstd::prelude::*;

verus! {

/// Integrates velocity into position with semi-implicit Euler, as one
/// set-oriented update over every entity that has both components.
pub struct MovementSystem {}

/// The x coordinate of position row `p` after one movement tick.
pub open spec fn moved_x(p: XyRow, vels: Seq<XyRow>, delta: i64) -> int {
    if has_xy(vels, p.id) {
        p.x + xy_at(vels, p.id).x * delta
    } else {
        p.x as int
    }
}

/// The y coordinate of position row `p` after one movement tick.
pub open spec fn moved_y(p: XyRow, vels: Seq<XyRow>, delta: i64) -> int {
    if has_xy(vels, p.id) {
        p.y + xy_at(vels, p.id).y * delta
    } else {
        p.y as int
    }
}

/// Whether every moved coordinate stays representable as an `i64`.
pub open spec fn movement_fits(positions: Seq<XyRow>, vels: Seq<XyRow>, delta: i64) -> bool {
    forall|i: int|
        0 <= i < positions.len() ==> in_i64(moved_x(#[trigger] positions[i], vels, delta))
            && in_i64(moved_y(positions[i], vels, delta))
}

/// The product of two `i64`-range integers stays far inside the `i128` range.
pub proof fn lemma_i64_product_bounds(a: int, b: int)
    requires
        in_i64(a),
        in_i64(b),
    ensures
        -0x4000_0000_0000_0000_0000_0000_0000_0000 <= a * b
            <= 0x4000_0000_0000_0000_0000_0000_0000_0000,
{
    assert(-0x4000_0000_0000_0000_0000_0000_0000_0000 <= a * b
        <= 0x4000_0000_0000_0000_0000_0000_0000_0000) by (nonlinear_arith)
        requires
            -0x8000_0000_0000_0000 <= a <= 0x7FFF_FFFF_FFFF_FFFF,
            -0x8000_0000_0000_0000 <= b <= 0x7FFF_FFFF_FFFF_FFFF,
    ;
}

/// The position of an entity after `n` movement ticks of `delta` each, with
/// velocity `vx` and nothing else touching it: each tick adds `vx * delta`.
pub open spec fn iterated_position(x: int, vx: int, delta: int, n: nat) -> int
    decreases n,
{
    if n == 0 {
        x
    } else {
        iterated_position(x, vx, delta, (n - 1) as nat) + vx * delta
    }
}

/// Movement linearity: for an entity with constant velocity, `n` movement
/// ticks advance a coordinate by exactly `n * vx * delta`.
pub proof fn lemma_movement_linearity(x: int, vx: int, delta: int, n: nat)
    ensures
        iterated_position(x, vx, delta, n) == x + n * (vx * delta),
    decreases n,
{
    if n == 0 {
        assert(x + 0 * (vx * delta) == x) by (nonlinear_arith);
    } else {
        lemma_movement_linearity(x, vx, delta, (n - 1) as nat);
        assert(x + (n - 1) * (vx * delta) + vx * delta == x + n * (vx * delta))
            by (nonlinear_arith);
    }
}

/// One movement tick, as `integrate` states it, is one step of
/// [`iterated_position`]: for an entity with a velocity, the new coordinates
/// are the old ones advanced by `velocity * delta`; without one, they stay.
pub proof fn lemma_one_tick_is_linear_step(p: XyRow, vels: Seq<XyRow>, delta: i64)
    ensures
        has_xy(vels, p.id) ==> moved_x(p, vels, delta) == iterated_position(
            p.x as int,
            xy_at(vels, p.id).x as int,
            delta as int,
            1,
        ) && moved_y(p, vels, delta) == iterated_position(
            p.y as int,
            xy_at(vels, p.id).y as int,
            delta as int,
            1,
        ),
        !has_xy(vels, p.id) ==> moved_x(p, vels, delta) == p.x && moved_y(p, vels, delta) == p.y,
{
    assert(iterated_position(p.x as int, xy_at(vels, p.id).x as int, delta as int, 0) == p.x);
    assert(iterated_position(p.y as int, xy_at(vels, p.id).y as int, delta as int, 0) == p.y);
}

impl MovementSystem {
    /// For each entity that has both `position` and `velocity`, advances the
    /// position by `velocity * delta`; entities without velocity are
    /// untouched. The update is atomic: if any moved coordinate would leave
    /// the representable range, the store is unchanged and a store error is
    /// returned.
    pub fn integrate(db: &mut Database, delta: i64) -> (r: Result<(), EcsError>)
        requires
            old(db).wf(),
        ensures
            final(db).wf(),
            final(db).entities@ == old(db).entities@,
            final(db).velocities@ == old(db).velocities@,
            final(db).gravities@ == old(db).gravities@,
            final(db).graphics@ == old(db).graphics@,
            if movement_fits(old(db).positions@, old(db).velocities@, delta) {
                &&& r == Ok::<(), EcsError>(())
                &&& final(db).positions@.len() == old(db).positions@.len()
                &&& forall|i: int|
                    0 <= i < old(db).positions@.len() ==> {
                        &&& (#[trigger] final(db).positions@[i]).id == old(db).positions@[i].id
                        &&& final(db).positions@[i].x == moved_x(
                            old(db).positions@[i],
                            old(db).velocities@,
                            delta,
                        )
                        &&& final(db).positions@[i].y == moved_y(
                            old(db).positions@[i],
                            old(db).velocities@,
                            delta,
                        )
                    }
            } else {
                &&& r == Err::<(), EcsError>(EcsError::Store)
                &&& final(db).positions@ == old(db).positions@
            },
    {
        let n = db.positions.len();
        let mut i: usize = 0;
        while i < n
            invariant
                db.wf(),
                *db == *old(db),
                n == db.positions@.len(),
                0 <= i <= n,
                forall|k: int|
                    0 <= k < i ==> in_i64(
                        moved_x(#[trigger] db.positions@[k], db.velocities@, delta),
                    ) && in_i64(moved_y(db.positions@[k], db.velocities@, delta)),
            decreases n - i,
        {
            let p = db.positions[i];
            match db.velocity_of(p.id) {
                Some(v) => {
                    proof {
                        lemma_i64_product_bounds(v.x as int, delta as int);
                        lemma_i64_product_bounds(v.y as int, delta as int);
                    }
                    let nx: i128 = p.x as i128 + (v.x as i128) * (delta as i128);
                    let ny: i128 = p.y as i128 + (v.y as i128) * (delta as i128);
                    proof {
                        assert(db.positions@[i as int] == p);
                        assert(nx == moved_x(p, db.velocities@, delta));
                        assert(ny == moved_y(p, db.velocities@, delta));
                    }
                    if nx < i64::MIN as i128 || nx > i64::MAX as i128 || ny < i64::MIN as i128
                        || ny > i64::MAX as i128 {
                        proof {
                            assert(!movement_fits(db.positions@, db.velocities@, delta));
                        }
                        return Err(EcsError::Store);
                    }
                },
                None => {},
            }
            i = i + 1;
        }
        let mut i: usize = 0;
        while i < n
            invariant
                db.wf(),
                old(db).wf(),
                0 <= i <= n,
                n == db.positions@.len(),
                n == old(db).positions@.len(),
                db.entities@ == old(db).entities@,
                db.velocities@ == old(db).velocities@,
                db.gravities@ == old(db).gravities@,
                db.graphics@ == old(db).graphics@,
                movement_fits(old(db).positions@, old(db).velocities@, delta),
                forall|k: int| i <= k < n ==> db.positions@[k] == old(db).positions@[k],
                forall|k: int|
                    0 <= k < i ==> {
                        &&& (#[trigger] db.positions@[k]).id == old(db).positions@[k].id
                        &&& db.positions@[k].x == moved_x(
                            old(db).positions@[k],
                            old(db).velocities@,
                            delta,
                        )
                        &&& db.positions@[k].y == moved_y(
                            old(db).positions@[k],
                            old(db).velocities@,
                            delta,
                        )
                    },
            decreases n - i,
        {
            let p = db.positions[i];
            proof {
                assert(p == old(db).positions@[i as int]);
            }
            match db.velocity_of(p.id) {
                Some(v) => {
                    proof {
                        lemma_i64_product_bounds(v.x as int, delta as int);
                        lemma_i64_product_bounds(v.y as int, delta as int);
                        assert(in_i64(moved_x(old(db).positions@[i as int], old(db).velocities@,
                        delta)));
                        assert(in_i64(moved_y(old(db).positions@[i as int], old(db).velocities@,
                        delta)));
                    }
                    let nx128: i128 = p.x as i128 + (v.x as i128) * (delta as i128);
                    let ny128: i128 = p.y as i128 + (v.y as i128) * (delta as i128);
                    proof {
                        assert(nx128 == moved_x(p, old(db).velocities@, delta));
                        assert(ny128 == moved_y(p, old(db).velocities@, delta));
                    }
                    let nx: i64 = nx128 as i64;
                    let ny: i64 = ny128 as i64;
                    db.positions.set(i, XyRow { id: p.id, x: nx, y: ny });
                },
                None => {
                    proof {
                        assert(moved_x(p, old(db).velocities@, delta) == p.x as int);
                        assert(moved_y(p, old(db).velocities@, delta) == p.y as int);
                    }
                },
            }
            proof {
                assert forall|a: int, b: int|
                    0 <= a < b < db.positions@.len() implies db.positions@[a].id
                    != db.positions@[b].id by {
                    assert(db.positions@[a].id == old(db).positions@[a].id);
                    assert(db.positions@[b].id == old(db).positions@[b].id);
                    assert(old(db).positions@[a].id != old(db).positions@[b].id);
                }
                assert forall|a: int|
                    0 <= a < db.positions@.len() implies db.spec_entity_exists(
                    #[trigger] db.positions@[a].id,
                ) by {
                    assert(db.positions@[a].id == old(db).positions@[a].id);
                    assert(old(db).spec_entity_exists(old(db).positions@[a].id));
                }
            }
            i = i + 1;
        }
        Ok(())
    }
}

impl System for MovementSystem {
    open spec fn inv(&self) -> bool {
        true
    }

    fn new(db: &Database) -> (r: Result<Box<MovementSystem>, EcsError>)
        ensures
            r is Ok,
    {
        Ok(Box::new(MovementSystem {}))
    }

    /// One movement pass: exactly [`MovementSystem::integrate`].
    fn tick(&mut self, db: &mut Database, delta: i64) -> (r: Result<(), EcsError>)
        ensures
            final(db).entities@ == old(db).entities@,
            final(db).velocities@ == old(db).velocities@,
            final(db).gravities@ == old(db).gravities@,
            final(db).graphics@ == old(db).graphics@,
            if movement_fits(old(db).positions@, old(db).velocities@, delta) {
                &&& r == Ok::<(), EcsError>(())
                &&& final(db).positions@.len() == old(db).positions@.len()
                &&& forall|i: int|
                    0 <= i < old(db).positions@.len() ==> {
                        &&& (#[trigger] final(db).positions@[i]).id == old(db).positions@[i].id
                        &&& final(db).positions@[i].x == moved_x(
                            old(db).positions@[i],
                            old(db).velocities@,
                            delta,
                        )
                        &&& final(db).positions@[i].y == moved_y(
                            old(db).positions@[i],
                            old(db).velocities@,
                            delta,
                        )
                    }
            } else {
                &&& r == Err::<(), EcsError>(EcsError::Store)
                &&& final(db).positions@ == old(db).positions@
            },
    {
        MovementSystem::integrate(db, delta)
    }
}

} // verus!
