//! The diagnostic printer system: a periodic state dump.

use crate::db::{has_xy, xy_at, Database, XyRow};
use crate::error::EcsError;
use crate::system::System;
use vstd::prelude::*;

verus! {

/// One diagnostic line: an entity's position and velocity.
#[derive(Clone, Copy, Debug, PartialEq, Eq, Structural)]
pub struct StatusRow {
    pub id: i64,
    pub x: i64,
    pub y: i64,
    pub vx: i64,
    pub vy: i64,
}

/// The diagnostic rows: one per entity that has both `position` and
/// `velocity`, in position-table order.
pub open spec fn spec_status(pos: Seq<XyRow>, vels: Seq<XyRow>) -> Seq<StatusRow> {
    pos.filter_map(
        |p: XyRow|
            if has_xy(vels, p.id) {
                Some(
                    StatusRow {
                        id: p.id,
                        x: p.x,
                        y: p.y,
                        vx: xy_at(vels, p.id).x,
                        vy: xy_at(vels, p.id).y,
                    },
                )
            } else {
                None
            },
    )
}

/// Taking one more position row appends exactly its status line, if any.
proof fn lemma_status_take_step(pos: Seq<XyRow>, vels: Seq<XyRow>, i: int)
    requires
        0 <= i < pos.len(),
    ensures
        spec_status(pos.take(i + 1), vels) == spec_status(pos.take(i), vels) + (if has_xy(
            vels,
            pos[i].id,
        ) {
            seq![
                StatusRow {
                    id: pos[i].id,
                    x: pos[i].x,
                    y: pos[i].y,
                    vx: xy_at(vels, pos[i].id).x,
                    vy: xy_at(vels, pos[i].id).y,
                },
            ]
        } else {
            Seq::<StatusRow>::empty()
        }),
{
    let t = pos.take(i + 1);
    assert(t.drop_last() =~= pos.take(i));
    assert(t.last() == pos[i]);
    if has_xy(vels, pos[i].id) {
        assert(spec_status(t, vels) =~= spec_status(pos.take(i), vels) + seq![
            StatusRow {
                id: pos[i].id,
                x: pos[i].x,
                y: pos[i].y,
                vx: xy_at(vels, pos[i].id).x,
                vy: xy_at(vels, pos[i].id).y,
            },
        ]);
    } else {
        assert(spec_status(t, vels) =~= spec_status(pos.take(i), vels) + Seq::<
            StatusRow,
        >::empty());
    }
}

/// Emits, every `interval` time units, one line per entity that has both
/// `position` and `velocity`. Purely observational; the caller does the
/// actual printing.
pub struct PrintPositionSystem {
    /// The period between dumps, in time units.
    pub interval: i64,
    /// The countdown until the next dump, clamped at zero.
    pub remaining: i64,
}

impl Default for PrintPositionSystem {
    /// A printer that dumps on every tick until an interval is set.
    fn default() -> (s: PrintPositionSystem)
        ensures
            s.wf(),
            s.interval == 0,
            s.remaining == 0,
    {
        PrintPositionSystem { interval: 0, remaining: 0 }
    }
}

impl PrintPositionSystem {
    /// Neither the period nor the countdown is negative.
    pub open spec fn wf(self) -> bool {
        0 <= self.interval && 0 <= self.remaining
    }

    /// Sets the period and restarts the countdown.
    pub fn set_interval(&mut self, ms: i64)
        requires
            0 <= ms,
        ensures
            final(self).wf(),
            final(self).interval == ms,
            final(self).remaining == ms,
    {
        self.interval = ms;
        self.remaining = ms;
    }

    /// Counts `delta` down; when the countdown reaches zero, resets it to the
    /// period and returns the diagnostic rows of the current state.
    pub fn sample(&mut self, db: &Database, delta: i64) -> (r: Option<Vec<StatusRow>>)
        requires
            old(self).wf(),
            db.wf(),
            0 <= delta,
        ensures
            final(self).wf(),
            final(self).interval == old(self).interval,
            if old(self).remaining > delta {
                &&& r is None
                &&& final(self).remaining == old(self).remaining - delta
            } else {
                &&& final(self).remaining == old(self).interval
                &&& r matches Some(rows) && rows@ == spec_status(db.positions@, db.velocities@)
            },
    {
        if self.remaining > delta {
            self.remaining = self.remaining - delta;
            return None;
        }
        self.remaining = self.interval;
        let n = db.positions.len();
        let mut rows: Vec<StatusRow> = Vec::new();
        let mut i: usize = 0;
        while i < n
            invariant
                db.wf(),
                0 <= i <= n,
                n == db.positions@.len(),
                rows@ == spec_status(db.positions@.take(i as int), db.velocities@),
            decreases n - i,
        {
            let p = db.positions[i];
            proof {
                lemma_status_take_step(db.positions@, db.velocities@, i as int);
            }
            match db.velocity_of(p.id) {
                Some(v) => {
                    rows.push(StatusRow { id: p.id, x: p.x, y: p.y, vx: v.x, vy: v.y });
                    proof {
                        assert(rows@ =~= spec_status(db.positions@.take(i as int + 1),
                        db.velocities@));
                    }
                },
                None => {
                    proof {
                        assert(rows@ =~= spec_status(db.positions@.take(i as int + 1),
                        db.velocities@));
                    }
                },
            }
            i = i + 1;
        }
        proof {
            assert(db.positions@.take(n as int) =~= db.positions@);
        }
        Some(rows)
    }
}

impl System for PrintPositionSystem {
    open spec fn inv(&self) -> bool {
        self.wf()
    }

    /// Starts with period and countdown 0, so the first tick dumps.
    fn new(db: &Database) -> (r: Result<Box<PrintPositionSystem>, EcsError>)
        ensures
            r is Ok,
            r matches Ok(s) ==> s.interval == 0 && s.remaining == 0,
    {
        Ok(Box::new(PrintPositionSystem { interval: 0, remaining: 0 }))
    }

    /// One printer pass: the countdown of [`PrintPositionSystem::sample`],
    /// never touching the store and never failing. The pass here discards the
    /// diagnostic rows; the specified path to them is `sample`, whose result
    /// `Game::frame` returns.
    fn tick(&mut self, db: &mut Database, delta: i64) -> (r: Result<(), EcsError>)
        ensures
            r == Ok::<(), EcsError>(()),
            *final(db) == *old(db),
            final(self).interval == old(self).interval,
            final(self).remaining == if old(self).remaining > delta {
                old(self).remaining - delta
            } else {
                old(self).interval as int
            },
    {
        let _ = self.sample(db, delta);
        Ok(())
    }
}

} // verus!
