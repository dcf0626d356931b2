//! The frame loop core: builds the store and the systems, and advances the
//! simulation one frame at a time.
//!
//! The wall clock, the window and the rasterizer stay with the embedding
//! caller, which measures `delta`, hands it in, executes the returned draw
//! commands, and stops once the run budget is spent.

use crate::db::Database;
use crate::error::EcsError;
use crate::systems::collision::{spec_report_ok, CollisionReport, CollisionSystem};
use crate::systems::gravity::{accelerated_y, gravity_fits, GravitySystem};
use crate::systems::movement::{moved_x, moved_y, movement_fits, MovementSystem};
use crate::systems::print_position::{spec_status, PrintPositionSystem, StatusRow};
use crate::systems::renderer::{spec_render_rects, RenderFrame, RenderSystem, Rgb};
use vstd::prelude::*;

verus! {

/// The wall-clock budget of a demo run, in milliseconds; the loop terminates
/// normally once it is exceeded.
pub const RUN_BUDGET_MILLIS: u64 = 5000;

/// Returns whether a run that has consumed `elapsed_millis` of wall time is
/// over its budget.
pub fn past_budget(elapsed_millis: u64) -> (r: bool)
    ensures
        r == (elapsed_millis > RUN_BUDGET_MILLIS),
{
    elapsed_millis > RUN_BUDGET_MILLIS
}

/// Everything one frame hands the embedding caller: the detected collisions,
/// an optional diagnostic dump, and the draw commands to present.
pub struct FrameOutput {
    /// What the collision system found this frame.
    pub collisions: CollisionReport,
    /// The diagnostic rows, on the frames where the printer's countdown ran
    /// out.
    pub status: Option<Vec<StatusRow>>,
    /// The draw commands for this frame.
    pub frame: RenderFrame,
}

/// The simulation: the store and the systems, ticked in a fixed order each
/// frame — movement, then gravity, then collision, then the diagnostic
/// printer, then the renderer. Movement before gravity applies the previous
/// frame's velocity to this frame's position: a deliberate one-frame lag that
/// keeps the integration stable.
pub struct Game {
    /// The store: the sole source of truth for entity state.
    pub db: Database,
    /// Integrates velocity into position.
    pub movement: MovementSystem,
    /// Accelerates velocity downward.
    pub gravity: GravitySystem,
    /// Reports pairwise overlaps.
    pub collision: CollisionSystem,
    /// Dumps positions and velocities periodically.
    pub printer: PrintPositionSystem,
    /// Projects the store into draw commands.
    pub renderer: RenderSystem,
}

impl Game {
    /// The store and the printer are well-formed.
    pub open spec fn wf(self) -> bool {
        self.db.wf() && self.printer.wf()
    }

    /// Opens the store, installs the schema, seeds the demo scene, and
    /// builds the systems in dependency order. The printer dumps once per
    /// time unit.
    pub fn new(width: usize, height: usize) -> (r: Result<Game, EcsError>)
        ensures
            r matches Ok(g) ==> {
                &&& g.wf()
                &&& g.db.spec_seeded()
                &&& g.printer.interval == 1
                &&& g.printer.remaining == 1
                &&& g.renderer.width == width
                &&& g.renderer.height == height
            },
            r is Ok,
    {
        let mut db = Database::new();
        db.initialize_tables()?;
        let mut printer = PrintPositionSystem::default();
        printer.set_interval(1);
        Ok(
            Game {
                db,
                movement: MovementSystem {},
                gravity: GravitySystem {},
                collision: CollisionSystem {},
                printer,
                renderer: RenderSystem::new(width, height),
            },
        )
    }

    /// Runs one frame: ticks every system in the fixed order on the store,
    /// then projects the resulting state for presentation. Any system error
    /// aborts the frame; an aborted frame leaves no half-applied system — the
    /// store reflects exactly the systems that ran to completion.
    pub fn frame(&mut self, delta: i64) -> (r: Result<FrameOutput, EcsError>)
        requires
            old(self).wf(),
            0 <= delta,
        ensures
            final(self).wf(),
            final(self).renderer == old(self).renderer,
            final(self).printer.interval == old(self).printer.interval,
            final(self).db.entities@ == old(self).db.entities@,
            final(self).db.gravities@ == old(self).db.gravities@,
            final(self).db.graphics@ == old(self).db.graphics@,
            !movement_fits(old(self).db.positions@, old(self).db.velocities@, delta) ==> {
                &&& r == Err::<FrameOutput, EcsError>(EcsError::Store)
                &&& final(self).db.positions@ == old(self).db.positions@
                &&& final(self).db.velocities@ == old(self).db.velocities@
                &&& final(self).printer == old(self).printer
            },
            movement_fits(old(self).db.positions@, old(self).db.velocities@, delta) ==> {
                &&& final(self).db.positions@.len() == old(self).db.positions@.len()
                &&& forall|i: int|
                    0 <= i < old(self).db.positions@.len() ==> {
                        &&& (#[trigger] final(self).db.positions@[i]).id == old(
                            self,
                        ).db.positions@[i].id
                        &&& final(self).db.positions@[i].x == moved_x(
                            old(self).db.positions@[i],
                            old(self).db.velocities@,
                            delta,
                        )
                        &&& final(self).db.positions@[i].y == moved_y(
                            old(self).db.positions@[i],
                            old(self).db.velocities@,
                            delta,
                        )
                    }
                &&& if gravity_fits(old(self).db.velocities@, old(self).db.gravities@, delta) {
                    &&& final(self).db.velocities@.len() == old(self).db.velocities@.len()
                    &&& forall|i: int|
                        0 <= i < old(self).db.velocities@.len() ==> {
                            &&& (#[trigger] final(self).db.velocities@[i]).id == old(
                                self,
                            ).db.velocities@[i].id
                            &&& final(self).db.velocities@[i].x == old(self).db.velocities@[i].x
                            &&& final(self).db.velocities@[i].y == accelerated_y(
                                old(self).db.velocities@[i],
                                old(self).db.gravities@,
                                delta,
                            )
                        }
                    &&& r matches Ok(out) && {
                        &&& spec_report_ok(
                            out.collisions,
                            final(self).db.positions@,
                            final(self).db.graphics@,
                        )
                        &&& if old(self).printer.remaining > delta {
                            &&& out.status is None
                            &&& final(self).printer.remaining == old(self).printer.remaining
                                - delta
                        } else {
                            &&& final(self).printer.remaining == old(self).printer.interval
                            &&& out.status matches Some(rows) && rows@ == spec_status(
                                final(self).db.positions@,
                                final(self).db.velocities@,
                            )
                        }
                        &&& out.frame.background == (Rgb { r: 255, g: 255, b: 255 })
                        &&& out.frame.rects@ == spec_render_rects(
                            final(self).db.positions@,
                            final(self).db.graphics@,
                        )
                    }
                } else {
                    &&& r == Err::<FrameOutput, EcsError>(EcsError::Store)
                    &&& final(self).db.velocities@ == old(self).db.velocities@
                    &&& final(self).printer == old(self).printer
                }
            },
    {
        MovementSystem::integrate(&mut self.db, delta)?;
        GravitySystem::accelerate(&mut self.db, delta)?;
        let collisions = CollisionSystem::detect(&self.db);
        let status = self.printer.sample(&self.db, delta);
        let frame = self.renderer.render(&self.db);
        Ok(FrameOutput { collisions, status, frame })
    }
}

} // verus!
