//! The in-memory relational store.
//!
//! All entity state lives here, as rows in five typed tables. The store
//! upholds two invariants: every component row references an existing entity
//! id, and each component table holds at most one row per entity.

use crate::components::{Builder, Component};
use crate::error::EcsError;
use vstd::prelude::*;

verus! {

/// A row of the `position` or `velocity` table: an entity id and a pair of
/// coordinates.
#[derive(Clone, Copy, Debug, PartialEq, Eq, Structural)]
pub struct XyRow {
    pub id: i64,
    pub x: i64,
    pub y: i64,
}

/// A row of the `gravity` table: an entity id and a downward acceleration.
#[derive(Clone, Copy, Debug, PartialEq, Eq, Structural)]
pub struct GravityRow {
    pub id: i64,
    pub amount: i64,
}

/// A row of the `graphics` table: an entity id, axis-aligned extents, and a
/// named fill color.
#[derive(Clone, Debug)]
pub struct GraphicsRow {
    pub id: i64,
    pub width: i64,
    pub height: i64,
    pub color: String,
}

/// Whether an unbounded integer is representable as an `i64`.
pub open spec fn in_i64(n: int) -> bool {
    i64::MIN <= n <= i64::MAX
}

/// Whether some row of `s` carries the entity id `id`.
pub open spec fn has_xy(s: Seq<XyRow>, id: i64) -> bool {
    exists|i: int| 0 <= i < s.len() && s[i].id == id
}

/// The row of `s` carrying `id`; meaningful when the ids of `s` are distinct
/// and `has_xy(s, id)` holds.
pub open spec fn xy_at(s: Seq<XyRow>, id: i64) -> XyRow {
    s[choose|i: int| 0 <= i < s.len() && s[i].id == id]
}

/// Whether some row of `s` carries the entity id `id`.
pub open spec fn has_gravity(s: Seq<GravityRow>, id: i64) -> bool {
    exists|i: int| 0 <= i < s.len() && s[i].id == id
}

/// The row of `s` carrying `id`; meaningful when the ids of `s` are distinct
/// and `has_gravity(s, id)` holds.
pub open spec fn gravity_at(s: Seq<GravityRow>, id: i64) -> GravityRow {
    s[choose|i: int| 0 <= i < s.len() && s[i].id == id]
}

/// Whether some row of `s` carries the entity id `id`.
pub open spec fn has_graphics(s: Seq<GraphicsRow>, id: i64) -> bool {
    exists|i: int| 0 <= i < s.len() && s[i].id == id
}

/// The row of `s` carrying `id`; meaningful when the ids of `s` are distinct
/// and `has_graphics(s, id)` holds.
pub open spec fn graphics_at(s: Seq<GraphicsRow>, id: i64) -> GraphicsRow {
    s[choose|i: int| 0 <= i < s.len() && s[i].id == id]
}

/// No two rows of `s` carry the same entity id.
pub open spec fn xy_ids_distinct(s: Seq<XyRow>) -> bool {
    forall|i: int, j: int| 0 <= i < j < s.len() ==> s[i].id != s[j].id
}

/// No two rows of `s` carry the same entity id.
pub open spec fn gravity_ids_distinct(s: Seq<GravityRow>) -> bool {
    forall|i: int, j: int| 0 <= i < j < s.len() ==> s[i].id != s[j].id
}

/// No two rows of `s` carry the same entity id.
pub open spec fn graphics_ids_distinct(s: Seq<GraphicsRow>) -> bool {
    forall|i: int, j: int| 0 <= i < j < s.len() ==> s[i].id != s[j].id
}

/// The in-memory relational store: the sole source of truth for entity state.
///
/// The `entity` table assigns ids; each component table keys its rows by
/// entity id.
pub struct Database {
    /// The `entity` table: the assigned ids, in order of creation.
    pub entities: Vec<i64>,
    /// The `position` table: world-space centers.
    pub positions: Vec<XyRow>,
    /// The `velocity` table: velocities in world units per time unit.
    pub velocities: Vec<XyRow>,
    /// The `gravity` table: downward accelerations.
    pub gravities: Vec<GravityRow>,
    /// The `graphics` table: extents and fill colors.
    pub graphics: Vec<GraphicsRow>,
}

impl Database {
    /// Entity ids are assigned in strictly increasing order, so the last id is
    /// the largest.
    pub open spec fn entities_sorted(self) -> bool {
        forall|i: int, j: int|
            0 <= i < j < self.entities@.len() ==> self.entities@[i] < self.entities@[j]
    }

    /// Whether `id` is a row of the `entity` table.
    pub open spec fn spec_entity_exists(self, id: i64) -> bool {
        self.entities@.contains(id)
    }

    /// Every component row references an existing entity.
    pub open spec fn rows_reference_entities(self) -> bool {
        &&& forall|i: int|
            0 <= i < self.positions@.len() ==> self.spec_entity_exists(
                #[trigger] self.positions@[i].id,
            )
        &&& forall|i: int|
            0 <= i < self.velocities@.len() ==> self.spec_entity_exists(
                #[trigger] self.velocities@[i].id,
            )
        &&& forall|i: int|
            0 <= i < self.gravities@.len() ==> self.spec_entity_exists(
                #[trigger] self.gravities@[i].id,
            )
        &&& forall|i: int|
            0 <= i < self.graphics@.len() ==> self.spec_entity_exists(
                #[trigger] self.graphics@[i].id,
            )
    }

    /// Well-formedness: ids assigned in increasing order, at most one row per
    /// entity in each component table, and no orphan component rows.
    pub open spec fn wf(self) -> bool {
        &&& self.entities_sorted()
        &&& self.rows_reference_entities()
        &&& xy_ids_distinct(self.positions@)
        &&& xy_ids_distinct(self.velocities@)
        &&& gravity_ids_distinct(self.gravities@)
        &&& graphics_ids_distinct(self.graphics@)
    }

    /// The id the next created entity receives: one past the largest assigned
    /// id, starting from 1.
    pub open spec fn spec_next_id(self) -> int {
        if self.entities@.len() == 0 {
            1
        } else {
            self.entities@.last() + 1
        }
    }

    /// Whether another entity id can be assigned at all.
    pub open spec fn can_create_entity(self) -> bool {
        self.spec_next_id() <= i64::MAX
    }

    /// Opens a fresh store with the full schema and no rows.
    pub fn new() -> (db: Database)
        ensures
            db.wf(),
            db.entities@ == Seq::<i64>::empty(),
            db.positions@ == Seq::<XyRow>::empty(),
            db.velocities@ == Seq::<XyRow>::empty(),
            db.gravities@ == Seq::<GravityRow>::empty(),
            db.graphics@ == Seq::<GraphicsRow>::empty(),
    {
        Database {
            entities: Vec::new(),
            positions: Vec::new(),
            velocities: Vec::new(),
            gravities: Vec::new(),
            graphics: Vec::new(),
        }
    }

    /// The exact content of the demo scene `initialize_tables` seeds: a
    /// stationary wide green platform and two falling blocks, red and blue.
    pub open spec fn spec_seeded(self) -> bool {
        &&& self.entities@ == seq![1i64, 2i64, 3i64]
        &&& self.positions@ == seq![
            XyRow { id: 1, x: 200, y: 400 },
            XyRow { id: 2, x: 100, y: 100 },
            XyRow { id: 3, x: 200, y: 100 },
        ]
        &&& self.velocities@ == seq![XyRow { id: 2, x: 0, y: 0 }, XyRow { id: 3, x: 0, y: 0 }]
        &&& self.gravities@ == seq![
            GravityRow { id: 2, amount: 100 },
            GravityRow { id: 3, amount: 100 },
        ]
        &&& self.graphics@.len() == 3
        &&& self.graphics@[0].id == 1 && self.graphics@[0].width == 128 && self.graphics@[0].height
            == 8 && self.graphics@[0].color@ == "green"@
        &&& self.graphics@[1].id == 2 && self.graphics@[1].width == 32 && self.graphics@[1].height
            == 32 && self.graphics@[1].color@ == "red"@
        &&& self.graphics@[2].id == 3 && self.graphics@[2].width == 32 && self.graphics@[2].height
            == 32 && self.graphics@[2].color@ == "blue"@
    }

    /// Seeds the demo scene into a freshly opened store: three entities built
    /// through the [`Builder`], so every lifecycle rule applies to them too.
    pub fn initialize_tables(&mut self) -> (r: Result<(), EcsError>)
        requires
            old(self).entities@.len() == 0,
            old(self).positions@.len() == 0,
            old(self).velocities@.len() == 0,
            old(self).gravities@.len() == 0,
            old(self).graphics@.len() == 0,
            old(self).wf(),
        ensures
            r == Ok::<(), EcsError>(()),
            final(self).wf(),
            final(self).spec_seeded(),
    {
        let mut platform = Builder::new();
        platform.add_component(Component::Position { x: 200, y: 400 })?;
        platform.add_component(
            Component::Graphics { width: 128, height: 8, color: "green".to_owned() },
        )?;
        let ghost pend1 = platform.components@;
        platform.finish(self)?;
        proof {
            assert(pend1 =~= seq![pend1[0], pend1[1]]);
            crate::components::lemma_rows_of_pair(pend1[0], pend1[1], 1i64);
            assert(self.entities@ =~= seq![1i64]);
            assert(self.positions@ =~= seq![XyRow { id: 1, x: 200, y: 400 }]);
            assert(self.velocities@ =~= Seq::<XyRow>::empty());
            assert(self.gravities@ =~= Seq::<GravityRow>::empty());
            assert(self.graphics@.len() == 1);
        }
        let mut red = Builder::new();
        red.add_component(Component::Position { x: 100, y: 100 })?;
        red.add_component(Component::Velocity { x: 0, y: 0 })?;
        red.add_component(Component::Gravity(100))?;
        red.add_component(Component::Graphics { width: 32, height: 32, color: "red".to_owned() })?;
        let ghost pend2 = red.components@;
        red.finish(self)?;
        proof {
            assert(pend2 =~= seq![pend2[0], pend2[1], pend2[2], pend2[3]]);
            crate::components::lemma_rows_of_quad(pend2[0], pend2[1], pend2[2], pend2[3], 2i64);
            assert(self.entities@ =~= seq![1i64, 2i64]);
            assert(self.positions@ =~= seq![
                XyRow { id: 1, x: 200, y: 400 },
                XyRow { id: 2, x: 100, y: 100 },
            ]);
            assert(self.velocities@ =~= seq![XyRow { id: 2, x: 0, y: 0 }]);
            assert(self.gravities@ =~= seq![GravityRow { id: 2, amount: 100 }]);
            assert(self.graphics@.len() == 2);
        }
        let mut blue = Builder::new();
        blue.add_component(Component::Position { x: 200, y: 100 })?;
        blue.add_component(Component::Velocity { x: 0, y: 0 })?;
        blue.add_component(Component::Gravity(100))?;
        blue.add_component(
            Component::Graphics { width: 32, height: 32, color: "blue".to_owned() },
        )?;
        let ghost pend3 = blue.components@;
        blue.finish(self)?;
        proof {
            assert(pend3 =~= seq![pend3[0], pend3[1], pend3[2], pend3[3]]);
            crate::components::lemma_rows_of_quad(pend3[0], pend3[1], pend3[2], pend3[3], 3i64);
            assert(self.entities@ =~= seq![1i64, 2i64, 3i64]);
            assert(self.positions@ =~= seq![
                XyRow { id: 1, x: 200, y: 400 },
                XyRow { id: 2, x: 100, y: 100 },
                XyRow { id: 3, x: 200, y: 100 },
            ]);
            assert(self.velocities@ =~= seq![
                XyRow { id: 2, x: 0, y: 0 },
                XyRow { id: 3, x: 0, y: 0 },
            ]);
            assert(self.gravities@ =~= seq![
                GravityRow { id: 2, amount: 100 },
                GravityRow { id: 3, amount: 100 },
            ]);
            assert(self.graphics@.len() == 3);
        }
        Ok(())
    }

    /// Inserts a row into the `entity` table and returns the newly assigned
    /// id, the largest id after the insert. Fails only when the id space is
    /// exhausted.
    pub fn create_entity(&mut self) -> (r: Result<i64, crate::error::EcsError>)
        requires
            old(self).wf(),
        ensures
            final(self).wf(),
            old(self).can_create_entity() ==> {
                &&& r == Ok::<i64, crate::error::EcsError>(old(self).spec_next_id() as i64)
                &&& final(self).entities@ == old(self).entities@.push(
                    old(self).spec_next_id() as i64,
                )
            },
            !old(self).can_create_entity() ==> {
                &&& r == Err::<i64, crate::error::EcsError>(crate::error::EcsError::Store)
                &&& final(self).entities@ == old(self).entities@
            },
            final(self).positions@ == old(self).positions@,
            final(self).velocities@ == old(self).velocities@,
            final(self).gravities@ == old(self).gravities@,
            final(self).graphics@ == old(self).graphics@,
    {
        let next: i64 = if self.entities.len() == 0 {
            1
        } else {
            let last = self.entities[self.entities.len() - 1];
            if last == i64::MAX {
                return Err(crate::error::EcsError::Store);
            }
            last + 1
        };
        self.entities.push(next);
        proof {
            let es = old(self).entities@;
            assert forall|i: int, j: int|
                0 <= i < j < self.entities@.len() implies self.entities@[i]
                < self.entities@[j] by {
                if j < es.len() {
                    assert(es[i] < es[j]);
                } else {
                    assert(self.entities@[j] == next);
                    if i < es.len() - 1 {
                        assert(es[i] < es[es.len() - 1]);
                    }
                }
            }
            assert forall|id: i64| old(self).spec_entity_exists(id) implies #[trigger] self
                .spec_entity_exists(id) by {
                let w = choose|k: int| 0 <= k < es.len() && es[k] == id;
                assert(self.entities@[w] == id);
            }
        }
        Ok(next)
    }

    /// Returns the number of rows in the `entity` table.
    pub fn entity_count(&self) -> (n: usize)
        ensures
            n == self.entities@.len(),
    {
        self.entities.len()
    }

    /// Returns the number of rows in the `position` table.
    pub fn position_count(&self) -> (n: usize)
        ensures
            n == self.positions@.len(),
    {
        self.positions.len()
    }

    /// Returns the number of rows in the `velocity` table.
    pub fn velocity_count(&self) -> (n: usize)
        ensures
            n == self.velocities@.len(),
    {
        self.velocities.len()
    }

    /// Returns the number of rows in the `gravity` table.
    pub fn gravity_count(&self) -> (n: usize)
        ensures
            n == self.gravities@.len(),
    {
        self.gravities.len()
    }

    /// Returns the number of rows in the `graphics` table.
    pub fn graphics_count(&self) -> (n: usize)
        ensures
            n == self.graphics@.len(),
    {
        self.graphics.len()
    }

    /// Returns the `position` row of `id`, if any.
    pub fn position_of(&self, id: i64) -> (r: Option<XyRow>)
        requires
            self.wf(),
        ensures
            r == if has_xy(self.positions@, id) {
                Some(xy_at(self.positions@, id))
            } else {
                None::<XyRow>
            },
    {
        find_xy(&self.positions, id)
    }

    /// Returns the `velocity` row of `id`, if any.
    pub fn velocity_of(&self, id: i64) -> (r: Option<XyRow>)
        requires
            self.wf(),
        ensures
            r == if has_xy(self.velocities@, id) {
                Some(xy_at(self.velocities@, id))
            } else {
                None::<XyRow>
            },
    {
        find_xy(&self.velocities, id)
    }

    /// Returns the `gravity` row of `id`, if any.
    pub fn gravity_of(&self, id: i64) -> (r: Option<GravityRow>)
        requires
            self.wf(),
        ensures
            r == if has_gravity(self.gravities@, id) {
                Some(gravity_at(self.gravities@, id))
            } else {
                None::<GravityRow>
            },
    {
        let mut i: usize = 0;
        while i < self.gravities.len()
            invariant
                self.wf(),
                0 <= i <= self.gravities@.len(),
                forall|k: int| 0 <= k < i ==> self.gravities@[k].id != id,
            decreases self.gravities@.len() - i,
        {
            if self.gravities[i].id == id {
                proof {
                    lemma_gravity_at_unique(self.gravities@, id, i as int);
                }
                return Some(self.gravities[i]);
            }
            i = i + 1;
        }
        None
    }

    /// Returns the `graphics` row of `id`, if any.
    pub fn graphics_of(&self, id: i64) -> (r: Option<GraphicsRow>)
        requires
            self.wf(),
        ensures
            r == if has_graphics(self.graphics@, id) {
                Some(graphics_at(self.graphics@, id))
            } else {
                None::<GraphicsRow>
            },
    {
        let mut i: usize = 0;
        while i < self.graphics.len()
            invariant
                self.wf(),
                0 <= i <= self.graphics@.len(),
                forall|k: int| 0 <= k < i ==> self.graphics@[k].id != id,
            decreases self.graphics@.len() - i,
        {
            if self.graphics[i].id == id {
                proof {
                    lemma_graphics_at_unique(self.graphics@, id, i as int);
                }
                let row = &self.graphics[i];
                return Some(
                    GraphicsRow {
                        id: row.id,
                        width: row.width,
                        height: row.height,
                        color: row.color.clone(),
                    },
                );
            }
            i = i + 1;
        }
        None
    }

    /// Overwrites the `velocity` row of `id` with `(x, y)`, if there is one;
    /// returns whether a row was updated.
    pub fn update_velocity(&mut self, id: i64, x: i64, y: i64) -> (r: bool)
        requires
            old(self).wf(),
        ensures
            final(self).wf(),
            final(self).entities@ == old(self).entities@,
            final(self).positions@ == old(self).positions@,
            final(self).gravities@ == old(self).gravities@,
            final(self).graphics@ == old(self).graphics@,
            r == has_xy(old(self).velocities@, id),
            final(self).velocities@.len() == old(self).velocities@.len(),
            forall|k: int|
                0 <= k < old(self).velocities@.len() ==> final(self).velocities@[k] == (if old(
                    self,
                ).velocities@[k].id == id {
                    XyRow { id, x, y }
                } else {
                    old(self).velocities@[k]
                }),
    {
        let n = self.velocities.len();
        let mut i: usize = 0;
        while i < n
            invariant
                self.wf(),
                *self == *old(self),
                n == self.velocities@.len(),
                0 <= i <= n,
                forall|k: int| 0 <= k < i ==> self.velocities@[k].id != id,
            decreases n - i,
        {
            if self.velocities[i].id == id {
                self.velocities.set(i, XyRow { id, x, y });
                proof {
                    assert(has_xy(old(self).velocities@, id));
                    assert forall|k: int|
                        0 <= k < old(self).velocities@.len() implies self.velocities@[k] == (
                    if old(self).velocities@[k].id == id {
                        XyRow { id, x, y }
                    } else {
                        old(self).velocities@[k]
                    }) by {
                        if k != i {
                            assert(self.velocities@[k] == old(self).velocities@[k]);
                            if old(self).velocities@[k].id == id {
                                if k < i {
                                    assert(old(self).velocities@[k].id != old(
                                        self,
                                    ).velocities@[i as int].id);
                                } else {
                                    assert(old(self).velocities@[i as int].id != old(
                                        self,
                                    ).velocities@[k].id);
                                }
                            }
                        }
                    }
                    assert forall|a: int, b: int|
                        0 <= a < b < self.velocities@.len() implies self.velocities@[a].id
                        != self.velocities@[b].id by {
                        assert(self.velocities@[a].id == old(self).velocities@[a].id);
                        assert(self.velocities@[b].id == old(self).velocities@[b].id);
                        assert(old(self).velocities@[a].id != old(self).velocities@[b].id);
                    }
                    assert forall|a: int|
                        0 <= a < self.velocities@.len() implies self.spec_entity_exists(
                        #[trigger] self.velocities@[a].id,
                    ) by {
                        assert(self.velocities@[a].id == old(self).velocities@[a].id);
                        assert(old(self).spec_entity_exists(old(self).velocities@[a].id));
                    }
                }
                return true;
            }
            i = i + 1;
        }
        false
    }

    /// Overwrites the `gravity` row of `id` with `amount`, if there is one;
    /// returns whether a row was updated.
    pub fn update_gravity(&mut self, id: i64, amount: i64) -> (r: bool)
        requires
            old(self).wf(),
        ensures
            final(self).wf(),
            final(self).entities@ == old(self).entities@,
            final(self).positions@ == old(self).positions@,
            final(self).velocities@ == old(self).velocities@,
            final(self).graphics@ == old(self).graphics@,
            r == has_gravity(old(self).gravities@, id),
            final(self).gravities@.len() == old(self).gravities@.len(),
            forall|k: int|
                0 <= k < old(self).gravities@.len() ==> final(self).gravities@[k] == (if old(
                    self,
                ).gravities@[k].id == id {
                    GravityRow { id, amount }
                } else {
                    old(self).gravities@[k]
                }),
    {
        let n = self.gravities.len();
        let mut i: usize = 0;
        while i < n
            invariant
                self.wf(),
                *self == *old(self),
                n == self.gravities@.len(),
                0 <= i <= n,
                forall|k: int| 0 <= k < i ==> self.gravities@[k].id != id,
            decreases n - i,
        {
            if self.gravities[i].id == id {
                self.gravities.set(i, GravityRow { id, amount });
                proof {
                    assert(has_gravity(old(self).gravities@, id));
                    assert forall|k: int|
                        0 <= k < old(self).gravities@.len() implies self.gravities@[k] == (
                    if old(self).gravities@[k].id == id {
                        GravityRow { id, amount }
                    } else {
                        old(self).gravities@[k]
                    }) by {
                        if k != i {
                            assert(self.gravities@[k] == old(self).gravities@[k]);
                            if old(self).gravities@[k].id == id {
                                if k < i {
                                    assert(old(self).gravities@[k].id != old(
                                        self,
                                    ).gravities@[i as int].id);
                                } else {
                                    assert(old(self).gravities@[i as int].id != old(
                                        self,
                                    ).gravities@[k].id);
                                }
                            }
                        }
                    }
                    assert forall|a: int, b: int|
                        0 <= a < b < self.gravities@.len() implies self.gravities@[a].id
                        != self.gravities@[b].id by {
                        assert(self.gravities@[a].id == old(self).gravities@[a].id);
                        assert(self.gravities@[b].id == old(self).gravities@[b].id);
                        assert(old(self).gravities@[a].id != old(self).gravities@[b].id);
                    }
                    assert forall|a: int|
                        0 <= a < self.gravities@.len() implies self.spec_entity_exists(
                        #[trigger] self.gravities@[a].id,
                    ) by {
                        assert(self.gravities@[a].id == old(self).gravities@[a].id);
                        assert(old(self).spec_entity_exists(old(self).gravities@[a].id));
                    }
                }
                return true;
            }
            i = i + 1;
        }
        false
    }

    /// Returns whether `id` exists in the `entity` table.
    pub fn entity_exists(&self, id: i64) -> (r: bool)
        ensures
            r == self.spec_entity_exists(id),
    {
        let mut i: usize = 0;
        while i < self.entities.len()
            invariant
                0 <= i <= self.entities@.len(),
                forall|k: int| 0 <= k < i ==> self.entities@[k] != id,
            decreases self.entities@.len() - i,
        {
            if self.entities[i] == id {
                return true;
            }
            i = i + 1;
        }
        false
    }
}

/// Schema round-trip: in the seeded store every seeded entity id exists in
/// the `entity` table, and each component table holds exactly one row per
/// seed entity that was given that component — three positions, two
/// velocities, two gravities, three graphics.
pub proof fn lemma_seed_round_trip(db: Database)
    requires
        db.spec_seeded(),
    ensures
        db.spec_entity_exists(1),
        db.spec_entity_exists(2),
        db.spec_entity_exists(3),
        db.positions@.len() == 3,
        db.velocities@.len() == 2,
        db.gravities@.len() == 2,
        db.graphics@.len() == 3,
        has_xy(db.positions@, 1) && has_xy(db.positions@, 2) && has_xy(db.positions@, 3),
        !has_xy(db.velocities@, 1) && has_xy(db.velocities@, 2) && has_xy(db.velocities@, 3),
        !has_gravity(db.gravities@, 1) && has_gravity(db.gravities@, 2) && has_gravity(
            db.gravities@,
            3,
        ),
        has_graphics(db.graphics@, 1) && has_graphics(db.graphics@, 2) && has_graphics(
            db.graphics@,
            3,
        ),
{
    assert(db.entities@[0] == 1i64);
    assert(db.entities@[1] == 2i64);
    assert(db.entities@[2] == 3i64);
    assert(db.positions@[0].id == 1 && db.positions@[1].id == 2 && db.positions@[2].id == 3);
    assert(db.velocities@[0].id == 2 && db.velocities@[1].id == 3);
    assert(db.gravities@[0].id == 2 && db.gravities@[1].id == 3);
    assert(db.graphics@[0].id == 1 && db.graphics@[1].id == 2 && db.graphics@[2].id == 3);
}

/// Component uniqueness: in a well-formed store, each component table holds
/// at most one row for any entity.
pub proof fn lemma_component_uniqueness(db: Database, id: i64)
    requires
        db.wf(),
    ensures
        db.positions@.filter(|r: XyRow| r.id == id).len() <= 1,
        db.velocities@.filter(|r: XyRow| r.id == id).len() <= 1,
        db.gravities@.filter(|r: GravityRow| r.id == id).len() <= 1,
        db.graphics@.filter(|r: GraphicsRow| r.id == id).len() <= 1,
{
    lemma_distinct_filter_xy(db.positions@, id);
    lemma_distinct_filter_xy(db.velocities@, id);
    lemma_distinct_filter_gravity(db.gravities@, id);
    lemma_distinct_filter_graphics(db.graphics@, id);
}

/// A table with no row for `id` filters down to nothing for `id`.
proof fn lemma_none_filter_xy(s: Seq<XyRow>, id: i64)
    requires
        forall|i: int| 0 <= i < s.len() ==> s[i].id != id,
    ensures
        s.filter(|r: XyRow| r.id == id).len() == 0,
    decreases s.len(),
{
    reveal(Seq::filter);
    if s.len() > 0 {
        let rest = s.drop_last();
        assert forall|i: int| 0 <= i < rest.len() implies rest[i].id != id by {
            assert(s[i].id != id);
        }
        lemma_none_filter_xy(rest, id);
        assert(s[s.len() - 1].id != id);
    }
}

/// A table with distinct ids filters down to at most one row for `id`.
proof fn lemma_distinct_filter_xy(s: Seq<XyRow>, id: i64)
    requires
        xy_ids_distinct(s),
    ensures
        s.filter(|r: XyRow| r.id == id).len() <= 1,
    decreases s.len(),
{
    reveal(Seq::filter);
    if s.len() > 0 {
        let rest = s.drop_last();
        assert forall|i: int, j: int| 0 <= i < j < rest.len() implies rest[i].id != rest[j].id by {
            assert(s[i].id != s[j].id);
        }
        lemma_distinct_filter_xy(rest, id);
        if s.last().id == id {
            assert forall|i: int| 0 <= i < rest.len() implies rest[i].id != id by {
                assert(s[i].id != s[s.len() - 1].id);
            }
            lemma_none_filter_xy(rest, id);
        }
    }
}

/// A table with no row for `id` filters down to nothing for `id`.
proof fn lemma_none_filter_gravity(s: Seq<GravityRow>, id: i64)
    requires
        forall|i: int| 0 <= i < s.len() ==> s[i].id != id,
    ensures
        s.filter(|r: GravityRow| r.id == id).len() == 0,
    decreases s.len(),
{
    reveal(Seq::filter);
    if s.len() > 0 {
        let rest = s.drop_last();
        assert forall|i: int| 0 <= i < rest.len() implies rest[i].id != id by {
            assert(s[i].id != id);
        }
        lemma_none_filter_gravity(rest, id);
        assert(s[s.len() - 1].id != id);
    }
}

/// A table with distinct ids filters down to at most one row for `id`.
proof fn lemma_distinct_filter_gravity(s: Seq<GravityRow>, id: i64)
    requires
        gravity_ids_distinct(s),
    ensures
        s.filter(|r: GravityRow| r.id == id).len() <= 1,
    decreases s.len(),
{
    reveal(Seq::filter);
    if s.len() > 0 {
        let rest = s.drop_last();
        assert forall|i: int, j: int| 0 <= i < j < rest.len() implies rest[i].id != rest[j].id by {
            assert(s[i].id != s[j].id);
        }
        lemma_distinct_filter_gravity(rest, id);
        if s.last().id == id {
            assert forall|i: int| 0 <= i < rest.len() implies rest[i].id != id by {
                assert(s[i].id != s[s.len() - 1].id);
            }
            lemma_none_filter_gravity(rest, id);
        }
    }
}

/// A table with no row for `id` filters down to nothing for `id`.
proof fn lemma_none_filter_graphics(s: Seq<GraphicsRow>, id: i64)
    requires
        forall|i: int| 0 <= i < s.len() ==> s[i].id != id,
    ensures
        s.filter(|r: GraphicsRow| r.id == id).len() == 0,
    decreases s.len(),
{
    reveal(Seq::filter);
    if s.len() > 0 {
        let rest = s.drop_last();
        assert forall|i: int| 0 <= i < rest.len() implies rest[i].id != id by {
            assert(s[i].id != id);
        }
        lemma_none_filter_graphics(rest, id);
        assert(s[s.len() - 1].id != id);
    }
}

/// A table with distinct ids filters down to at most one row for `id`.
proof fn lemma_distinct_filter_graphics(s: Seq<GraphicsRow>, id: i64)
    requires
        graphics_ids_distinct(s),
    ensures
        s.filter(|r: GraphicsRow| r.id == id).len() <= 1,
    decreases s.len(),
{
    reveal(Seq::filter);
    if s.len() > 0 {
        let rest = s.drop_last();
        assert forall|i: int, j: int| 0 <= i < j < rest.len() implies rest[i].id != rest[j].id by {
            assert(s[i].id != s[j].id);
        }
        lemma_distinct_filter_graphics(rest, id);
        if s.last().id == id {
            assert forall|i: int| 0 <= i < rest.len() implies rest[i].id != id by {
                assert(s[i].id != s[s.len() - 1].id);
            }
            lemma_none_filter_graphics(rest, id);
        }
    }
}

/// Linear scan for the row of `s` carrying `id`.
fn find_xy(s: &Vec<XyRow>, id: i64) -> (r: Option<XyRow>)
    requires
        xy_ids_distinct(s@),
    ensures
        r == if has_xy(s@, id) {
            Some(xy_at(s@, id))
        } else {
            None::<XyRow>
        },
{
    let mut i: usize = 0;
    while i < s.len()
        invariant
            xy_ids_distinct(s@),
            0 <= i <= s@.len(),
            forall|k: int| 0 <= k < i ==> s@[k].id != id,
        decreases s@.len() - i,
    {
        if s[i].id == id {
            proof {
                lemma_xy_at_unique(s@, id, i as int);
            }
            return Some(s[i]);
        }
        i = i + 1;
    }
    None
}

/// With distinct ids, a row carrying `id` is the row `xy_at` denotes.
proof fn lemma_xy_at_unique(s: Seq<XyRow>, id: i64, i: int)
    requires
        xy_ids_distinct(s),
        0 <= i < s.len(),
        s[i].id == id,
    ensures
        has_xy(s, id),
        xy_at(s, id) == s[i],
{
    assert(has_xy(s, id));
    let j = choose|j: int| 0 <= j < s.len() && s[j].id == id;
    if j < i {
        assert(s[j].id != s[i].id);
    } else if i < j {
        assert(s[i].id != s[j].id);
    }
}

/// With distinct ids, a row carrying `id` is the row `gravity_at` denotes.
proof fn lemma_gravity_at_unique(s: Seq<GravityRow>, id: i64, i: int)
    requires
        gravity_ids_distinct(s),
        0 <= i < s.len(),
        s[i].id == id,
    ensures
        has_gravity(s, id),
        gravity_at(s, id) == s[i],
{
    assert(has_gravity(s, id));
    let j = choose|j: int| 0 <= j < s.len() && s[j].id == id;
    if j < i {
        assert(s[j].id != s[i].id);
    } else if i < j {
        assert(s[i].id != s[j].id);
    }
}

/// With distinct ids, a row carrying `id` is the row `graphics_at` denotes.
proof fn lemma_graphics_at_unique(s: Seq<GraphicsRow>, id: i64, i: int)
    requires
        graphics_ids_distinct(s),
        0 <= i < s.len(),
        s[i].id == id,
    ensures
        has_graphics(s, id),
        graphics_at(s, id) == s[i],
{
    assert(has_graphics(s, id));
    let j = choose|j: int| 0 <= j < s.len() && s[j].id == id;
    if j < i {
        assert(s[j].id != s[i].id);
    } else if i < j {
        assert(s[i].id != s[j].id);
    }
}

} // verus!
