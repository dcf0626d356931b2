//! The closed component model and the entity builder.
//!
//! A component is one of four closed variants; `entity_add_component` turns a
//! component into a row of the matching table, and [`Builder`] collects the
//! components of a single entity and flushes them transactionally, enforcing
//! component uniqueness.

use crate::db::{Database, GravityRow, GraphicsRow, XyRow};
use crate::db::{gravity_ids_distinct, xy_ids_distinct};
use crate::db::{has_graphics, has_gravity, has_xy};
use crate::error::EcsError;
use vstd::prelude::*;

verus! {

/// The kind of a component, without its payload. Used to report which kind a
/// duplicate belonged to.
#[derive(Clone, Copy, Debug, PartialEq, Eq, Structural)]
pub enum ComponentKind {
    Position,
    Velocity,
    Gravity,
    Graphics,
}

/// One component of an entity. The set of variants is closed: adding one is a
/// coordinated change to the store schema, the attach function, and every
/// system that joins against the new table.
///
/// All numeric payloads are integers in a scale of the caller's choosing.
#[derive(Clone, Debug)]
pub enum Component {
    /// World-space center of the entity.
    Position { x: i64, y: i64 },
    /// Velocity in world units per time unit.
    Velocity { x: i64, y: i64 },
    /// Downward acceleration in world units per time unit squared; the +y axis
    /// points downward.
    Gravity(i64),
    /// Axis-aligned extents and a named fill color.
    Graphics { width: i64, height: i64, color: String },
}

impl Component {
    /// The kind of this component.
    pub open spec fn spec_kind(&self) -> ComponentKind {
        match self {
            Component::Position { .. } => ComponentKind::Position,
            Component::Velocity { .. } => ComponentKind::Velocity,
            Component::Gravity(..) => ComponentKind::Gravity,
            Component::Graphics { .. } => ComponentKind::Graphics,
        }
    }

    /// Returns the kind of this component.
    #[verifier::when_used_as_spec(spec_kind)]
    pub fn kind(&self) -> (k: ComponentKind)
        ensures
            k == self.spec_kind(),
    {
        match self {
            Component::Position { .. } => ComponentKind::Position,
            Component::Velocity { .. } => ComponentKind::Velocity,
            Component::Gravity(..) => ComponentKind::Gravity,
            Component::Graphics { .. } => ComponentKind::Graphics,
        }
    }
}

/// Whether the table of kind `kind` already holds a row for `entity`.
pub open spec fn spec_has_component(db: Database, entity: i64, kind: ComponentKind) -> bool {
    match kind {
        ComponentKind::Position => has_xy(db.positions@, entity),
        ComponentKind::Velocity => has_xy(db.velocities@, entity),
        ComponentKind::Gravity => has_gravity(db.gravities@, entity),
        ComponentKind::Graphics => has_graphics(db.graphics@, entity),
    }
}

/// Returns whether the table of kind `kind` already holds a row for `entity`.
pub fn has_component(db: &Database, entity: i64, kind: ComponentKind) -> (r: bool)
    requires
        db.wf(),
    ensures
        r == spec_has_component(*db, entity, kind),
{
    match kind {
        ComponentKind::Position => db.position_of(entity).is_some(),
        ComponentKind::Velocity => db.velocity_of(entity).is_some(),
        ComponentKind::Gravity => db.gravity_of(entity).is_some(),
        ComponentKind::Graphics => db.graphics_of(entity).is_some(),
    }
}

/// The `position` row `c` contributes for entity `e`: one row for a position
/// component, none otherwise.
pub open spec fn position_row_of(c: Component, e: i64) -> Seq<XyRow> {
    match c {
        Component::Position { x, y } => seq![XyRow { id: e, x, y }],
        _ => Seq::empty(),
    }
}

/// The `velocity` row `c` contributes for entity `e`.
pub open spec fn velocity_row_of(c: Component, e: i64) -> Seq<XyRow> {
    match c {
        Component::Velocity { x, y } => seq![XyRow { id: e, x, y }],
        _ => Seq::empty(),
    }
}

/// The `gravity` row `c` contributes for entity `e`.
pub open spec fn gravity_row_of(c: Component, e: i64) -> Seq<GravityRow> {
    match c {
        Component::Gravity(amount) => seq![GravityRow { id: e, amount }],
        _ => Seq::empty(),
    }
}

/// The `graphics` row `c` contributes for entity `e`.
pub open spec fn graphics_row_of(c: Component, e: i64) -> Seq<GraphicsRow> {
    match c {
        Component::Graphics { width, height, color } => seq![
            GraphicsRow { id: e, width, height, color },
        ],
        _ => Seq::empty(),
    }
}

/// The `position` rows a pending list contributes for entity `e`, in order.
pub open spec fn position_rows(s: Seq<Component>, e: i64) -> Seq<XyRow> {
    s.filter_map(
        |c: Component|
            match c {
                Component::Position { x, y } => Some(XyRow { id: e, x, y }),
                _ => None,
            },
    )
}

/// The `velocity` rows a pending list contributes for entity `e`, in order.
pub open spec fn velocity_rows(s: Seq<Component>, e: i64) -> Seq<XyRow> {
    s.filter_map(
        |c: Component|
            match c {
                Component::Velocity { x, y } => Some(XyRow { id: e, x, y }),
                _ => None,
            },
    )
}

/// The `gravity` rows a pending list contributes for entity `e`, in order.
pub open spec fn gravity_rows(s: Seq<Component>, e: i64) -> Seq<GravityRow> {
    s.filter_map(
        |c: Component|
            match c {
                Component::Gravity(amount) => Some(GravityRow { id: e, amount }),
                _ => None,
            },
    )
}

/// The `graphics` rows a pending list contributes for entity `e`, in order.
pub open spec fn graphics_rows(s: Seq<Component>, e: i64) -> Seq<GraphicsRow> {
    s.filter_map(
        |c: Component|
            match c {
                Component::Graphics { width, height, color } => Some(
                    GraphicsRow { id: e, width, height, color },
                ),
                _ => None,
            },
    )
}

/// Inserts one row into the table corresponding to the variant of `component`,
/// keyed by `entity`. Re-attachment is not detected here: the caller must
/// ensure the entity exists and does not already carry a component of this
/// kind.
pub fn entity_add_component(db: &mut Database, entity: i64, component: Component) -> (r: Result<
    Component,
    EcsError,
>)
    requires
        old(db).wf(),
        old(db).spec_entity_exists(entity),
        !spec_has_component(*old(db), entity, component.kind()),
    ensures
        final(db).wf(),
        r == Ok::<Component, EcsError>(component),
        final(db).entities@ == old(db).entities@,
        final(db).positions@ == old(db).positions@ + position_row_of(component, entity),
        final(db).velocities@ == old(db).velocities@ + velocity_row_of(component, entity),
        final(db).gravities@ == old(db).gravities@ + gravity_row_of(component, entity),
        final(db).graphics@ == old(db).graphics@ + graphics_row_of(component, entity),
{
    match &component {
        Component::Position { x, y } => {
            db.positions.push(XyRow { id: entity, x: *x, y: *y });
            proof {
                assert(db.positions@ =~= old(db).positions@ + position_row_of(
                    component,
                    entity,
                ));
                lemma_push_keeps_distinct(old(db).positions@, XyRow { id: entity, x: *x, y: *y });
            }
        },
        Component::Velocity { x, y } => {
            db.velocities.push(XyRow { id: entity, x: *x, y: *y });
            proof {
                assert(db.velocities@ =~= old(db).velocities@ + velocity_row_of(
                    component,
                    entity,
                ));
                lemma_push_keeps_distinct(old(db).velocities@, XyRow { id: entity, x: *x, y: *y });
            }
        },
        Component::Gravity(amount) => {
            db.gravities.push(GravityRow { id: entity, amount: *amount });
            proof {
                assert(db.gravities@ =~= old(db).gravities@ + gravity_row_of(component, entity));
                lemma_push_keeps_distinct_gravity(
                    old(db).gravities@,
                    GravityRow { id: entity, amount: *amount },
                );
            }
        },
        Component::Graphics { width, height, color } => {
            db.graphics.push(
                GraphicsRow { id: entity, width: *width, height: *height, color: color.clone() },
            );
            proof {
                assert(db.graphics@ =~= old(db).graphics@ + graphics_row_of(component, entity));
            }
        },
    }
    proof {
        assert(db.positions@ =~= db.positions@ + Seq::<XyRow>::empty());
        assert(db.velocities@ =~= db.velocities@ + Seq::<XyRow>::empty());
        assert(db.gravities@ =~= db.gravities@ + Seq::<GravityRow>::empty());
        assert(db.graphics@ =~= db.graphics@ + Seq::<GraphicsRow>::empty());
    }
    Ok(component)
}

/// Whether some pending component carries kind `k`.
pub open spec fn pending_has_kind(s: Seq<Component>, k: ComponentKind) -> bool {
    exists|i: int| 0 <= i < s.len() && s[i].kind() == k
}

/// The kind of the first pending component whose table already holds a row
/// for `e`, if any.
pub open spec fn first_conflict(pending: Seq<Component>, db: Database, e: i64) -> Option<
    ComponentKind,
>
    decreases pending.len(),
{
    if pending.len() == 0 {
        None
    } else if spec_has_component(db, e, pending[0].kind()) {
        Some(pending[0].kind())
    } else {
        first_conflict(pending.drop_first(), db, e)
    }
}

/// The component tables of `db1` extend those of `db0` by exactly the rows of
/// `pending` for entity `e`.
pub open spec fn tables_extended(
    db0: Database,
    db1: Database,
    pending: Seq<Component>,
    e: i64,
) -> bool {
    &&& db1.positions@ == db0.positions@ + position_rows(pending, e)
    &&& db1.velocities@ == db0.velocities@ + velocity_rows(pending, e)
    &&& db1.gravities@ == db0.gravities@ + gravity_rows(pending, e)
    &&& db1.graphics@ == db0.graphics@ + graphics_rows(pending, e)
}

/// All five tables of `db1` are those of `db0`.
pub open spec fn db_unchanged(db0: Database, db1: Database) -> bool {
    &&& db1.entities@ == db0.entities@
    &&& db1.positions@ == db0.positions@
    &&& db1.velocities@ == db0.velocities@
    &&& db1.gravities@ == db0.gravities@
    &&& db1.graphics@ == db0.graphics@
}

/// Collects components for a single entity and flushes them in one operation.
pub struct Builder {
    /// The pinned entity id; unset until `set_entity` pins one or `finish`
    /// creates one.
    pub entity: Option<i64>,
    /// The pending components, in the order they were accepted.
    pub components: Vec<Component>,
}

impl Builder {
    /// Pending components carry pairwise distinct kinds.
    pub open spec fn wf(self) -> bool {
        forall|i: int, j: int|
            0 <= i < j < self.components@.len() ==> self.components@[i].kind()
                != self.components@[j].kind()
    }

    /// A builder with no pinned entity and nothing pending.
    pub fn new() -> (b: Builder)
        ensures
            b.wf(),
            b.entity == None::<i64>,
            b.components@ == Seq::<Component>::empty(),
    {
        Builder { entity: None, components: Vec::new() }
    }

    /// Pins a specific entity id; a negative id unpins.
    pub fn set_entity(&mut self, entity: i64)
        ensures
            final(self).entity == if entity < 0 {
                None::<i64>
            } else {
                Some(entity)
            },
            final(self).components@ == old(self).components@,
    {
        self.entity = if entity < 0 {
            None
        } else {
            Some(entity)
        };
    }

    /// Appends `component` to the pending list, unless a component of the same
    /// kind is already pending.
    pub fn add_component(&mut self, component: Component) -> (r: Result<(), EcsError>)
        requires
            old(self).wf(),
        ensures
            final(self).wf(),
            final(self).entity == old(self).entity,
            if pending_has_kind(old(self).components@, component.kind()) {
                &&& r == Err::<(), EcsError>(EcsError::DuplicateComponent(component.kind()))
                &&& final(self).components@ == old(self).components@
            } else {
                &&& r == Ok::<(), EcsError>(())
                &&& final(self).components@ == old(self).components@.push(component)
            },
    {
        let k = component.kind();
        let mut i: usize = 0;
        while i < self.components.len()
            invariant
                0 <= i <= self.components@.len(),
                forall|j: int| 0 <= j < i ==> self.components@[j].kind() != k,
                k == component.kind(),
                self.components@ == old(self).components@,
                self.entity == old(self).entity,
                old(self).wf(),
            decreases self.components@.len() - i,
        {
            if self.components[i].kind() == k {
                return Err(EcsError::DuplicateComponent(k));
            }
            i = i + 1;
        }
        self.components.push(component);
        proof {
            let t = self.components@;
            assert forall|a: int, b: int| 0 <= a < b < t.len() implies t[a].kind()
                != t[b].kind() by {
                if b < old(self).components@.len() {
                    assert(old(self).components@[a].kind() != old(self).components@[b].kind());
                } else {
                    assert(t[b] == component);
                }
            }
        }
        Ok(())
    }

    /// Flushes the pending components.
    ///
    /// If no entity id is pinned, a fresh entity row is created and its id
    /// pinned; a pinned id must exist. Every pending component becomes one row
    /// of its table. Validation precedes every insert, so an error leaves the
    /// store untouched.
    pub fn finish(&mut self, db: &mut Database) -> (r: Result<(), EcsError>)
        requires
            old(self).wf(),
            old(db).wf(),
        ensures
            final(self).wf(),
            final(db).wf(),
            old(self).components@.len() == 0 ==> {
                &&& r == Err::<(), EcsError>(EcsError::InvalidEntity)
                &&& db_unchanged(*old(db), *final(db))
                &&& final(self).entity == old(self).entity
                &&& final(self).components@ == old(self).components@
            },
            old(self).components@.len() > 0 && old(self).entity is None ==> {
                if old(db).can_create_entity() {
                    &&& r == Ok::<(), EcsError>(())
                    &&& final(self).entity == Some(old(db).spec_next_id() as i64)
                    &&& final(self).components@.len() == 0
                    &&& final(db).entities@ == old(db).entities@.push(
                        old(db).spec_next_id() as i64,
                    )
                    &&& tables_extended(
                        *old(db),
                        *final(db),
                        old(self).components@,
                        old(db).spec_next_id() as i64,
                    )
                } else {
                    &&& r == Err::<(), EcsError>(EcsError::Store)
                    &&& db_unchanged(*old(db), *final(db))
                    &&& final(self).entity == old(self).entity
                    &&& final(self).components@ == old(self).components@
                }
            },
            old(self).entity matches Some(e) ==> (old(self).components@.len() > 0 ==> {
                if !old(db).spec_entity_exists(e) {
                    &&& r == Err::<(), EcsError>(EcsError::InvalidEntity)
                    &&& db_unchanged(*old(db), *final(db))
                    &&& final(self).entity == old(self).entity
                    &&& final(self).components@ == old(self).components@
                } else {
                    match first_conflict(old(self).components@, *old(db), e) {
                        Some(k) => {
                            &&& r == Err::<(), EcsError>(EcsError::DuplicateComponent(k))
                            &&& db_unchanged(*old(db), *final(db))
                            &&& final(self).entity == old(self).entity
                            &&& final(self).components@ == old(self).components@
                        },
                        None => {
                            &&& r == Ok::<(), EcsError>(())
                            &&& final(self).entity == Some(e)
                            &&& final(self).components@.len() == 0
                            &&& final(db).entities@ == old(db).entities@
                            &&& tables_extended(*old(db), *final(db), old(self).components@, e)
                        },
                    }
                }
            }),
    {
        let ghost pending = old(self).components@;
        if self.components.len() == 0 {
            return Err(EcsError::InvalidEntity);
        }
        let e: i64 = match self.entity {
            None => {
                match db.create_entity() {
                    Ok(id) => {
                        proof {
                            lemma_next_id_fresh(*old(db));
                            lemma_fresh_id_has_no_components(*old(db), id);
                            assert(db.entities@.last() == id);
                            assert(db.spec_entity_exists(id));
                            assert forall|k: int|
                                0 <= k < pending.len() implies !spec_has_component(
                                *db,
                                id,
                                #[trigger] pending[k].kind(),
                            ) by {
                                lemma_has_component_same_views(*old(db), *db, id, pending[k].kind());
                            }
                        }
                        self.entity = Some(id);
                        id
                    },
                    Err(err) => {
                        return Err(err);
                    },
                }
            },
            Some(id) => {
                if !db.entity_exists(id) {
                    return Err(EcsError::InvalidEntity);
                }
                let mut i: usize = 0;
                while i < self.components.len()
                    invariant
                        db.wf(),
                        old(db).wf(),
                        db_unchanged(*old(db), *db),
                        self.components@ == pending,
                        self.entity == old(self).entity,
                        old(self).wf(),
                        old(self).entity == Some(id),
                        old(self).components@ == pending,
                        old(db).spec_entity_exists(id),
                        pending.len() > 0,
                        0 <= i <= pending.len(),
                        forall|k: int|
                            0 <= k < i ==> !spec_has_component(*old(db), id, pending[k].kind()),
                    decreases pending.len() - i,
                {
                    let k = self.components[i].kind();
                    if has_component(db, id, k) {
                        proof {
                            lemma_has_component_same_views(*old(db), *db, id, k);
                            lemma_first_conflict_at(pending, *old(db), id, i as int);
                        }
                        return Err(EcsError::DuplicateComponent(k));
                    }
                    proof {
                        lemma_has_component_same_views(*old(db), *db, id, k);
                    }
                    i = i + 1;
                }
                proof {
                    lemma_first_conflict_none(pending, *old(db), id);
                    assert forall|k: int|
                        0 <= k < pending.len() implies !spec_has_component(
                        *db,
                        id,
                        #[trigger] pending[k].kind(),
                    ) by {
                        lemma_has_component_same_views(*old(db), *db, id, pending[k].kind());
                    }
                }
                id
            },
        };
        let ghost db_snap = *db;
        let total = self.components.len();
        let mut i: usize = 0;
        while i < total
            invariant
                db.wf(),
                0 <= i <= total,
                total == pending.len(),
                forall|a: int, b: int|
                    0 <= a < b < pending.len() ==> pending[a].kind() != pending[b].kind(),
                self.components@ == pending.skip(i as int),
                self.entity == Some(e),
                db.entities@ == db_snap.entities@,
                db.spec_entity_exists(e),
                db.positions@ == db_snap.positions@ + position_rows(pending.take(i as int), e),
                db.velocities@ == db_snap.velocities@ + velocity_rows(pending.take(i as int), e),
                db.gravities@ == db_snap.gravities@ + gravity_rows(pending.take(i as int), e),
                db.graphics@ == db_snap.graphics@ + graphics_rows(pending.take(i as int), e),
                forall|k: int| i <= k < total ==> !spec_has_component(*db, e, pending[k].kind()),
            decreases total - i,
        {
            let c = self.components.remove(0);
            proof {
                assert(c == pending[i as int]);
                assert(self.components@ =~= pending.skip(i as int + 1));
            }
            let ghost db_before = *db;
            let _ = entity_add_component(db, e, c);
            proof {
                lemma_rows_take_step(pending, e, i as int);
                assert forall|k: int| i + 1 <= k < total implies !spec_has_component(
                    *db,
                    e,
                    pending[k].kind(),
                ) by {
                    assert(pending[i as int].kind() != pending[k].kind());
                    assert(!spec_has_component(db_before, e, pending[k].kind()));
                    lemma_other_kinds_unchanged(db_before, *db, e, pending[i as int], pending[k].kind());
                }
            }
            i = i + 1;
        }
        proof {
            assert(pending.take(total as int) =~= pending);
            assert(pending.skip(total as int) =~= Seq::<Component>::empty());
        }
        Ok(())
    }
}

/// An empty pending list contributes no rows.
pub proof fn lemma_rows_of_empty(e: i64)
    ensures
        position_rows(Seq::<Component>::empty(), e) == Seq::<XyRow>::empty(),
        velocity_rows(Seq::<Component>::empty(), e) == Seq::<XyRow>::empty(),
        gravity_rows(Seq::<Component>::empty(), e) == Seq::<GravityRow>::empty(),
        graphics_rows(Seq::<Component>::empty(), e) == Seq::<GraphicsRow>::empty(),
{
    assert(position_rows(Seq::<Component>::empty(), e) =~= Seq::<XyRow>::empty());
    assert(velocity_rows(Seq::<Component>::empty(), e) =~= Seq::<XyRow>::empty());
    assert(gravity_rows(Seq::<Component>::empty(), e) =~= Seq::<GravityRow>::empty());
    assert(graphics_rows(Seq::<Component>::empty(), e) =~= Seq::<GraphicsRow>::empty());
}

/// A single pending component contributes exactly its own rows.
pub proof fn lemma_rows_of_one(c1: Component, e: i64)
    ensures
        position_rows(seq![c1], e) == position_row_of(c1, e),
        velocity_rows(seq![c1], e) == velocity_row_of(c1, e),
        gravity_rows(seq![c1], e) == gravity_row_of(c1, e),
        graphics_rows(seq![c1], e) == graphics_row_of(c1, e),
{
    lemma_rows_of_empty(e);
    assert(seq![c1].drop_last() =~= Seq::<Component>::empty());
    assert(seq![c1].last() == c1);
    assert(position_rows(seq![c1], e) =~= position_row_of(c1, e));
    assert(velocity_rows(seq![c1], e) =~= velocity_row_of(c1, e));
    assert(gravity_rows(seq![c1], e) =~= gravity_row_of(c1, e));
    assert(graphics_rows(seq![c1], e) =~= graphics_row_of(c1, e));
}

/// Two pending components contribute their rows in order.
pub proof fn lemma_rows_of_pair(c1: Component, c2: Component, e: i64)
    ensures
        position_rows(seq![c1, c2], e) == position_row_of(c1, e) + position_row_of(c2, e),
        velocity_rows(seq![c1, c2], e) == velocity_row_of(c1, e) + velocity_row_of(c2, e),
        gravity_rows(seq![c1, c2], e) == gravity_row_of(c1, e) + gravity_row_of(c2, e),
        graphics_rows(seq![c1, c2], e) == graphics_row_of(c1, e) + graphics_row_of(c2, e),
{
    lemma_rows_of_one(c1, e);
    assert(seq![c1, c2].drop_last() =~= seq![c1]);
    assert(seq![c1, c2].last() == c2);
    assert(position_rows(seq![c1, c2], e) =~= position_row_of(c1, e) + position_row_of(c2, e));
    assert(velocity_rows(seq![c1, c2], e) =~= velocity_row_of(c1, e) + velocity_row_of(c2, e));
    assert(gravity_rows(seq![c1, c2], e) =~= gravity_row_of(c1, e) + gravity_row_of(c2, e));
    assert(graphics_rows(seq![c1, c2], e) =~= graphics_row_of(c1, e) + graphics_row_of(c2, e));
}

/// Four pending components contribute their rows in order.
pub proof fn lemma_rows_of_quad(c1: Component, c2: Component, c3: Component, c4: Component, e: i64)
    ensures
        position_rows(seq![c1, c2, c3, c4], e) == position_row_of(c1, e) + position_row_of(c2, e)
            + position_row_of(c3, e) + position_row_of(c4, e),
        velocity_rows(seq![c1, c2, c3, c4], e) == velocity_row_of(c1, e) + velocity_row_of(c2, e)
            + velocity_row_of(c3, e) + velocity_row_of(c4, e),
        gravity_rows(seq![c1, c2, c3, c4], e) == gravity_row_of(c1, e) + gravity_row_of(c2, e)
            + gravity_row_of(c3, e) + gravity_row_of(c4, e),
        graphics_rows(seq![c1, c2, c3, c4], e) == graphics_row_of(c1, e) + graphics_row_of(c2, e)
            + graphics_row_of(c3, e) + graphics_row_of(c4, e),
{
    lemma_rows_of_pair(c1, c2, e);
    assert(seq![c1, c2, c3].drop_last() =~= seq![c1, c2]);
    assert(seq![c1, c2, c3].last() == c3);
    assert(position_rows(seq![c1, c2, c3], e) =~= position_row_of(c1, e) + position_row_of(c2, e)
        + position_row_of(c3, e));
    assert(velocity_rows(seq![c1, c2, c3], e) =~= velocity_row_of(c1, e) + velocity_row_of(c2, e)
        + velocity_row_of(c3, e));
    assert(gravity_rows(seq![c1, c2, c3], e) =~= gravity_row_of(c1, e) + gravity_row_of(c2, e)
        + gravity_row_of(c3, e));
    assert(graphics_rows(seq![c1, c2, c3], e) =~= graphics_row_of(c1, e) + graphics_row_of(c2, e)
        + graphics_row_of(c3, e));
    assert(seq![c1, c2, c3, c4].drop_last() =~= seq![c1, c2, c3]);
    assert(seq![c1, c2, c3, c4].last() == c4);
    assert(position_rows(seq![c1, c2, c3, c4], e) =~= position_row_of(c1, e) + position_row_of(
        c2,
        e,
    ) + position_row_of(c3, e) + position_row_of(c4, e));
    assert(velocity_rows(seq![c1, c2, c3, c4], e) =~= velocity_row_of(c1, e) + velocity_row_of(
        c2,
        e,
    ) + velocity_row_of(c3, e) + velocity_row_of(c4, e));
    assert(gravity_rows(seq![c1, c2, c3, c4], e) =~= gravity_row_of(c1, e) + gravity_row_of(c2, e)
        + gravity_row_of(c3, e) + gravity_row_of(c4, e));
    assert(graphics_rows(seq![c1, c2, c3, c4], e) =~= graphics_row_of(c1, e) + graphics_row_of(
        c2,
        e,
    ) + graphics_row_of(c3, e) + graphics_row_of(c4, e));
}

/// Component presence depends only on the component-table views.
proof fn lemma_has_component_same_views(db0: Database, db1: Database, e: i64, k: ComponentKind)
    requires
        db0.positions@ == db1.positions@,
        db0.velocities@ == db1.velocities@,
        db0.gravities@ == db1.gravities@,
        db0.graphics@ == db1.graphics@,
    ensures
        spec_has_component(db0, e, k) == spec_has_component(db1, e, k),
{
}

/// The id `create_entity` would assign is not yet in the `entity` table.
proof fn lemma_next_id_fresh(db: Database)
    requires
        db.wf(),
        db.can_create_entity(),
    ensures
        !db.spec_entity_exists(db.spec_next_id() as i64),
{
    if db.spec_entity_exists(db.spec_next_id() as i64) {
        let w = choose|w: int|
            0 <= w < db.entities@.len() && db.entities@[w] == db.spec_next_id() as i64;
        assert(db.entities@.len() > 0);
        if w < db.entities@.len() - 1 {
            assert(db.entities@[w] < db.entities@[db.entities@.len() - 1]);
        }
    }
}

/// An id absent from the `entity` table has no component rows in a
/// well-formed store.
proof fn lemma_fresh_id_has_no_components(db: Database, id: i64)
    requires
        db.wf(),
        !db.spec_entity_exists(id),
    ensures
        !has_xy(db.positions@, id),
        !has_xy(db.velocities@, id),
        !has_gravity(db.gravities@, id),
        !has_graphics(db.graphics@, id),
{
    if has_xy(db.positions@, id) {
        let i = choose|i: int| 0 <= i < db.positions@.len() && db.positions@[i].id == id;
        assert(db.spec_entity_exists(db.positions@[i].id));
    }
    if has_xy(db.velocities@, id) {
        let i = choose|i: int| 0 <= i < db.velocities@.len() && db.velocities@[i].id == id;
        assert(db.spec_entity_exists(db.velocities@[i].id));
    }
    if has_gravity(db.gravities@, id) {
        let i = choose|i: int| 0 <= i < db.gravities@.len() && db.gravities@[i].id == id;
        assert(db.spec_entity_exists(db.gravities@[i].id));
    }
    if has_graphics(db.graphics@, id) {
        let i = choose|i: int| 0 <= i < db.graphics@.len() && db.graphics@[i].id == id;
        assert(db.spec_entity_exists(db.graphics@[i].id));
    }
}

/// Attaching a component of one kind leaves the presence of every other kind
/// untouched.
proof fn lemma_other_kinds_unchanged(
    db0: Database,
    db1: Database,
    e: i64,
    attached: Component,
    k: ComponentKind,
)
    requires
        k != attached.kind(),
        db1.positions@ == db0.positions@ + position_row_of(attached, e),
        db1.velocities@ == db0.velocities@ + velocity_row_of(attached, e),
        db1.gravities@ == db0.gravities@ + gravity_row_of(attached, e),
        db1.graphics@ == db0.graphics@ + graphics_row_of(attached, e),
        !spec_has_component(db0, e, k),
    ensures
        !spec_has_component(db1, e, k),
{
    match k {
        ComponentKind::Position => {
            assert(position_row_of(attached, e) =~= Seq::<XyRow>::empty());
            assert(db1.positions@ =~= db0.positions@);
        },
        ComponentKind::Velocity => {
            assert(velocity_row_of(attached, e) =~= Seq::<XyRow>::empty());
            assert(db1.velocities@ =~= db0.velocities@);
        },
        ComponentKind::Gravity => {
            assert(gravity_row_of(attached, e) =~= Seq::<GravityRow>::empty());
            assert(db1.gravities@ =~= db0.gravities@);
        },
        ComponentKind::Graphics => {
            assert(graphics_row_of(attached, e) =~= Seq::<GraphicsRow>::empty());
            assert(db1.graphics@ =~= db0.graphics@);
        },
    }
}

/// One step of the per-table row contribution: taking one more pending
/// component appends exactly its rows.
proof fn lemma_rows_take_step(s: Seq<Component>, e: i64, i: int)
    requires
        0 <= i < s.len(),
    ensures
        position_rows(s.take(i + 1), e) == position_rows(s.take(i), e) + position_row_of(s[i], e),
        velocity_rows(s.take(i + 1), e) == velocity_rows(s.take(i), e) + velocity_row_of(s[i], e),
        gravity_rows(s.take(i + 1), e) == gravity_rows(s.take(i), e) + gravity_row_of(s[i], e),
        graphics_rows(s.take(i + 1), e) == graphics_rows(s.take(i), e) + graphics_row_of(s[i], e),
{
    let t = s.take(i + 1);
    assert(t.drop_last() =~= s.take(i));
    assert(t.last() == s[i]);
    assert(position_rows(t, e) =~= position_rows(s.take(i), e) + position_row_of(s[i], e));
    assert(velocity_rows(t, e) =~= velocity_rows(s.take(i), e) + velocity_row_of(s[i], e));
    assert(gravity_rows(t, e) =~= gravity_rows(s.take(i), e) + gravity_row_of(s[i], e));
    assert(graphics_rows(t, e) =~= graphics_rows(s.take(i), e) + graphics_row_of(s[i], e));
}

/// When a prefix of the pending list is conflict-free and position `i`
/// conflicts, the first conflict is at `i`.
proof fn lemma_first_conflict_at(s: Seq<Component>, db: Database, e: i64, i: int)
    requires
        0 <= i < s.len(),
        forall|k: int| 0 <= k < i ==> !spec_has_component(db, e, s[k].kind()),
        spec_has_component(db, e, s[i].kind()),
    ensures
        first_conflict(s, db, e) == Some(s[i].kind()),
    decreases i,
{
    if i > 0 {
        assert forall|k: int| 0 <= k < i - 1 implies !spec_has_component(
            db,
            e,
            s.drop_first()[k].kind(),
        ) by {
            assert(s.drop_first()[k] == s[k + 1]);
        }
        assert(s.drop_first()[i - 1] == s[i]);
        lemma_first_conflict_at(s.drop_first(), db, e, i - 1);
    }
}

/// A pending list none of whose kinds the store holds for `e` has no
/// conflict.
proof fn lemma_first_conflict_none(s: Seq<Component>, db: Database, e: i64)
    requires
        forall|k: int| 0 <= k < s.len() ==> !spec_has_component(db, e, s[k].kind()),
    ensures
        first_conflict(s, db, e) is None,
    decreases s.len(),
{
    if s.len() > 0 {
        assert forall|k: int| 0 <= k < s.len() - 1 implies !spec_has_component(
            db,
            e,
            s.drop_first()[k].kind(),
        ) by {
            assert(s.drop_first()[k] == s[k + 1]);
        }
        lemma_first_conflict_none(s.drop_first(), db, e);
    }
}

/// Pushing a row with an id the table does not yet hold keeps its ids
/// distinct.
proof fn lemma_push_keeps_distinct(s: Seq<XyRow>, row: XyRow)
    requires
        xy_ids_distinct(s),
        !has_xy(s, row.id),
    ensures
        xy_ids_distinct(s.push(row)),
{
    let t = s.push(row);
    assert forall|i: int, j: int| 0 <= i < j < t.len() implies t[i].id != t[j].id by {
        if j < s.len() {
            assert(s[i].id != s[j].id);
        } else {
            assert(t[j] == row);
            if s[i].id == row.id {
                assert(has_xy(s, row.id));
            }
        }
    }
}

/// Pushing a row with an id the table does not yet hold keeps its ids
/// distinct.
proof fn lemma_push_keeps_distinct_gravity(s: Seq<GravityRow>, row: GravityRow)
    requires
        gravity_ids_distinct(s),
        !has_gravity(s, row.id),
    ensures
        gravity_ids_distinct(s.push(row)),
{
    let t = s.push(row);
    assert forall|i: int, j: int| 0 <= i < j < t.len() implies t[i].id != t[j].id by {
        if j < s.len() {
            assert(s[i].id != s[j].id);
        } else {
            assert(t[j] == row);
            if s[i].id == row.id {
                assert(has_gravity(s, row.id));
            }
        }
    }
}

} // verus!
