//! The collision system: detects pairwise overlaps of axis-aligned boxes.

use crate::db::{graphics_at, has_graphics, Database, GraphicsRow, XyRow};
use crate::error::EcsError;
use crate::system::System;
use vstd::prelude::*;

verus! {

/// An axis-aligned box materialized from an entity's `position` (center) and
/// `graphics` (extents).
#[derive(Clone, Copy, Debug, PartialEq, Eq, Structural)]
pub struct Block {
    pub x: i64,
    pub y: i64,
    pub width: i64,
    pub height: i64,
}

impl Block {
    /// Nonnegative extents, and the four borders representable as `i64`.
    pub open spec fn wf(self) -> bool {
        &&& 0 <= self.width
        &&& 0 <= self.height
        &&& i64::MIN <= self.x - self.width / 2
        &&& self.x + self.width / 2 <= i64::MAX
        &&& i64::MIN <= self.y - self.height / 2
        &&& self.y + self.height / 2 <= i64::MAX
    }

    /// The left border, rounded down to a whole coordinate.
    pub open spec fn spec_left(self) -> int {
        self.x - self.width / 2
    }

    /// The right border, rounded down to a whole coordinate.
    pub open spec fn spec_right(self) -> int {
        self.x + self.width / 2
    }

    /// The top border, rounded down to a whole coordinate.
    pub open spec fn spec_top(self) -> int {
        self.y - self.height / 2
    }

    /// The bottom border, rounded down to a whole coordinate.
    pub open spec fn spec_bottom(self) -> int {
        self.y + self.height / 2
    }

    /// The exact overlap predicate: an endpoint of one block lies within the
    /// other's extent on each axis. Borders are compared at doubled
    /// coordinates, so halves of odd extents lose nothing. Note the
    /// asymmetry: this is not the usual interval-intersection test, and a
    /// block strictly containing another may compare as not overlapping.
    pub open spec fn spec_overlaps(a: Block, b: Block) -> bool {
        let a_left = 2 * a.x - a.width;
        let a_right = 2 * a.x + a.width;
        let a_top = 2 * a.y - a.height;
        let a_bottom = 2 * a.y + a.height;
        let b_left = 2 * b.x - b.width;
        let b_right = 2 * b.x + b.width;
        let b_top = 2 * b.y - b.height;
        let b_bottom = 2 * b.y + b.height;
        &&& ((a_left < b_right && a_left >= b_left) || (a_right < b_right && a_right >= b_left))
        &&& ((a_top < b_bottom && a_top >= b_top) || (a_bottom < b_bottom && a_bottom >= b_top))
    }

    /// Returns the left border of the block.
    pub fn left(&self) -> (r: i64)
        requires
            self.wf(),
        ensures
            r == self.spec_left(),
    {
        let half = (self.width as u64 / 2) as i64;
        self.x - half
    }

    /// Returns the right border of the block.
    pub fn right(&self) -> (r: i64)
        requires
            self.wf(),
        ensures
            r == self.spec_right(),
    {
        let half = (self.width as u64 / 2) as i64;
        self.x + half
    }

    /// Returns the top border of the block.
    pub fn top(&self) -> (r: i64)
        requires
            self.wf(),
        ensures
            r == self.spec_top(),
    {
        let half = (self.height as u64 / 2) as i64;
        self.y - half
    }

    /// Returns the bottom border of the block.
    pub fn bottom(&self) -> (r: i64)
        requires
            self.wf(),
        ensures
            r == self.spec_bottom(),
    {
        let half = (self.height as u64 / 2) as i64;
        self.y + half
    }

    /// Returns whether `self` overlaps `other`, by the exact predicate
    /// [`Block::spec_overlaps`].
    pub fn overlaps(&self, other: &Block) -> (r: bool)
        ensures
            r == Block::spec_overlaps(*self, *other),
    {
        let a_left: i128 = 2 * (self.x as i128) - self.width as i128;
        let a_right: i128 = 2 * (self.x as i128) + self.width as i128;
        let a_top: i128 = 2 * (self.y as i128) - self.height as i128;
        let a_bottom: i128 = 2 * (self.y as i128) + self.height as i128;
        let b_left: i128 = 2 * (other.x as i128) - other.width as i128;
        let b_right: i128 = 2 * (other.x as i128) + other.width as i128;
        let b_top: i128 = 2 * (other.y as i128) - other.height as i128;
        let b_bottom: i128 = 2 * (other.y as i128) + other.height as i128;
        ((a_left < b_right && a_left >= b_left) || (a_right < b_right && a_right >= b_left))
            && ((a_top < b_bottom && a_top >= b_top) || (a_bottom < b_bottom && a_bottom >= b_top))
    }
}

/// Collision symmetry: for blocks of equal extents whose borders do not touch
/// exactly, the overlap predicate does not depend on the order in which a
/// pair is enumerated. (The exact predicate of [`Block::spec_overlaps`] is
/// asymmetric in general: a block strictly containing a smaller one, or two
/// equal blocks in exact edge contact, compare differently in the two
/// orders.)
pub proof fn lemma_overlaps_symmetric(a: Block, b: Block)
    requires
        a.width == b.width,
        a.height == b.height,
        a.x - b.x != a.width,
        b.x - a.x != a.width,
        a.y - b.y != a.height,
        b.y - a.y != a.height,
    ensures
        Block::spec_overlaps(a, b) == Block::spec_overlaps(b, a),
{
}

/// The blocks of every entity that has both `position` and `graphics`, in
/// position-table order.
pub open spec fn spec_blocks(pos: Seq<XyRow>, gfx: Seq<GraphicsRow>) -> Seq<Block> {
    pos.filter_map(
        |p: XyRow|
            if has_graphics(gfx, p.id) {
                Some(
                    Block {
                        x: p.x,
                        y: p.y,
                        width: graphics_at(gfx, p.id).width,
                        height: graphics_at(gfx, p.id).height,
                    },
                )
            } else {
                None
            },
    )
}

/// Taking one more position row appends exactly its block, if it has one.
proof fn lemma_blocks_take_step(pos: Seq<XyRow>, gfx: Seq<GraphicsRow>, i: int)
    requires
        0 <= i < pos.len(),
    ensures
        spec_blocks(pos.take(i + 1), gfx) == spec_blocks(pos.take(i), gfx) + (if has_graphics(
            gfx,
            pos[i].id,
        ) {
            seq![
                Block {
                    x: pos[i].x,
                    y: pos[i].y,
                    width: graphics_at(gfx, pos[i].id).width,
                    height: graphics_at(gfx, pos[i].id).height,
                },
            ]
        } else {
            Seq::<Block>::empty()
        }),
{
    let t = pos.take(i + 1);
    assert(t.drop_last() =~= pos.take(i));
    assert(t.last() == pos[i]);
    if has_graphics(gfx, pos[i].id) {
        assert(spec_blocks(t, gfx) =~= spec_blocks(pos.take(i), gfx) + seq![
            Block {
                x: pos[i].x,
                y: pos[i].y,
                width: graphics_at(gfx, pos[i].id).width,
                height: graphics_at(gfx, pos[i].id).height,
            },
        ]);
    } else {
        assert(spec_blocks(t, gfx) =~= spec_blocks(pos.take(i), gfx) + Seq::<Block>::empty());
    }
}

/// Strict lexicographic order on index pairs: the order in which the pair
/// enumeration reports overlaps.
pub open spec fn pair_lt(p: (usize, usize), q: (usize, usize)) -> bool {
    p.0 < q.0 || (p.0 == q.0 && p.1 < q.1)
}

/// What one collision pass found: the materialized blocks and the overlapping
/// pairs, as indices into `blocks`.
pub struct CollisionReport {
    /// One block per entity with both `position` and `graphics`, in
    /// position-table order.
    pub blocks: Vec<Block>,
    /// The overlapping pairs `(i, j)` with `i < j`, in strictly increasing
    /// lexicographic order.
    pub pairs: Vec<(usize, usize)>,
}

/// What a correct collision pass reports for the given tables: the blocks of
/// the drawable entities, and as pairs exactly the overlapping index pairs
/// `(i, j)` with `i < j`, in strictly increasing lexicographic order.
pub open spec fn spec_report_ok(
    report: CollisionReport,
    pos: Seq<XyRow>,
    gfx: Seq<GraphicsRow>,
) -> bool {
    &&& report.blocks@ == spec_blocks(pos, gfx)
    &&& forall|k: int|
        0 <= k < report.pairs@.len() ==> {
            &&& (#[trigger] report.pairs@[k]).0 < report.pairs@[k].1
            &&& report.pairs@[k].1 < report.blocks@.len()
            &&& Block::spec_overlaps(
                report.blocks@[report.pairs@[k].0 as int],
                report.blocks@[report.pairs@[k].1 as int],
            )
        }
    &&& forall|k1: int, k2: int|
        0 <= k1 < k2 < report.pairs@.len() ==> pair_lt(
            #[trigger] report.pairs@[k1],
            #[trigger] report.pairs@[k2],
        )
    &&& forall|a: int, b: int|
        0 <= a < b < report.blocks@.len() && Block::spec_overlaps(
            report.blocks@[a],
            report.blocks@[b],
        ) ==> exists|k: int|
            0 <= k < report.pairs@.len() && (#[trigger] report.pairs@[k]).0 == a
                && report.pairs@[k].1 == b
}

/// Detects pairwise overlaps each frame; purely observational: it reports
/// pairs and never mutates the store or resolves anything.
pub struct CollisionSystem {}

impl CollisionSystem {
    /// Materializes one block per drawable entity and reports every unordered
    /// pair `(i, j)` with `i < j` whose blocks overlap, in increasing
    /// lexicographic order of indices.
    pub fn detect(db: &Database) -> (report: CollisionReport)
        requires
            db.wf(),
        ensures
            spec_report_ok(report, db.positions@, db.graphics@),
    {
        let n = db.positions.len();
        let mut blocks: Vec<Block> = Vec::new();
        let mut i: usize = 0;
        while i < n
            invariant
                db.wf(),
                0 <= i <= n,
                n == db.positions@.len(),
                blocks@ == spec_blocks(db.positions@.take(i as int), db.graphics@),
            decreases n - i,
        {
            let p = db.positions[i];
            proof {
                lemma_blocks_take_step(db.positions@, db.graphics@, i as int);
            }
            match db.graphics_of(p.id) {
                Some(g) => {
                    blocks.push(Block { x: p.x, y: p.y, width: g.width, height: g.height });
                    proof {
                        assert(blocks@ =~= spec_blocks(db.positions@.take(i as int + 1),
                        db.graphics@));
                    }
                },
                None => {
                    proof {
                        assert(blocks@ =~= spec_blocks(db.positions@.take(i as int + 1),
                        db.graphics@));
                    }
                },
            }
            i = i + 1;
        }
        proof {
            assert(db.positions@.take(n as int) =~= db.positions@);
        }
        let m = blocks.len();
        let mut pairs: Vec<(usize, usize)> = Vec::new();
        let mut a: usize = 0;
        while a < m
            invariant
                0 <= a <= m,
                m == blocks@.len(),
                forall|k: int|
                    0 <= k < pairs@.len() ==> {
                        &&& (#[trigger] pairs@[k]).0 < pairs@[k].1
                        &&& pairs@[k].1 < m
                        &&& Block::spec_overlaps(
                            blocks@[pairs@[k].0 as int],
                            blocks@[pairs@[k].1 as int],
                        )
                    },
                forall|k1: int, k2: int|
                    0 <= k1 < k2 < pairs@.len() ==> pair_lt(
                        #[trigger] pairs@[k1],
                        #[trigger] pairs@[k2],
                    ),
                forall|k: int| 0 <= k < pairs@.len() ==> (#[trigger] pairs@[k]).0 < a,
                forall|x: int, y: int|
                    0 <= x < y < m && x < a && Block::spec_overlaps(blocks@[x], blocks@[y])
                        ==> exists|k: int|
                        0 <= k < pairs@.len() && (#[trigger] pairs@[k]).0 == x && pairs@[k].1 == y,
            decreases m - a,
        {
            let mut b: usize = a + 1;
            while b < m
                invariant
                    0 <= a < m,
                    a + 1 <= b <= m,
                    m == blocks@.len(),
                    forall|k: int|
                        0 <= k < pairs@.len() ==> {
                            &&& (#[trigger] pairs@[k]).0 < pairs@[k].1
                            &&& pairs@[k].1 < m
                            &&& Block::spec_overlaps(
                                blocks@[pairs@[k].0 as int],
                                blocks@[pairs@[k].1 as int],
                            )
                        },
                    forall|k1: int, k2: int|
                        0 <= k1 < k2 < pairs@.len() ==> pair_lt(
                            #[trigger] pairs@[k1],
                            #[trigger] pairs@[k2],
                        ),
                    forall|k: int|
                        0 <= k < pairs@.len() ==> pair_lt(#[trigger] pairs@[k], (a, b)),
                    forall|x: int, y: int|
                        0 <= x < y < m && (x < a || (x == a && y < b)) && Block::spec_overlaps(
                            blocks@[x],
                            blocks@[y],
                        ) ==> exists|k: int|
                            0 <= k < pairs@.len() && (#[trigger] pairs@[k]).0 == x && pairs@[k].1
                                == y,
                decreases m - b,
            {
                let ghost prev = pairs@;
                if blocks[a].overlaps(&blocks[b]) {
                    pairs.push((a, b));
                    proof {
                        assert(pairs@.last() == (a, b));
                        assert forall|x: int, y: int|
                            0 <= x < y < m && (x < a || (x == a && y <= b)) && Block::spec_overlaps(
                                blocks@[x],
                                blocks@[y],
                            ) implies exists|k: int|
                            0 <= k < pairs@.len() && (#[trigger] pairs@[k]).0 == x && pairs@[k].1
                            == y by {
                            if x == a && y == b {
                                assert(pairs@[prev.len() as int].0 == x && pairs@[prev.len() as int].1
                                    == y);
                            } else {
                                let k = choose|k: int|
                                    0 <= k < prev.len() && (#[trigger] prev[k]).0 == x && prev[k].1
                                        == y;
                                assert(pairs@[k].0 == x && pairs@[k].1 == y);
                            }
                        }
                    }
                }
                b = b + 1;
            }
            a = a + 1;
        }
        let ghost gblocks = blocks@;
        let ghost gpairs = pairs@;
        proof {
            assert forall|x: int, y: int|
                0 <= x < y < m && Block::spec_overlaps(gblocks[x], gblocks[y]) implies exists|
                k: int,
            |
                0 <= k < gpairs.len() && (#[trigger] gpairs[k]).0 == x && gpairs[k].1 == y by {
                assert(x < a);
                let k = choose|k: int|
                    0 <= k < pairs@.len() && (#[trigger] pairs@[k]).0 == x && pairs@[k].1 == y;
                assert(0 <= k < gpairs.len() && gpairs[k].0 == x && gpairs[k].1 == y);
            }
        }
        let report = CollisionReport { blocks, pairs };
        proof {
            assert(report.blocks@ == gblocks);
            assert(report.pairs@ == gpairs);
            assert forall|x: int, y: int|
                0 <= x < y < report.blocks@.len() && Block::spec_overlaps(
                    report.blocks@[x],
                    report.blocks@[y],
                ) implies exists|k: int|
                0 <= k < report.pairs@.len() && (#[trigger] report.pairs@[k]).0 == x
                && report.pairs@[k].1 == y by {
                assert(Block::spec_overlaps(gblocks[x], gblocks[y]));
                let k = choose|k: int|
                    0 <= k < gpairs.len() && (#[trigger] gpairs[k]).0 == x && gpairs[k].1 == y;
                assert(0 <= k < report.pairs@.len() && report.pairs@[k].0 == x
                    && report.pairs@[k].1 == y);
            }
        }
        report
    }
}

impl System for CollisionSystem {
    open spec fn inv(&self) -> bool {
        true
    }

    fn new(db: &Database) -> (r: Result<Box<CollisionSystem>, EcsError>)
        ensures
            r is Ok,
    {
        Ok(Box::new(CollisionSystem {}))
    }

    /// One detection pass. Detection only reports; it never mutates the store
    /// and never fails. The pass here discards its report; the specified path
    /// to the report is [`CollisionSystem::detect`], which `Game::frame`
    /// returns.
    fn tick(&mut self, db: &mut Database, delta: i64) -> (r: Result<(), EcsError>)
        ensures
            r == Ok::<(), EcsError>(()),
            *final(db) == *old(db),
    {
        let _ = CollisionSystem::detect(db);
        Ok(())
    }
}

} // verus!
