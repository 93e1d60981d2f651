//! The world grid: a rectangular field of typed blocks (empty, entity,
//! terrain) beside a roster of entity locations. Settling an entity block
//! moves its location into the roster and clears the grid cell; empty and
//! terrain blocks settle as no-ops.

use vstd::prelude::*;

verus! {

/// An integer coordinate pair, copied by value wherever it is referenced.
#[derive(Clone, Copy, PartialEq, Eq, Debug, Structural)]
pub struct Location {
    pub x: i32,
    pub y: i32,
}

/// The kinds of immovable terrain a block can carry.
#[derive(Clone, Copy, PartialEq, Eq, Debug, Structural)]
pub enum TerrainType {
    Normal,
    Water,
    Wall,
    Sand,
}

/// One cell of the world grid: empty, occupied by a movable entity, or an
/// immovable terrain feature.
#[derive(Clone, Copy, PartialEq, Eq, Debug, Structural)]
pub enum Block {
    Empty,
    Entity(Location),
    Terrain(TerrainType),
}

/// The error raised when a caller names coordinates outside the grid's
/// declared dimensions.
#[derive(Clone, Copy, PartialEq, Eq, Debug, Structural)]
pub enum GridError {
    OutOfBounds,
}

/// True when `loc` names a cell of `blocks`.
pub open spec fn loc_in_bounds(blocks: Seq<Seq<Block>>, loc: Location) -> bool {
    0 <= loc.y < blocks.len() && 0 <= loc.x < blocks[loc.y as int].len()
}

/// Whether settling `b` succeeds: an entity block needs its location to lie
/// inside the grid; every other block settles trivially.
pub open spec fn settle_ok(blocks: Seq<Seq<Block>>, b: Block) -> bool {
    match b {
        Block::Entity(loc) => loc_in_bounds(blocks, loc),
        _ => true,
    }
}

/// What settling `b` does to the block field: an in-bounds entity clears the
/// cell at its location to `Empty`; everything else leaves the field as it is.
pub open spec fn settle_grid(blocks: Seq<Seq<Block>>, b: Block) -> Seq<Seq<Block>> {
    match b {
        Block::Entity(loc) => if loc_in_bounds(blocks, loc) {
            blocks.update(loc.y as int, blocks[loc.y as int].update(loc.x as int, Block::Empty))
        } else {
            blocks
        },
        _ => blocks,
    }
}

/// What settling `b` does to the entity roster: an in-bounds entity appends
/// its location; everything else leaves the roster as it is.
pub open spec fn settle_roster(
    entities: Seq<Location>,
    blocks: Seq<Seq<Block>>,
    b: Block,
) -> Seq<Location> {
    match b {
        Block::Entity(loc) => if loc_in_bounds(blocks, loc) {
            entities.push(loc)
        } else {
            entities
        },
        _ => entities,
    }
}

/// The world: a block field beside the roster of settled entity locations.
pub struct Gaming {
    pub blocks: Vec<Vec<Block>>,
    pub entities: Vec<Location>,
}

impl Gaming {
    /// The block field as a sequence of rows.
    pub open spec fn grid(&self) -> Seq<Seq<Block>> {
        self.blocks@.map_values(|row: Vec<Block>| row@)
    }

    /// The roster of settled entity locations, oldest first.
    pub open spec fn roster(&self) -> Seq<Location> {
        self.entities@
    }

    /// A world grid of the given dimensions, every cell `Empty` and the
    /// roster empty; either dimension may be zero.
    pub fn new(w: i32, h: i32) -> (g: Gaming)
        requires
            0 <= w,
            0 <= h,
        ensures
            g.grid().len() == h,
            forall|y: int| 0 <= y < h ==> (#[trigger] g.grid()[y]).len() == w,
            forall|y: int, x: int|
                0 <= y < h && 0 <= x < w ==> #[trigger] g.grid()[y][x] == Block::Empty,
            g.roster() == Seq::<Location>::empty(),
    {
        let wu = w as usize;
        let hu = h as usize;
        let mut blocks: Vec<Vec<Block>> = Vec::new();
        for y in 0..hu
            invariant
                blocks@.len() == y,
                forall|j: int| 0 <= j < y ==> (#[trigger] blocks@[j])@.len() == wu,
                forall|j: int, i: int|
                    0 <= j < y && 0 <= i < wu ==> #[trigger] blocks@[j]@[i] == Block::Empty,
        {
            let mut row: Vec<Block> = Vec::new();
            for x in 0..wu
                invariant
                    row@.len() == x,
                    forall|i: int| 0 <= i < x ==> #[trigger] row@[i] == Block::Empty,
            {
                row.push(Block::Empty);
            }
            blocks.push(row);
        }
        let g = Gaming { blocks, entities: Vec::new() };
        assert forall|y: int, x: int|
            0 <= y < h && 0 <= x < w implies #[trigger] g.grid()[y][x] == Block::Empty by {
            assert(g.grid()[y] == g.blocks@[y]@);
        }
        g
    }

    /// Puts `block` into the cell at `(x, y)`, rejecting coordinates outside
    /// the grid with `GridError::OutOfBounds` and leaving the world unchanged
    /// in that case. The roster is never touched.
    pub fn place(&mut self, x: i32, y: i32, block: Block) -> (r: Result<(), GridError>)
        ensures
            r is Ok <==> (0 <= y < old(self).grid().len() && 0 <= x < old(self).grid()[
                y as int
            ].len()),
            r is Ok ==> final(self).grid() == old(self).grid().update(
                y as int,
                old(self).grid()[y as int].update(x as int, block),
            ),
            r is Err ==> final(self).grid() == old(self).grid() && r == Err::<(), GridError>(
                GridError::OutOfBounds,
            ),
            final(self).roster() == old(self).roster(),
    {
        if y >= 0 && x >= 0 && (y as usize) < self.blocks.len() {
            let yi = y as usize;
            if (x as usize) < self.blocks[yi].len() {
                let xi = x as usize;
                self.blocks[yi][xi] = block;
                assert(self.grid() =~= old(self).grid().update(
                    y as int,
                    old(self).grid()[y as int].update(x as int, block),
                ));
                return Ok(());
            }
        }
        Err(GridError::OutOfBounds)
    }
}

impl Block {
    /// Settles this block into `gaming`. An `Empty` block does nothing; an
    /// `Entity` block appends its location to the roster and clears the grid
    /// cell at that location to `Empty`, both as one step, or rejects an
    /// out-of-bounds location with no effect; every `Terrain` kind does
    /// nothing (a dispatch point left open for per-terrain effects). The
    /// block itself is never changed.
    pub fn set(&mut self, gaming: &mut Gaming) -> (r: Result<(), GridError>)
        ensures
            *final(self) == *old(self),
            final(gaming).grid() == settle_grid(old(gaming).grid(), *old(self)),
            final(gaming).roster() == settle_roster(
                old(gaming).roster(),
                old(gaming).grid(),
                *old(self),
            ),
            r is Ok <==> settle_ok(old(gaming).grid(), *old(self)),
            r is Err ==> r == Err::<(), GridError>(GridError::OutOfBounds),
    {
        let b = *self;
        match b {
            Block::Empty => Ok(()),
            Block::Entity(location) => {
                if location.y >= 0 && location.x >= 0 && (location.y as usize)
                    < gaming.blocks.len() {
                    let yi = location.y as usize;
                    if (location.x as usize) < gaming.blocks[yi].len() {
                        let xi = location.x as usize;
                        gaming.entities.push(location);
                        gaming.blocks[yi][xi] = Block::Empty;
                        assert(gaming.grid() =~= settle_grid(old(gaming).grid(), b));
                        return Ok(());
                    }
                }
                Err(GridError::OutOfBounds)
            },
            Block::Terrain(terrain_type) => match terrain_type {
                TerrainType::Normal => Ok(()),
                TerrainType::Water => Ok(()),
                TerrainType::Wall => Ok(()),
                TerrainType::Sand => Ok(()),
            },
        }
    }
}

/// Law: settling the same in-bounds entity block twice appends its location
/// to the roster twice; the grid cell is `Empty` already after the first
/// settle, and the second settle finds that `Empty` cell and leaves it so.
pub proof fn lemma_settle_entity_twice(
    blocks: Seq<Seq<Block>>,
    entities: Seq<Location>,
    loc: Location,
)
    requires
        loc_in_bounds(blocks, loc),
    ensures
        ({
            let b = Block::Entity(loc);
            let blocks1 = settle_grid(blocks, b);
            let entities1 = settle_roster(entities, blocks, b);
            let blocks2 = settle_grid(blocks1, b);
            let entities2 = settle_roster(entities1, blocks1, b);
            &&& blocks1[loc.y as int][loc.x as int] == Block::Empty
            &&& blocks2 == blocks1
            &&& entities2 == entities.push(loc).push(loc)
        }),
{
    let b = Block::Entity(loc);
    let blocks1 = settle_grid(blocks, b);
    let blocks2 = settle_grid(blocks1, b);
    assert forall|y: int| 0 <= y < blocks1.len() implies (#[trigger] blocks2[y]) == blocks1[y] by {
        if y == loc.y as int {
            assert(blocks2[y] =~= blocks1[y]);
        }
    }
    assert(blocks2 =~= blocks1);
}

/// Law: settling a terrain block of any kind leaves both the grid and the
/// roster exactly as they were, and succeeds.
pub proof fn lemma_settle_terrain_noop(
    blocks: Seq<Seq<Block>>,
    entities: Seq<Location>,
    kind: TerrainType,
)
    ensures
        settle_grid(blocks, Block::Terrain(kind)) == blocks,
        settle_roster(entities, blocks, Block::Terrain(kind)) == entities,
        settle_ok(blocks, Block::Terrain(kind)),
{
}

/// Law: settling an empty block leaves both the grid and the roster exactly
/// as they were, and succeeds.
pub proof fn lemma_settle_empty_noop(blocks: Seq<Seq<Block>>, entities: Seq<Location>)
    ensures
        settle_grid(blocks, Block::Empty) == blocks,
        settle_roster(entities, blocks, Block::Empty) == entities,
        settle_ok(blocks, Block::Empty),
{
}

} // verus!
