//! The static tile map: which cells of the grid hold a block.

use vstd::prelude::*;

verus! {

/// The cells of the debug level: a stair on the left, the ground, and a
/// wall on the right.
pub const DEBUG_MAP: [(i32, i32); 20] = [
    (-6, 4),
    (-6, 3),
    (-5, 3),
    (-5, 2),
    (-4, 2),
    (-4, 1),
    (-3, 1),
    (-3, 0),
    (-2, 0),
    (-1, 0),
    (0, 0),
    (1, 0),
    (2, 0),
    (3, 0),
    (4, 0),
    (5, 0),
    (5, 1),
    (5, 2),
    (5, 3),
    (5, 4),
];

/// A tile. It marks its cell as filled and holds nothing yet.
#[derive(Clone, Copy, Debug, PartialEq, Eq, Structural)]
pub struct Block {}

/// A table from cells of the grid to the blocks that fill them.
#[derive(Clone, Debug)]
pub struct TileMap {
    pub elements: Vec<((i32, i32), Block)>,
}

impl TileMap {
    /// No cell stands in the table twice.
    pub open spec fn wf(&self) -> bool {
        forall|i: int, j: int|
            0 <= i < j < self.elements@.len() ==> (#[trigger] self.elements@[i]).0
                != (#[trigger] self.elements@[j]).0
    }

    /// The table holds a block for the cell.
    pub open spec fn has(&self, cell: (i32, i32)) -> bool {
        exists|i: int| 0 <= i < self.elements@.len() && (#[trigger] self.elements@[i]).0 == cell
    }

    /// A table without blocks.
    pub fn new() -> (map: Self)
        ensures
            map.wf(),
            map.elements@.len() == 0,
    {
        TileMap { elements: Vec::new() }
    }

    /// The block of a cell, if the table holds one.
    pub fn get(&self, cell: (i32, i32)) -> (found: Option<Block>)
        ensures
            found is Some <==> self.has(cell),
    {
        let mut i: usize = 0;
        while i < self.elements.len()
            invariant
                i <= self.elements@.len(),
                forall|k: int| 0 <= k < i ==> (#[trigger] self.elements@[k]).0 != cell,
            decreases self.elements@.len() - i,
        {
            let (at, block) = self.elements[i];
            if at.0 == cell.0 && at.1 == cell.1 {
                return Some(block);
            }
            i = i + 1;
        }
        None
    }

    /// Puts a block into a cell. A cell that holds a block keeps it.
    pub fn insert(&mut self, cell: (i32, i32), block: Block)
        requires
            old(self).wf(),
        ensures
            final(self).wf(),
            forall|other: (i32, i32)| final(self).has(other) <==> old(self).has(other) || other == cell,
            old(self).has(cell) ==> final(self).elements@ == old(self).elements@,
            !old(self).has(cell) ==> final(self).elements@ == old(self).elements@.push((cell, block)),
    {
        if self.get(cell).is_none() {
            let ghost before = self.elements@;
            self.elements.push((cell, block));
            proof {
                assert(self.elements@[before.len() as int].0 == cell);
                assert forall|other: (i32, i32)| self.has(other) implies old(self).has(other)
                    || other == cell by {
                    let i = choose|i: int|
                        0 <= i < self.elements@.len() && (#[trigger] self.elements@[i]).0 == other;
                    assert(i < before.len() ==> before[i].0 == other);
                }
                assert forall|other: (i32, i32)| old(self).has(other) implies self.has(other) by {
                    let i = choose|i: int| 0 <= i < before.len() && (#[trigger] before[i]).0 == other;
                    assert(self.elements@[i].0 == other);
                }
            }
        }
    }
}

impl Default for TileMap {
    /// The debug level: one block for each cell of `DEBUG_MAP`, in its
    /// order, and none besides.
    fn default() -> (map: Self)
        ensures
            map.wf(),
            map.elements@.len() == DEBUG_MAP@.len(),
            forall|k: int|
                0 <= k < DEBUG_MAP@.len() ==> (#[trigger] map.elements@[k]).0 == DEBUG_MAP@[k],
            forall|cell: (i32, i32)| map.has(cell) <==> DEBUG_MAP@.contains(cell),
    {
        let mut map = TileMap::new();
        let mut k: usize = 0;
        while k < 20
            invariant
                k <= 20,
                DEBUG_MAP@.len() == 20,
                map.wf(),
                map.elements@.len() == k,
                forall|i: int| 0 <= i < k ==> (#[trigger] map.elements@[i]).0 == DEBUG_MAP@[i],
            decreases 20 - k,
        {
            proof {
                // The cell is new to the table, so it is added at the end.
                lemma_debug_cells_differ();
                assert(!map.has(DEBUG_MAP@[k as int]));
            }
            map.insert(DEBUG_MAP[k], Block {  });
            k = k + 1;
        }
        proof {
            assert forall|cell: (i32, i32)| map.has(cell) implies DEBUG_MAP@.contains(cell) by {
                let i = choose|i: int|
                    0 <= i < map.elements@.len() && (#[trigger] map.elements@[i]).0 == cell;
                assert(DEBUG_MAP@[i] == cell);
            }
            assert forall|cell: (i32, i32)| DEBUG_MAP@.contains(cell) implies map.has(cell) by {
                let i = choose|i: int| 0 <= i < DEBUG_MAP@.len() && DEBUG_MAP@[i] == cell;
                assert(map.elements@[i].0 == cell);
            }
        }
        map
    }
}

/// No cell stands in `DEBUG_MAP` twice.
pub proof fn lemma_debug_cells_differ()
    ensures
        forall|i: int, j: int| 0 <= i < j < 20 ==> DEBUG_MAP@[i] != DEBUG_MAP@[j],
{
}

} // verus!
