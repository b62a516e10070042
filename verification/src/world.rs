//! Authoritative voxel world state: chunks of blocks and light levels,
//! held in a map keyed by the packed chunk coordinate. The world answers
//! block and light lookups at any position, and changes one cell or one
//! chunk at a time; every operation states exactly which cells it
//! touches and that all others keep their value.

use vstd::prelude::*;
use std::collections::HashMap;

use crate::blocks::Block;
use crate::coords::{
    block_index, chunk_contains, chunk_coord, chunk_index, chunk_key, chunk_of,
    lemma_block_index_injective, lemma_block_index_range, lemma_block_key_of_chunk,
    lemma_chunk_coord_fits, lemma_chunk_key_injective, spec_block_key, spec_chunk_key, DD, DDD,
    CHUNK_VOLUME,
};

verus! {

broadcast use vstd::std_specs::hash::group_hash_axioms;

/// Light level of a cell: light from the sky and light from emitters.
#[derive(Copy, Clone, PartialEq, Eq, Structural, Debug)]
pub struct LightLevel {
    pub heaven: u8,
    pub hearth: u8,
}

impl LightLevel {
    /// Complete darkness.
    pub fn dark() -> (r: LightLevel)
        ensures
            r.heaven == 0,
            r.hearth == 0,
    {
        LightLevel { heaven: 0, hearth: 0 }
    }
}

/// One 16 x 256 x 16 region of the world: a block and a light level for
/// each cell, stored flat in block-index order.
pub struct Chunk {
    coord: DD,
    blocks: Vec<Block>,
    light: Vec<LightLevel>,
}

impl Chunk {
    /// The chunk holds exactly one block and one light level per cell.
    pub closed spec fn wf(self) -> bool {
        &&& self.blocks@.len() == CHUNK_VOLUME
        &&& self.light@.len() == CHUNK_VOLUME
    }

    /// The chunk coordinate this chunk covers.
    pub closed spec fn spec_coord(self) -> DD {
        self.coord
    }

    /// The block stored for position `c`, meaningful when the chunk
    /// contains `c`.
    pub closed spec fn spec_block(self, c: DDD) -> Block {
        self.blocks@[block_index(c)]
    }

    /// The light level stored for position `c`.
    pub closed spec fn spec_light(self, c: DDD) -> LightLevel {
        self.light@[block_index(c)]
    }

    /// A fresh chunk at `coord`, every cell the given fill block and
    /// complete darkness.
    pub fn new_filled(coord: DD, fill: Block) -> (r: Chunk)
        ensures
            r.wf(),
            r.spec_coord() == coord,
            forall|c: DDD| chunk_contains(coord, c) ==> #[trigger] r.spec_block(c) == fill,
            forall|c: DDD|
                chunk_contains(coord, c) ==> (#[trigger] r.spec_light(c)) == (LightLevel {
                    heaven: 0,
                    hearth: 0,
                }),
    {
        let mut blocks: Vec<Block> = Vec::new();
        let mut light: Vec<LightLevel> = Vec::new();
        let mut i: usize = 0;
        while i < CHUNK_VOLUME
            invariant
                i <= CHUNK_VOLUME,
                blocks@.len() == i,
                light@.len() == i,
                forall|j: int| 0 <= j < i ==> blocks@[j] == fill,
                forall|j: int|
                    0 <= j < i ==> light@[j] == (LightLevel { heaven: 0, hearth: 0 }),
            decreases CHUNK_VOLUME - i,
        {
            blocks.push(fill);
            light.push(LightLevel { heaven: 0, hearth: 0 });
            i = i + 1;
        }
        let r = Chunk { coord, blocks, light };
        proof {
            assert forall|c: DDD| chunk_contains(coord, c) implies #[trigger] r.spec_block(c)
                == fill && (#[trigger] r.spec_light(c)) == (LightLevel {
                heaven: 0,
                hearth: 0,
            }) by {
                lemma_block_index_range(c);
            }
        }
        r
    }

    /// The coordinate this chunk covers.
    pub fn coord(&self) -> (r: DD)
        ensures
            r == self.spec_coord(),
    {
        self.coord
    }

    /// The block at position `c` of this chunk.
    pub fn get(&self, c: DDD) -> (r: Block)
        requires
            self.wf(),
            chunk_contains(self.spec_coord(), c),
        ensures
            r == self.spec_block(c),
    {
        proof {
            lemma_block_index_range(c);
        }
        self.blocks[chunk_index(c)]
    }

    /// The light level at position `c` of this chunk.
    pub fn get_light(&self, c: DDD) -> (r: LightLevel)
        requires
            self.wf(),
            chunk_contains(self.spec_coord(), c),
        ensures
            r == self.spec_light(c),
    {
        proof {
            lemma_block_index_range(c);
        }
        self.light[chunk_index(c)]
    }

    /// Replace the block at position `c`; every other cell, and all
    /// light, keeps its value.
    pub fn set(&mut self, c: DDD, b: Block)
        requires
            old(self).wf(),
            chunk_contains(old(self).spec_coord(), c),
        ensures
            final(self).wf(),
            final(self).spec_coord() == old(self).spec_coord(),
            final(self).spec_block(c) == b,
            forall|c2: DDD|
                chunk_contains(old(self).spec_coord(), c2) && c2 != c
                    ==> final(self).spec_block(c2) == old(self).spec_block(c2),
            forall|c2: DDD|
                chunk_contains(old(self).spec_coord(), c2) ==> final(self).spec_light(c2) == old(
                    self,
                ).spec_light(c2),
    {
        proof {
            lemma_block_index_range(c);
        }
        let i = chunk_index(c);
        self.blocks[i] = b;
        proof {
            assert forall|c2: DDD|
                chunk_contains(old(self).spec_coord(), c2) && c2 != c implies self.spec_block(c2)
                == old(self).spec_block(c2) by {
                lemma_block_index_range(c2);
                if block_index(c2) == block_index(c) {
                    lemma_block_index_injective(c2, c);
                }
            }
        }
    }

    /// Replace the light level at position `c`; every other cell, and
    /// all blocks, keeps its value.
    pub fn set_light(&mut self, c: DDD, l: LightLevel)
        requires
            old(self).wf(),
            chunk_contains(old(self).spec_coord(), c),
        ensures
            final(self).wf(),
            final(self).spec_coord() == old(self).spec_coord(),
            final(self).spec_light(c) == l,
            forall|c2: DDD|
                chunk_contains(old(self).spec_coord(), c2) && c2 != c
                    ==> final(self).spec_light(c2) == old(self).spec_light(c2),
            forall|c2: DDD|
                chunk_contains(old(self).spec_coord(), c2) ==> final(self).spec_block(c2) == old(
                    self,
                ).spec_block(c2),
    {
        proof {
            lemma_block_index_range(c);
        }
        let i = chunk_index(c);
        self.light[i] = l;
        proof {
            assert forall|c2: DDD|
                chunk_contains(old(self).spec_coord(), c2) && c2 != c implies self.spec_light(c2)
                == old(self).spec_light(c2) by {
                lemma_block_index_range(c2);
                if block_index(c2) == block_index(c) {
                    lemma_block_index_injective(c2, c);
                }
            }
        }
    }
}

/// The world: chunks keyed by their packed coordinate.
pub struct GameWorld {
    chunks: HashMap<u64, Chunk>,
}

impl GameWorld {
    /// Every stored chunk is well formed and sits under the key packed
    /// from its own coordinate.
    pub closed spec fn wf(self) -> bool {
        forall|k: u64|
            #[trigger] self.chunks@.contains_key(k) ==> self.chunks@[k].wf() && spec_chunk_key(
                self.chunks@[k].spec_coord(),
            ) == k
    }

    /// Whether the world holds the chunk at coordinate `ch`.
    pub closed spec fn spec_has_chunk(self, ch: DD) -> bool {
        self.chunks@.contains_key(spec_chunk_key(ch))
    }

    /// The block at position `c`: its stored value when the owning
    /// chunk is present and the height is in range, nothing otherwise.
    pub closed spec fn spec_block_at(self, c: DDD) -> Option<Block> {
        if 0 <= c.1 < 256 && self.chunks@.contains_key(spec_block_key(c)) {
            Some(self.chunks@[spec_block_key(c)].spec_block(c))
        } else {
            None
        }
    }

    /// The light level at position `c`, when the owning chunk is present.
    pub closed spec fn spec_light_at(self, c: DDD) -> Option<LightLevel> {
        if 0 <= c.1 < 256 && self.chunks@.contains_key(spec_block_key(c)) {
            Some(self.chunks@[spec_block_key(c)].spec_light(c))
        } else {
            None
        }
    }

    /// An empty world: no chunks, no blocks, no light.
    pub fn new() -> (r: GameWorld)
        ensures
            r.wf(),
            forall|ch: DD| !(#[trigger] r.spec_has_chunk(ch)),
            forall|c: DDD| (#[trigger] r.spec_block_at(c)) is None,
            forall|c: DDD| (#[trigger] r.spec_light_at(c)) is None,
    {
        GameWorld { chunks: HashMap::new() }
    }

    /// Whether the world holds the chunk at coordinate `ch`.
    pub fn contains_chunk(&self, ch: DD) -> (r: bool)
        ensures
            r == self.spec_has_chunk(ch),
    {
        self.chunks.contains_key(&chunk_key(ch))
    }

    /// Store `chunk` in the world, replacing any chunk at the same
    /// coordinate. Blocks and light of every position of other chunks
    /// keep their value.
    pub fn add_chunk(&mut self, chunk: Chunk)
        requires
            old(self).wf(),
            chunk.wf(),
        ensures
            final(self).wf(),
            forall|ch: DD|
                #[trigger] final(self).spec_has_chunk(ch) <==> (old(self).spec_has_chunk(ch)
                    || ch == chunk.spec_coord()),
            forall|c: DDD|
                chunk_contains(chunk.spec_coord(), c) ==> #[trigger] final(self).spec_block_at(c)
                    == Some(chunk.spec_block(c)),
            forall|c: DDD|
                chunk_contains(chunk.spec_coord(), c) ==> #[trigger] final(self).spec_light_at(c)
                    == Some(chunk.spec_light(c)),
            forall|c: DDD|
                !chunk_contains(chunk.spec_coord(), c) ==> #[trigger] final(self).spec_block_at(c)
                    == old(self).spec_block_at(c),
            forall|c: DDD|
                !chunk_contains(chunk.spec_coord(), c) ==> #[trigger] final(self).spec_light_at(c)
                    == old(self).spec_light_at(c),
    {
        let key = chunk_key(chunk.coord());
        let ghost coord = chunk.spec_coord();
        self.chunks.insert(key, chunk);
        proof {
            assert forall|ch: DD| #[trigger]
                self.spec_has_chunk(ch) implies (old(self).spec_has_chunk(ch) || ch
                == coord) by {
                if spec_chunk_key(ch) == spec_chunk_key(coord) {
                    lemma_chunk_key_injective(ch, coord);
                }
            }
            assert forall|c: DDD| chunk_contains(coord, c) implies #[trigger] self.spec_block_at(
                c,
            ) == Some(self.chunks@[spec_chunk_key(coord)].spec_block(c))
                && #[trigger] self.spec_light_at(c) == Some(
                self.chunks@[spec_chunk_key(coord)].spec_light(c),
            ) by {
                lemma_block_key_of_chunk(coord, c);
            }
            assert forall|c: DDD| !chunk_contains(coord, c) implies #[trigger] self.spec_block_at(
                c,
            ) == old(self).spec_block_at(c) && #[trigger] self.spec_light_at(c) == old(
                self,
            ).spec_light_at(c) by {
                if 0 <= c.1 < 256 {
                    lemma_chunk_coord_fits(c);
                    let cc = ((chunk_coord(c.0 as int)) as i32, (chunk_coord(c.2 as int)) as i32);
                    lemma_block_key_of_chunk(cc, c);
                    if spec_block_key(c) == spec_chunk_key(coord) {
                        lemma_chunk_key_injective(cc, coord);
                    }
                }
            }
        }
    }

    /// The block at position `c`, when the world holds it.
    pub fn get(&self, c: DDD) -> (r: Option<Block>)
        requires
            self.wf(),
        ensures
            r == self.spec_block_at(c),
    {
        if c.1 < 0 || c.1 >= 256 {
            return None;
        }
        let ch = chunk_of(c);
        proof {
            lemma_block_key_of_chunk(ch, c);
        }
        match self.chunks.get(&chunk_key(ch)) {
            None => None,
            Some(chunk) => {
                proof {
                    lemma_chunk_key_injective(chunk.spec_coord(), ch);
                }
                Some(chunk.get(c))
            },
        }
    }

    /// The light level at position `c`, when the world holds it.
    pub fn get_light_level(&self, c: DDD) -> (r: Option<LightLevel>)
        requires
            self.wf(),
        ensures
            r == self.spec_light_at(c),
    {
        if c.1 < 0 || c.1 >= 256 {
            return None;
        }
        let ch = chunk_of(c);
        proof {
            lemma_block_key_of_chunk(ch, c);
        }
        match self.chunks.get(&chunk_key(ch)) {
            None => None,
            Some(chunk) => {
                proof {
                    lemma_chunk_key_injective(chunk.spec_coord(), ch);
                }
                Some(chunk.get_light(c))
            },
        }
    }

    /// Replace the block at position `c`. Returns whether the world
    /// held the position; when it did not, nothing changes. Light and
    /// every other block keep their value.
    pub fn set(&mut self, c: DDD, b: Block) -> (r: bool)
        requires
            old(self).wf(),
        ensures
            final(self).wf(),
            r == (old(self).spec_block_at(c) is Some),
            r ==> final(self).spec_block_at(c) == Some(b),
            !r ==> final(self).spec_block_at(c) == old(self).spec_block_at(c),
            forall|c2: DDD|
                c2 != c ==> #[trigger] final(self).spec_block_at(c2) == old(self).spec_block_at(
                    c2,
                ),
            forall|c2: DDD| #[trigger] final(self).spec_light_at(c2) == old(self).spec_light_at(
                c2,
            ),
            forall|ch: DD| #[trigger] final(self).spec_has_chunk(ch) == old(self).spec_has_chunk(
                ch,
            ),
    {
        if c.1 < 0 || c.1 >= 256 {
            return false;
        }
        let ch = chunk_of(c);
        proof {
            lemma_block_key_of_chunk(ch, c);
        }
        let key = chunk_key(ch);
        match self.chunks.remove(&key) {
            None => {
                proof {
                    assert(self.chunks@ =~= old(self).chunks@);
                }
                false
            },
            Some(mut chunk) => {
                proof {
                    lemma_chunk_key_injective(chunk.spec_coord(), ch);
                }
                chunk.set(c, b);
                self.chunks.insert(key, chunk);
                proof {
                    assert(self.chunks@ =~= old(self).chunks@.insert(key, self.chunks@[key]));
                    assert forall|c2: DDD|
                        c2 != c implies #[trigger] self.spec_block_at(c2) == old(
                        self,
                    ).spec_block_at(c2) by {
                        self.lemma_cell_framed(*old(self), ch, c, c2);
                    }
                    assert forall|c2: DDD| #[trigger]
                        self.spec_light_at(c2) == old(self).spec_light_at(c2) by {
                        self.lemma_cell_framed(*old(self), ch, c, c2);
                    }
                }
                true
            },
        }
    }

    /// Replace the light level at position `c`. Returns whether the
    /// world held the position; when it did not, nothing changes.
    /// Blocks and every other light level keep their value.
    pub fn set_light(&mut self, c: DDD, l: LightLevel) -> (r: bool)
        requires
            old(self).wf(),
        ensures
            final(self).wf(),
            r == (old(self).spec_light_at(c) is Some),
            r ==> final(self).spec_light_at(c) == Some(l),
            !r ==> final(self).spec_light_at(c) == old(self).spec_light_at(c),
            forall|c2: DDD|
                c2 != c ==> #[trigger] final(self).spec_light_at(c2) == old(self).spec_light_at(
                    c2,
                ),
            forall|c2: DDD| #[trigger] final(self).spec_block_at(c2) == old(self).spec_block_at(
                c2,
            ),
            forall|ch: DD| #[trigger] final(self).spec_has_chunk(ch) == old(self).spec_has_chunk(
                ch,
            ),
    {
        if c.1 < 0 || c.1 >= 256 {
            return false;
        }
        let ch = chunk_of(c);
        proof {
            lemma_block_key_of_chunk(ch, c);
        }
        let key = chunk_key(ch);
        match self.chunks.remove(&key) {
            None => {
                proof {
                    assert(self.chunks@ =~= old(self).chunks@);
                }
                false
            },
            Some(mut chunk) => {
                proof {
                    lemma_chunk_key_injective(chunk.spec_coord(), ch);
                }
                chunk.set_light(c, l);
                self.chunks.insert(key, chunk);
                proof {
                    assert(self.chunks@ =~= old(self).chunks@.insert(key, self.chunks@[key]));
                    assert forall|c2: DDD|
                        c2 != c implies #[trigger] self.spec_light_at(c2) == old(
                        self,
                    ).spec_light_at(c2) by {
                        self.lemma_cell_framed(*old(self), ch, c, c2);
                    }
                    assert forall|c2: DDD| #[trigger]
                        self.spec_block_at(c2) == old(self).spec_block_at(c2) by {
                        self.lemma_cell_framed(*old(self), ch, c, c2);
                    }
                }
                true
            },
        }
    }

    /// After replacing the chunk at `ch` with one equal outside cell
    /// `c`, every lookup at a position `c2` other than `c` agrees with
    /// the old world, and so does light when only a block changed.
    proof fn lemma_cell_framed(self, prior: GameWorld, ch: DD, c: DDD, c2: DDD)
        requires
            prior.wf(),
            self.wf(),
            chunk_contains(ch, c),
            prior.chunks@.contains_key(spec_chunk_key(ch)),
            self.chunks@ == prior.chunks@.insert(
                spec_chunk_key(ch),
                self.chunks@[spec_chunk_key(ch)],
            ),
            self.chunks@[spec_chunk_key(ch)].spec_coord() == ch,
            forall|c3: DDD|
                chunk_contains(ch, c3) && c3 != c
                    ==> self.chunks@[spec_chunk_key(ch)].spec_block(c3)
                    == prior.chunks@[spec_chunk_key(ch)].spec_block(c3),
            forall|c3: DDD|
                chunk_contains(ch, c3) && c3 != c
                    ==> self.chunks@[spec_chunk_key(ch)].spec_light(c3)
                    == prior.chunks@[spec_chunk_key(ch)].spec_light(c3),
        ensures
            c2 != c ==> self.spec_block_at(c2) == prior.spec_block_at(c2),
            c2 != c ==> self.spec_light_at(c2) == prior.spec_light_at(c2),
            self.chunks@[spec_chunk_key(ch)].spec_block(c) == prior.chunks@[spec_chunk_key(
                ch,
            )].spec_block(c) ==> self.spec_block_at(c2) == prior.spec_block_at(c2),
            self.chunks@[spec_chunk_key(ch)].spec_light(c) == prior.chunks@[spec_chunk_key(
                ch,
            )].spec_light(c) ==> self.spec_light_at(c2) == prior.spec_light_at(c2),
    {
        if 0 <= c2.1 < 256 {
            lemma_chunk_coord_fits(c2);
            let cc = ((chunk_coord(c2.0 as int)) as i32, (chunk_coord(c2.2 as int)) as i32);
            lemma_block_key_of_chunk(cc, c2);
            if spec_block_key(c2) == spec_chunk_key(ch) {
                lemma_chunk_key_injective(cc, ch);
            }
        }
    }
}

} // verus!
