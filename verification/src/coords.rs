//! World coordinates. A block lives at a `DDD` (x, y, z) position; the
//! world is split into chunks of 16 x 256 x 16 blocks, addressed by a `DD`
//! (x, z) chunk coordinate. This module fixes the chunk arithmetic: which
//! chunk a block belongs to, the flat index of a block inside its chunk,
//! the packed map key of a chunk coordinate, and block neighbourhoods.

use vstd::prelude::*;
use vstd::arithmetic::div_mod::{
    lemma_basic_div, lemma_div_is_ordered, lemma_fundamental_div_mod,
    lemma_hoist_over_denominator,
};

verus! {

/// A block position: x, y, z.
pub type DDD = (i32, i32, i32);

/// A chunk coordinate: x, z.
pub type DD = (i32, i32);

/// Blocks per chunk along x and z.
pub const CHUNK_SIDE: usize = 16;

/// Blocks per chunk along y.
pub const CHUNK_HEIGHT: usize = 256;

/// Blocks in one chunk: 16 * 256 * 16.
pub const CHUNK_VOLUME: usize = 65536;

/// The chunk x (or z) coordinate owning a block x (or z) coordinate:
/// division by 16 rounded toward negative infinity.
pub open spec fn chunk_coord(x: int) -> int {
    x / 16
}

/// Whether block position `c` lies inside chunk `ch`.
pub open spec fn chunk_contains(ch: DD, c: DDD) -> bool {
    &&& ch.0 as int == chunk_coord(c.0 as int)
    &&& ch.1 as int == chunk_coord(c.2 as int)
    &&& 0 <= c.1 < 256
}

/// A 32-bit value reinterpreted as its unsigned counterpart.
pub open spec fn unsigned32(x: int) -> int
    recommends
        -0x8000_0000 <= x < 0x8000_0000,
{
    if x >= 0 {
        x
    } else {
        x + 0x1_0000_0000
    }
}

/// The packed 64-bit key a chunk coordinate is stored under.
pub open spec fn spec_chunk_key(ch: DD) -> u64 {
    (unsigned32(ch.0 as int) * 0x1_0000_0000 + unsigned32(ch.1 as int)) as u64
}

/// The packed key of the chunk owning block position `c`.
pub open spec fn spec_block_key(c: DDD) -> u64 {
    (unsigned32(chunk_coord(c.0 as int)) * 0x1_0000_0000 + unsigned32(
        chunk_coord(c.2 as int),
    )) as u64
}

/// The flat index of block position `c` inside its own chunk:
/// x-offset, then y, then z-offset, each within its extent.
pub open spec fn block_index(c: DDD) -> int {
    let dx = c.0 as int - 16 * chunk_coord(c.0 as int);
    let dz = c.2 as int - 16 * chunk_coord(c.2 as int);
    dx * 4096 + (c.1 as int) * 16 + dz
}

/// Division by 16 rounded toward negative infinity stays within
/// one sixteenth of the 32-bit range.
proof fn lemma_chunk_coord_range(x: i32)
    ensures
        -0x800_0000 <= chunk_coord(x as int) < 0x800_0000,
{
    lemma_div_is_ordered(-0x8000_0000, x as int, 16);
    lemma_div_is_ordered(x as int, 0x7fff_ffff, 16);
    assert((-0x8000_0000int) / 16 == -0x800_0000);
    assert(0x7fff_ffffint / 16 == 0x7ff_ffff);
}

/// The remainder of division by 16 rounded toward negative infinity
/// lies in 0 .. 16.
proof fn lemma_chunk_offset_range(x: int)
    ensures
        0 <= x - 16 * chunk_coord(x) < 16,
{
    lemma_fundamental_div_mod(x, 16);
}

/// The flat index of a block inside its chunk is a position in 0 .. 65536.
pub proof fn lemma_block_index_range(c: DDD)
    requires
        0 <= c.1 < 256,
    ensures
        0 <= block_index(c) < 65536,
{
    lemma_chunk_offset_range(c.0 as int);
    lemma_chunk_offset_range(c.2 as int);
}

/// Two distinct block positions of one chunk have distinct flat indices.
pub proof fn lemma_block_index_injective(a: DDD, b: DDD)
    requires
        0 <= a.1 < 256,
        0 <= b.1 < 256,
        chunk_coord(a.0 as int) == chunk_coord(b.0 as int),
        chunk_coord(a.2 as int) == chunk_coord(b.2 as int),
        block_index(a) == block_index(b),
    ensures
        a == b,
{
    lemma_chunk_offset_range(a.0 as int);
    lemma_chunk_offset_range(a.2 as int);
    lemma_chunk_offset_range(b.0 as int);
    lemma_chunk_offset_range(b.2 as int);
}

/// The chunk coordinate of a block position, written with 32-bit
/// components, does contain the position.
pub proof fn lemma_chunk_coord_fits(c: DDD)
    requires
        0 <= c.1 < 256,
    ensures
        chunk_contains(
            ((chunk_coord(c.0 as int)) as i32, (chunk_coord(c.2 as int)) as i32),
            c,
        ),
{
    lemma_chunk_coord_range(c.0);
    lemma_chunk_coord_range(c.2);
}

/// Two distinct chunk coordinates pack to distinct 64-bit keys.
pub proof fn lemma_chunk_key_injective(a: DD, b: DD)
    requires
        spec_chunk_key(a) == spec_chunk_key(b),
    ensures
        a == b,
{
}

/// A block position's packed key is the key of the chunk containing it.
pub proof fn lemma_block_key_of_chunk(ch: DD, c: DDD)
    requires
        chunk_contains(ch, c),
    ensures
        spec_block_key(c) == spec_chunk_key(ch),
{
}

/// The cell of chunk `ch` at offsets (dx, y, dz) lies in that chunk,
/// and its flat index is the rank of the offsets.
pub proof fn lemma_chunk_cell(ch: DD, dx: int, y: int, dz: int)
    requires
        0 <= dx < 16,
        0 <= y < 256,
        0 <= dz < 16,
        -0x800_0000 <= ch.0 < 0x800_0000,
        -0x800_0000 <= ch.1 < 0x800_0000,
    ensures
        chunk_contains(
            ch,
            (((ch.0 as int) * 16 + dx) as i32, y as i32, ((ch.1 as int) * 16 + dz) as i32),
        ),
        block_index(
            (((ch.0 as int) * 16 + dx) as i32, y as i32, ((ch.1 as int) * 16 + dz) as i32),
        ) == dx * 4096 + y * 16 + dz,
{
    lemma_hoist_over_denominator(dx, ch.0 as int, 16nat);
    lemma_basic_div(dx, 16);
    lemma_hoist_over_denominator(dz, ch.1 as int, 16nat);
    lemma_basic_div(dz, 16);
}

/// The chunk coordinate owning a block coordinate, by axis:
/// division by 16 rounded toward negative infinity.
pub fn floor_div_16(x: i32) -> (q: i32)
    ensures
        q as int == chunk_coord(x as int),
{
    let shifted: u64 = ((x as i64) + 0x8000_0000i64) as u64;
    let quotient: u64 = shifted / 16;
    proof {
        lemma_hoist_over_denominator(x as int, 0x800_0000, 16nat);
        lemma_chunk_coord_range(x);
    }
    (quotient as i64 - 0x800_0000i64) as i32
}

/// The chunk coordinate owning block position `c`.
pub fn chunk_of(c: DDD) -> (ch: DD)
    ensures
        ch.0 as int == chunk_coord(c.0 as int),
        ch.1 as int == chunk_coord(c.2 as int),
        0 <= c.1 < 256 ==> chunk_contains(ch, c),
{
    (floor_div_16(c.0), floor_div_16(c.2))
}

/// The packed 64-bit key of a chunk coordinate: its x in the upper
/// 32 bits, its z in the lower.
pub fn chunk_key(ch: DD) -> (k: u64)
    ensures
        k == spec_chunk_key(ch),
{
    let hi: u64 = if ch.0 >= 0 {
        ch.0 as u64
    } else {
        ((ch.0 as i64) + 0x1_0000_0000i64) as u64
    };
    let lo: u64 = if ch.1 >= 0 {
        ch.1 as u64
    } else {
        ((ch.1 as i64) + 0x1_0000_0000i64) as u64
    };
    hi * 0x1_0000_0000 + lo
}

/// The flat index of block position `c` inside its chunk.
pub fn chunk_index(c: DDD) -> (i: usize)
    requires
        0 <= c.1 < 256,
    ensures
        i == block_index(c),
        i < 65536,
{
    proof {
        lemma_chunk_coord_range(c.0);
        lemma_chunk_coord_range(c.2);
        lemma_chunk_offset_range(c.0 as int);
        lemma_chunk_offset_range(c.2 as int);
        lemma_block_index_range(c);
    }
    let dx = (c.0 - 16 * floor_div_16(c.0)) as usize;
    let dz = (c.2 - 16 * floor_div_16(c.2)) as usize;
    dx * 4096 + (c.1 as usize) * 16 + dz
}

/// Componentwise difference of two block positions.
pub fn sub_ddd(a: DDD, b: DDD) -> (r: DDD)
    requires
        i32::MIN <= a.0 - b.0 <= i32::MAX,
        i32::MIN <= a.1 - b.1 <= i32::MAX,
        i32::MIN <= a.2 - b.2 <= i32::MAX,
    ensures
        r.0 == a.0 - b.0,
        r.1 == a.1 - b.1,
        r.2 == a.2 - b.2,
{
    (a.0 - b.0, a.1 - b.1, a.2 - b.2)
}

/// The block position one step from `c` along axis direction `d`,
/// for `d` in 0 .. 6: +x, -x, +y, -y, +z, -z.
pub open spec fn neighbour(c: DDD, d: int) -> DDD
    recommends
        0 <= d < 6,
{
    if d == 0 {
        ((c.0 + 1) as i32, c.1, c.2)
    } else if d == 1 {
        ((c.0 - 1) as i32, c.1, c.2)
    } else if d == 2 {
        (c.0, (c.1 + 1) as i32, c.2)
    } else if d == 3 {
        (c.0, (c.1 - 1) as i32, c.2)
    } else if d == 4 {
        (c.0, c.1, (c.2 + 1) as i32)
    } else {
        (c.0, c.1, (c.2 - 1) as i32)
    }
}

/// Whether every axis neighbour of `c` stays in the 32-bit
/// coordinate range.
pub open spec fn neighbours_in_range(c: DDD) -> bool {
    &&& i32::MIN < c.0 < i32::MAX
    &&& i32::MIN < c.1 < i32::MAX
    &&& i32::MIN < c.2 < i32::MAX
}

/// The six axis neighbours of block position `c`, in direction order.
pub fn immediate_neighbours(c: DDD) -> (r: Vec<DDD>)
    requires
        neighbours_in_range(c),
    ensures
        r@.len() == 6,
        forall|d: int| 0 <= d < 6 ==> r@[d] == neighbour(c, d),
{
    let mut r: Vec<DDD> = Vec::new();
    r.push((c.0 + 1, c.1, c.2));
    r.push((c.0 - 1, c.1, c.2));
    r.push((c.0, c.1 + 1, c.2));
    r.push((c.0, c.1 - 1, c.2));
    r.push((c.0, c.1, c.2 + 1));
    r.push((c.0, c.1, c.2 - 1));
    r
}

} // verus!
