//! The binary voxel file format: three little-endian 32-bit dimensions, one
//! byte per cell, then 256 palette entries of three stored channel bytes.

use vstd::prelude::*;
use vstd::slice::{slice_subrange, slice_to_vec};
use byteorder::{ByteOrder, LittleEndian};
use crate::colour::{scale_channel, scaled, Colour, PALETTE_SIZE};
use crate::grid::{volume_of, GridView, VoxelModel};

verus! {

/// Why a byte stream could not be decoded.
#[derive(Clone, Copy, Debug, PartialEq, Eq, Structural)]
pub enum DecodeError {
    /// The stream ended before the header, the cell data or the palette was
    /// complete.
    UnexpectedEof,
}

/// The number of bytes the three dimensions take.
pub const HEADER_LEN: usize = 12;

/// The number of bytes the palette takes.
pub const PALETTE_LEN: usize = 768;

/// The number that four bytes spell in little-endian order.
pub open spec fn le_u32(b: Seq<u8>) -> int {
    b[0] + 0x100 * b[1] + 0x1_0000 * b[2] + 0x100_0000 * b[3]
}

/// Reads the first four bytes of `buf` as a little-endian number with
/// `byteorder::LittleEndian::read_u32`. Trusted: the result is the number
/// those four bytes spell, lowest byte first. The call panics on fewer than
/// four bytes, which the precondition rules out.
#[verifier::external_body]
fn read_u32_le(buf: &[u8]) -> (v: u32)
    requires
        buf@.len() >= 4,
    ensures
        v == le_u32(buf@),
{
    LittleEndian::read_u32(buf)
}

/// The width a stream declares in its first four bytes.
pub open spec fn declared_width(bytes: Seq<u8>) -> nat {
    le_u32(bytes.subrange(0, 4)) as nat
}

/// The height a stream declares in its second four bytes.
pub open spec fn declared_height(bytes: Seq<u8>) -> nat {
    le_u32(bytes.subrange(4, 8)) as nat
}

/// The depth a stream declares in its third four bytes.
pub open spec fn declared_depth(bytes: Seq<u8>) -> nat {
    le_u32(bytes.subrange(8, 12)) as nat
}

/// The number of cells a stream's header declares.
pub open spec fn declared_volume(bytes: Seq<u8>) -> nat {
    declared_width(bytes) * declared_height(bytes) * declared_depth(bytes)
}

/// Whether a stream is long enough to hold its header and everything the
/// header declares.
pub open spec fn complete(bytes: Seq<u8>) -> bool {
    bytes.len() >= HEADER_LEN && bytes.len() >= HEADER_LEN + declared_volume(bytes) + PALETTE_LEN
}

/// Palette entry `i` of a palette stored from position `start` on: three
/// consecutive stored channel bytes, red, green and blue, each scaled.
pub open spec fn palette_entry(bytes: Seq<u8>, start: int, i: int) -> Colour {
    Colour {
        r: scaled(bytes[start + 3 * i]),
        g: scaled(bytes[start + 3 * i + 1]),
        b: scaled(bytes[start + 3 * i + 2]),
    }
}

/// The grid a byte stream holds, if the stream is complete. Bytes after the
/// palette are ignored.
pub open spec fn decoded(bytes: Seq<u8>) -> Option<GridView> {
    if complete(bytes) {
        let cells_end = HEADER_LEN + declared_volume(bytes);
        Some(
            GridView {
                width: declared_width(bytes),
                height: declared_height(bytes),
                depth: declared_depth(bytes),
                cells: bytes.subrange(HEADER_LEN as int, cells_end as int),
                palette: Seq::new(256, |i: int| palette_entry(bytes, cells_end as int, i)),
            },
        )
    } else {
        None
    }
}

/// Decodes a voxel model from a byte stream. Fails exactly when the stream
/// is shorter than its header, or than what its header declares.
pub fn load_model(bytes: &[u8]) -> (r: Result<VoxelModel, DecodeError>)
    ensures
        match r {
            Ok(model) => decoded(bytes@) == Some(model@),
            Err(e) => decoded(bytes@).is_none() && e == DecodeError::UnexpectedEof,
        },
{
    if bytes.len() < HEADER_LEN {
        return Err(DecodeError::UnexpectedEof);
    }
    let width = read_u32_le(slice_subrange(bytes, 0, 4));
    let height = read_u32_le(slice_subrange(bytes, 4, 8));
    let depth = read_u32_le(slice_subrange(bytes, 8, 12));

    let volume = volume_of(width, height, depth);
    assert(volume <= 0xffff_ffff * 0xffff_ffff * 0xffff_ffff) by (nonlinear_arith)
        requires
            volume == width as nat * height as nat * depth as nat,
            width <= 0xffff_ffff,
            height <= 0xffff_ffff,
            depth <= 0xffff_ffff,
    ;
    if (bytes.len() as u128) < HEADER_LEN as u128 + volume + PALETTE_LEN as u128 {
        return Err(DecodeError::UnexpectedEof);
    }
    let cells_end: usize = HEADER_LEN + volume as usize;
    let data = slice_to_vec(slice_subrange(bytes, HEADER_LEN, cells_end));

    let mut palette = [Colour::black(); 256];
    for i in 0..PALETTE_SIZE
        invariant
            cells_end + PALETTE_LEN <= bytes.len(),
            forall|j: int| 0 <= j < i ==> palette@[j] == palette_entry(bytes@, cells_end as int, j),
    {
        let at: usize = cells_end + 3 * i;
        let entry = Colour {
            r: scale_channel(bytes[at]),
            g: scale_channel(bytes[at + 1]),
            b: scale_channel(bytes[at + 2]),
        };
        palette[i] = entry;
    }
    assert(palette@ =~= Seq::new(256, |i: int| palette_entry(bytes@, cells_end as int, i)));

    match VoxelModel::new(width, height, depth, palette, data) {
        Some(model) => Ok(model),
        None => Err(DecodeError::UnexpectedEof),
    }
}

/// The four bytes that spell `v` in little-endian order.
pub open spec fn le_bytes(v: nat) -> Seq<u8> {
    seq![
        (v % 0x100) as u8,
        (v / 0x100 % 0x100) as u8,
        (v / 0x1_0000 % 0x100) as u8,
        (v / 0x100_0000 % 0x100) as u8,
    ]
}

/// The byte a channel value is stored as: its upper six bits.
pub open spec fn stored(channel: u8) -> u8 {
    channel / 4
}

/// The 768 bytes a palette is stored as: red, green and blue of each entry
/// in turn.
pub open spec fn palette_bytes(palette: Seq<Colour>) -> Seq<u8> {
    Seq::new(
        PALETTE_LEN as nat,
        |k: int|
            {
                let c = palette[k / 3];
                if k % 3 == 0 {
                    stored(c.r)
                } else if k % 3 == 1 {
                    stored(c.g)
                } else {
                    stored(c.b)
                }
            },
    )
}

/// The byte stream that stores a grid.
pub open spec fn encoded(g: GridView) -> Seq<u8> {
    le_bytes(g.width) + le_bytes(g.height) + le_bytes(g.depth) + g.cells + palette_bytes(
        g.palette,
    )
}

/// What storing and reading back makes of a colour: each channel loses its
/// two lowest bits.
pub open spec fn truncated(c: Colour) -> Colour {
    Colour { r: (c.r / 4 * 4) as u8, g: (c.g / 4 * 4) as u8, b: (c.b / 4 * 4) as u8 }
}

/// Four bytes written in little-endian order read back as the same number.
pub proof fn lemma_le_round_trip(v: nat)
    requires
        v <= u32::MAX,
    ensures
        le_bytes(v).len() == 4,
        le_u32(le_bytes(v)) == v,
{
}

/// Storing a grid and decoding the bytes gives back the same dimensions and
/// the same cells. Each palette channel comes back without its two lowest
/// bits, so it comes back unchanged exactly when it is a multiple of four.
pub proof fn lemma_round_trip(g: GridView)
    requires
        g.wf(),
    ensures
        decoded(encoded(g)) matches Some(back) && {
            &&& back.width == g.width
            &&& back.height == g.height
            &&& back.depth == g.depth
            &&& back.cells == g.cells
            &&& back.palette.len() == 256
            &&& forall|i: int|
                0 <= i < 256 ==> {
                    &&& #[trigger] back.palette[i] == truncated(g.palette[i])
                    &&& (back.palette[i].r == g.palette[i].r <==> g.palette[i].r % 4 == 0)
                    &&& (back.palette[i].g == g.palette[i].g <==> g.palette[i].g % 4 == 0)
                    &&& (back.palette[i].b == g.palette[i].b <==> g.palette[i].b % 4 == 0)
                }
        },
{
    let bytes = encoded(g);
    let head = le_bytes(g.width) + le_bytes(g.height) + le_bytes(g.depth);
    lemma_le_round_trip(g.width);
    lemma_le_round_trip(g.height);
    lemma_le_round_trip(g.depth);
    assert(bytes.subrange(0, 4) =~= le_bytes(g.width));
    assert(bytes.subrange(4, 8) =~= le_bytes(g.height));
    assert(bytes.subrange(8, 12) =~= le_bytes(g.depth));
    assert(declared_volume(bytes) == g.volume());
    assert(bytes.len() == HEADER_LEN + g.volume() + PALETTE_LEN);
    let cells_end = HEADER_LEN as int + g.volume();
    assert(bytes.subrange(HEADER_LEN as int, cells_end) =~= g.cells);
    let back = decoded(bytes).unwrap();
    assert forall|i: int| 0 <= i < 256 implies {
        &&& #[trigger] back.palette[i] == truncated(g.palette[i])
        &&& (back.palette[i].r == g.palette[i].r <==> g.palette[i].r % 4 == 0)
        &&& (back.palette[i].g == g.palette[i].g <==> g.palette[i].g % 4 == 0)
        &&& (back.palette[i].b == g.palette[i].b <==> g.palette[i].b % 4 == 0)
    } by {
        let c = g.palette[i];
        let stored_at = palette_bytes(g.palette);
        assert(bytes[cells_end + 3 * i] == stored_at[3 * i]);
        assert(bytes[cells_end + 3 * i + 1] == stored_at[3 * i + 1]);
        assert(bytes[cells_end + 3 * i + 2] == stored_at[3 * i + 2]);
        assert(stored_at[3 * i] == stored(c.r));
        assert(stored_at[3 * i + 1] == stored(c.g));
        assert(stored_at[3 * i + 2] == stored(c.b));
    }
}

/// A grid whose palette channels are all multiples of four is read back from
/// its stored bytes exactly as it was.
pub proof fn lemma_round_trip_exact(g: GridView)
    requires
        g.wf(),
        forall|i: int|
            0 <= i < 256 ==> {
                &&& (#[trigger] g.palette[i]).r % 4 == 0
                &&& g.palette[i].g % 4 == 0
                &&& g.palette[i].b % 4 == 0
            },
    ensures
        decoded(encoded(g)) == Some(g),
{
    lemma_round_trip(g);
    let back = decoded(encoded(g)).unwrap();
    assert(back.palette =~= g.palette);
}

} // verus!
