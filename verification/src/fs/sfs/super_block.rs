//! Interface for the SFS super-block.

use vstd::prelude::*;
use vstd::arithmetic::power2::pow2;
use vstd::bytes::{spec_u32_from_le_bytes, spec_u64_from_le_bytes, u32_from_le_bytes, u64_from_le_bytes};
use vstd::slice::slice_subrange;

use crate::dev::address::{lemma_address_ops, Address};
use crate::dev::Device;
use crate::error::{Error, FsError};
use crate::fs::sfs::error::SfsError;

verus! {

/// SFS signature: the ASCII code of "SFS".
pub const SFS_SIGNATURE: [u8; 3] = [0x53, 0x46, 0x53];

/// Starting byte of the super-block in a version 1.0 SFS storage device.
pub const SUPER_BLOCK_START_BYTE: usize = 0x0194;

/// Size of the super-block in bytes.
pub const SUPER_BLOCK_SIZE: usize = 42;

/// Enumeration of the areas of an SFS volume, in their order on the device.
#[derive(Debug, Clone, Copy, PartialEq, Eq, Structural, PartialOrd, Ord)]
pub enum Area {
    /// Super Block Area.
    SuperBlock,
    /// Reserved Area.
    Reserved,
    /// Data Area.
    Data,
    /// Free Area.
    Free,
    /// Index Area.
    Index,
}

/// Position of an area in the order of the device.
pub open spec fn area_rank(a: Area) -> int {
    match a {
        Area::SuperBlock => 0,
        Area::Reserved => 1,
        Area::Data => 2,
        Area::Free => 3,
        Area::Index => 4,
    }
}

/// The SFS Super Block.
#[derive(Debug, Clone, Copy)]
pub struct SuperBlock {
    /// Last alteration time of the `data_size` or `index_size` values.
    pub time_stamp: i64,
    /// Size of Data Area in blocks.
    pub data_size: u64,
    /// Size of Index Area in bytes; it must be a multiple of 64.
    pub index_size: u64,
    /// SFS magic number.
    pub magic: [u8; 3],
    /// SFS version: 1.0 (`0x10`) or 1.10 (`0x1A`).
    pub version: u8,
    /// Total number of blocks in volume (including Reserved Area).
    pub total_blocks: u64,
    /// Size of the super block and the Reserved Area in blocks.
    pub rsvd_blocks: u32,
    /// Block size given by `bytes_per_block = 2.pow(block_size + 7)`; at least 1.
    pub block_size: u8,
    /// Super-block checksum: the bytes from `magic` to `crc` inclusive sum to zero (modulo 256).
    pub crc: u8,
}

/// Sum of the `n` low-order little-endian bytes of `x`.
pub open spec fn byte_sum(x: nat, n: nat) -> nat
    decreases n,
{
    if n == 0 { 0 } else { x % 256 + byte_sum(x / 256, (n - 1) as nat) }
}

/// Sum of the bytes of the checksummed fields, from `magic` to `block_size` inclusive.
pub open spec fn checksummed_sum(sb: SuperBlock) -> nat {
    (sb.magic@[0] + sb.magic@[1] + sb.magic@[2] + sb.version + byte_sum(sb.total_blocks as nat, 8) + byte_sum(
        sb.rsvd_blocks as nat,
        4,
    ) + sb.block_size) as nat
}

/// The complement to zero, modulo 256, of the checksummed fields.
pub open spec fn checksum_spec(sb: SuperBlock) -> u8 {
    ((256 - checksummed_sum(sb) % 256) % 256) as u8
}

/// Bytes per block for a given block size field.
pub open spec fn bytes_per_block_spec(block_size: u8) -> nat {
    pow2((block_size + 7) as nat)
}

/// The area of a block: the first area whose end lies after the block.
pub open spec fn block_area_spec(sb: SuperBlock, block: u64) -> Option<Area> {
    if block < 1 {
        Some(Area::SuperBlock)
    } else if block < sb.rsvd_blocks {
        Some(Area::Reserved)
    } else if block < sb.rsvd_blocks + sb.data_size {
        Some(Area::Data)
    } else if block < index_area_first_block_spec(sb) {
        Some(Area::Free)
    } else if block < sb.total_blocks {
        Some(Area::Index)
    } else {
        None
    }
}

/// Whether a block lies past the super-block, the Reserved Area and the Data Area.
pub open spec fn past_data_area(sb: SuperBlock, block: u64) -> bool {
    block >= 1 && block >= sb.rsvd_blocks && block >= sb.rsvd_blocks + sb.data_size
}

/// First block of the Index Area: the Index Area occupies the last blocks of the volume, as many as needed to
/// hold `index_size` bytes.
pub open spec fn index_area_first_block_spec(sb: SuperBlock) -> int {
    let bpb = bytes_per_block_spec(sb.block_size) as int;
    sb.total_blocks - (sb.index_size as int) / bpb - (if (sb.index_size as int) % bpb == 0 { 0int } else { 1int })
}

impl SuperBlock {
    /// Whether the block size field gives a block size that fits on 32 bits.
    pub open spec fn has_small_blocks(&self) -> bool {
        self.block_size <= 24
    }

    /// Whether the volume size in bytes fits on 64 bits.
    pub open spec fn size_fits(&self) -> bool {
        self.has_small_blocks() && self.total_blocks * bytes_per_block_spec(self.block_size) <= u64::MAX
    }

    /// Whether the fields locating the areas are consistent enough for [`block_area`](SuperBlock::block_area):
    /// the end of the data area fits on 64 bits and the index area fits in the volume.
    pub open spec fn areas_fit(&self) -> bool {
        &&& self.has_small_blocks()
        &&& self.rsvd_blocks + self.data_size <= u64::MAX
        &&& index_area_first_block_spec(*self) >= 0
    }

    /// Returns the size in bytes of a block in this filesystem.
    pub fn bytes_per_block(&self) -> (res: u32)
        requires
            self.has_small_blocks(),
        ensures
            res == bytes_per_block_spec(self.block_size),
            res >= 128,
    {
        let shift: u32 = (self.block_size as u32) + 7;
        proof {
            vstd::bits::lemma_u32_pow2_no_overflow(shift as nat);
            vstd::bits::lemma_u32_shl_is_mul(1, shift);
            vstd::arithmetic::power2::lemma2_to64();
            if shift > 7 {
                vstd::arithmetic::power2::lemma_pow2_strictly_increases(7, shift as nat);
            }
        }
        1u32 << shift
    }

    /// Returns the size in block of the Super Block Area.
    pub fn superblock_area_size(&self) -> (res: u32)
        ensures
            res == 1,
    {
        1
    }

    /// Returns the size in blocks of the Reserved Area, the block holding the super-block removed.
    pub fn reserved_area_size(&self) -> (res: u32)
        requires
            self.rsvd_blocks >= 1,
        ensures
            res == self.rsvd_blocks - 1,
    {
        self.rsvd_blocks - self.superblock_area_size()
    }

    /// Returns the total size of the filesystem in bytes.
    pub fn filesystem_size(&self) -> (res: u64)
        requires
            self.size_fits(),
        ensures
            res == self.total_blocks * bytes_per_block_spec(self.block_size),
    {
        self.total_blocks * (self.bytes_per_block() as u64)
    }

    /// Returns the first block of the Index Area.
    pub fn index_area_first_block(&self) -> (res: u64)
        requires
            self.has_small_blocks(),
            index_area_first_block_spec(*self) >= 0,
        ensures
            res == index_area_first_block_spec(*self),
    {
        let bpb = self.bytes_per_block() as u64;
        let partial: u64 = if self.index_size % bpb == 0 { 0 } else { 1 };
        self.total_blocks - (self.index_size / bpb) - partial
    }

    /// Returns the complement to 0 checksum of the fields from `magic` to `block_size`, inclusive.
    pub fn checksum_control(&self) -> (res: u8)
        ensures
            res == checksum_spec(*self),
    {
        let mut acc: u32 = self.magic[0] as u32 + self.magic[1] as u32 + self.magic[2] as u32 + self.version as u32;
        let ghost base = acc as nat;
        let mut t: u64 = self.total_blocks;
        let mut i: u32 = 0;
        while i < 8
            invariant
                i <= 8,
                acc <= 255 * (4 + i),
                acc + byte_sum(t as nat, (8 - i) as nat) == base + byte_sum(self.total_blocks as nat, 8),
            decreases 8 - i,
        {
            acc = acc + (t % 256) as u32;
            t = t / 256;
            i = i + 1;
        }
        let ghost mid = acc as nat;
        let mut r: u32 = self.rsvd_blocks;
        let mut j: u32 = 0;
        while j < 4
            invariant
                j <= 4,
                acc <= 255 * (12 + j),
                acc + byte_sum(r as nat, (4 - j) as nat) == mid + byte_sum(self.rsvd_blocks as nat, 4),
            decreases 4 - j,
        {
            acc = acc + r % 256;
            r = r / 256;
            j = j + 1;
        }
        acc = acc + self.block_size as u32;
        ((256 - acc % 256) % 256) as u8
    }

    /// Returns the area in which the block is located, or `None` if the block is outside the filesystem.
    ///
    /// Only a block past the Data Area needs the block size, to locate the Index Area.
    pub fn block_area(&self, block: u64) -> (res: Option<Area>)
        requires
            past_data_area(*self, block) ==> self.has_small_blocks(),
        ensures
            res == block_area_spec(*self, block),
    {
        if block < (self.superblock_area_size() as u64) {
            Some(Area::SuperBlock)
        } else if block < (self.rsvd_blocks as u64) {
            Some(Area::Reserved)
        } else if block - (self.rsvd_blocks as u64) < self.data_size {
            Some(Area::Data)
        } else {
            let bpb = self.bytes_per_block() as u64;
            let whole = self.index_size / bpb;
            let partial: u64 = if self.index_size % bpb == 0 { 0 } else { 1 };
            if self.total_blocks >= whole && self.total_blocks - whole >= partial && block < self.total_blocks
                - whole - partial {
                Some(Area::Free)
            } else if block < self.total_blocks {
                Some(Area::Index)
            } else {
                None
            }
        }
    }

    /// Checks whether the given block is located in the Data Area.
    pub fn is_block_in_data_area(&self, block: u64) -> (res: bool)
        ensures
            res == (block_area_spec(*self, block) == Some(Area::Data)),
            res == (1 <= block && self.rsvd_blocks <= block && block < self.rsvd_blocks + self.data_size),
    {
        1 <= block && (self.rsvd_blocks as u64) <= block && block - (self.rsvd_blocks as u64) < self.data_size
    }

    /// Returns the [`Address`] of the starting byte of the Index Area.
    pub fn index_area_starting_addr(&self) -> (res: Address)
        requires
            self.size_fits(),
            self.index_size <= self.total_blocks * bytes_per_block_spec(self.block_size),
        ensures
            res@ == self.total_blocks * bytes_per_block_spec(self.block_size) - self.index_size,
    {
        let total_bytes = self.total_blocks * (self.bytes_per_block() as u64);
        Address::new(total_bytes - self.index_size)
    }

    /// Parses a super-block from its `SUPER_BLOCK_SIZE` bytes (little-endian fields) and checks it.
    ///
    /// Fails with [`SfsError::BadMagic`] if the magic number is not `SFS`, with [`SfsError::BadChecksum`] if the
    /// checksum does not match, with [`SfsError::BadIndexAreaSize`] if the index area size is not a multiple of 64,
    /// and with [`SfsError::BadBlockSize`] if the block size field is 0; the first failing check is reported.
    pub fn parse_bytes(bytes: &[u8]) -> (res: Result<Self, Error<SfsError>>)
        requires
            bytes@.len() == SUPER_BLOCK_SIZE,
        ensures
            ({
                let sb = super_block_of_bytes(bytes@);
                &&& sb.magic@ != SFS_SIGNATURE@ ==> res == Err::<SuperBlock, Error<SfsError>>(
                    Error::Fs(FsError::Implementation(SfsError::BadMagic(sb.magic))),
                )
                &&& sb.magic@ == SFS_SIGNATURE@ && sb.crc != checksum_spec(sb) ==> res == Err::<
                    SuperBlock,
                    Error<SfsError>,
                >(
                    Error::Fs(
                        FsError::Implementation(
                            SfsError::BadChecksum { expected: checksum_spec(sb), given: sb.crc },
                        ),
                    ),
                )
                &&& sb.magic@ == SFS_SIGNATURE@ && sb.crc == checksum_spec(sb) && sb.index_size % 64 != 0
                    ==> res == Err::<SuperBlock, Error<SfsError>>(
                    Error::Fs(FsError::Implementation(SfsError::BadIndexAreaSize(sb.index_size))),
                )
                &&& sb.magic@ == SFS_SIGNATURE@ && sb.crc == checksum_spec(sb) && sb.index_size % 64 == 0
                    && sb.block_size == 0 ==> res == Err::<SuperBlock, Error<SfsError>>(
                    Error::Fs(FsError::Implementation(SfsError::BadBlockSize(sb.block_size))),
                )
                &&& res is Ok <==> super_block_valid(sb)
                &&& res matches Ok(r) ==> same_super_block(r, sb)
            }),
    {
        let time_stamp = u64_to_i64(u64_from_le_bytes(slice_subrange(bytes, 0, 8)));
        let data_size = u64_from_le_bytes(slice_subrange(bytes, 8, 16));
        let index_size = u64_from_le_bytes(slice_subrange(bytes, 16, 24));
        let magic: [u8; 3] = [bytes[24], bytes[25], bytes[26]];
        let version = bytes[27];
        let total_blocks = u64_from_le_bytes(slice_subrange(bytes, 28, 36));
        let rsvd_blocks = u32_from_le_bytes(slice_subrange(bytes, 36, 40));
        let block_size = bytes[40];
        let crc = bytes[41];
        let sb = SuperBlock {
            time_stamp,
            data_size,
            index_size,
            magic,
            version,
            total_blocks,
            rsvd_blocks,
            block_size,
            crc,
        };
        assert(sb.magic@ =~= super_block_of_bytes(bytes@).magic@);
        assert(SFS_SIGNATURE@ =~= seq![0x53u8, 0x46u8, 0x53u8]);
        if !(magic[0] == 0x53 && magic[1] == 0x46 && magic[2] == 0x53) {
            assert(sb.magic@ != SFS_SIGNATURE@) by {
                if sb.magic@ == SFS_SIGNATURE@ {
                    assert(sb.magic@[0] == SFS_SIGNATURE@[0]);
                    assert(sb.magic@[1] == SFS_SIGNATURE@[1]);
                    assert(sb.magic@[2] == SFS_SIGNATURE@[2]);
                }
            }
            return Err(Error::Fs(FsError::Implementation(SfsError::BadMagic(magic))));
        }
        assert(sb.magic@ =~= SFS_SIGNATURE@);
        let expected = sb.checksum_control();
        if crc != expected {
            Err(Error::Fs(FsError::Implementation(SfsError::BadChecksum { expected, given: crc })))
        } else if index_size % 64 != 0 {
            Err(Error::Fs(FsError::Implementation(SfsError::BadIndexAreaSize(index_size))))
        } else if block_size == 0 {
            Err(Error::Fs(FsError::Implementation(SfsError::BadBlockSize(block_size))))
        } else {
            Ok(sb)
        }
    }
}

impl SuperBlock {
    /// Reads the super-block of the device, from byte `SUPER_BLOCK_START_BYTE` on, and checks it as
    /// [`parse_bytes`](SuperBlock::parse_bytes) does; a failed read gives [`Error::IO`].
    pub fn parse<D: Device>(device: &mut D) -> (res: Result<Self, Error<SfsError>>)
        ensures
            final(device).contents() == old(device).contents(),
            ({
                let c = old(device).contents();
                let sb = super_block_of_bytes(c.subrange(0x194int, 0x194int + 42));
                &&& !(res matches Err(Error::IO(_))) ==> c.len() >= 0x194 + 42
                &&& res matches Ok(r) ==> super_block_valid(sb) && same_super_block(r, sb)
                &&& res matches Err(Error::Fs(_)) ==> !super_block_valid(sb)
                &&& c.len() >= 0x194 + 42 && !super_block_valid(sb) ==> res is Err
                &&& !(res matches Err(Error::IO(_))) ==> (res is Ok <==> super_block_valid(sb))
                &&& res matches Err(Error::Fs(f)) ==> first_failed_check(sb) matches Some(e) && f
                    == FsError::Implementation(e)
                &&& first_failed_check(sb) matches Some(e) ==> (!(res matches Err(Error::IO(_))) ==> res == Err::<
                    SuperBlock,
                    Error<SfsError>,
                >(Error::Fs(FsError::Implementation(e))))
            }),
    {
        let start = Address::new(SUPER_BLOCK_START_BYTE as u64);
        proof {
            lemma_address_ops(start, start, SUPER_BLOCK_SIZE as u64);
        }
        let end = start + (SUPER_BLOCK_SIZE as u64);
        let slice = match device.slice(start..end) {
            Ok(s) => s,
            Err(e) => return Err(Error::IO(e)),
        };
        Self::parse_bytes(slice.as_bytes())
    }
}

/// The two's complement reading of a 64-bit word.
pub open spec fn u64_to_i64_spec(v: u64) -> i64 {
    if v <= i64::MAX { v as i64 } else { (v - 0x1_0000_0000_0000_0000int) as i64 }
}

/// Reads a 64-bit word as a two's complement signed integer.
pub fn u64_to_i64(v: u64) -> (res: i64)
    ensures
        res == u64_to_i64_spec(v),
{
    if v <= i64::MAX as u64 {
        v as i64
    } else {
        let neg: u64 = u64::MAX - v;
        -(neg as i64) - 1
    }
}

/// The super-block whose little-endian encoding is the given bytes.
pub open spec fn super_block_of_bytes(b: Seq<u8>) -> SuperBlock {
    SuperBlock {
        time_stamp: u64_to_i64_spec(spec_u64_from_le_bytes(b.subrange(0, 8))),
        data_size: spec_u64_from_le_bytes(b.subrange(8, 16)),
        index_size: spec_u64_from_le_bytes(b.subrange(16, 24)),
        magic: [b[24], b[25], b[26]],
        version: b[27],
        total_blocks: spec_u64_from_le_bytes(b.subrange(28, 36)),
        rsvd_blocks: spec_u32_from_le_bytes(b.subrange(36, 40)),
        block_size: b[40],
        crc: b[41],
    }
}

/// Whether two super-blocks have the same fields.
pub open spec fn same_super_block(a: SuperBlock, b: SuperBlock) -> bool {
    &&& a.time_stamp == b.time_stamp
    &&& a.data_size == b.data_size
    &&& a.index_size == b.index_size
    &&& a.magic@ == b.magic@
    &&& a.version == b.version
    &&& a.total_blocks == b.total_blocks
    &&& a.rsvd_blocks == b.rsvd_blocks
    &&& a.block_size == b.block_size
    &&& a.crc == b.crc
}

/// The first check that the super-block fails, in the order magic number, checksum, index area size, block
/// size; `None` when it passes them all.
pub open spec fn first_failed_check(sb: SuperBlock) -> Option<SfsError> {
    if sb.magic@ != SFS_SIGNATURE@ {
        Some(SfsError::BadMagic(sb.magic))
    } else if sb.crc != checksum_spec(sb) {
        Some(SfsError::BadChecksum { expected: checksum_spec(sb), given: sb.crc })
    } else if sb.index_size % 64 != 0 {
        Some(SfsError::BadIndexAreaSize(sb.index_size))
    } else if sb.block_size == 0 {
        Some(SfsError::BadBlockSize(sb.block_size))
    } else {
        None
    }
}

/// Whether a super-block passes the checks of [`SuperBlock::parse_bytes`].
pub open spec fn super_block_valid(sb: SuperBlock) -> bool {
    &&& sb.magic@ == SFS_SIGNATURE@
    &&& sb.crc == checksum_spec(sb)
    &&& sb.index_size % 64 == 0
    &&& sb.block_size != 0
}

/// The checksum makes the checksummed bytes and the checksum itself sum to zero modulo 256.
pub proof fn lemma_checksum_completes_to_zero(sb: SuperBlock)
    ensures
        (checksummed_sum(sb) + checksum_spec(sb)) % 256 == 0,
{
    let s = checksummed_sum(sb);
    assert((s + (256 - s % 256) % 256) % 256 == 0) by (nonlinear_arith);
}

/// The areas follow each other on the device: a block never lies in an area that comes before the area of a
/// lower block.
pub proof fn lemma_block_areas_ordered(sb: SuperBlock, b1: u64, b2: u64)
    requires
        b1 <= b2,
        block_area_spec(sb, b2) is Some,
    ensures
        block_area_spec(sb, b1) is Some,
        area_rank(block_area_spec(sb, b1).unwrap()) <= area_rank(block_area_spec(sb, b2).unwrap()),
{
}

/// A block lies outside the volume exactly when it lies past every area boundary: the super-block, the end of
/// the Reserved Area, the end of the Data Area, the first block of the Index Area and the number of blocks.
pub proof fn lemma_block_area_none_boundary(sb: SuperBlock, b: u64)
    ensures
        block_area_spec(sb, b) is None <==> (b >= 1 && b >= sb.rsvd_blocks && b >= sb.rsvd_blocks + sb.data_size && b
            >= index_area_first_block_spec(sb) && b >= sb.total_blocks),
{
}

/// Whether the areas of a volume follow each other as they should: at least one block, and the Data Area ends no
/// later than the Index Area begins.
pub open spec fn layout_consistent(sb: SuperBlock) -> bool {
    &&& sb.total_blocks >= 1
    &&& sb.rsvd_blocks + sb.data_size <= index_area_first_block_spec(sb)
}

/// On a volume whose areas follow each other, a block belongs to some area exactly when it lies within the
/// volume's size in bytes.
pub proof fn lemma_block_area_within_volume(sb: SuperBlock, b: u64)
    requires
        sb.size_fits(),
        layout_consistent(sb),
    ensures
        block_area_spec(sb, b) is Some <==> (b + 1) * bytes_per_block_spec(sb.block_size) <= sb.total_blocks
            * bytes_per_block_spec(sb.block_size),
{
    let bpb = bytes_per_block_spec(sb.block_size) as int;
    assert(bpb > 0) by {
        vstd::arithmetic::power2::lemma_pow2_pos((sb.block_size + 7) as nat);
    }
    assert(index_area_first_block_spec(sb) <= sb.total_blocks) by {
        vstd::arithmetic::div_mod::lemma_div_pos_is_pos(sb.index_size as int, bpb);
    }
    assert((b + 1) * bpb <= sb.total_blocks * bpb <==> b < sb.total_blocks) by (nonlinear_arith)
        requires
            bpb > 0,
    ;
}

/// The Index Area is the last `index_size` bytes of the volume, and it starts no earlier than its first block.
pub proof fn lemma_index_area_start(sb: SuperBlock)
    requires
        sb.size_fits(),
        sb.index_size <= sb.total_blocks * bytes_per_block_spec(sb.block_size),
    ensures
        (sb.total_blocks * bytes_per_block_spec(sb.block_size) - sb.index_size) + sb.index_size == sb.total_blocks
            * bytes_per_block_spec(sb.block_size),
        index_area_first_block_spec(sb) * bytes_per_block_spec(sb.block_size) <= sb.total_blocks
            * bytes_per_block_spec(sb.block_size) - sb.index_size,
{
    let bpb = bytes_per_block_spec(sb.block_size) as int;
    assert(bpb > 0) by {
        vstd::arithmetic::power2::lemma_pow2_pos((sb.block_size + 7) as nat);
    }
    let n = sb.index_size as int;
    let q = n / bpb;
    let r = n % bpb;
    let t = sb.total_blocks as int;
    assert(n == bpb * q + r && 0 <= r < bpb) by {
        vstd::arithmetic::div_mod::lemma_fundamental_div_mod(n, bpb);
    }
    let ceil = q + (if r == 0 { 0int } else { 1int });
    assert(ceil * bpb >= n) by (nonlinear_arith)
        requires
            n == bpb * q + r,
            0 <= r < bpb,
            ceil == q + (if r == 0 { 0int } else { 1int }),
    ;
    assert((t - ceil) * bpb == t * bpb - ceil * bpb) by (nonlinear_arith);
}

} // verus!
