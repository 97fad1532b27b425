use radon_core::dev::Wrapper;
use radon_core::error::{Error, FsError};
use radon_core::fs::sfs::error::SfsError;
use radon_core::fs::sfs::super_block::{Area, SuperBlock};
use radon_core::fs::sfs::time_stamp::TimeStamp;

fn test_super_block() -> SuperBlock {
    SuperBlock {
        time_stamp: *TimeStamp::now().unwrap(),
        data_size: 5,
        index_size: 10 * 64,
        magic: *b"SFS",
        version: 0x10,
        total_blocks: 20,
        rsvd_blocks: 3,
        block_size: 1,
        crc: 0xEC,
    }
}

#[test]
fn super_block_values() {
    let sb = test_super_block();
    assert_eq!(sb.crc, sb.checksum_control());
    assert_eq!(sb.bytes_per_block(), 256);
    assert_eq!(sb.superblock_area_size(), 1);
    assert_eq!(sb.reserved_area_size(), 2);
    assert_eq!(sb.index_area_first_block(), 17);
}

#[test]
fn blocks_areas() {
    let sb = test_super_block();
    assert_eq!(sb.block_area(0).unwrap(), Area::SuperBlock);
    assert_eq!(sb.block_area(1).unwrap(), Area::Reserved);
    assert_eq!(sb.block_area(2).unwrap(), Area::Reserved);
    assert_eq!(sb.block_area(3).unwrap(), Area::Data);
    assert_eq!(sb.block_area(7).unwrap(), Area::Data);
    assert_eq!(sb.block_area(8).unwrap(), Area::Free);
    assert_eq!(sb.block_area(16).unwrap(), Area::Free);
    assert_eq!(sb.block_area(17).unwrap(), Area::Index);
    assert_eq!(sb.block_area(19).unwrap(), Area::Index);
    assert_eq!(sb.block_area(20), None);
}

/// The 42 bytes of a super-block.
fn encode(sb: &SuperBlock) -> Vec<u8> {
    let mut b = Vec::new();
    b.extend_from_slice(&sb.time_stamp.to_le_bytes());
    b.extend_from_slice(&sb.data_size.to_le_bytes());
    b.extend_from_slice(&sb.index_size.to_le_bytes());
    b.extend_from_slice(&sb.magic);
    b.push(sb.version);
    b.extend_from_slice(&sb.total_blocks.to_le_bytes());
    b.extend_from_slice(&sb.rsvd_blocks.to_le_bytes());
    b.push(sb.block_size);
    b.push(sb.crc);
    b
}

#[test]
fn super_block_parsing() {
    let sb = test_super_block();
    let bytes = encode(&sb);
    let parsed = SuperBlock::parse_bytes(&bytes).unwrap();
    assert_eq!(parsed.data_size, 5);
    assert_eq!(parsed.total_blocks, 20);
    assert_eq!(parsed.time_stamp, sb.time_stamp);

    let mut volume = vec![0u8; 20 * 256];
    volume[0x194..0x194 + 42].copy_from_slice(&bytes);
    let mut device = Wrapper::new(volume);
    let read = SuperBlock::parse(&mut device).unwrap();
    assert_eq!(read.index_size, 640);

    let mut short = Wrapper::new(vec![0u8; 100]);
    assert!(matches!(SuperBlock::parse(&mut short), Err(Error::IO(_))));
}

#[test]
fn super_block_errors() {
    let sb = test_super_block();

    let mut bad_magic = sb;
    bad_magic.magic = *b"SFX";
    assert_eq!(
        SuperBlock::parse_bytes(&encode(&bad_magic)).unwrap_err(),
        Error::Fs(FsError::Implementation(SfsError::BadMagic(*b"SFX")))
    );

    let mut bad_crc = sb;
    bad_crc.crc = 0;
    assert_eq!(
        SuperBlock::parse_bytes(&encode(&bad_crc)).unwrap_err(),
        Error::Fs(FsError::Implementation(SfsError::BadChecksum { expected: 0xEC, given: 0 }))
    );

    let mut bad_index = sb;
    bad_index.index_size = 65;
    bad_index.crc = bad_index.checksum_control();
    assert_eq!(
        SuperBlock::parse_bytes(&encode(&bad_index)).unwrap_err(),
        Error::Fs(FsError::Implementation(SfsError::BadIndexAreaSize(65)))
    );

    let mut bad_block = sb;
    bad_block.block_size = 0;
    bad_block.crc = bad_block.checksum_control();
    assert_eq!(
        SuperBlock::parse_bytes(&encode(&bad_block)).unwrap_err(),
        Error::Fs(FsError::Implementation(SfsError::BadBlockSize(0)))
    );
}

#[test]
fn checksum_completes_to_zero() {
    let sb = test_super_block();
    let bytes = encode(&sb);
    let sum: u32 = bytes[24..42].iter().map(|&b| b as u32).sum();
    assert_eq!(sum % 256, 0);
}

#[test]
fn data_area_and_sizes() {
    let sb = test_super_block();
    assert!(sb.is_block_in_data_area(3));
    assert!(sb.is_block_in_data_area(7));
    assert!(!sb.is_block_in_data_area(8));
    assert_eq!(sb.filesystem_size(), 20 * 256);
    assert_eq!(sb.index_area_starting_addr().index(), 20 * 256 - 640);
}

#[test]
fn areas_end_at_the_volume_size() {
    let sb = test_super_block();
    assert_eq!(sb.filesystem_size(), 5120);
    assert_eq!(sb.index_area_starting_addr().index(), 4480);
    assert_eq!(sb.index_area_starting_addr().index() + sb.index_size, sb.filesystem_size());
    assert!(sb.index_area_first_block() * 256 <= 4480);
    for b in 0..40u64 {
        assert_eq!(sb.block_area(b).is_some(), (b + 1) * 256 <= sb.filesystem_size());
    }
    assert_eq!(sb.block_area(19), Some(Area::Index));
    assert_eq!(sb.block_area(20), None);
}

#[test]
fn blocks_before_the_index_area_need_no_block_size() {
    let mut sb = test_super_block();
    sb.block_size = 200;
    assert_eq!(sb.block_area(0), Some(Area::SuperBlock));
    assert_eq!(sb.block_area(2), Some(Area::Reserved));
    assert_eq!(sb.block_area(5), Some(Area::Data));
    assert!(sb.is_block_in_data_area(7));
    assert!(!sb.is_block_in_data_area(8));
    assert!(!sb.is_block_in_data_area(u64::MAX));
}
