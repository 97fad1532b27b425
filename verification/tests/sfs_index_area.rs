use radon_core::dev::address::Address;
use radon_core::dev::Wrapper;
use radon_core::error::{Error, FsError};
use radon_core::fs::sfs::error::SfsError;
use radon_core::fs::sfs::index_area::{
    ContinuationEntry, DeletedDirectoryEntry, DeletedFileEntry, DirectoryEntry, EntryType, EntryTypeWithEntry,
    FileEntry, StartingMarkerEntry, UnusableEntry, UnusedEntry, VolumeIdentifierEntry,
};
use radon_core::fs::sfs::index_scan::{find_all_entries, find_entry, parse_entries_until, parse_full_path};
use radon_core::fs::sfs::name_string::NameString;
use radon_core::fs::sfs::super_block::SuperBlock;
use radon_core::fs::sfs::time_stamp::TimeStamp;
use std::str::FromStr;

fn test_super_block() -> SuperBlock {
    SuperBlock {
        time_stamp: *TimeStamp::now().unwrap(),
        data_size: 10,
        index_size: 10 * 64,
        magic: *b"SFS",
        version: 0x10,
        total_blocks: 20,
        rsvd_blocks: 3,
        block_size: 1,
        crc: 0xEC,
    }
}

const TEST_VOLUME_IDENTIFIER_ENTRY: [u8; 64] = [
    0x01, 0, 0, 0, 5, 0, 0, 0, 0, 0, 0, 0, b'f', b'o', b'o', 0, 0, 0, 0, 0, 0, 0, 0, 0, 0, 0, 0, 0, 0, 0, 0, 0, 0, 0,
    0, 0, 0, 0, 0, 0, 0, 0, 0, 0, 0, 0, 0, 0, 0, 0, 0, 0, 0x19, 0, 0, 0, 0, 0, 0, 0, 0, 0, 0, 0,
];

const TEST_STARTING_MARKER_ENTRY: [u8; 64] = [
    0x02, 1, 2, 3, 4, 0, 0, 0, 0, 0, 0, 5, 1, 44, 51, 0, 0, 0, 0, 0, 0, 0, 0, 0, 0, 0, 0, 0, 0, 0, 0, 0, 0, 0, 0, 0,
    0, 0, 0, 5, 6, 7, 8, 0, 0, 0, 0, 0, 0, 0, 0, 0, 123, 0, 0, 0, 0, 0, 0, 0, 0, 0, 0, 0,
];

const TEST_UNUSED_ENTRY: [u8; 64] = [
    0x10, 1, 2, 3, 4, 0, 0, 0, 0, 0, 0, 5, 1, 44, 51, 0, 0, 0, 0, 0, 0, 0, 0, 0, 0, 0, 0, 0, 0, 0, 0, 0, 0, 0, 0, 0,
    0, 0, 0, 5, 6, 7, 8, 0, 0, 0, 0, 0, 0, 0, 0, 0, 123, 0, 0, 0, 0, 0, 0, 0, 0, 0, 0, 0,
];

const TEST_DIRECTORY_ENTRY: [u8; 64] = [
    0x11, 1, 5, 0, 0, 0, 0, 0, 0, 0, b'f', b'o', b'o', 0, 0, 0, 0, 0, 0, 0, 0, 0, 0, 0, 0, 0, 0, 0, 0, 0, 0, 0, 0, 0,
    0, 0, 0, 0, 0, 0, 0, 0, 0, 0, 0, 0, 0, 0, 0, 0, 0, 0, 0, 0, 0, 0, 0, 0, 0, 0, 0, 0, 0, 0,
];

const TEST_FILE_ENTRY: [u8; 64] = [
    0x12, 1, 5, 0, 0, 0, 0, 0, 0, 0, 6, 0, 0, 0, 0, 0, 0, 0, 9, 0, 0, 0, 0, 0, 0, 0, 88, 2, 0, 0, 0, 0, 0, 0, b'f',
    b'o', b'o', b'/', b'b', b'a', b'r', b'.', b't', b'x', b't', 0, 0, 0, 0, 0, 0, 0, 0, 0, 0, 0, 0, 0, 0, 0, 0, 0, 0,
    0,
];

const TEST_UNUSABLE_ENTRY: [u8; 64] = [
    0x18, 1, 2, 3, 4, 5, 6, 7, 8, 9, 7, 0, 0, 0, 0, 0, 0, 0, 7, 0, 0, 0, 0, 0, 0, 0, 0, 0, 0, 0, 0, 0, 0, 0, 0, 0, 0,
    0, 0, 0, 0, 0, 0, 0, 0, 0, 0, 0, 0, 0, 0, 0, 0, 0, 0, 0, 0, 0, 0, 0, 0, 0, 0, 0,
];

const TEST_DELETED_DIRECTORY_ENTRY: [u8; 64] = [
    0x19, 1, 5, 0, 0, 0, 0, 0, 0, 0, b'f', b'o', b'o', 0, 0, 0, 0, 0, 0, 0, 0, 0, 0, 0, 0, 0, 0, 0, 0, 0, 0, 0, 0, 0,
    0, 0, 0, 0, 0, 0, 0, 0, 0, 0, 0, 0, 0, 0, 0, 0, 0, 0, 0, 0, 0, 0, 0, 0, 0, 0, 0, 0, 0, 0,
];

const TEST_DELETED_FILE_ENTRY: [u8; 64] = [
    0x1A, 1, 5, 0, 0, 0, 0, 0, 0, 0, 6, 0, 0, 0, 0, 0, 0, 0, 9, 0, 0, 0, 0, 0, 0, 0, 88, 2, 0, 0, 0, 0, 0, 0, b'f',
    b'o', b'o', b'/', b'b', b'a', b'r', b'.', b't', b'x', b't', 0, 0, 0, 0, 0, 0, 0, 0, 0, 0, 0, 0, 0, 0, 0, 0, 0, 0,
    0,
];

const TEST_CONTINUATION_ENTRY: [u8; 64] = [
    b'f', b'o', b'o', b'/', b'b', b'a', b'r', b'.', b't', b'x', b't', 0, 0, 0, 0, 0, 0, 0, 0, 0, 0, 0, 0, 0, 0, 0, 0,
    0, 0, 0, 0, 0, 0, 0, 0, 0, 0, 0, 0, 0, 0, 0, 0, 0, 0, 0, 0, 0, 0, 0, 0, 0, 0, 0, 0, 0, 0, 0, 0, 0, 0, 0, 0, 0,
];

#[test]
fn parse_volume_identifier_entry() {
    let sb = test_super_block();
    let entry = VolumeIdentifierEntry::parse(TEST_VOLUME_IDENTIFIER_ENTRY, &sb)
        .expect("Could not parse the test volume identifier entry");
    assert_eq!(EntryType::from(entry.entry_type), EntryType::VolumeIdentifier);
    assert_eq!(entry.parse_format_time(), TimeStamp::from(5));
    assert_eq!(entry.parse_volume_name().unwrap(), NameString::from_str("foo").unwrap());
}

#[test]
fn parse_starting_marker_entry() {
    let sb = test_super_block();
    let entry = StartingMarkerEntry::parse(TEST_STARTING_MARKER_ENTRY, &sb)
        .expect("Could not parse the test starting marker entry");
    assert_eq!(EntryType::from(entry.entry_type), EntryType::StartingMarker);
}

#[test]
fn parse_unused_entry() {
    let sb = test_super_block();
    let entry = UnusedEntry::parse(TEST_UNUSED_ENTRY, &sb).expect("Could not parse the test unused entry");
    assert_eq!(EntryType::from(entry.entry_type), EntryType::Unused);
}

#[test]
fn parse_directory_entry() {
    let sb = test_super_block();
    let entry = DirectoryEntry::parse(TEST_DIRECTORY_ENTRY, &sb).expect("Could not parse the test directory entry");
    assert_eq!(EntryType::from(entry.entry_type), EntryType::Directory);
    assert_eq!(entry.parse_last_modification_time(), TimeStamp::from(5));
    assert_eq!(entry.parse_path().unwrap(), NameString::from_str("foo").unwrap());
}

#[test]
fn parse_file_entry() {
    let sb = test_super_block();
    let entry = FileEntry::parse(TEST_FILE_ENTRY, &sb).expect("Could not parse the test file entry");
    assert_eq!(EntryType::from(entry.entry_type), EntryType::File);
    assert_eq!(entry.parse_last_modification_time(), TimeStamp::from(5));
    assert_eq!(entry.parse_path().unwrap(), NameString::from_str("foo/bar.txt").unwrap());

    let data_starting_block = entry.data_starting_block;
    let data_ending_block = entry.data_ending_block;
    let length = entry.length;
    assert_eq!(data_starting_block, 6);
    assert_eq!(data_ending_block, 9);
    assert_eq!(length, 600);
}

#[test]
fn parse_unusable_entry() {
    let sb = test_super_block();
    let entry = UnusableEntry::parse(TEST_UNUSABLE_ENTRY, &sb).expect("Could not parse the test unusable entry");
    assert_eq!(EntryType::from(entry.entry_type), EntryType::Unusable);

    let data_starting_block = entry.data_starting_block;
    let data_ending_block = entry.data_ending_block;
    assert_eq!(data_starting_block, 7);
    assert_eq!(data_ending_block, 7);
}

#[test]
fn parse_deleted_directory_entry() {
    let sb = test_super_block();
    let entry = DeletedDirectoryEntry::parse(TEST_DELETED_DIRECTORY_ENTRY, &sb)
        .expect("Could not parse the test deleted directory entry");
    assert_eq!(EntryType::from(entry.entry_type), EntryType::DeletedDirectory);
    assert_eq!(entry.parse_last_modification_time(), TimeStamp::from(5));
    assert_eq!(entry.parse_path().unwrap(), NameString::from_str("foo").unwrap());
}

#[test]
fn parse_deleted_file_entry() {
    let sb = test_super_block();
    let entry = DeletedFileEntry::parse(TEST_DELETED_FILE_ENTRY, &sb)
        .expect("Could not parse the test deleted file entry");
    assert_eq!(EntryType::from(entry.entry_type), EntryType::DeletedFile);
    assert_eq!(entry.parse_last_modification_time(), TimeStamp::from(5));
    assert_eq!(entry.parse_path().unwrap(), NameString::from_str("foo/bar.txt").unwrap());

    let data_starting_block = entry.data_starting_block;
    let data_ending_block = entry.data_ending_block;
    let length = entry.length;
    assert_eq!(data_starting_block, 6);
    assert_eq!(data_ending_block, 9);
    assert_eq!(length, 600);
}

#[test]
fn parse_continuation_entry() {
    let sb = test_super_block();
    let entry =
        ContinuationEntry::parse(TEST_CONTINUATION_ENTRY, &sb).expect("Could not parse the test continuation entry");
    assert_eq!(EntryType::from(entry.entry_name()[0]), EntryType::Continuation(entry.entry_name()[0]));
    assert_eq!(entry.parse_entry_name().unwrap(), NameString::from_str("foo/bar.txt").unwrap());
}

#[test]
fn parse_entries() {
    let sb = test_super_block();
    assert_eq!(
        EntryTypeWithEntry::parse_bytes(TEST_VOLUME_IDENTIFIER_ENTRY, &sb).unwrap().variant(),
        EntryType::VolumeIdentifier
    );
    assert_eq!(
        EntryTypeWithEntry::parse_bytes(TEST_STARTING_MARKER_ENTRY, &sb).unwrap().variant(),
        EntryType::StartingMarker
    );
    assert_eq!(EntryTypeWithEntry::parse_bytes(TEST_UNUSED_ENTRY, &sb).unwrap().variant(), EntryType::Unused);
    assert_eq!(EntryTypeWithEntry::parse_bytes(TEST_DIRECTORY_ENTRY, &sb).unwrap().variant(), EntryType::Directory);
    assert_eq!(EntryTypeWithEntry::parse_bytes(TEST_FILE_ENTRY, &sb).unwrap().variant(), EntryType::File);
    assert_eq!(EntryTypeWithEntry::parse_bytes(TEST_UNUSABLE_ENTRY, &sb).unwrap().variant(), EntryType::Unusable);
    assert_eq!(
        EntryTypeWithEntry::parse_bytes(TEST_DELETED_DIRECTORY_ENTRY, &sb).unwrap().variant(),
        EntryType::DeletedDirectory
    );
    assert_eq!(
        EntryTypeWithEntry::parse_bytes(TEST_DELETED_FILE_ENTRY, &sb).unwrap().variant(),
        EntryType::DeletedFile
    );
    assert_eq!(
        EntryTypeWithEntry::parse_bytes(TEST_CONTINUATION_ENTRY, &sb).unwrap().variant(),
        EntryType::Continuation(TEST_CONTINUATION_ENTRY[0])
    );
}

#[test]
fn entry_type_byte_roundtrip_on_all_bytes() {
    for b in 0u8..=255 {
        let t = EntryType::from(b);
        let back = u8::from(t);
        if t == EntryType::Unused {
            assert_eq!(back, 0x10);
        } else {
            assert_eq!(back, b);
        }
    }
}

#[test]
fn wrong_entry_type_is_reported() {
    let sb = test_super_block();
    let err = DirectoryEntry::parse(TEST_FILE_ENTRY, &sb).unwrap_err();
    assert_eq!(
        err,
        Error::Fs(FsError::Implementation(SfsError::WrongEntryType {
            expected: EntryType::Directory,
            given: EntryType::File
        }))
    );
}

#[test]
fn file_entry_with_bad_region_is_refused() {
    let sb = test_super_block();
    let mut bytes = TEST_FILE_ENTRY;
    // 600 bytes need 3 blocks of 256 bytes; announce 4.
    bytes[18] = 10;
    assert!(FileEntry::parse(bytes, &sb).is_err());
}

/// A volume of 20 blocks of 256 bytes whose index area holds, from the end of the volume on: a volume
/// identifier, a file entry with one continuation entry, a directory entry without continuation, and unused
/// entries.
fn test_volume() -> Vec<u8> {
    let mut bytes = vec![0u8; 20 * 256];
    let total = bytes.len();
    bytes[total - 64..total].copy_from_slice(&TEST_VOLUME_IDENTIFIER_ENTRY);
    let mut file = TEST_FILE_ENTRY;
    file[1] = 1;
    bytes[total - 128..total - 64].copy_from_slice(&file);
    let mut continuation = [0u8; 64];
    continuation[..4].copy_from_slice(b"/baz");
    bytes[total - 192..total - 128].copy_from_slice(&continuation);
    let mut directory = TEST_DIRECTORY_ENTRY;
    directory[1] = 0;
    bytes[total - 256..total - 192].copy_from_slice(&directory);
    for i in 4..10 {
        let start = total - 64 * (i + 1);
        bytes[start] = 0x10;
    }
    bytes
}

#[test]
fn entry_parsed_from_device() {
    let sb = test_super_block();
    let mut device = Wrapper::new(test_volume());
    let entry = EntryTypeWithEntry::parse(&mut device, &sb, 1).unwrap();
    assert_eq!(entry.variant(), EntryType::VolumeIdentifier);
    let entry = EntryTypeWithEntry::parse(&mut device, &sb, 4).unwrap();
    assert_eq!(entry.variant(), EntryType::Directory);
    assert_eq!(EntryTypeWithEntry::starting_addr(&sb, 2), Address::new(20 * 256 - 128));
}

#[test]
fn full_path_joins_continuations() {
    let sb = test_super_block();
    let mut device = Wrapper::new(test_volume());
    let path = parse_full_path(&mut device, &sb, 2).unwrap().unwrap();
    assert_eq!(path, NameString::from_str("foo/bar.txt/baz").unwrap());
    let path = parse_full_path(&mut device, &sb, 4).unwrap().unwrap();
    assert_eq!(path, NameString::from_str("foo").unwrap());
    assert!(parse_full_path(&mut device, &sb, 1).unwrap().is_none());
}

#[test]
fn full_path_wrong_continuation() {
    let sb = test_super_block();
    let mut bytes = test_volume();
    let total = bytes.len();
    // The directory entry announces a continuation, but entry 5 is an unused entry.
    bytes[total - 256 + 1] = 1;
    let mut device = Wrapper::new(bytes);
    let err = parse_full_path(&mut device, &sb, 4).unwrap_err();
    assert_eq!(
        err,
        Error::Fs(FsError::Implementation(SfsError::WrongEntryType {
            expected: EntryType::Continuation(0x20),
            given: EntryType::Unused
        }))
    );
}

#[test]
fn scanning_the_index_area() {
    let sb = test_super_block();
    let mut device = Wrapper::new(test_volume());
    let until = parse_entries_until(&mut device, &sb, |entry, _idx| Ok(entry.variant() == EntryType::Directory)).unwrap();
    assert_eq!(until.len(), 4);
    let found = find_entry(&mut device, &sb, |entry, _idx, _dev| Ok(entry.variant() == EntryType::File)).unwrap();
    let (entry, idx) = found.unwrap();
    assert_eq!(entry.variant(), EntryType::File);
    assert_eq!(idx, 2);
    let unused = find_all_entries(&mut device, &sb, |entry, _idx, _dev| Ok(entry.variant() == EntryType::Unused)).unwrap();
    let indexes: Vec<u64> = unused.iter().map(|(_, i)| *i).collect();
    assert_eq!(indexes, vec![5, 6, 7, 8, 9, 10]);
    let none = find_entry(&mut device, &sb, |entry, _idx, _dev| Ok(entry.variant() == EntryType::Unusable)).unwrap();
    assert!(none.is_none());
}

#[test]
fn empty_file_without_data_blocks_is_accepted() {
    let sb = test_super_block();
    let mut bytes = TEST_FILE_ENTRY;
    bytes[10..34].fill(0);
    let entry = FileEntry::parse(bytes, &sb).expect("an empty file uses no block of the Data Area");
    assert_eq!(entry.length, 0);
    assert!(entry.is_data_region_valid(&sb));
    // An empty file that claims a block is refused.
    bytes[10] = 3;
    bytes[18] = 3;
    assert!(FileEntry::parse(bytes, &sb).is_err());
}

#[test]
fn empty_file_needs_no_block_size() {
    let mut sb = test_super_block();
    sb.block_size = 255;
    let mut bytes = TEST_FILE_ENTRY;
    bytes[10..34].fill(0);
    let entry = FileEntry::parse(bytes, &sb).expect("an empty file uses no block of the Data Area");
    assert!(entry.is_data_region_valid(&sb));
    let deleted = DeletedFileEntry::from(entry);
    assert!(deleted.is_data_region_valid(&sb));
    assert_eq!(FileEntry::from(deleted).length, 0);
}
