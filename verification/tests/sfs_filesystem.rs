use radon_core::dev::Wrapper;
use radon_core::error::{Error, FsError, IoError};
use radon_core::fs::file::{FileRead, Type, TypeWithFile};
use radon_core::fs::sfs::error::SfsError;
use radon_core::fs::sfs::filesystem::{Directory, Regular, Sfs};
use radon_core::fs::sfs::index_area::{DirectoryEntry, EntryType, EntryTypeWithEntry, FileEntry};
use radon_core::fs::sfs::index_scan::{find_all_entries, parse_full_path};
use radon_core::fs::sfs::super_block::SuperBlock;
use radon_core::fs::structures::block::SeekFrom;
use radon_core::fs::types::{Time, Timespec};

const VOLUME_IDENTIFIER: [u8; 64] = [
    0x01, 0, 0, 0, 5, 0, 0, 0, 0, 0, 0, 0, b'v', b'o', b'l', 0, 0, 0, 0, 0, 0, 0, 0, 0, 0, 0, 0, 0, 0, 0, 0, 0, 0, 0,
    0, 0, 0, 0, 0, 0, 0, 0, 0, 0, 0, 0, 0, 0, 0, 0, 0, 0, 0, 0, 0, 0, 0, 0, 0, 0, 0, 0, 0, 0,
];

/// A super-block of 20 blocks of 256 bytes, 3 of them before the data area of 10 blocks, with an index area of
/// 10 entries; its time stamp is one second.
fn volume_super_block() -> SuperBlock {
    let mut sb = SuperBlock {
        time_stamp: 0x1_0000,
        data_size: 10,
        index_size: 10 * 64,
        magic: *b"SFS",
        version: 0x10,
        total_blocks: 20,
        rsvd_blocks: 3,
        block_size: 1,
        crc: 0,
    };
    sb.crc = sb.checksum_control();
    sb
}

fn encode_super_block(sb: &SuperBlock) -> Vec<u8> {
    let mut b = Vec::new();
    b.extend_from_slice(&sb.time_stamp.to_le_bytes());
    b.extend_from_slice(&sb.data_size.to_le_bytes());
    b.extend_from_slice(&sb.index_size.to_le_bytes());
    b.extend_from_slice(&sb.magic);
    b.push(sb.version);
    b.extend_from_slice(&sb.total_blocks.to_le_bytes());
    b.extend_from_slice(&sb.rsvd_blocks.to_le_bytes());
    b.push(sb.block_size);
    b.push(sb.crc);
    b
}

fn directory_entry(path: &[u8]) -> [u8; 64] {
    let mut e = [0u8; 64];
    e[0] = 0x11;
    e[10..10 + path.len()].copy_from_slice(path);
    e
}

fn file_entry(path: &[u8], start: u64, end: u64, length: u64) -> [u8; 64] {
    let mut e = [0u8; 64];
    e[0] = 0x12;
    e[10..18].copy_from_slice(&start.to_le_bytes());
    e[18..26].copy_from_slice(&end.to_le_bytes());
    e[26..34].copy_from_slice(&length.to_le_bytes());
    e[34..34 + path.len()].copy_from_slice(path);
    e
}

/// The volume: entry 1 is the volume identifier, entry 2 the root directory `/`, entry 3 the directory `dir`,
/// entry 4 the file `dir/a.txt` (10 bytes in block 3), entry 5 the file `b` (300 bytes in blocks 4 and 5), and the
/// others are unused.
fn volume() -> Vec<u8> {
    let sb = volume_super_block();
    let mut bytes = vec![0u8; 20 * 256];
    bytes[0x194..0x194 + 42].copy_from_slice(&encode_super_block(&sb));
    let total = bytes.len();
    let entries = [
        VOLUME_IDENTIFIER,
        directory_entry(b"/"),
        directory_entry(b"dir"),
        file_entry(b"dir/a.txt", 3, 4, 10),
        file_entry(b"b", 4, 6, 300),
    ];
    for (i, e) in entries.iter().enumerate() {
        let start = total - 64 * (i + 1);
        bytes[start..start + 64].copy_from_slice(e);
    }
    for i in 5..10 {
        bytes[total - 64 * (i + 1)] = 0x10;
    }
    bytes[3 * 256..3 * 256 + 10].copy_from_slice(b"helloworld");
    for k in 0..300 {
        bytes[4 * 256 + k] = (k % 251) as u8;
    }
    bytes
}

fn open() -> Sfs<Wrapper<Vec<u8>>> {
    Sfs::new(Wrapper::new(volume()), 7).unwrap()
}

#[test]
fn opening_reads_the_super_block() {
    let fs = open();
    assert_eq!(fs.device_id(), 7);
    assert_eq!(fs.super_block().total_blocks, 20);
    assert_eq!(fs.super_block().bytes_per_block(), 256);
}

#[test]
fn opening_a_volume_without_signature_fails() {
    let mut bytes = volume();
    bytes[0x194 + 24] = b'X';
    let err = Sfs::new(Wrapper::new(bytes), 0).err().unwrap();
    assert_eq!(err, Error::Fs(FsError::Implementation(SfsError::BadMagic(*b"XFS"))));
}

#[test]
fn root_is_numbered_by_its_entry() {
    let mut fs = open();
    let root = fs.root().unwrap();
    assert_eq!(root.entry_number(), 2);
    assert_eq!(root.get_type(), Type::Directory);
    let again = fs.double_slash_root().unwrap();
    assert_eq!(again.entry_number(), 2);
}

#[test]
fn volume_without_root_has_no_root() {
    let mut bytes = volume();
    let total = bytes.len();
    bytes[total - 128..total - 64].copy_from_slice(&directory_entry(b"top"));
    let mut fs = Sfs::new(Wrapper::new(bytes), 0).unwrap();
    assert_eq!(fs.root().err().unwrap(), Error::Fs(FsError::Implementation(SfsError::NoRoot)));
}

#[test]
fn root_that_is_a_file_is_refused() {
    let mut bytes = volume();
    let total = bytes.len();
    bytes[total - 128..total - 64].copy_from_slice(&file_entry(b"/", 6, 7, 1));
    let mut fs = Sfs::new(Wrapper::new(bytes), 0).unwrap();
    assert_eq!(
        fs.root().err().unwrap(),
        Error::Fs(FsError::Implementation(SfsError::WrongEntryType {
            expected: EntryType::Directory,
            given: EntryType::File
        }))
    );
}

#[test]
fn directory_lists_the_entries_under_its_path() {
    let mut fs = open();
    let dir_entry = DirectoryEntry::parse(directory_entry(b"dir"), fs.super_block()).unwrap();
    let dir = Directory::new(&fs, 3, dir_entry).unwrap();
    let listing = dir.entries(&mut fs).unwrap();
    assert_eq!(listing.len(), 2);
    assert_eq!(listing[0].filename, b"dir".to_vec());
    assert!(matches!(&listing[0].file, TypeWithFile::Directory(d) if d.entry_number() == 3));
    assert_eq!(listing[1].filename, b"a.txt".to_vec());
    assert!(matches!(&listing[1].file, TypeWithFile::Regular(r) if r.entry_number() == 4 && r.io_offset() == 0));
}

#[test]
fn root_lists_the_entries_under_its_path() {
    let mut fs = open();
    let root = fs.root().unwrap();
    // The paths of the other entries do not start with `/`, so only the root itself is under `/`.
    let listing = root.entries(&mut fs).unwrap();
    assert_eq!(listing.len(), 1);
    assert_eq!(listing[0].filename, Vec::<u8>::new());
    assert!(matches!(&listing[0].file, TypeWithFile::Directory(d) if d.entry_number() == 2));
}

#[test]
fn directory_of_the_root_entry_lists_itself() {
    let mut fs = open();
    let root_entry = DirectoryEntry::parse(directory_entry(b"/"), fs.super_block()).unwrap();
    let dir = Directory::new(&fs, 2, root_entry).unwrap();
    let listing = dir.entries(&mut fs).unwrap();
    assert_eq!(listing.len(), 1);
    assert_eq!(listing[0].filename, Vec::<u8>::new());
}

#[test]
fn directory_without_path_cannot_list() {
    let mut fs = open();
    let dir_entry = DirectoryEntry::parse(directory_entry(b"dir"), fs.super_block()).unwrap();
    let dir = Directory::new(&fs, 1, dir_entry).unwrap();
    assert_eq!(
        dir.entries(&mut fs).err().unwrap(),
        Error::Fs(FsError::Implementation(SfsError::NameStringExpected(1)))
    );
}

#[test]
fn new_directory_checks_its_entry() {
    let fs = open();
    let mut bad = DirectoryEntry::parse(directory_entry(b"dir"), fs.super_block()).unwrap();
    bad.entry_type = 0x12;
    assert_eq!(
        Directory::new(&fs, 3, bad).err().unwrap(),
        Error::Fs(FsError::Implementation(SfsError::WrongEntryType {
            expected: EntryType::Directory,
            given: EntryType::File
        }))
    );
}

#[test]
fn regular_file_read_and_offset() {
    let mut fs = open();
    let entry = FileEntry::parse(file_entry(b"dir/a.txt", 3, 4, 10), fs.super_block()).unwrap();
    let mut file = Regular::new(&fs, 4, entry).unwrap();
    let mut buf = [0xAAu8; 16];
    assert_eq!(file.read(&mut fs, &mut buf).unwrap(), 10);
    assert_eq!(&buf[..10], b"helloworld");
    assert_eq!(&buf[10..], &[0xAA; 6]);
    assert_eq!(file.io_offset(), 10);
    // A second read starts again at the first data block, and moving the offset past the end fails.
    assert_eq!(file.read(&mut fs, &mut buf), Err(IoError::InvalidInput));
    assert_eq!(file.io_offset(), 20);
}

#[test]
fn regular_file_read_spans_blocks() {
    let mut fs = open();
    let entry = FileEntry::parse(file_entry(b"b", 4, 6, 300), fs.super_block()).unwrap();
    let mut file = Regular::new(&fs, 5, entry).unwrap();
    let mut buf = vec![0u8; 280];
    assert_eq!(file.read(&mut fs, &mut buf).unwrap(), 280);
    for (k, b) in buf.iter().enumerate() {
        assert_eq!(*b, (k % 251) as u8);
    }
    assert_eq!(file.seek(SeekFrom::Start(0)).unwrap(), 280);
    assert_eq!(file.io_offset(), 0);
}

#[test]
fn regular_file_with_bad_region_is_refused() {
    let fs = open();
    let mut entry = FileEntry::parse(file_entry(b"b", 4, 6, 300), fs.super_block()).unwrap();
    entry.data_ending_block = 7;
    assert!(matches!(
        Regular::new(&fs, 5, entry),
        Err(Error::Fs(FsError::Implementation(SfsError::BadDataRegion { .. })))
    ));
}

#[test]
fn file_status() {
    let fs = open();
    let entry = FileEntry::parse(file_entry(b"dir/a.txt", 3, 4, 10), fs.super_block()).unwrap();
    let file = Regular::new(&fs, 4, entry).unwrap();
    let stat = file.stat();
    assert_eq!(stat.dev.0, 7);
    assert_eq!(stat.ino.0, 4);
    assert_eq!(stat.mode.0, 0o777);
    assert_eq!(stat.nlink.0, 1);
    assert_eq!(stat.size.0, 10);
    assert_eq!(stat.blksize.0, 256);
    assert_eq!(stat.blkcnt.0, 20);
    assert_eq!(stat.mtim, Timespec { tv_sec: Time(1), tv_nsec: 0 });
    assert_eq!(stat.uid.0, 0);
    assert_eq!(stat.rdev.0, 0);
    assert_eq!(file.get_type(), Type::Regular);

    let dir_entry = DirectoryEntry::parse(directory_entry(b"dir"), fs.super_block()).unwrap();
    let dir = Directory::new(&fs, 3, dir_entry).unwrap();
    assert_eq!(dir.stat().size.0, 0);
    assert_eq!(dir.stat().ino.0, 3);
}

#[test]
fn scan_with_a_predicate_that_reads_paths() {
    let mut fs_bytes = Wrapper::new(volume());
    let sb = volume_super_block();
    let found = find_all_entries(&mut fs_bytes, &sb, |entry, idx, device| match entry {
        EntryTypeWithEntry::File(_) => Ok(parse_full_path(device, &sb, idx)?.is_some_and(|p| p.as_bytes()[0] == b'd')),
        _ => Ok(false),
    })
    .unwrap();
    let indexes: Vec<u64> = found.iter().map(|(_, i)| *i).collect();
    assert_eq!(indexes, vec![4]);
}

#[test]
fn directory_entry_by_name() {
    let mut fs = open();
    let dir_entry = DirectoryEntry::parse(directory_entry(b"dir"), fs.super_block()).unwrap();
    let dir = Directory::new(&fs, 3, dir_entry).unwrap();
    let found = dir.entry(&mut fs, b"a.txt").unwrap().unwrap();
    assert!(matches!(&found, TypeWithFile::Regular(r) if r.entry_number() == 4));
    assert!(dir.entry(&mut fs, b"zzz").unwrap().is_none());
    let copy = dir.clone();
    assert_eq!(copy.entry_number(), 3);
}

#[test]
fn index_of_a_sound_volume_passes_the_check() {
    let mut fs = open();
    assert_eq!(fs.check_index(), Ok(true));
    assert_eq!(fs.root().unwrap().entry_number(), 2);
}

#[test]
fn unusable_entry_with_an_uncomputable_region_fails_the_check() {
    let mut bytes = volume();
    let total = bytes.len();
    let slot = total - 64 * 6;
    bytes[slot] = 0x18;
    bytes[slot + 10..slot + 18].copy_from_slice(&10u64.to_le_bytes());
    bytes[slot + 18..slot + 26].copy_from_slice(&1u64.to_le_bytes());
    let mut fs = Sfs::new(Wrapper::new(bytes), 0).unwrap();
    assert_eq!(fs.check_index(), Ok(false));
}

#[test]
fn path_running_past_the_volume_fails_the_check() {
    let mut bytes = volume();
    let total = bytes.len();
    bytes[total - 64 * 3 + 1] = 100;
    let mut fs = Sfs::new(Wrapper::new(bytes), 0).unwrap();
    assert_eq!(fs.check_index(), Ok(false));
}
