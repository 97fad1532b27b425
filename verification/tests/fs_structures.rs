use radon_core::dev::address::Address;
use radon_core::dev::Wrapper;
use radon_core::error::IoError;
use radon_core::fs::file::{Type, TypeWithFile};
use radon_core::fs::structures::bitmap::Bitmap;
use radon_core::fs::structures::block::{seek_in_file, BlockWrapper, SeekFrom};

#[test]
fn bitmap_counts() {
    let mut bytes = vec![0u8; 32];
    bytes[8..12].copy_from_slice(&[0b0000_0000, 0b1010_0000, 0b1111_1111, 0b0000_0001]);
    let mut device = Wrapper::new(bytes);
    let bitmap = Bitmap::new(&mut device, Address::new(8), 4).unwrap();
    assert_eq!(bitmap.length(), 4);
    assert_eq!(bitmap.starting_address(), Address::new(8));
    assert_eq!(bitmap.as_slice(), &[0, 0xA0, 0xFF, 0x01]);

    assert_eq!(bitmap.find_n_set_bits(1), vec![(1, 0xA0)]);
    assert_eq!(bitmap.find_n_set_bits(3), vec![(1, 0xA0), (2, 0xFF)]);
    assert_eq!(bitmap.find_n_set_bits(100), vec![(1, 0xA0), (2, 0xFF), (3, 0x01)]);
    assert_eq!(bitmap.find_n_set_bits(0), vec![(1, 0xA0)]);
    assert_eq!(bitmap.find_n_unset_bits(10), vec![(0, 0x00), (1, 0xA0)]);
    assert_eq!(bitmap.find_n_unset_bits(8), vec![(0, 0x00)]);
}

#[test]
fn bitmap_write_back() {
    let mut device = Wrapper::new(vec![0u8; 16]);
    let mut bitmap = Bitmap::new(&mut device, Address::new(4), 2).unwrap();
    bitmap.set(1, 0x5A);
    bitmap.write_back(&mut device).unwrap();
    assert_eq!(device.as_bytes()[5], 0x5A);
    let again = Bitmap::new(&mut device, Address::new(4), 2).unwrap();
    assert_eq!(again.as_slice(), &[0, 0x5A]);
    assert!(Bitmap::new(&mut device, Address::new(15), 2).is_err());
}

#[test]
fn block_read_write_seek() {
    let mut device = Wrapper::new((0..64u8).collect::<Vec<u8>>());
    let mut block = BlockWrapper::new_wrapper(2, 16);
    let mut buf = [0u8; 4];
    assert_eq!(block.read(&mut device, &mut buf), Ok(4));
    assert_eq!(buf, [32, 33, 34, 35]);
    assert_eq!(block.io_offset(), 4);

    assert_eq!(block.write(&mut device, &[1; 20]), Ok(12));
    assert_eq!(block.io_offset(), 16);
    assert_eq!(&device.as_bytes()[36..48], &[1; 12]);
    assert_eq!(device.as_bytes()[48], 48);

    assert_eq!(block.seek(SeekFrom::Start(3)), Ok(16));
    assert_eq!(block.io_offset(), 3);
    assert_eq!(block.seek(SeekFrom::End(-1)), Ok(3));
    assert_eq!(block.io_offset(), 15);
    assert_eq!(block.seek(SeekFrom::Current(-20)), Err(IoError::InvalidInput));
    assert_eq!(block.io_offset(), 15);
    assert_eq!(block.seek(SeekFrom::End(0)), Err(IoError::InvalidInput));
    assert_eq!(block.io_offset(), 16);
    assert_eq!(block.number(), 2);
    assert_eq!(block.size(), 16);
}

#[test]
fn file_seek_rules() {
    let mut offset = 10u64;
    assert_eq!(seek_in_file(&mut offset, 100, SeekFrom::Current(5)), Ok(10));
    assert_eq!(offset, 15);
    assert_eq!(seek_in_file(&mut offset, 100, SeekFrom::End(0)), Ok(15));
    assert_eq!(offset, 100);
    assert_eq!(seek_in_file(&mut offset, 100, SeekFrom::End(1)), Err(IoError::InvalidInput));
    assert_eq!(offset, 101);
    assert_eq!(seek_in_file(&mut offset, 100, SeekFrom::End(-200)), Err(IoError::InvalidInput));
    assert_eq!(offset, 101);
    assert_eq!(seek_in_file(&mut offset, 100, SeekFrom::Start(0)), Ok(101));
    assert_eq!(offset, 0);
}

struct NoDir;
struct NoFile;

impl radon_core::fs::file::Base for NoDir {
    type FsError = ();
}
impl radon_core::fs::file::Base for NoFile {
    type FsError = ();
}
impl radon_core::fs::file::FileRead for NoFile {
    fn stat(&self) -> radon_core::fs::file::Stat {
        unreachable!()
    }
    fn get_type(&self) -> Type {
        Type::Regular
    }
}
impl radon_core::fs::file::RegularRead for NoFile {}
impl radon_core::fs::file::SymbolicLinkRead for NoFile {}
impl radon_core::fs::file::FifoRead for NoFile {}
impl radon_core::fs::file::CharacterDeviceRead for NoFile {}
impl radon_core::fs::file::BlockDeviceRead for NoFile {}
impl radon_core::fs::file::SocketRead for NoFile {}
impl radon_core::fs::file::DirectoryRead for NoDir {
    type Regular = NoFile;
    type SymbolicLink = NoFile;
    type Fifo = NoFile;
    type CharacterDevice = NoFile;
    type BlockDevice = NoFile;
    type Socket = NoFile;
}

#[test]
fn type_with_file_predicates() {
    let f: TypeWithFile<NoDir> = TypeWithFile::Regular(NoFile);
    assert!(f.is_regular());
    assert!(!f.is_directory());
    assert_eq!(f.file_type(), Type::Regular);
    let d: TypeWithFile<NoDir> = TypeWithFile::Directory(NoDir);
    assert!(d.is_directory());
    assert!(!d.is_symlink() && !d.is_fifo() && !d.is_character_device() && !d.is_block_device() && !d.is_socket());
    assert_eq!(Type::from(d), Type::Directory);
    let s: TypeWithFile<NoDir> = TypeWithFile::Socket(NoFile);
    assert!(s.is_socket());
}

#[test]
fn bitmap_search_with_a_count_of_its_own() {
    let mut bytes = vec![0u8; 8];
    bytes[0..5].copy_from_slice(&[3, 0, 7, 1, 9]);
    let mut device = Wrapper::new(bytes);
    let bitmap = Bitmap::new(&mut device, Address::new(0), 5).unwrap();
    assert_eq!(bitmap.find_to_count(10, |b| *b as usize), vec![(0, 3), (2, 7)]);
    assert_eq!(bitmap.find_to_count(11, |b| *b as usize), vec![(0, 3), (2, 7), (3, 1)]);
    assert_eq!(bitmap.find_to_count(100, |b| *b as usize), vec![(0, 3), (2, 7), (3, 1), (4, 9)]);
    assert_eq!(bitmap.find_to_count(2, |b| usize::from(*b > 5)), vec![(2, 7), (4, 9)]);
}
