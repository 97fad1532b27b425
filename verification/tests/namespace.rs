use radon_core::fs::file::Type;
use radon_core::namespace::client::bind_message;
use radon_core::namespace::path::{normalize_path, path_starts_with, strip_prefix};
use radon_core::namespace::protocol::{
    dir_entry_record, directory_listing, file_type_code, MountFlags, NsDirEntry, NAMESPACE_BIND_FAILED,
    NAMESPACE_FILE_TYPE_DIRECTORY, NAMESPACE_FILE_TYPE_REGULAR, NAMESPACE_FILE_TYPE_SYMLINK,
    NAMESPACE_FILE_TYPE_UNKNOWN, NAMESPACE_INVALID_ARGUMENT, NAMESPACE_RESOLVE_FAILED,
};
use radon_core::namespace::server::{Namespace, NamespaceError};

fn norm(p: &str) -> Option<Vec<u8>> {
    normalize_path(p.as_bytes())
}

#[test]
fn normal_forms() {
    assert_eq!(norm("/"), Some(b"/".to_vec()));
    assert_eq!(norm("/a/b/"), Some(b"/a/b".to_vec()));
    assert_eq!(norm("/a//b/./c"), Some(b"/a/b/c".to_vec()));
    assert_eq!(norm("/a/../b"), Some(b"/b".to_vec()));
    assert_eq!(norm("/../.."), Some(b"/".to_vec()));
    assert_eq!(norm("/a/b/../../.."), Some(b"/".to_vec()));
    assert_eq!(norm("a/b"), None);
    assert_eq!(norm(""), None);
    // Normalizing twice changes nothing.
    for p in ["/x/./y/../z//", "/", "/..", "/a/b/c"] {
        let once = norm(p).unwrap();
        assert_eq!(normalize_path(&once), Some(once.clone()));
    }
}

#[test]
fn prefixes() {
    assert!(path_starts_with(b"/dev/disk", b"/"));
    assert!(path_starts_with(b"/dev/disk", b"/dev"));
    assert!(path_starts_with(b"/dev", b"/dev"));
    assert!(!path_starts_with(b"/device", b"/dev"));
    assert!(!path_starts_with(b"/de", b"/dev"));
    assert_eq!(strip_prefix(b"/dev/disk", b"/dev"), b"/disk".to_vec());
    assert_eq!(strip_prefix(b"/dev", b"/dev"), b"/".to_vec());
    assert_eq!(strip_prefix(b"/dev/disk", b"/"), b"/dev/disk".to_vec());
    assert_eq!(strip_prefix(b"/other", b"/dev"), b"/other".to_vec());
}

#[test]
fn bind_resolve_unbind() {
    let mut ns = Namespace::new();
    assert_eq!(ns.bind(b"/", b"rootfs".to_vec(), MountFlags::readable()), Ok(()));
    assert_eq!(ns.bind(b"/dev/", b"devfs".to_vec(), MountFlags::from_bits_truncate(0b11)), Ok(()));
    assert_eq!(ns.bind(b"/dev", b"other".to_vec(), MountFlags::empty()), Err(NamespaceError::AlreadyExists));
    assert_eq!(ns.bind(b"dev", b"other".to_vec(), MountFlags::empty()), Err(NamespaceError::InvalidArgument));

    let (entry, rest) = ns.resolve(b"/dev/nvme0/../sda").unwrap();
    assert_eq!(entry.name, b"devfs".to_vec());
    assert_eq!(entry.path, b"/dev".to_vec());
    assert_eq!(entry.flags.bits(), 0b11);
    assert_eq!(rest, b"/sda".to_vec());

    let (entry, rest) = ns.resolve(b"/home/user").unwrap();
    assert_eq!(entry.name, b"rootfs".to_vec());
    assert_eq!(rest, b"/home/user".to_vec());

    let (entry, rest) = ns.resolve(b"/dev").unwrap();
    assert_eq!(entry.name, b"devfs".to_vec());
    assert_eq!(rest, b"/".to_vec());

    let removed = ns.unbind(b"/dev/./").unwrap();
    assert_eq!(removed.name, b"devfs".to_vec());
    assert_eq!(ns.unbind(b"/dev").unwrap_err(), NamespaceError::NotBound);
    assert_eq!(ns.unbind(b"x").unwrap_err(), NamespaceError::InvalidArgument);
    let (entry, _) = ns.resolve(b"/dev/sda").unwrap();
    assert_eq!(entry.name, b"rootfs".to_vec());

    let removed = ns.unbind(b"/").unwrap();
    assert_eq!(removed.name, b"rootfs".to_vec());
    assert_eq!(ns.resolve(b"/dev").unwrap_err(), NamespaceError::NotFound);
    assert_eq!(ns.resolve(b"dev").unwrap_err(), NamespaceError::InvalidArgument);
}

fn bind_request_bytes(flags: u32, path: &[u8], name: &[u8]) -> Vec<u8> {
    let mut v = Vec::new();
    v.extend_from_slice(&flags.to_le_bytes());
    v.extend_from_slice(&(path.len() as u32).to_le_bytes());
    v.extend_from_slice(path);
    v.extend_from_slice(name);
    v
}

#[test]
fn requests() {
    let mut ns = Namespace::new();
    assert_eq!(ns.bind_request(&[1, 2, 3]), Err(NAMESPACE_INVALID_ARGUMENT));
    assert_eq!(ns.bind_request(&bind_request_bytes(0xFF, b"/mnt", b"sfs")), Ok(()));
    assert_eq!(ns.bind_request(&bind_request_bytes(0xFF, b"/mnt", b"sfs")), Err(NAMESPACE_BIND_FAILED));
    assert_eq!(ns.bind_request(&bind_request_bytes(0, b"/x", &[0xff])), Err(NAMESPACE_INVALID_ARGUMENT));

    let (entry, rest) = ns.open_request(b"/mnt/a/b").unwrap();
    assert_eq!(entry.name, b"sfs".to_vec());
    assert_eq!(entry.flags.bits(), 0b1111);
    assert_eq!(rest, b"/a/b".to_vec());
    assert_eq!(ns.open_request(b"/etc").unwrap_err(), NAMESPACE_RESOLVE_FAILED);
    assert_eq!(ns.open_request(&[0xff]).unwrap_err(), NAMESPACE_INVALID_ARGUMENT);
}

#[test]
fn client_bind_message() {
    let msg = bind_message(b"/mnt", b"sfs", MountFlags::writable());
    let mut expected = Vec::new();
    expected.extend_from_slice(&2u32.to_le_bytes());
    expected.extend_from_slice(&4u64.to_le_bytes());
    expected.extend_from_slice(b"/mnt");
    expected.extend_from_slice(b"sfs");
    assert_eq!(msg, expected);
}

#[test]
fn mount_flags() {
    let all = MountFlags::readable().union(MountFlags::writable()).union(MountFlags::executable()).union(MountFlags::admin());
    assert_eq!(all.bits(), 0b1111);
    assert!(all.contains(MountFlags::admin()));
    assert!(!MountFlags::readable().contains(MountFlags::writable()));
    assert_eq!(MountFlags::from_bits_truncate(0xF0F3).bits(), 0b0011);
}

#[test]
fn directory_entries() {
    assert_eq!(file_type_code(Type::Directory), NAMESPACE_FILE_TYPE_DIRECTORY);
    assert_eq!(file_type_code(Type::Regular), NAMESPACE_FILE_TYPE_REGULAR);
    assert_eq!(file_type_code(Type::SymbolicLink), NAMESPACE_FILE_TYPE_SYMLINK);
    assert_eq!(file_type_code(Type::Fifo), NAMESPACE_FILE_TYPE_UNKNOWN);

    let rec = dir_entry_record(b"bin", Type::Directory);
    let mut expected = Vec::new();
    expected.extend_from_slice(&23u64.to_le_bytes());
    expected.extend_from_slice(&3u64.to_le_bytes());
    expected.extend_from_slice(&2i32.to_le_bytes());
    expected.extend_from_slice(b"bin");
    assert_eq!(rec, expected);

    let header = NsDirEntry { rec_len: 21, name_len: 1, file_type: 1, name: [0u8; 256] }.to_bytes();
    assert_eq!(header.len(), 20);

    let listing = directory_listing(&[(b"bin".to_vec(), Type::Directory), (b"a".to_vec(), Type::Regular)]);
    let mut both = expected.clone();
    both.extend_from_slice(&dir_entry_record(b"a", Type::Regular));
    assert_eq!(listing, both);
}
