use radon_core::namespace::protocol::{
    NAMESPACE_FILE_TYPE_DIRECTORY, NAMESPACE_FILE_TYPE_REGULAR, NAMESPACE_INTERNAL_ERROR, NAMESPACE_INVALID_ARGUMENT,
    NAMESPACE_UNKNOWN_OP,
};
use radon_core::namespace::root::{opened_file_type, regular_copy_size, root_open_path, round_to_pages, OpenedFile};

#[test]
fn only_open_requests_with_utf8_paths_are_served() {
    assert_eq!(root_open_path(false, b"/bin/init"), Err(NAMESPACE_UNKNOWN_OP));
    assert_eq!(root_open_path(true, &[0x2f, 0xff, 0xfe]), Err(NAMESPACE_INVALID_ARGUMENT));
    assert_eq!(root_open_path(true, b"/bin/init"), Ok(b"/bin/init".to_vec()));
    assert_eq!(root_open_path(true, "/é".as_bytes()), Ok("/é".as_bytes().to_vec()));
}

#[test]
fn copy_buffers_are_whole_pages() {
    assert_eq!(regular_copy_size(0), 4096);
    assert_eq!(regular_copy_size(1), 4096);
    assert_eq!(regular_copy_size(4096), 4096);
    assert_eq!(regular_copy_size(4097), 8192);
    assert_eq!(round_to_pages(0), 0);
    assert_eq!(round_to_pages(20), 4096);
    assert_eq!(round_to_pages(12288), 12288);
}

#[test]
fn opened_files_report_their_type() {
    assert_eq!(opened_file_type(OpenedFile::Regular { size: 10 }), Ok(NAMESPACE_FILE_TYPE_REGULAR));
    assert_eq!(opened_file_type(OpenedFile::Directory), Ok(NAMESPACE_FILE_TYPE_DIRECTORY));
    assert_eq!(opened_file_type(OpenedFile::Other), Err(NAMESPACE_INTERNAL_ERROR));
}
