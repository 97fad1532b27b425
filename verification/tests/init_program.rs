use radon_core::init::program::{LoadedProgram, LoaderError, ProgramLoader, SegmentPlacement, PIE_BASE_ADDRESS};

#[test]
fn base_addresses() {
    assert_eq!(ProgramLoader::base_address(true), PIE_BASE_ADDRESS);
    assert_eq!(ProgramLoader::base_address(false), 0);
}

#[test]
fn segment_placement() {
    let p = ProgramLoader::place_segment(PIE_BASE_ADDRESS, 0x1234, 0x100);
    assert_eq!(p, SegmentPlacement { aligned_vaddr: PIE_BASE_ADDRESS + 0x1000, offset: 0x234, size: 0x1000 });
    let p = ProgramLoader::place_segment(0, 0x1f00, 0x200);
    assert_eq!(p, SegmentPlacement { aligned_vaddr: 0x1000, offset: 0xf00, size: 0x2000 });
    let p = ProgramLoader::place_segment(0, 0x2000, 0);
    assert_eq!(p.size, 0);
}

#[test]
fn loaded_program() {
    assert_eq!(ProgramLoader::stack_bottom(0x8000_0000, 0x10000), 0x7fff_0000);
    assert_eq!(
        ProgramLoader::loaded(PIE_BASE_ADDRESS, 0x1040, 0x8000_0000),
        LoadedProgram { entry: PIE_BASE_ADDRESS + 0x1040, stack_top: 0x8000_0000 }
    );
    assert_ne!(LoaderError::OutOfMemory, LoaderError::InvalidProgram);
}
