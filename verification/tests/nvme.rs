use radon_core::nvme::command::{CompletionEntry, SubmissionEntry};
use radon_core::nvme::namespace::{admin_queue_depth, NamespaceInfo};
use radon_core::nvme::prp::{NvmeError, PrpBuilder, PrpMode};
use radon_core::nvme::queue::{CommandIdAllocator, CompletionQueue, QueuePair, SubmissionQueue};
use radon_core::nvme::regs::NvmeRegs;
use radon_core::nvme::{aqa, cap, cc, csts};

#[test]
fn register_fields() {
    // MQES 63 (64 entries), DSTRD 2, MPSMIN 0, MPSMAX 4, TO 20 (10 s).
    let cap_value: u64 = 63 | (20 << 24) | (2 << 32) | (4 << 52);
    assert_eq!(cap::mqes(cap_value), 64);
    assert_eq!(cap::dstrd(cap_value), 2);
    assert_eq!(cap::mpsmin(cap_value), 4096);
    assert_eq!(cap::mpsmax(cap_value), 65536);
    assert_eq!(cap::timeout_ms(cap_value), 10_000);
    assert_eq!(cc::build(true, 0, 6, 4), 1 | (6 << 16) | (4 << 20));
    assert_eq!(aqa::build(64, 64), 63 | (63 << 16));
    assert!(csts::is_ready(1));
    assert!(csts::is_fatal(2));
    assert!(csts::shutdown_complete(0b1000));
    assert!(!csts::shutdown_complete(0b0100));
}

#[test]
fn prp_descriptions() {
    let single = PrpBuilder::from_phys(0x1000, 512);
    assert_eq!(single.mode(), PrpMode::Single);
    assert_eq!(single.prp1(), 0x1000);
    assert_eq!(single.prp2(), 0);

    let double = PrpBuilder::from_phys(0x1800, 4096);
    assert_eq!(double.mode(), PrpMode::Double);
    assert_eq!(double.prp2(), 0x2000);

    let list = PrpBuilder::from_phys(0x1000, 3 * 4096);
    assert_eq!(list.mode(), PrpMode::List);
    assert_eq!(list.list_entries(), &[0x2000, 0x3000]);

    let empty = PrpBuilder::from_phys(0x1000, 0);
    assert_eq!(empty.prp1(), 0);

    let segments = PrpBuilder::from_segments(&[(0x1000, 4096), (0x8000, 100)]).unwrap();
    assert_eq!(segments.prp1(), 0x1000);
    assert_eq!(segments.prp2(), 0x8000);
    assert_eq!(PrpBuilder::from_segments(&[(0x1000, 0)]).unwrap_err(), NvmeError::InvalidArgument);
}

#[test]
fn commands() {
    let read = SubmissionEntry::read(3, 1, 0x1_0000_0002, 8, 0x1000, 0x2000);
    let bytes = read.to_bytes();
    assert_eq!(bytes.len(), 64);
    assert_eq!(bytes[0], 0x02);
    assert_eq!(u16::from_le_bytes([bytes[2], bytes[3]]), 3);
    assert_eq!(u32::from_le_bytes([bytes[40], bytes[41], bytes[42], bytes[43]]), 2);
    assert_eq!(u32::from_le_bytes([bytes[44], bytes[45], bytes[46], bytes[47]]), 1);
    assert_eq!(u16::from_le_bytes([bytes[48], bytes[49]]), 7);
    let flush = SubmissionEntry::flush(1, 9).to_bytes();
    assert_eq!(flush[0], 0x00);

    let mut raw = [0u8; 16];
    raw[12] = 5;
    raw[14] = 0x01;
    let completion = CompletionEntry::from_bytes(&raw);
    assert_eq!(completion.cid(), 5);
    assert!(completion.phase());
    assert!(completion.is_success());
}

#[test]
fn queues() {
    let mut sq = SubmissionQueue::new(2);
    assert_eq!(sq.submit(), Some(0));
    assert_eq!(sq.submit(), None);
    sq.update_head(1);
    assert_eq!(sq.submit(), Some(1));
    assert_eq!(sq.tail(), 0);

    let mut ids = CommandIdAllocator::new(3);
    assert_eq!(ids.allocate(), 0);
    assert_eq!(ids.allocate(), 1);
    assert_eq!(ids.allocate(), 2);
    assert_eq!(ids.allocate(), 0);

    let mut cq = CompletionQueue::new(2);
    let mut raw = [0u8; 16];
    raw[14] = 0x01;
    assert!(cq.poll(CompletionEntry::from_bytes(&raw)).is_some());
    assert_eq!(cq.head(), 1);
    let stale = [0u8; 16];
    assert!(cq.poll(CompletionEntry::from_bytes(&stale)).is_none());
}

#[test]
fn namespace_identification() {
    let mut data = vec![0u8; 4096];
    data[0..8].copy_from_slice(&1000u64.to_le_bytes());
    data[8..16].copy_from_slice(&900u64.to_le_bytes());
    data[26] = 0x11; // format 1
    data[132..136].copy_from_slice(&(9u32 << 16).to_le_bytes());
    let info = NamespaceInfo::from_identify(1, &data);
    assert_eq!(info.size, 1000);
    assert_eq!(info.block_size, 512);
    assert_eq!(info.capacity, 900 * 512);
    assert_eq!(info.formatted_lba_size, 1);
    assert_eq!(info.transfer_len(4, 4096), Ok(2048));
    assert_eq!(info.transfer_len(16, 4096), Err(NvmeError::InvalidArgument));
    assert_eq!(info.blocks_for_len(1000), Ok(2));
    assert_eq!(info.blocks_for_len(512 * 70000), Err(NvmeError::InvalidArgument));
    assert_eq!(admin_queue_depth(1024), 64);
    assert_eq!(admin_queue_depth(16), 16);
}

#[test]
fn disabling_and_shutting_down() {
    let enabled = cc::build(true, 0, 6, 4);
    assert_eq!(cc::disable_value(enabled), Some(enabled & !1));
    assert_eq!(cc::disable_value(enabled & !1), None);
    assert_eq!(cc::shutdown_value(enabled), enabled | (1 << 14));
    // An abrupt shutdown request already in the field is replaced by a normal one.
    assert_eq!(cc::shutdown_value(enabled | (2 << 14)), enabled | (1 << 14));
}

#[test]
fn queue_pair_rings_and_doorbells() {
    let regs = NvmeRegs::new(0, 0x2000);
    assert_eq!(regs.sq_doorbell_offset(1, 0), 0x1008);
    assert_eq!(regs.cq_doorbell_offset(1, 0), 0x100C);
    assert_eq!(regs.sq_doorbell_offset(2, 2), 0x1000 + 4 * 16);
    assert_eq!(regs.cq_doorbell_offset(2, 2), 0x1000 + 5 * 16);

    let mut qp = QueuePair::new(1, 2, 0);
    let first = qp.submit(&regs, SubmissionEntry::flush(0, 1), None);
    assert_eq!(first.cid, 0);
    assert_eq!(first.entry.cid, 0);
    assert_eq!(first.slot, Some(0));
    assert_eq!(first.doorbell.offset, 0x1008);
    assert_eq!(first.doorbell.value, 1);
    assert_eq!(qp.sq_tail(), 1);
    assert!(qp.pending.contains_key(&0));

    let second = qp.submit(&regs, SubmissionEntry::flush(0, 1), None);
    assert_eq!(second.cid, 1);
    assert_eq!(second.slot, None);
    assert_eq!(second.doorbell.value, 1);
    assert_eq!(qp.sq_tail(), 1);

    let stale = [0u8; 16];
    assert!(qp.poll_completion(&regs, CompletionEntry::from_bytes(&stale)).is_none());
    assert_eq!(qp.cq_head(), 0);

    let mut raw = [0u8; 16];
    raw[8] = 1;
    raw[14] = 0x01;
    let done = qp.poll_completion(&regs, CompletionEntry::from_bytes(&raw)).unwrap();
    assert_eq!(done.doorbell.offset, 0x100C);
    assert_eq!(done.doorbell.value, 1);
    assert_eq!(qp.cq_head(), 1);
    assert!(!qp.pending.contains_key(&0));
    assert!(qp.pending.contains_key(&1));

    let prp = PrpBuilder::from_segments(&[(0x1000, 4096)]).unwrap();
    let third = qp.submit(&regs, SubmissionEntry::flush(0, 1), Some(prp));
    assert_eq!(qp.pending[&0].prp.as_ref().unwrap().prp1(), 0x1000);
    assert_eq!(third.cid, 0);
    assert_eq!(third.slot, Some(1));
    assert_eq!(qp.sq_tail(), 0);
}

#[test]
fn command_ids_cycle() {
    let mut ids = CommandIdAllocator::new(5);
    for i in 0..23u16 {
        assert_eq!(ids.allocate(), i % 5);
    }
}
