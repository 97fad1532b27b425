use radon_core::block_protocol::partition::{entry_size_valid, partition_name, probe_named_partitions, probe_partitions, slot_used, GptScan, GptSlot, PartitionDevice, PartitionPlan, ProbeError};

const LINUX_DATA: [u8; 16] = [0xaf, 0x3d, 0xc6, 0x0f, 0x83, 0x84, 0x72, 0x47, 0x8e, 0x79, 0x3d, 0x69, 0xd8, 0x47, 0x7d, 0xe4];
const UNUSED: [u8; 16] = [0; 16];
use radon_core::block_protocol::protocol::{BlockDevice, BLOCK_ERR_IO, BLOCK_SUCCESS};
use std::cell::RefCell;

struct MemoryDisk(RefCell<Vec<u8>>);

impl BlockDevice for MemoryDisk {
    type Error = ();

    fn read_block(&self, start_byte: u64, buf: &mut [u8]) -> Result<(), ()> {
        let s = start_byte as usize;
        let data = self.0.borrow();
        if s + buf.len() > data.len() {
            return Err(());
        }
        buf.copy_from_slice(&data[s..s + buf.len()]);
        Ok(())
    }

    fn write_block(&self, start_byte: u64, buf: &[u8]) -> Result<(), ()> {
        let s = start_byte as usize;
        let mut data = self.0.borrow_mut();
        if s + buf.len() > data.len() {
            return Err(());
        }
        data[s..s + buf.len()].copy_from_slice(buf);
        Ok(())
    }

    fn size(&self) -> usize {
        self.0.borrow().len()
    }
}

#[test]
fn partition_offsets() {
    let disk = MemoryDisk(RefCell::new((0..=255u8).cycle().take(4096).collect()));
    let part = PartitionDevice::new(disk, 1024, 2048);
    assert_eq!(part.offset(), 1024);
    assert_eq!(part.size(), 2048);
    assert_eq!(part.device_offset(10), 1034);
    let mut buf = [0u8; 4];
    part.read_block(1, &mut buf).unwrap();
    assert_eq!(buf, [1, 2, 3, 4]);
    part.write_block(0, &[9, 9]).unwrap();
    assert_eq!(part.inner().0.borrow()[1024..1026], [9, 9]);
    let mut big = [0u8; 8];
    assert!(part.read_block(4000, &mut big).is_err());
    assert_eq!(BLOCK_SUCCESS, 0);
    assert_eq!(BLOCK_ERR_IO, 1);
}

#[test]
fn partitions_from_table() {
    let slots = vec![
        GptSlot::Entry { type_guid: LINUX_DATA, starting_lba: 2048, ending_lba: 4095 },
        GptSlot::Unreadable,
        GptSlot::Entry { type_guid: LINUX_DATA, starting_lba: 4096, ending_lba: 8191 },
        GptSlot::Entry { type_guid: UNUSED, starting_lba: 0, ending_lba: 0 },
        GptSlot::Entry { type_guid: LINUX_DATA, starting_lba: 9000, ending_lba: 9999 },
    ];
    let plans = probe_partitions(&GptScan::Table { entry_size: 128, slots: slots.clone() }, 1 << 30).unwrap();
    assert_eq!(
        plans,
        vec![
            PartitionPlan { index: 0, offset: 2048 * 512, size: 2047 * 512 },
            PartitionPlan { index: 2, offset: 4096 * 512, size: 4095 * 512 },
        ]
    );
    let named = probe_named_partitions("nvme0", &GptScan::Table { entry_size: 128, slots }, 1 << 30).unwrap();
    assert_eq!(named.len(), 2);
    assert_eq!(named[0].name, "nvme0part0");
    assert_eq!(named[1].name, "nvme0part2");
    assert_eq!(named[1].offset, 4096 * 512);
}

#[test]
fn partitions_without_table() {
    let plans = probe_partitions(&GptScan::NoTable, 12345).unwrap();
    assert_eq!(plans, vec![PartitionPlan { index: 0, offset: 0, size: 12345 }]);
    let named = probe_named_partitions("ahci1", &GptScan::NoTable, 12345).unwrap();
    assert_eq!(named[0].name, "ahci1part0");
    assert_eq!(probe_partitions(&GptScan::Table { entry_size: 96, slots: Vec::new() }, 1).unwrap_err(), ProbeError::InvalidEntrySize);
    assert!(probe_named_partitions("x", &GptScan::Table { entry_size: 384, slots: Vec::new() }, 1).is_err());
    let many: Vec<GptSlot> = (0..12).map(|i| GptSlot::Entry { type_guid: LINUX_DATA, starting_lba: i, ending_lba: i + 1 }).collect();
    let named = probe_named_partitions("d", &GptScan::Table { entry_size: 256, slots: many }, 0).unwrap();
    assert_eq!(named[11].name, "dpart11");
}

#[test]
fn gpt_entry_sizes() {
    assert!(entry_size_valid(128));
    assert!(entry_size_valid(256));
    assert!(entry_size_valid(1 << 31));
    assert!(!entry_size_valid(0));
    assert!(!entry_size_valid(64));
    assert!(!entry_size_valid(127));
    assert!(!entry_size_valid(384));
}

#[test]
fn gpt_used_slots() {
    assert!(slot_used(LINUX_DATA));
    assert!(!slot_used(UNUSED));
    let mut last = [0u8; 16];
    last[15] = 1;
    assert!(slot_used(last));
}

#[test]
fn partition_names() {
    assert_eq!(partition_name("nvme0", 0), "nvme0part0");
    assert_eq!(partition_name("ahci", 1234), "ahcipart1234");
    assert_eq!(partition_name("", 10), "part10");
}
