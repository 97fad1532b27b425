# radon_core

The logic of the Radon system services, written in Verus and proved against its contracts.

- `src/` is the verified library:
  - `dev`: devices as byte sequences, slices and commits of their bytes, addresses;
  - `fs`: POSIX types and file kinds, blocks and bitmaps, and the SFS filesystem (super-block, index area,
    name strings, time stamps, directory listing and file reading);
  - `bootstrap`: the bootstrap message format, the service registry and its request handling;
  - `namespace`: path normalisation, mounts, the namespace service's messages, and the root file system
    service's answers to `Open` requests;
  - `block_protocol`: partition devices and the planning of partitions from a GPT;
  - `nvme`: register fields, commands, PRP lists, submission and completion queues;
  - `pci`, `acpi`: device descriptions, configuration space addresses, MCFG records, mappings, and the
    decisions of a bus scan;
  - `init`: placement of a loaded program's segments and stack.
- `tests/` exercises the library.
- `app/` holds what does I/O around it: reading a GPT through `gpt_disk_io`, scanning the PCI
  configuration space through `pci_types`, and polling the NVMe controller's status register.

## What is not covered

The ext2 filesystem that the root namespace service mounts is not part of this library. Its sources are not
available with the rest of the project: the filesystem module that ties the filesystems together, the ext2
module itself (its filesystem type, inodes, directories, super-block and errors), the permission checks, the
block indirection structures, the path type and the cell types it is built on. Without them the file writes,
truncation and directory entry insertion and removal of ext2 have no definition to follow, so they are left
out; so is the ELF loader of `init`, whose source is missing too. SFS, the other filesystem of the same
crate, is covered.
