# rust_fat

The logic of a read-mostly FAT file system, verified with Verus: boot sector
validation and volume geometry, FAT entry decoding and cluster chains,
directory entry classification and 8.3 names, long-name (UTF-16 to UTF-8)
decoding, FAT timestamps, inode attributes and the mapping of file
positions to device addresses, together with the `Ktime`/`Timespec` time
primitives these are expressed in.

Layout:

- `src/` — the verified library (`defs`, `types`, `fat_time`, `fs`,
  `fat_table`, `dir`, `long_name`, `inode`, `time`, `error`).
- `tests/` — tests of the library on concrete volumes, pages and entries.
- `app/` — the kernel glue (VFS callbacks, page cache and block device
  access), which builds only inside a kernel tree: every decision it makes
  is a call into the library.

Operations that interleave device reads with decisions are split: the
library locates and decodes (for example `FatFs::fat_entry_location`,
`FatFs::read_fat_entry`, `ClusterChain::advance`), the kernel side reads.
