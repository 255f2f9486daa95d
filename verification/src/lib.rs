//! A read-mostly FAT file system core: boot sector validation, FAT entry
//! decoding, cluster chains, directory entries and FAT timestamps, together
//! with the time primitives they are expressed in.

pub mod defs;
pub mod dir;
pub mod error;
pub mod fat_table;
pub mod fat_time;
pub mod fs;
pub mod inode;
pub mod long_name;
pub mod time;
pub mod types;
