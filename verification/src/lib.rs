//! Metadata engine of the RAFS v5 read-only, chunk-deduplicated filesystem image format.
//!
//! The bootstrap is a packed byte stream holding a superblock, an inode table, a blob
//! table, an optional extended blob table, a prefetch table and per-inode records. This
//! crate decodes and validates that layout, exposes directory and file semantics over it,
//! answers tree queries, and arbitrates chunk identity while an image is built.
//!
//! The modules, from the bytes up:
//!
//! - `bytes`, `reader`, `digest`: little-endian fields, the cursor over a bootstrap, and
//!   content digests;
//! - `layout`, `inode`, `chunk`, `table`, `blob_table`, `xattr`: the records and tables of
//!   the format, each with its decoder and its encoder;
//! - `inspect`, `ondisk`, `tree`, `visitor`: an open bootstrap, on-demand decoding,
//!   directory iteration, tree walks and path reconstruction;
//! - `command`, `executor`: the queries of the inspection shell and its command line;
//! - `rafs_inode`, `mock_inode`, `bio`, `name_order`, `path`: what every inode answers,
//!   the inode tree held in memory, reads cut into pieces of chunks, and names;
//! - `deduplication`: the digest-to-chunk index used while an image is built.

pub mod bio;
pub mod blob_table;
pub mod bytes;
pub mod chunk;
pub mod command;
pub mod deduplication;
pub mod digest;
pub mod error;
pub mod executor;
pub mod inode;
pub mod inspect;
pub mod layout;
pub mod mock_inode;
pub mod name_order;
pub mod ondisk;
pub mod path;
pub mod rafs_inode;
pub mod reader;
pub mod table;
pub mod tree;
pub mod visitor;
pub mod xattr;
