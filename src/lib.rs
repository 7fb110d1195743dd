//! Ordered traversal of a versioned btree index and its exposure as a chunked
//! byte stream.
//!
//! - `bpos`: positions and their total order.
//! - `bkey`, `fs`: entries, their text form, and the filesystem's btrees.
//! - `btree`: transactions and cursors, with the laws of a traversal.
//! - `printbuf`: the text buffer that entries are rendered into.
//! - `reader`, `debugfs`, `uaccess`: producers, the per-open read state
//!   machine, and the reader's destination buffer.
//! - `btree_debugfs`, `my_collection`, `tb_debugfs`: producers built on those.

pub mod bkey;
pub mod bpos;
pub mod btree;
pub mod btree_debugfs;
pub mod debugfs;
pub mod error;
pub mod fs;
pub mod my_collection;
pub mod printbuf;
pub mod reader;
pub mod tb_debugfs;
pub mod uaccess;
