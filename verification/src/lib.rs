//! Library core of the NAM-on-Daisy librarian: the QSPI data-image format,
//! the model / IR / preset library bookkeeping and the tone3000 client logic.

pub mod discover;
pub mod flash;
pub mod image_builder;
pub mod image_laws;
pub mod le_bytes;
pub mod library;
pub mod presets;
pub mod store;
pub mod text;
pub mod tone3000;
pub mod types;
pub mod wav;
