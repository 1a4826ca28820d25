//! Index of the files and directories of NTFS volumes, built from the
//! records of the volume change journal, with path reconstruction and
//! name search over the finished index.

pub mod catalog;
pub mod decode;
pub mod drives;
pub mod entry;
pub mod journal;
pub mod names;
pub mod resolve;
pub mod scan;
pub mod search;
pub mod state;
pub mod text;
pub mod volume;
pub mod wire;
