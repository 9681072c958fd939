//! Verified reading and writing of PlayStation 2 save-data files: the
//! `icon.sys` descriptor and the PSU archive model.

pub mod bytes;
pub mod icon_sys;
pub mod packer;
pub mod psu;
pub mod laws;
pub mod text;

pub use icon_sys::{Color, ColorF, IconSys, Vector};
pub use psu::{PSUEntry, PSUEntryKind, PSUFile, DIR_ID, FILE_ID, PAGE_SIZE, PSU};
