//! Decoding of BEAM module files: the form container, its chunks, and the
//! records that the known chunk kinds hold.
use vstd::prelude::*;

pub mod atom;
pub mod beam_file;
pub mod bytes;
pub mod chunk;
pub mod code;
pub mod codec;
pub mod decode;
pub mod entries;
pub mod error;
pub mod parts;
pub mod scan;
pub mod table;
pub mod term;

pub use crate::beam_file::{BeamFile, RawBeamFile, StandardBeamFile};
pub use crate::error::Error;
