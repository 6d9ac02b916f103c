//! Reading and writing of Rekordbox export data.
use vstd::prelude::*;

pub mod anlz;
pub mod codec;
pub mod device_library_plus;
pub mod pdb;
pub mod util;
pub mod waveform;
pub mod wide;
