//! Writing audio CDs through the SCSI multimedia command set.

use vstd::prelude::*;

pub mod addresses;
pub mod burn_dao_audio_cd_job;
pub mod cli;
pub mod cue_sheet;
pub mod driver;
pub mod scsi;
pub mod text;

verus! {

} // verus!
