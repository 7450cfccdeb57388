//! What the command-line tool decides from its arguments, and the text it
//! shows: the blanking mode, progress bar templates and task names.

use crate::burn_dao_audio_cd_job::BurnDaoAudioCdJobProgressTask;
use crate::driver::{BlankMode, CdrStatusResult};
use crate::scsi::ScsiError;
use crate::text::{decimal, push_decimal};
use vstd::prelude::*;
use vstd::string::StringExecFns;

verus! {

/// The arguments of `erase`.
pub struct EraseArgs {
    /// Blank the whole disc rather than only its table of contents.
    pub full: bool,
}

impl EraseArgs {
    /// Full blanking when asked for, fast blanking otherwise.
    pub fn blank_mode(&self) -> (r: BlankMode)
        ensures
            r == (if self.full {
                BlankMode::Full
            } else {
                BlankMode::Fast
            }),
    {
        if self.full {
            BlankMode::Full
        } else {
            BlankMode::Fast
        }
    }
}

/// What `erase` does with a drive status while it waits to start.
pub enum ReadyWait {
    /// The drive is ready: start.
    Proceed,
    /// The drive is not ready yet: wait and ask again.
    Wait,
    /// The status could not be read.
    Fail(ScsiError),
}

/// Decides, from a status reading, whether `erase` can start: a ready drive
/// can; any other status means waiting; an error ends the wait.
pub fn ready_wait_step(status: Result<CdrStatusResult, ScsiError>) -> (r: ReadyWait)
    ensures
        match status {
            Ok(CdrStatusResult::Ready) => r is Proceed,
            Ok(_) => r is Wait,
            Err(e) => r == ReadyWait::Fail(e),
        },
{
    match status {
        Ok(CdrStatusResult::Ready) => ReadyWait::Proceed,
        Ok(_) => ReadyWait::Wait,
        Err(e) => ReadyWait::Fail(e),
    }
}

/// The arguments of `burn-audio`.
pub struct SimpleAudioArgs {
    /// Run a test write: the laser stays off.
    pub dry: bool,
    /// The audio files, one per track, in track order.
    pub files: Vec<String>,
}

/// The progress bar template: a spinner while the task is worked on, the
/// message, and a bar with its percentage unless the progress is
/// indeterminate.
pub open spec fn progress_template_text(working: bool, indeterminate: bool) -> Seq<char> {
    (if working {
        "{spinner}"@
    } else {
        " "@
    }) + " {msg} "@ + (if indeterminate {
        ""@
    } else {
        "[{wide_bar}] {percentage}"@
    })
}

/// Builds the progress bar template.
pub fn progress_template(working: bool, indeterminate: bool) -> (r: String)
    ensures
        r@ == progress_template_text(working, indeterminate),
{
    let mut s = String::new();
    if working {
        s.append("{spinner}");
    } else {
        s.append(" ");
    }
    s.append(" {msg} ");
    if indeterminate {
        s.append("");
    } else {
        s.append("[{wide_bar}] {percentage}");
    }
    s
}

/// What a task of a burn is called: tracks are counted from 1.
pub open spec fn task_message_text(task: BurnDaoAudioCdJobProgressTask) -> Seq<char> {
    match task {
        BurnDaoAudioCdJobProgressTask::PowerCalibration => "Preparing burn session"@,
        BurnDaoAudioCdJobProgressTask::WriteLeadIn => "Writing lead-in"@,
        BurnDaoAudioCdJobProgressTask::WriteTrack(track) => "Writing track "@ + decimal(
            track as nat + 1,
        ),
        BurnDaoAudioCdJobProgressTask::WriteLeadOut => "Finalising disc"@,
    }
}

/// The name of a task, as the progress display shows it. The track number
/// is a byte, so the task of track index 255 has no number to show.
pub fn task_message(task: BurnDaoAudioCdJobProgressTask) -> (r: String)
    requires
        task != BurnDaoAudioCdJobProgressTask::WriteTrack(255),
    ensures
        r@ == task_message_text(task),
{
    let mut s = String::new();
    match task {
        BurnDaoAudioCdJobProgressTask::PowerCalibration => {
            s.append("Preparing burn session");
        },
        BurnDaoAudioCdJobProgressTask::WriteLeadIn => {
            s.append("Writing lead-in");
        },
        BurnDaoAudioCdJobProgressTask::WriteTrack(track) => {
            s.append("Writing track ");
            push_decimal(&mut s, (track + 1) as u32);
        },
        BurnDaoAudioCdJobProgressTask::WriteLeadOut => {
            s.append("Finalising disc");
        },
    }
    s
}

} // verus!
