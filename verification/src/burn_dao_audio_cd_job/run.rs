//! A whole burn as a sequence of stages. The drive work of each stage is
//! done here; between stages the caller does what only it can: report the
//! progress to whoever follows the burn, or pause before asking a drive that
//! is not ready yet again.

use crate::addresses::Lba;
use crate::burn_dao_audio_cd_job::{
    cue_sheet_sent, length_prefix_sum, silent_frame, progress_set, session_prepare_result, task_order_for,
    writing_set_up, BurnDaoAudioCdJob, BurnDaoAudioCdJobProgress, BurnDaoAudioCdJobProgressTask,
    BurnWriteSession, BurnWriteStep, FrameProducer,
};
use crate::driver::mmc::{flush_cache_result, next_write_address_result, ready_status, MmcDriver};
use crate::driver::{CdrDriverError, CdrStatusResult, Progress};
use crate::scsi::{ScsiDriver, ScsiError};
use vstd::prelude::*;

verus! {

/// The stages of a burn, in the order they run.
#[derive(Debug, Clone, Copy, PartialEq, Eq, Structural)]
pub enum BurnStage {
    /// Report the job's initial progress.
    Announce,
    /// Lock the media, select the speed, set up the write parameters and,
    /// unless the job is dry, calibrate the laser.
    Prepare,
    /// Wait for the drive after preparing.
    AwaitPrepared,
    /// Ask the drive for its next writable address.
    QueryAddress,
    /// Wait for the drive after that.
    AwaitQueried,
    /// Send the cue sheet.
    SendCueSheet,
    /// Wait for the drive after that.
    AwaitCueSheet,
    /// Record and report the progress before writing.
    AnnounceWriting,
    /// Start writing at address 0.
    StartWriting,
    /// Write lead-in and track data, one step at a time.
    Writing,
    /// Record and report the lead-out.
    LeadOut,
    /// Flush the drive's cache.
    FlushCache,
    /// Wait for the drive after that.
    AwaitFlushed,
    /// Flush the cache once more.
    FlushCacheAgain,
    /// The burn is complete.
    Complete,
    /// The burn failed.
    Failed,
}

/// What the caller does after a stage has advanced.
pub enum BurnAction {
    /// Report `progress()` to whoever follows the burn, then advance.
    Report,
    /// Pause a moment (the drive is not ready yet), then advance.
    Pause,
    /// Advance at once.
    Continue,
    /// The burn is complete.
    Complete,
    /// The burn failed with this error.
    Fail(CdrDriverError),
}

/// The stages that wait for the drive to become ready.
pub open spec fn is_wait(stage: BurnStage) -> bool {
    ||| stage == BurnStage::AwaitPrepared
    ||| stage == BurnStage::AwaitQueried
    ||| stage == BurnStage::AwaitCueSheet
    ||| stage == BurnStage::AwaitFlushed
}

/// The stage that follows a wait once the drive is ready.
pub open spec fn stage_after_wait(stage: BurnStage) -> BurnStage {
    match stage {
        BurnStage::AwaitPrepared => BurnStage::QueryAddress,
        BurnStage::AwaitQueried => BurnStage::SendCueSheet,
        BurnStage::AwaitCueSheet => BurnStage::AnnounceWriting,
        BurnStage::AwaitFlushed => BurnStage::FlushCacheAgain,
        _ => stage,
    }
}

/// Whether a stage that ran a drive operation with result `r` goes on to
/// `next` (success) or fails with the error.
pub open spec fn stage_outcome<T>(
    r: Result<T, CdrDriverError>,
    next: BurnStage,
    stage: BurnStage,
    action: BurnAction,
) -> bool {
    match r {
        Ok(_) => stage == next && action is Continue,
        Err(e) => stage == BurnStage::Failed && action == BurnAction::Fail(e),
    }
}

/// The position of a stage in the order the stages run; failing ends the
/// order.
pub open spec fn stage_rank(stage: BurnStage) -> nat {
    match stage {
        BurnStage::Announce => 0,
        BurnStage::Prepare => 1,
        BurnStage::AwaitPrepared => 2,
        BurnStage::QueryAddress => 3,
        BurnStage::AwaitQueried => 4,
        BurnStage::SendCueSheet => 5,
        BurnStage::AwaitCueSheet => 6,
        BurnStage::AnnounceWriting => 7,
        BurnStage::StartWriting => 8,
        BurnStage::Writing => 9,
        BurnStage::LeadOut => 10,
        BurnStage::FlushCache => 11,
        BurnStage::AwaitFlushed => 12,
        BurnStage::FlushCacheAgain => 13,
        BurnStage::Complete => 14,
        BurnStage::Failed => 15,
    }
}

/// A burn in progress.
pub struct BurnRun<S: ScsiDriver, P: FrameProducer> {
    driver: MmcDriver<S>,
    job: Option<BurnDaoAudioCdJob<P>>,
    session: Option<BurnWriteSession<S, P>>,
    progress: BurnDaoAudioCdJobProgress,
    stage: BurnStage,
    next_writable: Option<Lba>,
    lengths: Ghost<Seq<u32>>,
    producers: Ghost<Seq<P>>,
    dry: Ghost<bool>,
}

impl<S: ScsiDriver, P: FrameProducer> BurnRun<S, P> {
    pub closed spec fn stage_view(&self) -> BurnStage {
        self.stage
    }

    /// The SCSI device the burn goes to.
    pub closed spec fn device(&self) -> S {
        self.driver.device()
    }

    /// The lengths of the job's tracks.
    pub closed spec fn lengths(&self) -> Seq<u32> {
        self.lengths@
    }

    /// The producers of the job's tracks, in track order, as the job held
    /// them.
    pub closed spec fn track_producers(&self) -> Seq<P> {
        self.producers@
    }

    /// Whether the job is a test write.
    pub closed spec fn dry(&self) -> bool {
        self.dry@
    }

    /// The progress of the burn.
    pub closed spec fn progress_view(&self) -> BurnDaoAudioCdJobProgress {
        match self.session {
            Some(s) => s.progress_spec(),
            None => self.progress,
        }
    }

    /// The data-writing session, while data is written.
    pub closed spec fn session_view(&self) -> BurnWriteSession<S, P> {
        self.session->0
    }

    /// The next writable address the drive reported, if it reported one.
    pub closed spec fn next_writable(&self) -> Option<Lba> {
        self.next_writable
    }

    /// The job stays until writing starts; the writing session lives while
    /// data is written; the job's data fits below the largest address.
    pub closed spec fn wf(&self) -> bool {
        &&& 150 + length_prefix_sum(self.lengths@, self.lengths@.len() as int) < u64::MAX
        &&& match self.stage {
            BurnStage::Announce | BurnStage::Prepare | BurnStage::AwaitPrepared
            | BurnStage::QueryAddress | BurnStage::AwaitQueried | BurnStage::SendCueSheet
            | BurnStage::AwaitCueSheet | BurnStage::AnnounceWriting
            | BurnStage::StartWriting => {
                &&& self.job matches Some(job)
                &&& job.track_lengths() == self.lengths@
                &&& job.track_producers() == self.producers@
                &&& job.dry() == self.dry@
                &&& self.session is None
            },
            BurnStage::Writing => {
                &&& self.session matches Some(s)
                &&& s.wf()
                &&& !s.finished()
                &&& s.lengths() == self.lengths@
                &&& s.writer().device() == self.driver.device()
            },
            BurnStage::LeadOut | BurnStage::FlushCache | BurnStage::AwaitFlushed
            | BurnStage::FlushCacheAgain | BurnStage::Complete => self.session is None,
            BurnStage::Failed => true,
        }
    }

    /// Whether the burn has ended, completed or failed.
    pub open spec fn over(&self) -> bool {
        self.stage_view() == BurnStage::Complete || self.stage_view() == BurnStage::Failed
    }

    /// A burn of `job` through `driver`, about to report its initial
    /// progress. The job's data (lead-in and tracks) must fit below the
    /// largest block address.
    pub fn new(driver: &MmcDriver<S>, job: BurnDaoAudioCdJob<P>) -> (r: Self)
        requires
            150 + length_prefix_sum(job.track_lengths(), job.track_lengths().len() as int)
                < u64::MAX,
        ensures
            r.wf(),
            r.stage_view() == BurnStage::Announce,
            r.device() == driver.device(),
            r.lengths() == job.track_lengths(),
            r.track_producers() == job.track_producers(),
            r.dry() == job.dry(),
            r.next_writable() is None,
            r.progress_view().wf(),
            r.progress_view().task_order@ == task_order_for(job.track_lengths().len()),
            r.progress_view().task_progress@ == Seq::<
                (BurnDaoAudioCdJobProgressTask, Progress),
            >::empty(),
            r.progress_view().total_progress == (Progress { progress: 0, total: 0 }),
            r.progress_view().current_task == BurnDaoAudioCdJobProgressTask::PowerCalibration,
    {
        let progress = job.initial_progress();
        let ghost lengths = job.track_lengths();
        let ghost producers = job.track_producers();
        let ghost dry = job.dry();
        BurnRun {
            driver: driver.clone(),
            job: Some(job),
            session: None,
            progress,
            stage: BurnStage::Announce,
            next_writable: None,
            lengths: Ghost(lengths),
            producers: Ghost(producers),
            dry: Ghost(dry),
        }
    }

    pub fn stage(&self) -> (r: BurnStage)
        ensures
            r == self.stage_view(),
    {
        self.stage
    }

    pub fn progress(&self) -> (r: &BurnDaoAudioCdJobProgress)
        ensures
            *r == self.progress_view(),
    {
        match &self.session {
            Some(s) => s.progress(),
            None => &self.progress,
        }
    }

    pub fn next_writable_address(&self) -> (r: Option<Lba>)
        ensures
            r == self.next_writable(),
    {
        self.next_writable
    }

    /// What advancing a burn in stage `before.stage_view()` does.
    pub open spec fn advanced(before: Self, after: Self, action: BurnAction) -> bool {
        let b = before.stage_view();
        let f = after.stage_view();
        &&& after.wf()
        &&& after.device() == before.device()
        &&& after.lengths() == before.lengths()
        &&& after.track_producers() == before.track_producers()
        &&& after.dry() == before.dry()
        &&& b != BurnStage::QueryAddress ==> after.next_writable() == before.next_writable()
        &&& b != BurnStage::AnnounceWriting && b != BurnStage::Writing && b != BurnStage::LeadOut
            ==> after.progress_view() == before.progress_view()
        &&& match b {
            BurnStage::Announce => f == BurnStage::Prepare && action is Report,
            BurnStage::Prepare => exists|r: Result<(), CdrDriverError>|
                #![trigger session_prepare_result(before.device(), before.dry(), r)]
                session_prepare_result(before.device(), before.dry(), r) && stage_outcome(
                    r,
                    BurnStage::AwaitPrepared,
                    f,
                    action,
                ),
            BurnStage::AwaitPrepared | BurnStage::AwaitQueried | BurnStage::AwaitCueSheet
            | BurnStage::AwaitFlushed => exists|status: Result<CdrStatusResult, ScsiError>|
                #![trigger ready_status(before.device(), status)]
                ready_status(before.device(), status) && if status == Ok::<
                    CdrStatusResult,
                    ScsiError,
                >(CdrStatusResult::Ready) {
                    f == stage_after_wait(b) && action is Continue
                } else {
                    f == b && action is Pause
                },
            BurnStage::QueryAddress => exists|r: Result<Lba, CdrDriverError>|
                #![trigger next_write_address_result(before.device(), r)]
                next_write_address_result(before.device(), r) && after.next_writable() == match r {
                    Ok(l) => Some(l),
                    Err(_) => None,
                } && f == BurnStage::AwaitQueried && action is Continue,
            BurnStage::SendCueSheet => exists|r: Result<(), CdrDriverError>|
                #![trigger cue_sheet_sent(before.device(), before.lengths(), r)]
                cue_sheet_sent(before.device(), before.lengths(), r) && stage_outcome(
                    r,
                    BurnStage::AwaitCueSheet,
                    f,
                    action,
                ),
            BurnStage::AnnounceWriting => {
                &&& writing_set_up(before.progress_view(), after.progress_view(), before.lengths())
                &&& f == BurnStage::StartWriting
                &&& action is Report
            },
            BurnStage::StartWriting => {
                let s = after.session_view();
                &&& f == BurnStage::Writing
                &&& action is Continue
                &&& s.lead_in_done() == 0
                &&& s.track() == 0
                &&& !s.track_started()
                &&& s.writer().queued() == Seq::<u8>::empty()
                &&& s.pending_producers() == before.track_producers()
                &&& s.last_frame() == silent_frame()
            },
            BurnStage::Writing => exists|
                r: Result<BurnWriteStep, CdrDriverError>,
                s: BurnWriteSession<S, P>,
            |
                #![trigger BurnWriteSession::<S, P>::step_effect(before.session_view(), s, r)]
                BurnWriteSession::<S, P>::step_effect(before.session_view(), s, r) && match r {
                    Ok(BurnWriteStep::Wrote) => f == BurnStage::Writing && action is Report
                        && after.session_view() == s,
                    Ok(BurnWriteStep::StartedTrack) => f == BurnStage::Writing && action is Continue
                        && after.session_view() == s,
                    Ok(BurnWriteStep::Finished) => f == BurnStage::LeadOut && action is Continue
                        && after.progress_view() == s.progress_spec(),
                    Err(e) => f == BurnStage::Failed && action == BurnAction::Fail(e)
                        && after.progress_view() == s.progress_spec(),
                },
            BurnStage::LeadOut => {
                &&& progress_set(
                    before.progress_view(),
                    after.progress_view(),
                    BurnDaoAudioCdJobProgressTask::WriteLeadOut,
                    Progress { progress: 0, total: 0 },
                )
                &&& after.progress_view().current_task
                    == BurnDaoAudioCdJobProgressTask::WriteLeadOut
                &&& f == BurnStage::FlushCache
                &&& action is Report
            },
            BurnStage::FlushCache => exists|r: Result<(), CdrDriverError>|
                #![trigger flush_cache_result(before.device(), r)]
                flush_cache_result(before.device(), r) && stage_outcome(
                    r,
                    BurnStage::AwaitFlushed,
                    f,
                    action,
                ),
            BurnStage::FlushCacheAgain => exists|r: Result<(), CdrDriverError>|
                #![trigger flush_cache_result(before.device(), r)]
                flush_cache_result(before.device(), r) && match r {
                    Ok(_) => f == BurnStage::Complete && action is Complete,
                    Err(e) => f == BurnStage::Failed && action == BurnAction::Fail(e),
                },
            BurnStage::Complete | BurnStage::Failed => false,
        }
    }

    /// Does the drive work of the current stage and moves to the next one.
    pub fn advance(&mut self) -> (action: BurnAction)
        requires
            old(self).wf(),
            !old(self).over(),
        ensures
            Self::advanced(*old(self), *final(self), action),
    {
        match self.stage {
            BurnStage::Announce => {
                self.stage = BurnStage::Prepare;
                BurnAction::Report
            },
            BurnStage::Prepare => self.prepare(),
            BurnStage::AwaitPrepared | BurnStage::AwaitQueried | BurnStage::AwaitCueSheet
            | BurnStage::AwaitFlushed => self.await_ready(),
            BurnStage::QueryAddress => {
                let r = self.driver.next_write_address();
                assert(next_write_address_result(old(self).device(), r));
                self.next_writable = match r {
                    Ok(l) => Some(l),
                    Err(_) => None,
                };
                self.stage = BurnStage::AwaitQueried;
                BurnAction::Continue
            },
            BurnStage::SendCueSheet => self.send_cue_sheet(),
            BurnStage::AnnounceWriting => self.announce_writing(),
            BurnStage::StartWriting => self.start_writing(),
            BurnStage::Writing => self.write_step(),
            BurnStage::LeadOut => {
                self.progress.begin_lead_out();
                self.stage = BurnStage::FlushCache;
                BurnAction::Report
            },
            BurnStage::FlushCache => {
                let r = self.driver.flush_cache();
                assert(flush_cache_result(old(self).device(), r));
                self.finish_operation(r, BurnStage::AwaitFlushed)
            },
            BurnStage::FlushCacheAgain => {
                let r = self.driver.flush_cache();
                assert(flush_cache_result(old(self).device(), r));
                match r {
                    Ok(()) => {
                        self.stage = BurnStage::Complete;
                        BurnAction::Complete
                    },
                    Err(e) => {
                        self.stage = BurnStage::Failed;
                        BurnAction::Fail(e)
                    },
                }
            },
            BurnStage::Complete | BurnStage::Failed => BurnAction::Complete,
        }
    }

    fn prepare(&mut self) -> (action: BurnAction)
        requires
            old(self).wf(),
            old(self).stage_view() == BurnStage::Prepare,
        ensures
            Self::advanced(*old(self), *final(self), action),
    {
        let r = match &self.job {
            Some(job) => job.prepare_session(&self.driver),
            None => Err(CdrDriverError::InvalidResponse),
        };
        assert(session_prepare_result(old(self).device(), old(self).dry(), r));
        self.finish_operation(r, BurnStage::AwaitPrepared)
    }

    fn await_ready(&mut self) -> (action: BurnAction)
        requires
            old(self).wf(),
            is_wait(old(self).stage_view()),
        ensures
            Self::advanced(*old(self), *final(self), action),
    {
        let status = self.driver.status();
        assert(ready_status(old(self).device(), status));
        match status {
            Ok(CdrStatusResult::Ready) => {
                self.stage = match self.stage {
                    BurnStage::AwaitPrepared => BurnStage::QueryAddress,
                    BurnStage::AwaitQueried => BurnStage::SendCueSheet,
                    BurnStage::AwaitCueSheet => BurnStage::AnnounceWriting,
                    _ => BurnStage::FlushCacheAgain,
                };
                BurnAction::Continue
            },
            _ => BurnAction::Pause,
        }
    }

    fn send_cue_sheet(&mut self) -> (action: BurnAction)
        requires
            old(self).wf(),
            old(self).stage_view() == BurnStage::SendCueSheet,
        ensures
            Self::advanced(*old(self), *final(self), action),
    {
        let r = match &self.job {
            Some(job) => job.send_cue_sheet(&self.driver),
            None => Err(CdrDriverError::InvalidResponse),
        };
        assert(cue_sheet_sent(old(self).device(), old(self).lengths(), r));
        self.finish_operation(r, BurnStage::AwaitCueSheet)
    }

    fn announce_writing(&mut self) -> (action: BurnAction)
        requires
            old(self).wf(),
            old(self).stage_view() == BurnStage::AnnounceWriting,
        ensures
            Self::advanced(*old(self), *final(self), action),
    {
        match &self.job {
            Some(job) => job.set_up_writing_progress(&mut self.progress),
            None => {},
        }
        self.stage = BurnStage::StartWriting;
        BurnAction::Report
    }

    fn start_writing(&mut self) -> (action: BurnAction)
        requires
            old(self).wf(),
            old(self).stage_view() == BurnStage::StartWriting,
        ensures
            Self::advanced(*old(self), *final(self), action),
    {
        let mut job: Option<BurnDaoAudioCdJob<P>> = None;
        std::mem::swap(&mut job, &mut self.job);
        let mut progress = BurnDaoAudioCdJobProgress {
            task_progress: Vec::new(),
            task_order: Vec::new(),
            total_progress: Progress::new(0, 0),
            current_task: BurnDaoAudioCdJobProgressTask::PowerCalibration,
        };
        std::mem::swap(&mut progress, &mut self.progress);
        match job {
            Some(job) => match BurnWriteSession::new(&self.driver, job, progress) {
                Ok(session) => {
                    self.session = Some(session);
                    self.stage = BurnStage::Writing;
                    BurnAction::Continue
                },
                Err(e) => {
                    self.stage = BurnStage::Failed;
                    BurnAction::Fail(e)
                },
            },
            None => {
                self.stage = BurnStage::Failed;
                BurnAction::Fail(CdrDriverError::InvalidResponse)
            },
        }
    }

    fn write_step(&mut self) -> (action: BurnAction)
        requires
            old(self).wf(),
            old(self).stage_view() == BurnStage::Writing,
        ensures
            Self::advanced(*old(self), *final(self), action),
    {
        let mut slot: Option<BurnWriteSession<S, P>> = None;
        std::mem::swap(&mut slot, &mut self.session);
        match slot {
            Some(mut session) => {
                let r = session.step();
                match r {
                    Ok(BurnWriteStep::Wrote) => {
                        self.session = Some(session);
                        BurnAction::Report
                    },
                    Ok(BurnWriteStep::StartedTrack) => {
                        self.session = Some(session);
                        BurnAction::Continue
                    },
                    Ok(BurnWriteStep::Finished) => {
                        self.progress = session.into_progress();
                        self.stage = BurnStage::LeadOut;
                        BurnAction::Continue
                    },
                    Err(e) => {
                        self.session = Some(session);
                        self.stage = BurnStage::Failed;
                        BurnAction::Fail(e)
                    },
                }
            },
            None => {
                self.stage = BurnStage::Failed;
                BurnAction::Fail(CdrDriverError::InvalidResponse)
            },
        }
    }

    /// Moves to `next` after a drive operation that succeeded, or fails with
    /// its error.
    fn finish_operation(&mut self, r: Result<(), CdrDriverError>, next: BurnStage) -> (action:
        BurnAction)
        ensures
            stage_outcome(r, next, final(self).stage_view(), action),
            final(self).driver == old(self).driver,
            final(self).job == old(self).job,
            final(self).session == old(self).session,
            final(self).progress == old(self).progress,
            final(self).next_writable == old(self).next_writable,
            final(self).lengths == old(self).lengths,
            final(self).producers == old(self).producers,
            final(self).dry == old(self).dry,
    {
        match r {
            Ok(()) => {
                self.stage = next;
                BurnAction::Continue
            },
            Err(e) => {
                self.stage = BurnStage::Failed;
                BurnAction::Fail(e)
            },
        }
    }
}

/// A burn only moves forward: advancing keeps the stage or moves to a later
/// one, and keeps it only while waiting for the drive or writing data.
pub proof fn lemma_burn_moves_forward<S: ScsiDriver, P: FrameProducer>(
    before: BurnRun<S, P>,
    after: BurnRun<S, P>,
    action: BurnAction,
)
    requires
        BurnRun::<S, P>::advanced(before, after, action),
    ensures
        stage_rank(before.stage_view()) <= stage_rank(after.stage_view()),
        after.stage_view() == before.stage_view() ==> is_wait(before.stage_view())
            || before.stage_view() == BurnStage::Writing,
{
}

/// A burn reports progress only at the stages that change it or announce
/// it: the start, the set-up before writing, each frame written, and the
/// lead-out.
pub proof fn lemma_burn_reports<S: ScsiDriver, P: FrameProducer>(
    before: BurnRun<S, P>,
    after: BurnRun<S, P>,
    action: BurnAction,
)
    requires
        BurnRun::<S, P>::advanced(before, after, action),
        action is Report,
    ensures
        before.stage_view() == BurnStage::Announce || before.stage_view()
            == BurnStage::AnnounceWriting || before.stage_view() == BurnStage::Writing
            || before.stage_view() == BurnStage::LeadOut,
{
}

/// Whether the progress of a burn in this stage shows the lead-out as the
/// current task: from the lead-out on, until the burn completes.
pub open spec fn lead_out_shown<S: ScsiDriver, P: FrameProducer>(run: BurnRun<S, P>) -> bool {
    let stage = run.stage_view();
    (stage == BurnStage::FlushCache || stage == BurnStage::AwaitFlushed || stage
        == BurnStage::FlushCacheAgain || stage == BurnStage::Complete)
        ==> run.progress_view().current_task == BurnDaoAudioCdJobProgressTask::WriteLeadOut
}

/// Over a whole burn, from its first stage, every progress it reports keeps
/// the task order it started with, and a burn that completes last shows the
/// lead-out as its current task.
pub proof fn lemma_burn_progress<S: ScsiDriver, P: FrameProducer>(
    runs: Seq<BurnRun<S, P>>,
    actions: Seq<BurnAction>,
)
    requires
        runs.len() == actions.len() + 1,
        runs[0].wf(),
        runs[0].stage_view() == BurnStage::Announce,
        forall|i: int|
            #![trigger actions[i]]
            0 <= i < actions.len() ==> BurnRun::<S, P>::advanced(runs[i], runs[i + 1], actions[i]),
    ensures
        forall|i: int|
            0 <= i < runs.len() ==> #[trigger] runs[i].progress_view().task_order@ == runs[0].progress_view().task_order@,
        forall|i: int| 0 <= i < runs.len() ==> lead_out_shown(#[trigger] runs[i]),
        actions.len() > 0 && actions.last() is Complete ==> runs.last().progress_view().current_task
            == BurnDaoAudioCdJobProgressTask::WriteLeadOut,
    decreases actions.len(),
{
    if actions.len() > 0 {
        let n = actions.len() - 1;
        lemma_burn_progress(runs.drop_last(), actions.drop_last());
        assert(runs.drop_last()[n] == runs[n]);
        assert(BurnRun::<S, P>::advanced(runs[n], runs[n + 1], actions[n]));
        if n > 0 {
            assert(BurnRun::<S, P>::advanced(runs[n - 1], runs[n], actions[n - 1]));
        }
        lemma_advance_keeps_task_order(runs[n], runs[n + 1], actions[n]);
        assert forall|i: int| 0 <= i < runs.len() implies #[trigger] runs[i].progress_view().task_order@
            == runs[0].progress_view().task_order@ by {
            if i < runs.len() - 1 {
                assert(runs.drop_last()[i] == runs[i]);
            }
        }
        assert forall|i: int| 0 <= i < runs.len() implies lead_out_shown(#[trigger] runs[i]) by {
            if i < runs.len() - 1 {
                assert(runs.drop_last()[i] == runs[i]);
            }
        }
    }
}

/// One advance keeps the task order of the progress, and shows the lead-out
/// from the lead-out on.
proof fn lemma_advance_keeps_task_order<S: ScsiDriver, P: FrameProducer>(
    before: BurnRun<S, P>,
    after: BurnRun<S, P>,
    action: BurnAction,
)
    requires
        before.wf(),
        BurnRun::<S, P>::advanced(before, after, action),
        lead_out_shown(before),
    ensures
        after.progress_view().task_order@ == before.progress_view().task_order@,
        lead_out_shown(after),
        action is Complete ==> after.stage_view() == BurnStage::Complete,
{
    if before.stage_view() == BurnStage::Writing {
        let (r, s) = choose|r: Result<BurnWriteStep, CdrDriverError>, s: BurnWriteSession<S, P>|
            BurnWriteSession::<S, P>::step_effect(before.session_view(), s, r) && match r {
                Ok(BurnWriteStep::Wrote) => after.stage_view() == BurnStage::Writing && action is Report
                    && after.session_view() == s,
                Ok(BurnWriteStep::StartedTrack) => after.stage_view() == BurnStage::Writing
                    && action is Continue && after.session_view() == s,
                Ok(BurnWriteStep::Finished) => after.stage_view() == BurnStage::LeadOut
                    && action is Continue && after.progress_view() == s.progress_spec(),
                Err(e) => after.stage_view() == BurnStage::Failed && action == BurnAction::Fail(e)
                    && after.progress_view() == s.progress_spec(),
            };
        assert(before.progress_view() == before.session_view().progress_spec());
    }
}

} // verus!
