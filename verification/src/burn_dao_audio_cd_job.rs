//! Burning an audio CD in one session (disc at once): the job, its cue
//! sheet, its progress, and the writing of lead-in and track data.

use crate::addresses::{
    msf_period, lemma_msf_add_mod_left, lemma_msf_of_count_frames, msf_frame_count, msf_of_count, Lba, Msf,
};
use crate::cue_sheet::{
    cue_sheet_bytes, CueSheet, CueSheetControl, CueSheetDataForm, CueSheetDataFormSubchannel,
    CueSheetTransition, TRACK_LEAD_OUT,
};
use crate::driver::mmc::{
    lock_media_cmd, opc_cmd, send_cue_sheet_cmd, set_speed_cmd,
    speed_value, write_session_result, MmcDriver,
};
use crate::driver::{flushed_with, CdrDriverError, CdrSessionFormat, Progress, Writer};
use crate::scsi::{ScsiDriver, Transfer};
use vstd::prelude::*;

pub mod run;

verus! {

/// Bytes in one audio frame.
pub const FRAME_SIZE: usize = 2352;

/// Frames of silence written as lead-in before the first track.
pub const LEAD_IN_FRAMES: u64 = 150;

/// Where the audio of a track comes from: each call fills one frame.
pub trait FrameProducer: Sized {
    /// Whether a producer in this state, handed a frame holding
    /// `frame_before`, may leave the frame holding `frame_after` and itself in
    /// the state `after`. A producer that does not describe itself further
    /// allows anything; code that works for every producer cannot rely on
    /// that.
    closed spec fn may_produce(
        &self,
        frame_before: Seq<u8>,
        after: Self,
        frame_after: Seq<u8>,
    ) -> bool {
        true
    }

    /// Fills `frame` with the next frame of audio.
    fn produce(&mut self, frame: &mut [u8; 2352])
        ensures
            old(self).may_produce(old(frame)@, *final(self), final(frame)@),
    ;
}

pub struct BurnDaoAudioCdTrack<P: FrameProducer> {
    length: u32,
    producer: P,
}

impl<P: FrameProducer> BurnDaoAudioCdTrack<P> {
    /// A track of `length` frames whose audio comes from `producer`.
    pub fn new(length: u32, producer: P) -> (r: Self)
        ensures
            r.length() == length,
            r.producer() == producer,
    {
        Self { length, producer }
    }

    pub closed spec fn length(&self) -> u32 {
        self.length
    }

    pub closed spec fn producer(&self) -> P {
        self.producer
    }
}

pub struct BurnDaoAudioCdJob<P: FrameProducer> {
    dry: bool,
    tracks: Vec<BurnDaoAudioCdTrack<P>>,
}

#[derive(Copy, Clone, Eq, PartialEq, Debug, Hash, Structural)]
pub enum BurnDaoAudioCdJobProgressTask {
    PowerCalibration,
    WriteLeadIn,
    WriteTrack(u8),
    WriteLeadOut,
}

/// Progress of a burn: per task, in the order the tasks run, and which task
/// runs now. `task_progress` holds one entry per task that has progress
/// (see `wf`); should a task have more than one entry, the first one counts.
#[derive(Clone, Debug)]
pub struct BurnDaoAudioCdJobProgress {
    pub task_progress: Vec<(BurnDaoAudioCdJobProgressTask, Progress)>,
    pub task_order: Vec<BurnDaoAudioCdJobProgressTask>,
    pub total_progress: Progress,
    pub current_task: BurnDaoAudioCdJobProgressTask,
}

/// The progress recorded for `task`: that of its first entry.
pub open spec fn progress_lookup(
    entries: Seq<(BurnDaoAudioCdJobProgressTask, Progress)>,
    task: BurnDaoAudioCdJobProgressTask,
) -> Option<Progress>
    decreases entries.len(),
{
    if entries.len() == 0 {
        None
    } else if entries[0].0 == task {
        Some(entries[0].1)
    } else {
        progress_lookup(entries.drop_first(), task)
    }
}

/// The index of the first entry for `task`, if there is one.
pub open spec fn progress_index(
    entries: Seq<(BurnDaoAudioCdJobProgressTask, Progress)>,
    task: BurnDaoAudioCdJobProgressTask,
) -> Option<int>
    decreases entries.len(),
{
    if entries.len() == 0 {
        None
    } else if entries[0].0 == task {
        Some(0)
    } else {
        match progress_index(entries.drop_first(), task) {
            Some(i) => Some(i + 1),
            None => None,
        }
    }
}

proof fn lemma_progress_index(
    entries: Seq<(BurnDaoAudioCdJobProgressTask, Progress)>,
    task: BurnDaoAudioCdJobProgressTask,
)
    ensures
        match progress_index(entries, task) {
            Some(i) => 0 <= i < entries.len() && entries[i].0 == task && (forall|j: int|
                0 <= j < i ==> entries[j].0 != task) && progress_lookup(entries, task) == Some(
                entries[i].1,
            ),
            None => (forall|j: int| 0 <= j < entries.len() ==> entries[j].0 != task)
                && progress_lookup(entries, task) is None,
        },
    decreases entries.len(),
{
    if entries.len() > 0 {
        lemma_progress_index(entries.drop_first(), task);
        if entries[0].0 != task {
            assert forall|j: int| 1 <= j < entries.len() implies entries[j] == entries.drop_first()[j
                - 1] by {}
        }
    }
}

proof fn lemma_lookup_update(
    entries: Seq<(BurnDaoAudioCdJobProgressTask, Progress)>,
    i: int,
    task: BurnDaoAudioCdJobProgressTask,
    progress: Progress,
    other: BurnDaoAudioCdJobProgressTask,
)
    requires
        0 <= i < entries.len(),
        entries[i].0 == task,
        forall|j: int| 0 <= j < i ==> entries[j].0 != task,
    ensures
        progress_lookup(entries.update(i, (task, progress)), task) == Some(progress),
        other != task ==> progress_lookup(entries.update(i, (task, progress)), other)
            == progress_lookup(entries, other),
    decreases entries.len(),
{
    let updated = entries.update(i, (task, progress));
    assert(updated[0] == (if i == 0 { (task, progress) } else { entries[0] }));
    if i == 0 {
        assert(updated.drop_first() =~= entries.drop_first());
    }
    if i > 0 {
        assert(updated.drop_first() =~= entries.drop_first().update(i - 1, (task, progress)));
        lemma_lookup_update(entries.drop_first(), i - 1, task, progress, other);
    }
}

proof fn lemma_lookup_push(
    entries: Seq<(BurnDaoAudioCdJobProgressTask, Progress)>,
    task: BurnDaoAudioCdJobProgressTask,
    progress: Progress,
    other: BurnDaoAudioCdJobProgressTask,
)
    requires
        forall|j: int| 0 <= j < entries.len() ==> entries[j].0 != task,
    ensures
        progress_lookup(entries.push((task, progress)), task) == Some(progress),
        other != task ==> progress_lookup(entries.push((task, progress)), other)
            == progress_lookup(entries, other),
    decreases entries.len(),
{
    let pushed = entries.push((task, progress));
    if entries.len() > 0 {
        assert(pushed[0] == entries[0]);
        assert(pushed.drop_first() =~= entries.drop_first().push((task, progress)));
        assert forall|j: int| 0 <= j < entries.drop_first().len() implies entries.drop_first()[j].0
            != task by {
            assert(entries.drop_first()[j] == entries[j + 1]);
        }
        lemma_lookup_push(entries.drop_first(), task, progress, other);
    } else {
        assert(pushed.drop_first() =~= Seq::<(BurnDaoAudioCdJobProgressTask, Progress)>::empty());
        assert(progress_lookup(pushed.drop_first(), other) is None);
        assert(pushed[0] == (task, progress));
    }
}

/// No task has two entries.
pub open spec fn progress_entries_unique(entries: Seq<(BurnDaoAudioCdJobProgressTask, Progress)>) -> bool {
    forall|i: int, j: int| 0 <= i < j < entries.len() ==> entries[i].0 != entries[j].0
}

impl BurnDaoAudioCdJobProgress {
    /// Every task has at most one progress entry.
    pub open spec fn wf(&self) -> bool {
        progress_entries_unique(self.task_progress@)
    }

    /// Moves on to the lead-out: it becomes the current task, with no
    /// progress to report.
    pub fn begin_lead_out(&mut self)
        ensures
            old(self).wf() ==> final(self).wf(),
            final(self).current_task == BurnDaoAudioCdJobProgressTask::WriteLeadOut,
            progress_lookup(final(self).task_progress@, BurnDaoAudioCdJobProgressTask::WriteLeadOut)
                == Some(Progress { progress: 0, total: 0 }),
            forall|other: BurnDaoAudioCdJobProgressTask|
                other != BurnDaoAudioCdJobProgressTask::WriteLeadOut ==> #[trigger] progress_lookup(
                    final(self).task_progress@,
                    other,
                ) == progress_lookup(old(self).task_progress@, other),
            final(self).task_order@ == old(self).task_order@,
            final(self).total_progress == old(self).total_progress,
    {
        self.current_task = BurnDaoAudioCdJobProgressTask::WriteLeadOut;
        self.set_task_progress(BurnDaoAudioCdJobProgressTask::WriteLeadOut, Progress::new(0, 0));
    }

    /// The progress recorded for `task`.
    pub fn task_progress_of(&self, task: BurnDaoAudioCdJobProgressTask) -> (r: Option<Progress>)
        ensures
            r == progress_lookup(self.task_progress@, task),
    {
        let n = self.task_progress.len();
        let mut i: usize = 0;
        proof {
            lemma_progress_index(self.task_progress@, task);
        }
        while i < n
            invariant
                n == self.task_progress@.len(),
                i <= n,
                forall|j: int| 0 <= j < i ==> self.task_progress@[j].0 != task,
                match progress_index(self.task_progress@, task) {
                    Some(k) => 0 <= k < n && self.task_progress@[k].0 == task && progress_lookup(
                        self.task_progress@,
                        task,
                    ) == Some(self.task_progress@[k].1),
                    None => progress_lookup(self.task_progress@, task) is None,
                },
            decreases n - i,
        {
            let (t, p) = self.task_progress[i];
            if t == task {
                proof {
                    lemma_progress_index(self.task_progress@, task);
                }
                return Some(p);
            }
            i = i + 1;
        }
        proof {
            lemma_progress_index(self.task_progress@, task);
        }
        None
    }

    /// Records `progress` for `task`, replacing what was recorded for it.
    pub fn set_task_progress(&mut self, task: BurnDaoAudioCdJobProgressTask, progress: Progress)
        ensures
            old(self).wf() ==> final(self).wf(),
            progress_lookup(final(self).task_progress@, task) == Some(progress),
            forall|other: BurnDaoAudioCdJobProgressTask|
                other != task ==> #[trigger] progress_lookup(final(self).task_progress@, other)
                    == progress_lookup(old(self).task_progress@, other),
            final(self).task_order@ == old(self).task_order@,
            final(self).total_progress == old(self).total_progress,
            final(self).current_task == old(self).current_task,
    {
        let n = self.task_progress.len();
        let mut i: usize = 0;
        while i < n
            invariant
                n == self.task_progress@.len(),
                self.task_progress@ == old(self).task_progress@,
                self.task_order@ == old(self).task_order@,
                self.total_progress == old(self).total_progress,
                self.current_task == old(self).current_task,
                i <= n,
                forall|j: int| 0 <= j < i ==> self.task_progress@[j].0 != task,
            decreases n - i,
        {
            let (t, _) = self.task_progress[i];
            if t == task {
                let ghost before = self.task_progress@;
                self.task_progress.set(i, (task, progress));
                assert(forall|k: int| 0 <= k < n ==> #[trigger] self.task_progress@[k].0 == before[k].0);
                proof {
                    assert forall|other: BurnDaoAudioCdJobProgressTask| other != task implies #[trigger] progress_lookup(
                        self.task_progress@,
                        other,
                    ) == progress_lookup(before, other) by {
                        lemma_lookup_update(before, i as int, task, progress, other);
                    }
                    lemma_lookup_update(before, i as int, task, progress, task);
                }
                return;
            }
            i = i + 1;
        }
        let ghost before = self.task_progress@;
        self.task_progress.push((task, progress));
        assert(forall|k: int| 0 <= k < n ==> #[trigger] self.task_progress@[k] == before[k]);
        proof {
            assert forall|other: BurnDaoAudioCdJobProgressTask| other != task implies #[trigger] progress_lookup(
                self.task_progress@,
                other,
            ) == progress_lookup(before, other) by {
                lemma_lookup_push(before, task, progress, other);
            }
            lemma_lookup_push(before, task, progress, task);
        }
    }
}

/// The sum of the first `count` track lengths.
pub open spec fn length_prefix_sum(lengths: Seq<u32>, count: int) -> nat
    decreases count,
{
    if count <= 0 {
        0
    } else {
        length_prefix_sum(lengths, count - 1) + lengths[count - 1] as nat
    }
}

/// The order in which the tasks of a burn of `track_count` tracks run.
pub open spec fn task_order_for(track_count: nat) -> Seq<BurnDaoAudioCdJobProgressTask> {
    seq![BurnDaoAudioCdJobProgressTask::PowerCalibration, BurnDaoAudioCdJobProgressTask::WriteLeadIn]
        + Seq::new(
        track_count,
        |i: int| BurnDaoAudioCdJobProgressTask::WriteTrack((i % 256) as u8),
    ) + seq![BurnDaoAudioCdJobProgressTask::WriteLeadOut]
}

/// An audio transition of the cue sheet.
pub open spec fn audio_transition(
    track: u8,
    index: u8,
    data_form: CueSheetDataForm,
    address: Msf,
) -> CueSheetTransition {
    CueSheetTransition {
        control: CueSheetControl::Audio,
        track,
        index,
        data_form_subchannel: CueSheetDataFormSubchannel::NoSubchannel,
        data_form,
        scms: 0,
        address,
    }
}

/// Where track `i` (counting from 0) starts: after the 2-second pregap and
/// the tracks before it.
pub open spec fn track_start(lengths: Seq<u32>, i: int) -> Msf {
    msf_of_count(150 + length_prefix_sum(lengths, i))
}

/// The cue sheet of a disc with tracks of these lengths: the lead-in
/// (track 0), the pregap of track 1 at 00:00:00, each track from its start,
/// then the lead-out after the last track.
pub open spec fn job_cue_sheet(lengths: Seq<u32>) -> Seq<CueSheetTransition> {
    seq![
        audio_transition(0, 0, CueSheetDataForm::Rom1, Msf { minutes: 0, seconds: 0, frames: 0 }),
        audio_transition(1, 0, CueSheetDataForm::DigitalAudio, Msf { minutes: 0, seconds: 0, frames: 0 }),
    ] + Seq::new(
        lengths.len(),
        |i: int|
            audio_transition(
                ((i + 1) % 256) as u8,
                1,
                CueSheetDataForm::DigitalAudio,
                track_start(lengths, i),
            ),
    ) + seq![
        audio_transition(
            TRACK_LEAD_OUT,
            1,
            CueSheetDataForm::Rom1,
            track_start(lengths, lengths.len() as int),
        ),
    ]
}


/// The total that the set-up before writing records for the task
/// `WriteTrack(number)`: the length of the last of the first `count` tracks
/// whose index is `number` modulo 256 (track numbers are kept in a byte).
pub open spec fn last_track_total(lengths: Seq<u32>, count: int, number: u8) -> Option<Progress>
    decreases count,
{
    if count <= 0 {
        None
    } else if (count - 1) % 256 == number as int {
        Some(Progress { progress: 0, total: lengths[count - 1] as u64 })
    } else {
        last_track_total(lengths, count - 1, number)
    }
}

/// The progress recorded before data is written: power calibration done,
/// lead-in next with 150 frames, every track with no frame of its length
/// written.
pub open spec fn writing_set_up(
    before: BurnDaoAudioCdJobProgress,
    after: BurnDaoAudioCdJobProgress,
    lengths: Seq<u32>,
) -> bool {
    &&& after.task_order@ == before.task_order@
    &&& after.total_progress == before.total_progress
    &&& after.current_task == BurnDaoAudioCdJobProgressTask::WriteLeadIn
    &&& progress_lookup(after.task_progress@, BurnDaoAudioCdJobProgressTask::PowerCalibration)
        == Some(Progress { progress: 1, total: 1 })
    &&& progress_lookup(after.task_progress@, BurnDaoAudioCdJobProgressTask::WriteLeadIn) == Some(
        Progress { progress: 0, total: 150 },
    )
    &&& progress_lookup(after.task_progress@, BurnDaoAudioCdJobProgressTask::WriteLeadOut)
        == progress_lookup(before.task_progress@, BurnDaoAudioCdJobProgressTask::WriteLeadOut)
    &&& forall|number: u8|
        #[trigger] progress_lookup(
            after.task_progress@,
            BurnDaoAudioCdJobProgressTask::WriteTrack(number),
        ) == match last_track_total(lengths, lengths.len() as int, number) {
            Some(p) => Some(p),
            None => progress_lookup(
                before.task_progress@,
                BurnDaoAudioCdJobProgressTask::WriteTrack(number),
            ),
        }
}

/// Whether setting up a session may end with `r`: lock the media, select
/// the highest speed, set up the write parameters (test write when `dry`, no
/// underrun protection), then calibrate the laser unless `dry`; the first
/// step that fails gives the error.
pub open spec fn session_prepare_result<S: ScsiDriver>(
    device: S,
    dry: bool,
    r: Result<(), CdrDriverError>,
) -> bool {
    exists|o1|
        #![trigger device.may_answer(lock_media_cmd(true), Transfer::NoData, o1)]
        device.may_answer(lock_media_cmd(true), Transfer::NoData, o1) && match o1 {
            Err(e) => r == Err::<(), CdrDriverError>(CdrDriverError::ScsiError(e)),
            Ok(_) => exists|o2|
                #![trigger device.may_answer(set_speed_cmd(speed_value(None)), Transfer::NoData, o2)]
                device.may_answer(set_speed_cmd(speed_value(None)), Transfer::NoData, o2)
                    && match o2 {
                    Err(e) => r == Err::<(), CdrDriverError>(CdrDriverError::ScsiError(e)),
                    Ok(_) => exists|w: Result<(), CdrDriverError>|
                        #![trigger write_session_result(device, dry, false, w)]
                        write_session_result(device, dry, false, w) && match w {
                            Err(e) => r == Err::<(), CdrDriverError>(e),
                            Ok(_) => if dry {
                                r is Ok
                            } else {
                                exists|o3|
                                    #![trigger device.may_answer(opc_cmd(), Transfer::NoData, o3)]
                                    device.may_answer(opc_cmd(), Transfer::NoData, o3) && match o3 {
                                        Err(e) => r == Err::<(), CdrDriverError>(
                                            CdrDriverError::ScsiError(e),
                                        ),
                                        Ok(_) => r is Ok,
                                    }
                            },
                        },
                },
        }
}

/// Whether the device may have answered SEND CUE SHEET, carrying the cue
/// sheet of a disc with tracks of `lengths`, so that sending it gives `r`.
pub open spec fn cue_sheet_sent<S: ScsiDriver>(
    device: S,
    lengths: Seq<u32>,
    r: Result<(), CdrDriverError>,
) -> bool {
    let bytes = cue_sheet_bytes(job_cue_sheet(lengths));
    exists|o|
        #![trigger device.may_answer(send_cue_sheet_cmd(bytes.len()), Transfer::Input(bytes), o)]
        device.may_answer(send_cue_sheet_cmd(bytes.len()), Transfer::Input(bytes), o) && match o {
            Ok(_) => r is Ok,
            Err(e) => r == Err::<(), CdrDriverError>(CdrDriverError::ScsiError(e)),
        }
}

impl<P: FrameProducer> BurnDaoAudioCdJob<P> {
    pub closed spec fn dry(&self) -> bool {
        self.dry
    }

    /// The tracks, in burning order.
    pub closed spec fn tracks(&self) -> Seq<BurnDaoAudioCdTrack<P>> {
        self.tracks@
    }

    /// The lengths of the tracks, in frames, in burning order.
    pub open spec fn track_lengths(&self) -> Seq<u32> {
        self.tracks().map_values(|t: BurnDaoAudioCdTrack<P>| t.length())
    }

    /// The producers of the tracks, in burning order.
    pub open spec fn track_producers(&self) -> Seq<P> {
        self.tracks().map_values(|t: BurnDaoAudioCdTrack<P>| t.producer())
    }

    pub fn new() -> (r: BurnDaoAudioCdJob<P>)
        ensures
            !r.dry(),
            r.tracks() == Seq::<BurnDaoAudioCdTrack<P>>::empty(),
    {
        Self { dry: false, tracks: Vec::new() }
    }

    pub fn set_dry(&mut self, dry: bool)
        ensures
            final(self).dry() == dry,
            final(self).tracks() == old(self).tracks(),
    {
        self.dry = dry;
    }

    pub fn push_track(&mut self, track: BurnDaoAudioCdTrack<P>)
        ensures
            final(self).dry() == old(self).dry(),
            final(self).tracks() == old(self).tracks().push(track),
    {
        self.tracks.push(track);
    }

    /// The progress of the job before any of it is done: its tasks in order,
    /// no task progress, power calibration running.
    pub fn initial_progress(&self) -> (r: BurnDaoAudioCdJobProgress)
        ensures
            r.wf(),
            r.task_order@ == task_order_for(self.track_lengths().len()),
            r.task_progress@ == Seq::<(BurnDaoAudioCdJobProgressTask, Progress)>::empty(),
            r.total_progress == (Progress { progress: 0, total: 0 }),
            r.current_task == BurnDaoAudioCdJobProgressTask::PowerCalibration,
    {
        let n = self.tracks.len();
        let mut order: Vec<BurnDaoAudioCdJobProgressTask> = Vec::new();
        order.push(BurnDaoAudioCdJobProgressTask::PowerCalibration);
        order.push(BurnDaoAudioCdJobProgressTask::WriteLeadIn);
        let ghost track_tasks = Seq::new(
            n as nat,
            |i: int| BurnDaoAudioCdJobProgressTask::WriteTrack((i % 256) as u8),
        );
        let mut i: usize = 0;
        while i < n
            invariant
                i <= n,
                order@ == seq![
                    BurnDaoAudioCdJobProgressTask::PowerCalibration,
                    BurnDaoAudioCdJobProgressTask::WriteLeadIn,
                ] + track_tasks.take(i as int),
                track_tasks == Seq::new(
                    n as nat,
                    |j: int| BurnDaoAudioCdJobProgressTask::WriteTrack((j % 256) as u8),
                ),
            decreases n - i,
        {
            order.push(BurnDaoAudioCdJobProgressTask::WriteTrack((i % 256) as u8));
            assert(track_tasks.take(i + 1) =~= track_tasks.take(i as int).push(
                BurnDaoAudioCdJobProgressTask::WriteTrack((i % 256) as u8),
            ));
            i = i + 1;
        }
        order.push(BurnDaoAudioCdJobProgressTask::WriteLeadOut);
        assert(track_tasks.take(n as int) =~= track_tasks);
        assert(order@ =~= task_order_for(self.track_lengths().len()));
        BurnDaoAudioCdJobProgress {
            task_order: order,
            task_progress: Vec::new(),
            total_progress: Progress::new(0, 0),
            current_task: BurnDaoAudioCdJobProgressTask::PowerCalibration,
        }
    }

    /// The cue sheet of the disc this job writes.
    pub fn cue_sheet(&self) -> (r: CueSheet)
        ensures
            r@ == job_cue_sheet(self.track_lengths()),
    {
        let ghost lengths = self.track_lengths();
        let mut cue_sheet = CueSheet::new();
        cue_sheet.push_transition(
            CueSheetTransition {
                control: CueSheetControl::Audio,
                track: 0,
                index: 0,
                data_form_subchannel: CueSheetDataFormSubchannel::NoSubchannel,
                data_form: CueSheetDataForm::Rom1,
                scms: 0,
                address: Msf::new(0, 0, 0),
            },
        );
        cue_sheet.push_transition(
            CueSheetTransition {
                control: CueSheetControl::Audio,
                track: 1,
                index: 0,
                data_form_subchannel: CueSheetDataFormSubchannel::NoSubchannel,
                data_form: CueSheetDataForm::DigitalAudio,
                scms: 0,
                address: Msf::new(0, 0, 0),
            },
        );
        let ghost head = cue_sheet@;
        let ghost body = Seq::new(
            lengths.len(),
            |i: int|
                audio_transition(
                    ((i + 1) % 256) as u8,
                    1,
                    CueSheetDataForm::DigitalAudio,
                    track_start(lengths, i),
                ),
        );
        let mut current_address = Msf::seconds(2);
        assert(current_address == track_start(lengths, 0)) by {
            assert(msf_of_count(150) == Msf { minutes: 0, seconds: 2, frames: 0 });
        }
        let n = self.tracks.len();
        let mut i: usize = 0;
        while i < n
            invariant
                n == lengths.len(),
                i <= n,
                lengths == self.track_lengths(),
                cue_sheet@ == head + body.take(i as int),
                body == Seq::new(
                    lengths.len(),
                    |j: int|
                        audio_transition(
                            ((j + 1) % 256) as u8,
                            1,
                            CueSheetDataForm::DigitalAudio,
                            track_start(lengths, j),
                        ),
                ),
                current_address == track_start(lengths, i as int),
            decreases n - i,
        {
            let length = self.tracks[i].length;
            assert(length == lengths[i as int]);
            cue_sheet.push_transition(
                CueSheetTransition {
                    control: CueSheetControl::Audio,
                    track: ((i + 1) % 256) as u8,
                    index: 1,
                    data_form_subchannel: CueSheetDataFormSubchannel::NoSubchannel,
                    data_form: CueSheetDataForm::DigitalAudio,
                    scms: 0,
                    address: current_address,
                },
            );
            assert(body.take(i + 1) =~= body.take(i as int).push(body[i as int]));
            proof {
                let before = 150 + length_prefix_sum(lengths, i as int);
                lemma_msf_of_count_frames(before);
            }
            current_address = current_address.add_lba(Lba(length as u64));
            proof {
                let before = 150 + length_prefix_sum(lengths, i as int);
                lemma_msf_add_mod_left(before, length as nat);
                assert(length_prefix_sum(lengths, i + 1) == length_prefix_sum(lengths, i as int)
                    + length);
            }
            i = i + 1;
        }
        cue_sheet.push_transition(
            CueSheetTransition {
                control: CueSheetControl::Audio,
                track: TRACK_LEAD_OUT,
                index: 1,
                data_form_subchannel: CueSheetDataFormSubchannel::NoSubchannel,
                data_form: CueSheetDataForm::Rom1,
                scms: 0,
                address: current_address,
            },
        );
        assert(body.take(n as int) =~= body);
        assert(cue_sheet@ =~= job_cue_sheet(lengths));
        cue_sheet
    }


    /// Records the progress of the set-up once the cue sheet is sent: power
    /// calibration complete, the lead-in running with 150 frames to write,
    /// and each track with its length to write.
    pub fn set_up_writing_progress(&self, progress: &mut BurnDaoAudioCdJobProgress)
        ensures
            writing_set_up(*old(progress), *final(progress), self.track_lengths()),
            old(progress).wf() ==> final(progress).wf(),
    {
        let ghost lengths = self.track_lengths();
        progress.set_task_progress(
            BurnDaoAudioCdJobProgressTask::PowerCalibration,
            Progress::new(1, 1),
        );
        progress.current_task = BurnDaoAudioCdJobProgressTask::WriteLeadIn;
        progress.set_task_progress(BurnDaoAudioCdJobProgressTask::WriteLeadIn, Progress::new(0, 150));
        let ghost start = *progress;
        let n = self.tracks.len();
        let mut i: usize = 0;
        while i < n
            invariant
                n == lengths.len(),
                lengths == self.track_lengths(),
                i <= n,
                progress.task_order@ == old(progress).task_order@,
                progress.total_progress == old(progress).total_progress,
                progress.current_task == BurnDaoAudioCdJobProgressTask::WriteLeadIn,
                old(progress).wf() ==> progress.wf(),
                progress_lookup(
                    progress.task_progress@,
                    BurnDaoAudioCdJobProgressTask::PowerCalibration,
                ) == Some(Progress { progress: 1, total: 1 }),
                progress_lookup(progress.task_progress@, BurnDaoAudioCdJobProgressTask::WriteLeadIn)
                    == Some(Progress { progress: 0, total: 150 }),
                progress_lookup(progress.task_progress@, BurnDaoAudioCdJobProgressTask::WriteLeadOut)
                    == progress_lookup(
                    old(progress).task_progress@,
                    BurnDaoAudioCdJobProgressTask::WriteLeadOut,
                ),
                forall|number: u8|
                    #[trigger] progress_lookup(
                        progress.task_progress@,
                        BurnDaoAudioCdJobProgressTask::WriteTrack(number),
                    ) == match last_track_total(lengths, i as int, number) {
                        Some(p) => Some(p),
                        None => progress_lookup(
                            old(progress).task_progress@,
                            BurnDaoAudioCdJobProgressTask::WriteTrack(number),
                        ),
                    },
            decreases n - i,
        {
            let length = self.tracks[i].length;
            assert(length == lengths[i as int]);
            progress.set_task_progress(
                BurnDaoAudioCdJobProgressTask::WriteTrack((i % 256) as u8),
                Progress::new(0, length as u64),
            );
            i = i + 1;
        }
    }

    /// Sets up the drive for the session: locks the media, selects the
    /// highest speed, sets up the write parameters (test write when the job
    /// is dry, no underrun protection), and calibrates the laser unless the
    /// job is dry. Stops at the first step that fails.
    pub fn prepare_session<S: ScsiDriver>(&self, driver: &MmcDriver<S>) -> (r: Result<
        (),
        CdrDriverError,
    >)
        ensures
            session_prepare_result(driver.device(), self.dry(), r),
    {
        match driver.lock_media() {
            Ok(()) => {},
            Err(e) => {
                return Err(CdrDriverError::ScsiError(e));
            },
        }
        match driver.set_speed_multiplier(None) {
            Ok(()) => {},
            Err(e) => {
                return Err(e);
            },
        }
        match driver.start_write_session(self.dry, false, CdrSessionFormat::CdDigitalAudio) {
            Ok(()) => {},
            Err(e) => {
                return Err(e);
            },
        }
        if !self.dry {
            match driver.calibrate_laser_power() {
                Ok(()) => {},
                Err(e) => {
                    return Err(CdrDriverError::ScsiError(e));
                },
            }
        }
        Ok(())
    }

    /// Sends the job's cue sheet to the drive.
    pub fn send_cue_sheet<S: ScsiDriver>(&self, driver: &MmcDriver<S>) -> (r: Result<
        (),
        CdrDriverError,
    >)
        ensures
            cue_sheet_sent(driver.device(), self.track_lengths(), r),
    {
        let cue_sheet = self.cue_sheet();
        let bytes = cue_sheet.generate();
        driver.send_cue_sheet(bytes.as_slice())
    }
}

/// What one step of writing did.
#[derive(Debug, Clone, Copy, Eq, PartialEq, Structural)]
pub enum BurnWriteStep {
    /// One frame was written; the progress has changed.
    Wrote,
    /// A track was taken up (its progress set to none of its frames written).
    StartedTrack,
    /// All data was written and sent to the drive.
    Finished,
}

/// The data-writing part of a burn: 150 frames of silence, then the frames
/// of each track, then a flush of what is still queued. It runs one step at
/// a time so that progress can be reported between frames.
pub struct BurnWriteSession<S: ScsiDriver, P: FrameProducer> {
    writer: Writer<S>,
    lengths: Vec<u32>,
    producers: Vec<P>,
    current: Option<P>,
    progress: BurnDaoAudioCdJobProgress,
    lead_in_done: u64,
    track: usize,
    frames_done: u32,
    frame: [u8; 2352],
    finished: bool,
}

/// A frame of silence.
pub open spec fn silent_frame() -> Seq<u8> {
    Seq::new(2352, |i: int| 0u8)
}

impl<S: ScsiDriver, P: FrameProducer> BurnWriteSession<S, P> {
    pub closed spec fn writer(&self) -> Writer<S> {
        self.writer
    }

    pub closed spec fn lengths(&self) -> Seq<u32> {
        self.lengths@
    }

    pub closed spec fn progress_spec(&self) -> BurnDaoAudioCdJobProgress {
        self.progress
    }

    /// Frames of lead-in written so far.
    pub closed spec fn lead_in_done(&self) -> nat {
        self.lead_in_done as nat
    }

    /// The index of the track being written (or the number of tracks once
    /// all are written).
    pub closed spec fn track(&self) -> nat {
        self.track as nat
    }

    /// Frames of the current track written so far.
    pub closed spec fn frames_done(&self) -> nat {
        self.frames_done as nat
    }

    /// Whether the current track has been taken up.
    pub closed spec fn track_started(&self) -> bool {
        self.current is Some
    }

    pub closed spec fn finished(&self) -> bool {
        self.finished
    }

    /// The last frame the current track's producer filled.
    pub closed spec fn last_frame(&self) -> Seq<u8> {
        self.frame@
    }

    /// The producers of the tracks not yet taken up, in track order.
    pub closed spec fn pending_producers(&self) -> Seq<P> {
        self.producers@
    }

    /// The producer of the track being written.
    pub closed spec fn current_producer(&self) -> P {
        self.current->0
    }

    /// The writer's next address counts the lead-in, the tracks done and
    /// the frames of the current track; the tracks not yet taken up each
    /// have a producer left.
    pub closed spec fn wf(&self) -> bool {
        &&& self.writer.wf()
        &&& self.writer.block_size() == 2352
        &&& self.lead_in_done <= 150
        &&& self.track <= self.lengths@.len()
        &&& self.lead_in_done < 150 ==> self.track == 0 && self.current is None
        &&& self.current is None ==> self.frames_done == 0
        &&& self.current is Some ==> self.track < self.lengths@.len() && self.frames_done
            < self.lengths@[self.track as int]
        &&& self.producers@.len() + self.track + (if self.current is Some {
            1int
        } else {
            0int
        }) == self.lengths@.len()
        &&& self.writer.next_address().0 == self.lead_in_done + length_prefix_sum(
            self.lengths@,
            self.track as int,
        ) + self.frames_done
        &&& 150 + length_prefix_sum(self.lengths@, self.lengths@.len() as int) < u64::MAX
    }

    pub fn progress(&self) -> (r: &BurnDaoAudioCdJobProgress)
        ensures
            *r == self.progress_spec(),
    {
        &self.progress
    }

    pub fn into_progress(self) -> (r: BurnDaoAudioCdJobProgress)
        ensures
            r == self.progress_spec(),
    {
        self.progress
    }

    /// Starts writing `job` at address 0 of `driver`, with `progress` as the
    /// progress so far. The job's data (lead-in and tracks) must fit below
    /// the largest block address.
    pub fn new(driver: &MmcDriver<S>, job: BurnDaoAudioCdJob<P>, progress: BurnDaoAudioCdJobProgress) -> (r:
        Result<Self, CdrDriverError>)
        requires
            150 + length_prefix_sum(job.track_lengths(), job.track_lengths().len() as int)
                < u64::MAX,
        ensures
            r matches Ok(s) && s.wf() && s.lengths() == job.track_lengths()
                && s.progress_spec() == progress && s.lead_in_done() == 0 && s.track() == 0
                && !s.track_started() && !s.finished() && s.writer().device() == driver.device()
                && s.writer().queued() == Seq::<u8>::empty()
                && s.pending_producers() == job.track_producers()
                && s.last_frame() == silent_frame(),
    {
        let writer = match driver.start_write10(Lba(0)) {
            Ok(w) => w,
            Err(e) => {
                return Err(e);
            },
        };
        let ghost lengths = job.track_lengths();
        let mut tracks = job.tracks;
        let n = tracks.len();
        let mut length_vec: Vec<u32> = Vec::new();
        let mut i: usize = 0;
        while i < n
            invariant
                n == tracks@.len(),
                i <= n,
                lengths == tracks@.map_values(|t: BurnDaoAudioCdTrack<P>| t.length),
                length_vec@ == lengths.take(i as int),
            decreases n - i,
        {
            length_vec.push(tracks[i].length);
            assert(length_vec@ =~= lengths.take(i + 1));
            i = i + 1;
        }
        assert(length_vec@ =~= lengths);
        let ghost all = job.track_producers();
        assert(all =~= tracks@.map_values(|t: BurnDaoAudioCdTrack<P>| t.producer));
        let mut producers: Vec<P> = Vec::new();
        while tracks.len() > 0
            invariant
                producers@.len() + tracks@.len() == n,
                producers@ + tracks@.map_values(|t: BurnDaoAudioCdTrack<P>| t.producer) == all,
            decreases tracks@.len(),
        {
            let ghost before = tracks@;
            let track = tracks.remove(0);
            assert(tracks@.map_values(|t: BurnDaoAudioCdTrack<P>| t.producer) =~= before.map_values(
                |t: BurnDaoAudioCdTrack<P>| t.producer,
            ).drop_first());
            producers.push(track.producer);
            assert(producers@ + tracks@.map_values(|t: BurnDaoAudioCdTrack<P>| t.producer)
                =~= all);
        }
        assert(producers@ =~= all);
        let frame = [0u8; 2352];
        assert(frame@ =~= silent_frame());
        Ok(BurnWriteSession {
            writer,
            lengths: length_vec,
            producers,
            current: None,
            progress,
            lead_in_done: 0,
            track: 0,
            frames_done: 0,
            frame,
            finished: false,
        })
    }

    /// What one step does: see `step`.
    pub open spec fn step_effect(
        before: Self,
        after: Self,
        r: Result<BurnWriteStep, CdrDriverError>,
    ) -> bool {
        &&& r is Ok ==> after.wf()
        &&& after.lengths() == before.lengths()
        &&& after.writer().device() == before.writer().device()
        &&& after.progress_spec().task_order@ == before.progress_spec().task_order@
        &&& after.progress_spec().total_progress == before.progress_spec().total_progress
        &&& before.progress_spec().wf() ==> after.progress_spec().wf()
        &&& r is Err ==> after.finished()
        &&& r matches Ok(BurnWriteStep::Finished) ==> after.finished()
        &&& match r {
            Ok(step) => step != BurnWriteStep::Finished ==> !after.finished(),
            Err(_) => true,
        }
        // Lead-in: a frame of silence.
        &&& before.lead_in_done() < 150 ==> {
            &&& before.writer().write_effect(after.writer(), silent_frame(), match r {
                Err(e) => Err(e),
                Ok(_) => Ok(()),
            })
            &&& after.pending_producers() == before.pending_producers()
            &&& after.last_frame() == before.last_frame()
            &&& r is Ok ==> {
                &&& r == Ok::<BurnWriteStep, CdrDriverError>(BurnWriteStep::Wrote)
                &&& after.lead_in_done() == before.lead_in_done() + 1
                &&& after.track() == 0
                &&& !after.track_started()
                &&& after.progress_spec().current_task == before.progress_spec().current_task
                &&& progress_set(
                    before.progress_spec(),
                    after.progress_spec(),
                    BurnDaoAudioCdJobProgressTask::WriteLeadIn,
                    Progress { progress: (before.lead_in_done() + 1) as u64, total: 150 },
                )
            }
        }
        // Taking up a track.
        &&& before.lead_in_done() == 150 && before.track() < before.lengths().len()
            && !before.track_started() ==> {
            let t = before.track() as int;
            let task = BurnDaoAudioCdJobProgressTask::WriteTrack((t % 256) as u8);
            &&& r == Ok::<BurnWriteStep, CdrDriverError>(BurnWriteStep::StartedTrack)
            &&& after.writer() == before.writer()
            &&& after.progress_spec().current_task == task
            &&& progress_set(
                before.progress_spec(),
                after.progress_spec(),
                task,
                Progress { progress: 0, total: before.lengths()[t] as u64 },
            )
            &&& after.frames_done() == 0
            &&& after.pending_producers() == before.pending_producers().drop_first()
            &&& after.last_frame() == before.last_frame()
            &&& before.lengths()[t] != 0 ==> after.current_producer()
                == before.pending_producers()[0]
            &&& if before.lengths()[t] == 0 {
                after.track() == t + 1 && !after.track_started()
            } else {
                after.track() == t && after.track_started()
            }
        }
        // A frame of the current track.
        &&& before.track_started() ==> {
            let t = before.track() as int;
            let task = BurnDaoAudioCdJobProgressTask::WriteTrack((t % 256) as u8);
            let done = before.frames_done() + 1;
            &&& after.pending_producers() == before.pending_producers()
            &&& exists|p: P|
                #![trigger before.current_producer().may_produce(before.last_frame(), p, after.last_frame())]
                before.current_producer().may_produce(before.last_frame(), p, after.last_frame())
                    && (after.track_started() ==> after.current_producer() == p)
            &&& before.writer().write_effect(
                after.writer(),
                after.last_frame(),
                match r {
                    Err(e) => Err(e),
                    Ok(_) => Ok(()),
                },
            )
            &&& r is Ok ==> {
                &&& r == Ok::<BurnWriteStep, CdrDriverError>(BurnWriteStep::Wrote)
                &&& after.progress_spec().current_task == before.progress_spec().current_task
                &&& progress_set(
                    before.progress_spec(),
                    after.progress_spec(),
                    task,
                    Progress { progress: done as u64, total: before.lengths()[t] as u64 },
                )
                &&& if done == before.lengths()[t] {
                    after.track() == t + 1 && !after.track_started()
                } else {
                    after.track() == t && after.track_started()
                        && after.frames_done() == done
                }
            }
        }
        // All written: flush.
        &&& before.lead_in_done() == 150 && before.track() == before.lengths().len()
            && !before.track_started() ==> {
            &&& after.finished()
            &&& after.track() == before.track()
            &&& !after.track_started()
            &&& after.writer().next_address() == before.writer().next_address()
            &&& after.writer().next_address().0 == 150 + length_prefix_sum(
                before.lengths(),
                before.lengths().len() as int,
            )
            &&& flushed_with(
                before.writer().device(),
                before.writer().queued_at(),
                before.writer().queued(),
                2352,
                match r {
                    Err(e) => Err(e),
                    Ok(_) => Ok(()),
                },
                after.writer().queued(),
            )
            &&& r is Ok ==> r == Ok::<BurnWriteStep, CdrDriverError>(BurnWriteStep::Finished)
            &&& after.progress_spec() == before.progress_spec()
        }
    }

    /// Writes one frame of lead-in or track data, takes up the next track,
    /// or, when all data is written, flushes the writer. A failure ends the
    /// session.
    pub fn step(&mut self) -> (r: Result<BurnWriteStep, CdrDriverError>)
        requires
            old(self).wf(),
            !old(self).finished(),
        ensures
            Self::step_effect(*old(self), *final(self), r),
    {
        let ghost lengths = self.lengths@;
        if self.lead_in_done < 150 {
            let zeros = [0u8; 2352];
            assert(zeros@ =~= silent_frame());
            proof {
                lemma_prefix_sum_bound(lengths, self.track as int);
            }
            match self.writer.write(&zeros) {
                Ok(()) => {
                    self.lead_in_done = self.lead_in_done + 1;
                    self.progress.set_task_progress(
                        BurnDaoAudioCdJobProgressTask::WriteLeadIn,
                        Progress::new(self.lead_in_done, 150),
                    );
                    Ok(BurnWriteStep::Wrote)
                },
                Err(e) => {
                    self.finished = true;
                    Err(e)
                },
            }
        } else if self.current.is_none() && self.track < self.lengths.len() {
            let t = self.track;
            let length = self.lengths[t];
            let task = BurnDaoAudioCdJobProgressTask::WriteTrack((t % 256) as u8);
            self.progress.current_task = task;
            self.progress.set_task_progress(task, Progress::new(0, length as u64));
            let next = self.producers.remove(0);
            if length == 0 {
                self.track = t + 1;
                proof {
                    assert(length_prefix_sum(lengths, t + 1) == length_prefix_sum(lengths, t as int)
                        + lengths[t as int]);
                }
            } else {
                self.current = Some(next);
            }
            Ok(BurnWriteStep::StartedTrack)
        } else if self.current.is_some() {
            let t = self.track;
            assert(t < self.lengths@.len());
            assert(t + 1 <= self.lengths.len());
            let length = self.lengths[t];
            assert(self.frames_done < length);
            assert(length_prefix_sum(lengths, t + 1) == length_prefix_sum(lengths, t as int)
                + lengths[t as int]);
            let ghost producer_before = self.current->0;
            let ghost frame_before = self.frame@;
            let mut current: Option<P> = None;
            std::mem::swap(&mut current, &mut self.current);
            let mut frame = self.frame;
            match current {
                Some(mut producer) => {
                    producer.produce(&mut frame);
                    assert(producer_before.may_produce(frame_before, producer, frame@));
                    self.current = Some(producer);
                },
                None => {},
            }
            self.frame = frame;
            let ghost producer_after = self.current->0;
            assert(old(self).current_producer().may_produce(
                old(self).last_frame(),
                producer_after,
                self.last_frame(),
            ));
            proof {
                lemma_prefix_sum_bound(lengths, t as int + 1);
            }
            let result = match self.writer.write(&self.frame) {
                Ok(()) => {
                    let done = self.frames_done + 1;
                    let task = BurnDaoAudioCdJobProgressTask::WriteTrack((t % 256) as u8);
                    self.progress.set_task_progress(task, Progress::new(done as u64, length as u64));
                    if done == length {
                        self.track = t + 1;
                        self.frames_done = 0;
                        self.current = None;
                        proof {
                            assert(length_prefix_sum(lengths, t + 1) == length_prefix_sum(
                                lengths,
                                t as int,
                            ) + lengths[t as int]);
                        }
                    } else {
                        self.frames_done = done;
                    }
                    Ok(BurnWriteStep::Wrote)
                },
                Err(e) => {
                    self.finished = true;
                    Err(e)
                },
            };
            assert(old(self).current_producer().may_produce(
                old(self).last_frame(),
                producer_after,
                self.last_frame(),
            ) && (self.track_started() ==> self.current_producer() == producer_after));
            result
        } else {
            self.finished = true;
            match self.writer.flush() {
                Ok(()) => Ok(BurnWriteStep::Finished),
                Err(e) => Err(e),
            }
        }
    }
}

/// The frames written for track `t` in the first `k` steps of a run of
/// steps: those of the steps taken while track `t` was being written, each
/// of which filled its frame with that track's producer.
pub open spec fn track_frames<S: ScsiDriver, P: FrameProducer>(
    sessions: Seq<BurnWriteSession<S, P>>,
    t: int,
    k: int,
) -> nat
    decreases k,
{
    if k <= 0 {
        0
    } else {
        track_frames(sessions, t, k - 1) + if sessions[k - 1].track_started()
            && sessions[k - 1].track() == t {
            1nat
        } else {
            0nat
        }
    }
}

/// How many frames of track `t` a session in this state has written: all of
/// them for the tracks before the current one, those done so far for the
/// current one, none for the rest.
pub open spec fn track_frames_written<S: ScsiDriver, P: FrameProducer>(
    session: BurnWriteSession<S, P>,
    t: int,
) -> nat {
    if t < session.track() {
        session.lengths()[t] as nat
    } else if t == session.track() && session.track_started() {
        session.frames_done()
    } else {
        0
    }
}

/// Over steps that all succeed, from a session that has taken up no track,
/// each track's producer fills as many frames as the session says it has
/// written of that track; once the session has finished, that is the
/// track's length for every track.
pub proof fn lemma_each_producer_fills_its_track<S: ScsiDriver, P: FrameProducer>(
    sessions: Seq<BurnWriteSession<S, P>>,
    results: Seq<Result<BurnWriteStep, CdrDriverError>>,
)
    requires
        sessions.len() == results.len() + 1,
        sessions[0].wf(),
        sessions[0].track() == 0,
        !sessions[0].track_started(),
        forall|i: int|
            #![trigger results[i]]
            0 <= i < results.len() ==> results[i] is Ok && BurnWriteSession::<S, P>::step_effect(
                sessions[i],
                sessions[i + 1],
                results[i],
            ),
    ensures
        sessions.last().lengths() == sessions[0].lengths(),
        forall|t: int|
            0 <= t < sessions[0].lengths().len() ==> #[trigger] track_frames(
                sessions,
                t,
                results.len() as int,
            ) == track_frames_written(sessions.last(), t),
        results.len() > 0 && results.last() == Ok::<BurnWriteStep, CdrDriverError>(
            BurnWriteStep::Finished,
        ) ==> forall|t: int|
            0 <= t < sessions[0].lengths().len() ==> #[trigger] track_frames(
                sessions,
                t,
                results.len() as int,
            ) == sessions[0].lengths()[t],
{
    lemma_track_frames_upto(sessions, results, results.len() as int);
    if results.len() > 0 && results.last() == Ok::<BurnWriteStep, CdrDriverError>(
        BurnWriteStep::Finished,
    ) {
        let n = results.len() - 1;
        assert(results[n] is Ok);
        lemma_track_frames_upto(sessions, results, n);
    }
}

proof fn lemma_track_frames_upto<S: ScsiDriver, P: FrameProducer>(
    sessions: Seq<BurnWriteSession<S, P>>,
    results: Seq<Result<BurnWriteStep, CdrDriverError>>,
    k: int,
)
    requires
        sessions.len() == results.len() + 1,
        0 <= k <= results.len(),
        sessions[0].wf(),
        sessions[0].track() == 0,
        !sessions[0].track_started(),
        forall|i: int|
            #![trigger results[i]]
            0 <= i < results.len() ==> results[i] is Ok && BurnWriteSession::<S, P>::step_effect(
                sessions[i],
                sessions[i + 1],
                results[i],
            ),
    ensures
        sessions[k].wf(),
        sessions[k].lengths() == sessions[0].lengths(),
        forall|t: int|
            0 <= t < sessions[0].lengths().len() ==> #[trigger] track_frames(sessions, t, k)
                == track_frames_written(sessions[k], t),
        k < results.len() && results[k] == Ok::<BurnWriteStep, CdrDriverError>(
            BurnWriteStep::Finished,
        ) ==> sessions[k].track() == sessions[k].lengths().len() && !sessions[k].track_started(),
    decreases k,
{
    if k > 0 {
        lemma_track_frames_upto(sessions, results, k - 1);
        let b = sessions[k - 1];
        let a = sessions[k];
        assert(results[k - 1] is Ok && BurnWriteSession::<S, P>::step_effect(b, a, results[k - 1]));
        assert forall|t: int| 0 <= t < sessions[0].lengths().len() implies #[trigger] track_frames(
            sessions,
            t,
            k,
        ) == track_frames_written(a, t) by {
            assert(track_frames(sessions, t, k) == track_frames(sessions, t, k - 1) + if b.track_started()
                && b.track() == t {
                1nat
            } else {
                0nat
            });
        }
    }
    if k < results.len() {
        assert(results[k] is Ok && BurnWriteSession::<S, P>::step_effect(
            sessions[k],
            sessions[k + 1],
            results[k],
        ));
    }
}

/// When the burn takes up a track, the writer stands at the address where
/// the job's cue sheet starts that track.
pub proof fn lemma_track_written_where_cue_sheet_starts_it<S: ScsiDriver, P: FrameProducer>(
    session: BurnWriteSession<S, P>,
)
    requires
        session.wf(),
        session.lead_in_done() == 150,
        !session.track_started(),
        session.track() < session.lengths().len(),
    ensures
        msf_of_count(session.writer().next_address().0 as nat) == job_cue_sheet(
            session.lengths(),
        )[session.track() + 2int].address,
{
}

/// When the burn has written all tracks, the writer stands at the address
/// where the job's cue sheet starts the lead-out.
pub proof fn lemma_data_ends_where_cue_sheet_starts_lead_out<S: ScsiDriver, P: FrameProducer>(
    session: BurnWriteSession<S, P>,
)
    requires
        session.wf(),
        session.lead_in_done() == 150,
        !session.track_started(),
        session.track() == session.lengths().len(),
    ensures
        msf_of_count(session.writer().next_address().0 as nat) == job_cue_sheet(
            session.lengths(),
        ).last().address,
{
}

/// The cue sheet of a job of at most 255 tracks: first the lead-in
/// (track 0, index 0) and the pregap of track 1 (track 1, index 0), both at
/// 00:00:00; then, for each track index `i`, track number `i + 1` at index 1,
/// starting 150 frames (the 2-second pregap) plus the lengths of the tracks
/// before it into the disc; then the lead-out (track 0xAA) after the last
/// track. In the generated bytes, descriptor `i + 2` carries track number
/// `i + 1` in its byte 1.
pub proof fn lemma_job_cue_sheet_tracks(lengths: Seq<u32>, i: int)
    requires
        lengths.len() <= 255,
        0 <= i < lengths.len(),
    ensures
        job_cue_sheet(lengths)[0].track == 0 && job_cue_sheet(lengths)[0].index == 0,
        job_cue_sheet(lengths)[1].track == 1 && job_cue_sheet(lengths)[1].index == 0,
        job_cue_sheet(lengths)[i + 2].track == i + 1,
        job_cue_sheet(lengths)[i + 2].index == 1,
        job_cue_sheet(lengths)[i + 2].control == CueSheetControl::Audio,
        job_cue_sheet(lengths)[i + 2].data_form == CueSheetDataForm::DigitalAudio,
        msf_frame_count(job_cue_sheet(lengths)[i + 2].address) == (150 + length_prefix_sum(
            lengths,
            i,
        )) % msf_period(),
        job_cue_sheet(lengths).last().track == 0xAA,
        msf_frame_count(job_cue_sheet(lengths).last().address) == (150 + length_prefix_sum(
            lengths,
            lengths.len() as int,
        )) % msf_period(),
        cue_sheet_bytes(job_cue_sheet(lengths))[8 * (i + 2) + 1] == i + 1,
        cue_sheet_bytes(job_cue_sheet(lengths))[8 * (i + 2) + 2] == 1,
{
    let sheet = job_cue_sheet(lengths);
    assert(sheet.len() == lengths.len() + 3);
    lemma_msf_of_count_frames(150 + length_prefix_sum(lengths, i));
    lemma_msf_of_count_frames(150 + length_prefix_sum(lengths, lengths.len() as int));
    crate::cue_sheet::lemma_cue_sheet_bytes_index(sheet, i + 2, 1);
    crate::cue_sheet::lemma_cue_sheet_bytes_index(sheet, i + 2, 2);
}

/// A job's cue sheet has one transition per track and three more (lead-in,
/// the pregap of track 1, lead-out): eight bytes each.
pub proof fn lemma_job_cue_sheet_size(lengths: Seq<u32>)
    ensures
        job_cue_sheet(lengths).len() == lengths.len() + 3,
        cue_sheet_bytes(job_cue_sheet(lengths)).len() == 8 * (lengths.len() + 3),
{
    crate::cue_sheet::lemma_cue_sheet_bytes_len(job_cue_sheet(lengths));
}

/// Whether `after` is `before` with `progress` recorded for `task` and all
/// else kept.
pub open spec fn progress_set(
    before: BurnDaoAudioCdJobProgress,
    after: BurnDaoAudioCdJobProgress,
    task: BurnDaoAudioCdJobProgressTask,
    progress: Progress,
) -> bool {
    &&& progress_lookup(after.task_progress@, task) == Some(progress)
    &&& forall|other: BurnDaoAudioCdJobProgressTask|
        other != task ==> #[trigger] progress_lookup(after.task_progress@, other)
            == progress_lookup(before.task_progress@, other)
    &&& after.task_order@ == before.task_order@
    &&& after.total_progress == before.total_progress
}

/// Prefix sums grow with the number of lengths summed.
pub proof fn lemma_prefix_sum_bound(lengths: Seq<u32>, count: int)
    requires
        0 <= count <= lengths.len(),
    ensures
        forall|c: int| 0 <= c <= count ==> #[trigger] length_prefix_sum(lengths, c)
            <= length_prefix_sum(lengths, lengths.len() as int),
    decreases lengths.len() - count,
{
    if count < lengths.len() {
        lemma_prefix_sum_bound(lengths, count + 1);
    } else {
        assert forall|c: int| 0 <= c <= count implies #[trigger] length_prefix_sum(lengths, c)
            <= length_prefix_sum(lengths, lengths.len() as int) by {
            lemma_prefix_sum_monotone(lengths, c, count);
        }
    }
}

/// `length_prefix_sum` is monotone in the count.
pub proof fn lemma_prefix_sum_monotone(lengths: Seq<u32>, a: int, b: int)
    requires
        0 <= a <= b,
    ensures
        length_prefix_sum(lengths, a) <= length_prefix_sum(lengths, b),
    decreases b - a,
{
    if a < b {
        lemma_prefix_sum_monotone(lengths, a, b - 1);
    }
}

} // verus!
