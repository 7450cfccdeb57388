use alight::addresses::{Lba, Msf};
use alight::burn_dao_audio_cd_job::{
    BurnDaoAudioCdJob, BurnDaoAudioCdJobProgressTask as Task, BurnDaoAudioCdTrack,
    BurnWriteSession, BurnWriteStep, FrameProducer,
};
use alight::driver::mmc::MmcDriver;
use alight::driver::{CdrDriverError, Progress};
use alight::scsi::{ScsiDirection, ScsiDriver, ScsiError};
use std::sync::Mutex;
use std::collections::VecDeque;
use std::sync::Arc;

struct Device {
    sent: Mutex<Vec<(Vec<u8>, Option<Vec<u8>>)>>,
    answers: Mutex<VecDeque<Result<Vec<u8>, ScsiError>>>,
}

impl ScsiDriver for Device {
    fn device(&self) -> &str {
        "/dev/sr0"
    }
    fn vendor(&self) -> &str {
        "VENDOR"
    }
    fn product(&self) -> &str {
        "PRODUCT"
    }
    fn revision(&self) -> &str {
        "1.00"
    }
    fn send_cmd_with_direction(
        &self,
        cmd: &[u8],
        direction: ScsiDirection,
    ) -> Result<Option<Vec<u8>>, ScsiError> {
        let input = match direction {
            ScsiDirection::Input(data) => Some(data.to_vec()),
            _ => None,
        };
        self.sent.lock().unwrap().push((cmd.to_vec(), input));
        let answer = self.answers.lock().unwrap().pop_front().unwrap_or(Ok(vec![0; 64]));
        answer.map(|data| match direction {
            ScsiDirection::Output => Some(data),
            _ => None,
        })
    }
}

fn driver(answers: Vec<Result<Vec<u8>, ScsiError>>) -> (MmcDriver<Device>, Arc<Device>) {
    let device = Arc::new(Device { sent: Mutex::new(Vec::new()), answers: Mutex::new(answers.into()) });
    (MmcDriver::new_from_scsi_driver(device.clone()), device)
}

struct Counter(u8);

impl FrameProducer for Counter {
    fn produce(&mut self, frame: &mut [u8; 2352]) {
        self.0 = self.0.wrapping_add(1);
        frame.fill(self.0);
    }
}

fn job(lengths: &[u32]) -> BurnDaoAudioCdJob<Counter> {
    let mut job = BurnDaoAudioCdJob::new();
    for (i, l) in lengths.iter().enumerate() {
        job.push_track(BurnDaoAudioCdTrack::new(*l, Counter(i as u8 * 100)));
    }
    job
}

fn mode_page_5() -> Vec<u8> {
    let page = [0x05u8, 0x32, 0x01, 0xC0, 0x08, 0, 0, 0, 0x20, 0, 0, 0, 0, 0, 0, 0, 0, 0, 0, 0, 0, 0, 0, 0, 0, 0, 0, 0, 0, 0, 0, 0, 0, 0, 0, 0, 0, 0, 0, 0, 0, 0, 0, 0, 0, 0, 0, 0, 0, 0, 0, 0];
    let mut data = vec![0u8; 8];
    let total = 6 + page.len();
    data[1] = total as u8;
    data.extend_from_slice(&page);
    data
}

#[test]
fn initial_progress_orders_tasks() {
    let p = job(&[10, 20]).initial_progress();
    assert_eq!(
        p.task_order,
        vec![
            Task::PowerCalibration,
            Task::WriteLeadIn,
            Task::WriteTrack(0),
            Task::WriteTrack(1),
            Task::WriteLeadOut
        ]
    );
    assert!(p.task_progress.is_empty());
    assert_eq!(p.current_task, Task::PowerCalibration);
    assert_eq!(p.total_progress, Progress::new(0, 0));
}

#[test]
fn cue_sheet_places_tracks_after_pregap() {
    let sheet = job(&[4500, 75]).cue_sheet().generate();
    assert_eq!(
        sheet,
        vec![
            0x01, 0, 0, 0x01, 0, 0, 0, 0, // lead-in
            0x01, 1, 0, 0x00, 0, 0, 0, 0, // pregap of track 1
            0x01, 1, 1, 0x00, 0, 0, 2, 0, // track 1 at 00:02:00
            0x01, 2, 1, 0x00, 0, 1, 2, 0, // track 2 at 01:02:00
            0x01, 0xAA, 1, 0x01, 0, 1, 3, 0, // lead-out at 01:03:00
        ]
    );
}

#[test]
fn empty_job_cue_sheet() {
    let sheet = job(&[]).cue_sheet().generate();
    assert_eq!(sheet.len(), 24);
    assert_eq!(&sheet[16..24], &[0x01, 0xAA, 1, 0x01, 0, 0, 2, 0]);
}

#[test]
fn prepare_session_runs_set_up_commands() {
    let (mmc, dev) = driver(vec![Ok(vec![]), Ok(vec![]), Ok(mode_page_5())]);
    let j = job(&[1]);
    j.prepare_session(&mmc).unwrap();
    let sent = dev.sent.lock().unwrap();
    let opcodes: Vec<u8> = sent.iter().map(|(c, _)| c[0]).collect();
    assert_eq!(opcodes, vec![0x1E, 0xBB, 0x5A, 0x55, 0x54]);
    assert_eq!(sent[0].0[4], 1);
    assert_eq!(sent[1].0[2], 0xFF);
    let select = sent[3].1.as_ref().unwrap();
    assert_eq!(select[8 + 2], 0x02);
}

#[test]
fn dry_session_skips_calibration_and_sets_test_write() {
    let (mmc, dev) = driver(vec![Ok(vec![]), Ok(vec![]), Ok(mode_page_5())]);
    let mut j = job(&[1]);
    j.set_dry(true);
    j.prepare_session(&mmc).unwrap();
    let sent = dev.sent.lock().unwrap();
    let opcodes: Vec<u8> = sent.iter().map(|(c, _)| c[0]).collect();
    assert_eq!(opcodes, vec![0x1E, 0xBB, 0x5A, 0x55]);
    assert_eq!(sent[3].1.as_ref().unwrap()[8 + 2], 0x12);
}

#[test]
fn prepare_session_stops_at_first_failure() {
    let err = ScsiError::DriveError { cmd: vec![0x1E], sense_data: None };
    let (mmc, dev) = driver(vec![Err(err)]);
    assert!(matches!(job(&[1]).prepare_session(&mmc), Err(CdrDriverError::ScsiError(_))));
    assert_eq!(dev.sent.lock().unwrap().len(), 1);
}

#[test]
fn send_cue_sheet_sends_generated_sheet() {
    let (mmc, dev) = driver(vec![]);
    let j = job(&[100]);
    j.send_cue_sheet(&mmc).unwrap();
    let sent = dev.sent.lock().unwrap();
    assert_eq!(sent[0].0, vec![0x5D, 0, 0, 0, 0, 0, 0, 0, 32, 0]);
    assert_eq!(sent[0].1.as_ref().unwrap(), &j.cue_sheet().generate());
}

#[test]
fn progress_before_writing() {
    let j = job(&[10, 20]);
    let mut p = j.initial_progress();
    j.set_up_writing_progress(&mut p);
    assert_eq!(p.current_task, Task::WriteLeadIn);
    assert_eq!(p.task_progress_of(Task::PowerCalibration), Some(Progress::new(1, 1)));
    assert_eq!(p.task_progress_of(Task::WriteLeadIn), Some(Progress::new(0, 150)));
    assert_eq!(p.task_progress_of(Task::WriteTrack(1)), Some(Progress::new(0, 20)));
    assert_eq!(p.task_progress_of(Task::WriteLeadOut), None);
    p.begin_lead_out();
    assert_eq!(p.current_task, Task::WriteLeadOut);
    assert_eq!(p.task_progress_of(Task::WriteLeadOut), Some(Progress::new(0, 0)));
}

#[test]
fn set_task_progress_replaces() {
    let mut p = job(&[]).initial_progress();
    p.set_task_progress(Task::WriteTrack(3), Progress::new(1, 5));
    p.set_task_progress(Task::WriteLeadIn, Progress::new(2, 150));
    p.set_task_progress(Task::WriteTrack(3), Progress::new(2, 5));
    assert_eq!(p.task_progress.len(), 2);
    assert_eq!(p.task_progress_of(Task::WriteTrack(3)), Some(Progress::new(2, 5)));
    assert_eq!(p.task_progress_of(Task::WriteLeadIn), Some(Progress::new(2, 150)));
}

#[test]
fn session_writes_lead_in_tracks_and_flushes() {
    let (mmc, dev) = driver(vec![]);
    let j = job(&[30, 0, 2]);
    let mut progress = j.initial_progress();
    j.set_up_writing_progress(&mut progress);
    let mut session = BurnWriteSession::new(&mmc, j, progress).unwrap();
    let mut steps = Vec::new();
    loop {
        let step = session.step().unwrap();
        steps.push(step);
        if step == BurnWriteStep::Finished {
            break;
        }
        if steps.len() == 150 {
            assert_eq!(
                session.progress().task_progress_of(Task::WriteLeadIn),
                Some(Progress::new(150, 150))
            );
        }
    }
    let wrote = steps.iter().filter(|s| **s == BurnWriteStep::Wrote).count();
    let started = steps.iter().filter(|s| **s == BurnWriteStep::StartedTrack).count();
    assert_eq!(wrote, 150 + 32);
    assert_eq!(started, 3);
    let p = session.into_progress();
    assert_eq!(p.task_progress_of(Task::WriteTrack(0)), Some(Progress::new(30, 30)));
    assert_eq!(p.task_progress_of(Task::WriteTrack(1)), Some(Progress::new(0, 0)));
    assert_eq!(p.task_progress_of(Task::WriteTrack(2)), Some(Progress::new(2, 2)));
    assert_eq!(p.current_task, Task::WriteTrack(2));
    // 182 blocks: six full writes of 27 blocks, then the rest on flush.
    let sent = dev.sent.lock().unwrap();
    assert_eq!(sent.len(), 7);
    let total: usize = sent.iter().map(|(_, d)| d.as_ref().unwrap().len()).sum();
    assert_eq!(total, 182 * 2352);
    assert_eq!(sent[6].0, vec![0x2A, 0, 0, 0, 0, 12, 0, 0, 20, 0]);
    // The lead-in is silence; track 0's first frame is its producer's first.
    assert!(sent[0].1.as_ref().unwrap()[..150 * 2352 % (27 * 2352)].iter().all(|b| *b == 0));
    let second_flush = sent[5].1.as_ref().unwrap();
    assert_eq!(second_flush[(150 - 135) * 2352], 1);
}

#[test]
fn session_write_error_ends_it() {
    let err = ScsiError::DriveError { cmd: vec![0x2A], sense_data: None };
    let (mmc, _dev) = driver(vec![Err(err)]);
    let j = job(&[1]);
    let progress = j.initial_progress();
    let mut session = BurnWriteSession::new(&mmc, j, progress).unwrap();
    for _ in 0..26 {
        assert_eq!(session.step().unwrap(), BurnWriteStep::Wrote);
    }
    assert!(matches!(session.step(), Err(CdrDriverError::ScsiError(_))));
}

#[test]
fn track_start_addresses_match_cue_sheet() {
    let lengths = [1000u32, 2345, 77];
    let mut start = Lba(150);
    let sheet = job(&lengths).cue_sheet().generate();
    for (i, l) in lengths.iter().enumerate() {
        let msf: Msf = start.into();
        let entry = &sheet[(i + 2) * 8..(i + 3) * 8];
        assert_eq!(&entry[5..8], &[msf.minutes, msf.seconds, msf.frames]);
        start = start + Lba(*l as u64);
    }
}

#[test]
fn each_track_is_filled_by_its_own_producer() {
    let (mmc, dev) = driver(vec![]);
    let j = job(&[2, 1]);
    let progress = j.initial_progress();
    let mut session = BurnWriteSession::new(&mmc, j, progress).unwrap();
    while session.step().unwrap() != BurnWriteStep::Finished {}
    let sent = dev.sent.lock().unwrap();
    let last = sent.last().unwrap().1.as_ref().unwrap();
    assert_eq!(last.len(), 18 * 2352);
    assert!(last[..15 * 2352].iter().all(|b| *b == 0));
    assert!(last[15 * 2352..16 * 2352].iter().all(|b| *b == 1));
    assert!(last[16 * 2352..17 * 2352].iter().all(|b| *b == 2));
    assert!(last[17 * 2352..].iter().all(|b| *b == 101));
}
