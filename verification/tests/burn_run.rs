use alight::burn_dao_audio_cd_job::run::{BurnAction, BurnRun, BurnStage};
use alight::burn_dao_audio_cd_job::{
    BurnDaoAudioCdJob, BurnDaoAudioCdJobProgressTask as Task, BurnDaoAudioCdTrack, FrameProducer,
};
use alight::driver::mmc::MmcDriver;
use alight::driver::{CdrDriverError, Progress};
use alight::scsi::{ScsiDirection, ScsiDriver, ScsiError, SenseData};
use std::collections::VecDeque;
use std::sync::{Arc, Mutex};

struct Device {
    sent: Mutex<Vec<(Vec<u8>, Option<Vec<u8>>)>>,
    answers: Mutex<VecDeque<Result<Vec<u8>, ScsiError>>>,
}

impl ScsiDriver for Device {
    fn device(&self) -> &str {
        "/dev/sr0"
    }
    fn vendor(&self) -> &str {
        "VENDOR"
    }
    fn product(&self) -> &str {
        "PRODUCT"
    }
    fn revision(&self) -> &str {
        "1.00"
    }
    fn send_cmd_with_direction(
        &self,
        cmd: &[u8],
        direction: ScsiDirection,
    ) -> Result<Option<Vec<u8>>, ScsiError> {
        let input = match direction {
            ScsiDirection::Input(data) => Some(data.to_vec()),
            _ => None,
        };
        self.sent.lock().unwrap().push((cmd.to_vec(), input));
        let answer = self.answers.lock().unwrap().pop_front().unwrap_or(Ok(vec![0; 64]));
        answer.map(|data| match direction {
            ScsiDirection::Output => Some(data),
            _ => None,
        })
    }
}

struct Counter(u8);

impl FrameProducer for Counter {
    fn produce(&mut self, frame: &mut [u8; 2352]) {
        self.0 = self.0.wrapping_add(1);
        frame.fill(self.0);
    }
}

fn driver(answers: Vec<Result<Vec<u8>, ScsiError>>) -> (MmcDriver<Device>, Arc<Device>) {
    let device =
        Arc::new(Device { sent: Mutex::new(Vec::new()), answers: Mutex::new(answers.into()) });
    (MmcDriver::new_from_scsi_driver(device.clone()), device)
}

fn dry_job(lengths: &[u32]) -> BurnDaoAudioCdJob<Counter> {
    let mut job = BurnDaoAudioCdJob::new();
    job.set_dry(true);
    for l in lengths {
        job.push_track(BurnDaoAudioCdTrack::new(*l, Counter(0)));
    }
    job
}

fn mode_page_5() -> Vec<u8> {
    let mut page = vec![0x05u8, 0x32, 0x01, 0xC0, 0x08, 0, 0, 0, 0x20];
    page.resize(0x32 + 2, 0);
    let mut data = vec![0u8; 8];
    data[1] = (6 + page.len()) as u8;
    data.extend_from_slice(&page);
    data
}

/// Answers for lock, speed, mode sense and mode select.
fn preparation_answers() -> Vec<Result<Vec<u8>, ScsiError>> {
    vec![Ok(vec![]), Ok(vec![]), Ok(mode_page_5()), Ok(vec![])]
}

/// Advances the burn until it ends; returns the actions it asked for (as
/// names) and the error it failed with, if any.
fn run_to_end(burn: &mut BurnRun<Device, Counter>) -> (Vec<&'static str>, Option<CdrDriverError>) {
    let mut actions = Vec::new();
    loop {
        match burn.advance() {
            BurnAction::Report => actions.push("report"),
            BurnAction::Pause => actions.push("pause"),
            BurnAction::Continue => actions.push("continue"),
            BurnAction::Complete => return (actions, None),
            BurnAction::Fail(e) => return (actions, Some(e)),
        }
    }
}

#[test]
fn burn_run_goes_through_every_stage() {
    let (mmc, dev) = driver(preparation_answers());
    let mut burn = BurnRun::new(&mmc, dry_job(&[2, 0, 3]));
    assert_eq!(burn.stage(), BurnStage::Announce);
    assert_eq!(burn.progress().current_task, Task::PowerCalibration);

    let (actions, error) = run_to_end(&mut burn);
    assert!(error.is_none());
    assert_eq!(burn.stage(), BurnStage::Complete);
    // Initial progress, progress before writing, 150 + 5 frames, lead-out.
    assert_eq!(actions.iter().filter(|a| **a == "report").count(), 158);
    assert_eq!(actions.iter().filter(|a| **a == "pause").count(), 0);
    assert_eq!(burn.next_writable_address(), None);

    let p = burn.progress();
    assert_eq!(p.current_task, Task::WriteLeadOut);
    assert_eq!(p.task_progress_of(Task::PowerCalibration), Some(Progress::new(1, 1)));
    assert_eq!(p.task_progress_of(Task::WriteLeadIn), Some(Progress::new(150, 150)));
    assert_eq!(p.task_progress_of(Task::WriteTrack(0)), Some(Progress::new(2, 2)));
    assert_eq!(p.task_progress_of(Task::WriteTrack(1)), Some(Progress::new(0, 0)));
    assert_eq!(p.task_progress_of(Task::WriteTrack(2)), Some(Progress::new(3, 3)));
    assert_eq!(p.task_progress_of(Task::WriteLeadOut), Some(Progress::new(0, 0)));

    let opcodes: Vec<u8> = dev.sent.lock().unwrap().iter().map(|(c, _)| c[0]).collect();
    let mut expected = vec![0x1E, 0xBB, 0x5A, 0x55, 0x00, 0x51, 0x52, 0x00, 0x51, 0x5D, 0x00, 0x51];
    // 155 blocks: five writes of 27 blocks, then the last 20 on flush.
    expected.extend([0x2A; 6]);
    expected.extend([0x35, 0x00, 0x51, 0x35]);
    assert_eq!(opcodes, expected);
}

#[test]
fn burn_run_pauses_while_drive_is_busy() {
    let mut answers = preparation_answers();
    // TEST UNIT READY: not ready, long write in progress.
    let sense = vec![0x70, 0, 0x02, 0, 0, 0, 0, 10, 0, 0, 0, 0, 0x04, 0x08];
    answers.push(Err(ScsiError::DriveError {
        cmd: vec![0; 6],
        sense_data: Some(SenseData::new(sense)),
    }));
    let (mmc, _dev) = driver(answers);
    let mut burn = BurnRun::new(&mmc, dry_job(&[1]));
    assert!(matches!(burn.advance(), BurnAction::Report));
    assert!(matches!(burn.advance(), BurnAction::Continue));
    assert_eq!(burn.stage(), BurnStage::AwaitPrepared);
    assert!(matches!(burn.advance(), BurnAction::Pause));
    assert_eq!(burn.stage(), BurnStage::AwaitPrepared);
    assert!(matches!(burn.advance(), BurnAction::Continue));
    assert_eq!(burn.stage(), BurnStage::QueryAddress);
}

#[test]
fn burn_run_keeps_the_next_writable_address() {
    let mut answers = preparation_answers();
    answers.push(Ok(vec![]));
    answers.push(Ok(vec![0; 8]));
    let mut info = vec![0u8; 16];
    info[6] = 0x40;
    info[7] = 0x01;
    info[15] = 7;
    answers.push(Ok(info));
    let (mmc, _dev) = driver(answers);
    let mut burn = BurnRun::new(&mmc, dry_job(&[1]));
    while burn.stage() != BurnStage::AwaitQueried {
        burn.advance();
    }
    assert_eq!(burn.next_writable_address().map(|l| l.0), Some(157));
}

#[test]
fn burn_run_fails_at_first_error() {
    let err = ScsiError::DriveError { cmd: vec![0x1E], sense_data: None };
    let (mmc, dev) = driver(vec![Err(err)]);
    let mut burn = BurnRun::new(&mmc, dry_job(&[1]));
    let (actions, error) = run_to_end(&mut burn);
    assert_eq!(actions, vec!["report"]);
    assert!(matches!(error, Some(CdrDriverError::ScsiError(_))));
    assert_eq!(burn.stage(), BurnStage::Failed);
    assert_eq!(dev.sent.lock().unwrap().len(), 1);
}

#[test]
fn burn_run_fails_when_final_flush_fails() {
    let (mmc, dev) = driver(preparation_answers());
    let mut burn = BurnRun::new(&mmc, dry_job(&[1]));
    while burn.stage() != BurnStage::FlushCacheAgain {
        burn.advance();
    }
    dev.answers
        .lock()
        .unwrap()
        .push_back(Err(ScsiError::DriveError { cmd: vec![0x35], sense_data: None }));
    assert!(matches!(burn.advance(), BurnAction::Fail(CdrDriverError::ScsiError(_))));
    assert_eq!(burn.stage(), BurnStage::Failed);
}
