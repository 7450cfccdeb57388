use alight::burn_dao_audio_cd_job::BurnDaoAudioCdJobProgressTask as Task;
use alight::cli::{
    progress_template, ready_wait_step, task_message, EraseArgs, ReadyWait, SimpleAudioArgs,
};
use alight::driver::CdrStatusResult;
use alight::scsi::ScsiError;
use alight::driver::BlankMode;

#[test]
fn erase_mode_follows_full_flag() {
    assert_eq!(EraseArgs { full: true }.blank_mode(), BlankMode::Full);
    assert_eq!(EraseArgs { full: false }.blank_mode(), BlankMode::Fast);
}

#[test]
fn simple_audio_args_hold_files_in_order() {
    let args = SimpleAudioArgs { dry: true, files: vec!["a.wav".to_string(), "b.wav".to_string()] };
    assert!(args.dry);
    assert_eq!(args.files, vec!["a.wav".to_string(), "b.wav".to_string()]);
}

#[test]
fn progress_templates() {
    assert_eq!(progress_template(true, false), "{spinner} {msg} [{wide_bar}] {percentage}");
    assert_eq!(progress_template(false, false), "  {msg} [{wide_bar}] {percentage}");
    assert_eq!(progress_template(true, true), "{spinner} {msg} ");
    assert_eq!(progress_template(false, true), "  {msg} ");
}

#[test]
fn task_messages_count_tracks_from_one() {
    assert_eq!(task_message(Task::PowerCalibration), "Preparing burn session");
    assert_eq!(task_message(Task::WriteLeadIn), "Writing lead-in");
    assert_eq!(task_message(Task::WriteTrack(0)), "Writing track 1");
    assert_eq!(task_message(Task::WriteTrack(9)), "Writing track 10");
    assert_eq!(task_message(Task::WriteTrack(98)), "Writing track 99");
    assert_eq!(task_message(Task::WriteTrack(254)), "Writing track 255");
    assert_eq!(task_message(Task::WriteLeadOut), "Finalising disc");
}

#[test]
fn erase_waits_until_the_drive_is_ready() {
    assert!(matches!(ready_wait_step(Ok(CdrStatusResult::Ready)), ReadyWait::Proceed));
    assert!(matches!(ready_wait_step(Ok(CdrStatusResult::NotReady)), ReadyWait::Wait));
    assert!(matches!(ready_wait_step(Ok(CdrStatusResult::Busy(7))), ReadyWait::Wait));
    let err = ScsiError::DriveError { cmd: vec![0], sense_data: None };
    match ready_wait_step(Err(err)) {
        ReadyWait::Fail(ScsiError::DriveError { cmd, sense_data: None }) => assert_eq!(cmd, vec![0]),
        _ => panic!("expected the error back"),
    }
}
