use alight::scsi::{
    copy_prefix, sg_io_outcome, unit_ready_from, ScsiDirection, ScsiDriver, ScsiError, ScsiOpcode,
    SenseData, TestUnitReadyResponse,
};
use std::sync::Mutex;
use std::collections::VecDeque;

struct Device {
    sent: Mutex<Vec<(Vec<u8>, Option<Vec<u8>>)>>,
    answers: Mutex<VecDeque<Result<Vec<u8>, ScsiError>>>,
}

impl Device {
    fn new(answers: Vec<Result<Vec<u8>, ScsiError>>) -> Device {
        Device { sent: Mutex::new(Vec::new()), answers: Mutex::new(answers.into()) }
    }
}

impl ScsiDriver for Device {
    fn device(&self) -> &str {
        "/dev/sr0"
    }
    fn vendor(&self) -> &str {
        "VENDOR"
    }
    fn product(&self) -> &str {
        "PRODUCT"
    }
    fn revision(&self) -> &str {
        "1.00"
    }
    fn send_cmd_with_direction(
        &self,
        cmd: &[u8],
        direction: ScsiDirection,
    ) -> Result<Option<Vec<u8>>, ScsiError> {
        let input = match direction {
            ScsiDirection::Input(data) => Some(data.to_vec()),
            _ => None,
        };
        self.sent.lock().unwrap().push((cmd.to_vec(), input));
        let answer = self.answers.lock().unwrap().pop_front().unwrap_or(Ok(vec![0; 64]));
        answer.map(|data| match direction {
            ScsiDirection::Output => Some(data),
            _ => None,
        })
    }
}

fn drive_error(sense: &[u8]) -> ScsiError {
    ScsiError::DriveError { cmd: vec![0; 6], sense_data: Some(SenseData::new(sense.to_vec())) }
}

fn sense(key: u8, asc: u8) -> Vec<u8> {
    let mut s = vec![0u8; 18];
    s[2] = key;
    s[12] = asc;
    s
}

#[test]
fn opcodes() {
    assert_eq!(ScsiOpcode::Rezero.code(), 0x01);
    assert_eq!(ScsiOpcode::Write10.code(), 0x2A);
    assert_eq!(ScsiOpcode::ModeSense.code(), 0x5A);
    assert_eq!(ScsiOpcode::Blank.code(), 0xA1);
    assert_eq!(ScsiOpcode::SetCdSpeed.code(), 0xBB);
}

#[test]
fn sense_data_accessors() {
    let s = SenseData::new(vec![1, 2, 3]);
    assert_eq!(s.len(), 3);
    assert_eq!(s.bytes(), &[1, 2, 3]);
}

#[test]
fn rezero_sends_rezero_unit() {
    let d = Device::new(vec![]);
    d.rezero().unwrap();
    assert_eq!(d.sent.lock().unwrap()[0].0, vec![0x01, 0, 0, 0, 0, 0]);
}

#[test]
fn send_cmd_with_input_passes_data() {
    let d = Device::new(vec![]);
    d.send_cmd_with_input(&[1, 2], &[9, 9, 9]).unwrap();
    assert_eq!(d.sent.lock().unwrap()[0], (vec![1, 2], Some(vec![9, 9, 9])));
}

#[test]
fn send_cmd_with_output_returns_data() {
    let d = Device::new(vec![Ok(vec![7, 8])]);
    assert_eq!(d.send_cmd_with_output(&[3]).unwrap(), vec![7, 8]);
}

#[test]
fn test_unit_ready_when_command_succeeds() {
    let d = Device::new(vec![]);
    assert_eq!(d.test_unit_ready().unwrap(), TestUnitReadyResponse::Ready);
    assert_eq!(d.sent.lock().unwrap()[0].0, vec![0; 6]);
}

#[test]
fn test_unit_ready_not_ready_without_medium() {
    let d = Device::new(vec![Err(drive_error(&sense(0x02, 0x3A)))]);
    assert_eq!(d.test_unit_ready().unwrap(), TestUnitReadyResponse::NoMedia);
}

#[test]
fn test_unit_ready_not_ready_is_busy() {
    let d = Device::new(vec![Err(drive_error(&sense(0x02, 0x04)))]);
    assert_eq!(d.test_unit_ready().unwrap(), TestUnitReadyResponse::Busy);
}

#[test]
fn test_unit_ready_unit_attention_is_ready() {
    let d = Device::new(vec![Err(drive_error(&sense(0xF6, 0x28)))]);
    assert_eq!(d.test_unit_ready().unwrap(), TestUnitReadyResponse::Ready);
}

#[test]
fn test_unit_ready_other_sense_is_error() {
    let d = Device::new(vec![Err(drive_error(&sense(0x05, 0x24)))]);
    assert!(matches!(d.test_unit_ready(), Err(ScsiError::DriveError { .. })));
}

#[test]
fn test_unit_ready_short_sense_is_passed_on() {
    assert!(matches!(unit_ready_from(Err(drive_error(&[0x70, 0]))), Err(ScsiError::DriveError { .. })));
    assert!(matches!(unit_ready_from(Err(drive_error(&[0x70, 0, 2, 0])) ), Err(ScsiError::DriveError { .. })));
}

#[test]
fn test_unit_ready_io_error_is_passed_on() {
    let e = ScsiError::IoError(std::io::Error::new(std::io::ErrorKind::Other, "gone"));
    assert!(matches!(unit_ready_from(Err(e)), Err(ScsiError::IoError(_))));
}

#[test]
fn ready_converts_to_true() {
    assert!(bool::from(TestUnitReadyResponse::Ready));
    assert!(!bool::from(TestUnitReadyResponse::Busy));
    assert!(!bool::from(TestUnitReadyResponse::NoMedia));
}

#[test]
fn inquiry_reads_identification() {
    let mut data = vec![0u8; 44];
    data[8..16].copy_from_slice(b"PLEXTOR ");
    data[16..32].copy_from_slice(b"CD-R   PX-W4824A");
    data[32..36].copy_from_slice(b"1.07");
    let d = Device::new(vec![Ok(data)]);
    let e = d.inquiry().unwrap();
    assert_eq!(e.vendor, "PLEXTOR ");
    assert_eq!(e.product, "CD-R   PX-W4824A");
    assert_eq!(e.revision, "1.07");
    assert_eq!(d.sent.lock().unwrap()[0].0, vec![0x12, 0, 0, 0, 0x2C, 0]);
}

#[test]
fn inquiry_replaces_invalid_utf8() {
    let mut data = vec![0u8; 36];
    data[8..16].copy_from_slice(b"ACME\xFF   ");
    data[16..32].copy_from_slice(b"DRIVE           ");
    data[32..36].copy_from_slice(b"\xC3\xA9  ");
    let d = Device::new(vec![Ok(data)]);
    let e = d.inquiry().unwrap();
    assert_eq!(e.vendor, "ACME\u{FFFD}   ");
    assert_eq!(e.product, "DRIVE           ");
    assert_eq!(e.revision, "\u{e9}  ");
}

#[test]
fn inquiry_with_short_data_is_drive_error() {
    let d = Device::new(vec![Ok(vec![0; 20])]);
    match d.inquiry() {
        Err(ScsiError::DriveError { cmd, sense_data: None }) => {
            assert_eq!(cmd, vec![0x12, 0, 0, 0, 0x2C, 0])
        }
        _ => panic!("expected a drive error"),
    }
}

#[test]
fn drive_error_message() {
    let e = ScsiError::DriveError {
        cmd: vec![0x00, 0x1B, 0xAB],
        sense_data: Some(SenseData::new(vec![0x70, 0x0f])),
    };
    assert_eq!(e.message(), "Generic SCSI error: Sense bytes: 70 0F. Original command: 00 1B AB");
    let e = ScsiError::DriveError { cmd: vec![0x12], sense_data: None };
    assert_eq!(e.message(), "Generic SCSI error. Original command: 12");
}

#[test]
fn io_error_message() {
    let e = ScsiError::IoError(std::io::Error::new(std::io::ErrorKind::Other, "no device"));
    assert_eq!(e.message(), "no device");
    let e: ScsiError = std::io::Error::new(std::io::ErrorKind::Other, "x").into();
    assert!(matches!(e, ScsiError::IoError(_)));
}

#[test]
fn sg_io_outcome_status_error_keeps_written_sense() {
    let sense = [0x70u8, 0, 2, 0, 0, 0, 0, 10, 0, 0, 0, 0, 0x3A];
    match sg_io_outcome(&[0, 0, 0, 0, 0, 0], false, 2, &sense, 4, vec![]) {
        Err(ScsiError::DriveError { cmd, sense_data: Some(s) }) => {
            assert_eq!(cmd, vec![0; 6]);
            assert_eq!(s.bytes, vec![0x70, 0, 2, 0]);
        }
        _ => panic!("expected a drive error"),
    }
    assert!(matches!(
        sg_io_outcome(&[1], true, 2, &sense, 0, vec![]),
        Err(ScsiError::DriveError { sense_data: None, .. })
    ));
}

#[test]
fn sg_io_outcome_success() {
    assert_eq!(sg_io_outcome(&[1], true, 0, &[], 0, vec![5, 6]).unwrap(), Some(vec![5, 6]));
    assert_eq!(sg_io_outcome(&[1], false, 0, &[], 0, vec![5, 6]).unwrap(), None);
}

#[test]
fn sense_data_indexes_its_bytes() {
    let sense = SenseData::new(vec![0x70, 0, 0x06]);
    assert_eq!(sense[0], 0x70);
    assert_eq!(sense[2], 0x06);
}

#[test]
fn copy_prefix_copies() {
    assert_eq!(copy_prefix(&[1, 2, 3, 4], 2), vec![1, 2]);
}
