use alight::addresses::Lba;
use alight::driver::mmc::{
    blank_poll_step, buffer_capacity_from, mode_page_from, next_writable_from,
    session_write_parameters_from, write10_command, BlankPoll, MmcDriver,
};
use alight::driver::{BlankMode, CdrDriverError, CdrSessionFormat, CdrStatusResult, Progress};
use alight::scsi::{ScsiDirection, ScsiDriver, ScsiError, SenseData};
use std::sync::Mutex;
use std::collections::VecDeque;
use std::sync::Arc;

struct Device {
    sent: Mutex<Vec<(Vec<u8>, Option<Vec<u8>>)>>,
    answers: Mutex<VecDeque<Result<Vec<u8>, ScsiError>>>,
}

impl ScsiDriver for Device {
    fn device(&self) -> &str {
        "/dev/sr0"
    }
    fn vendor(&self) -> &str {
        "VENDOR"
    }
    fn product(&self) -> &str {
        "PRODUCT"
    }
    fn revision(&self) -> &str {
        "1.00"
    }
    fn send_cmd_with_direction(
        &self,
        cmd: &[u8],
        direction: ScsiDirection,
    ) -> Result<Option<Vec<u8>>, ScsiError> {
        let input = match direction {
            ScsiDirection::Input(data) => Some(data.to_vec()),
            _ => None,
        };
        self.sent.lock().unwrap().push((cmd.to_vec(), input));
        let answer = self.answers.lock().unwrap().pop_front().unwrap_or(Ok(vec![0; 64]));
        answer.map(|data| match direction {
            ScsiDirection::Output => Some(data),
            _ => None,
        })
    }
}

fn driver(answers: Vec<Result<Vec<u8>, ScsiError>>) -> (MmcDriver<Device>, Arc<Device>) {
    let device = Arc::new(Device { sent: Mutex::new(Vec::new()), answers: Mutex::new(answers.into()) });
    (MmcDriver::new_from_scsi_driver(device.clone()), device)
}

fn commands(device: &Device) -> Vec<Vec<u8>> {
    device.sent.lock().unwrap().iter().map(|(c, _)| c.clone()).collect()
}

fn drive_error(sense: Vec<u8>) -> ScsiError {
    ScsiError::DriveError { cmd: vec![0x51], sense_data: Some(SenseData::new(sense)) }
}

fn long_write_sense(with_progress: bool) -> Vec<u8> {
    let mut s = vec![0u8; 18];
    s[2] = 0x02;
    s[7] = 10;
    s[12] = 0x04;
    s[13] = 0x07;
    if with_progress {
        s[15] = 0x80;
        s[16] = 0x12;
        s[17] = 0x34;
    }
    s
}

fn mode_sense_data(block_desc_len: u16, page: &[u8]) -> Vec<u8> {
    let mut data = vec![0u8; 8];
    let total = 6 + block_desc_len as usize + page.len();
    data[0] = (total >> 8) as u8;
    data[1] = total as u8;
    data[2] = 0xAA;
    data[3] = 0xBB;
    data[6] = (block_desc_len >> 8) as u8;
    data[7] = block_desc_len as u8;
    for i in 0..block_desc_len {
        data.push(0xC0 + i as u8);
    }
    data.extend_from_slice(page);
    data
}

#[test]
fn lock_unlock_eject_close() {
    let (mmc, dev) = driver(vec![]);
    mmc.lock_media().unwrap();
    mmc.unlock_media().unwrap();
    mmc.eject().unwrap();
    mmc.close_tray().unwrap();
    assert_eq!(
        commands(&dev),
        vec![
            vec![0x1E, 0, 0, 0, 1, 0],
            vec![0x1E, 0, 0, 0, 0, 0],
            vec![0x1E, 0, 0, 0, 0, 0],
            vec![0x1B, 0, 0, 0, 2, 0],
            vec![0x1B, 0, 0, 0, 3, 0],
        ]
    );
}

#[test]
fn eject_stops_when_unlock_fails() {
    let (mmc, dev) = driver(vec![Err(drive_error(vec![0; 18]))]);
    assert!(mmc.eject().is_err());
    assert_eq!(commands(&dev).len(), 1);
}

#[test]
fn blank_commands() {
    let (mmc, dev) = driver(vec![]);
    mmc.blank(BlankMode::Fast).unwrap();
    mmc.blank(BlankMode::Full).unwrap();
    let sent = commands(&dev);
    assert_eq!(sent[0], vec![0xA1, 0x11, 0, 0, 0, 0, 0, 0, 0, 0, 0, 0]);
    assert_eq!(sent[1], vec![0xA1, 0x10, 0, 0, 0, 0, 0, 0, 0, 0, 0, 0]);
    assert_eq!(BlankMode::default(), BlankMode::Fast);
}

#[test]
fn calibrate_and_flush_cache_commands() {
    let (mmc, dev) = driver(vec![]);
    mmc.calibrate_laser_power().unwrap();
    mmc.flush_cache().unwrap();
    let sent = commands(&dev);
    assert_eq!(sent[0], vec![0x54, 1, 0, 0, 0, 0, 0, 0, 0, 0, 0]);
    assert_eq!(sent[1], vec![0x35, 0, 0, 0, 0, 0, 0, 0, 0, 0]);
}

#[test]
fn speed_commands() {
    let (mmc, dev) = driver(vec![]);
    mmc.set_speed_multiplier(None).unwrap();
    mmc.set_speed_multiplier(Some(4)).unwrap();
    mmc.set_speed_multiplier(Some(255)).unwrap();
    let sent = commands(&dev);
    assert_eq!(sent[0], vec![0xBB, 0, 0xFF, 0xFF, 0xFF, 0xFF, 0, 0, 0, 0, 0, 0]);
    assert_eq!(sent[1], vec![0xBB, 0, 0x01, 0xD4, 0x01, 0xD4, 0, 0, 0, 0, 0, 0]);
    assert_eq!(sent[2], vec![0xBB, 0, 0x74, 0x8B, 0x74, 0x8B, 0, 0, 0, 0, 0, 0]);
}

#[test]
fn cue_sheet_command_carries_length_and_data() {
    let (mmc, dev) = driver(vec![]);
    let sheet = vec![0x41u8; 70000];
    mmc.send_cue_sheet(&sheet).unwrap();
    let sent = dev.sent.lock().unwrap();
    assert_eq!(sent[0].0, vec![0x5D, 0, 0, 0, 0, 0, 0x01, 0x11, 0x70, 0]);
    assert_eq!(sent[0].1.as_ref().unwrap().len(), 70000);
}

#[test]
fn cue_sheet_error_is_scsi_error() {
    let (mmc, _dev) = driver(vec![Err(drive_error(vec![0; 18]))]);
    assert!(matches!(mmc.send_cue_sheet(&[1]), Err(CdrDriverError::ScsiError(_))));
}

#[test]
fn read_disk_info_statuses() {
    let (mmc, dev) = driver(vec![
        Ok(vec![0; 4]),
        Err(drive_error(long_write_sense(true))),
        Err(drive_error(long_write_sense(false))),
        Err(drive_error(vec![0x70, 0, 0x05, 0, 0, 0, 0, 10, 0, 0, 0, 0, 0x24, 0])),
        Err(ScsiError::IoError(std::io::Error::new(std::io::ErrorKind::Other, "x"))),
    ]);
    assert_eq!(mmc.read_disk_info().unwrap(), CdrStatusResult::Ready);
    assert_eq!(mmc.read_disk_info().unwrap(), CdrStatusResult::Busy(0x1234));
    assert_eq!(mmc.read_disk_info().unwrap(), CdrStatusResult::NotReady);
    assert_eq!(mmc.read_disk_info().unwrap(), CdrStatusResult::Ready);
    assert_eq!(mmc.read_disk_info().unwrap(), CdrStatusResult::NotReady);
    assert_eq!(commands(&dev)[0], vec![0x51, 0, 0, 0, 0, 0, 0, 0, 4, 0]);
}

#[test]
fn status_checks_unit_then_disc() {
    let mut no_media = vec![0u8; 18];
    no_media[2] = 2;
    no_media[12] = 0x3A;
    let mut busy = vec![0u8; 18];
    busy[2] = 2;
    busy[12] = 0x04;
    let (mmc, dev) = driver(vec![
        Err(drive_error(no_media)),
        Err(drive_error(busy)),
        Ok(vec![]),
        Err(drive_error(long_write_sense(true))),
    ]);
    assert_eq!(mmc.status().unwrap(), CdrStatusResult::NotReady);
    assert_eq!(mmc.status().unwrap(), CdrStatusResult::Busy(0));
    assert_eq!(mmc.status().unwrap(), CdrStatusResult::Busy(0x1234));
    let sent = commands(&dev);
    assert_eq!(sent.len(), 4);
    assert_eq!(sent[3][0], 0x51);
}

#[test]
fn blank_polling_decisions() {
    assert!(matches!(blank_poll_step(Ok(CdrStatusResult::Ready)), BlankPoll::Complete));
    match blank_poll_step(Ok(CdrStatusResult::Busy(300))) {
        BlankPoll::Report(p) => assert_eq!(p, Progress::new(300, 65535)),
        _ => panic!(),
    }
    match blank_poll_step(Ok(CdrStatusResult::NotReady)) {
        BlankPoll::Report(p) => assert_eq!(p, Progress::new(0, 0)),
        _ => panic!(),
    }
    match blank_poll_step(Err(drive_error(vec![0; 4]))) {
        BlankPoll::Report(p) => assert_eq!(p, Progress::new(0, 0)),
        _ => panic!(),
    }
    let io = ScsiError::IoError(std::io::Error::new(std::io::ErrorKind::Other, "x"));
    assert!(matches!(blank_poll_step(Err(io)), BlankPoll::Fail(_)));
}

#[test]
fn mode_page_is_split_out() {
    let page = [0x05u8, 0x06, 1, 2, 3, 4, 5, 6];
    let data = mode_sense_data(8, &page);
    let parsed = mode_page_from(&data).unwrap();
    assert_eq!(parsed.page_bytes(), &page);
    assert_eq!(parsed.header(), [data[0], data[1], 0xAA, 0xBB, 0, 0, 0, 8]);
    assert_eq!(parsed.block_descriptor(), [0xC0, 0xC1, 0xC2, 0xC3, 0xC4, 0xC5, 0xC6, 0xC7]);
    let data = mode_sense_data(0, &page);
    let parsed = mode_page_from(&data).unwrap();
    assert_eq!(parsed.page_bytes(), &page);
    assert_eq!(parsed.block_descriptor(), [0; 8]);
}

#[test]
fn mode_sense_without_page() {
    let mut data = vec![0u8; 16];
    data[1] = 6;
    assert!(mode_page_from(&data).is_none());
}

#[test]
fn get_mode_page_sends_mode_sense() {
    let page = [0x05u8, 0x02, 9, 9];
    let (mmc, dev) = driver(vec![Ok(mode_sense_data(0, &page)), Ok(vec![0, 40, 0, 0, 0, 0, 0, 0])]);
    let parsed = mmc.get_mode_page(0x45).unwrap().unwrap();
    assert_eq!(parsed.page_bytes(), &page);
    assert_eq!(commands(&dev)[0], vec![0x5A, 0, 0x05, 0, 0, 0, 0, 0, 0xFF]);
    // Data that reports a page it does not hold gives no page.
    assert!(mmc.get_mode_page(5).unwrap().is_none());
}

#[test]
fn set_mode_page_builds_parameter_list() {
    let (mmc, dev) = driver(vec![]);
    let page = [0x05u8, 0x02, 0x11, 0x22];
    let header = [1u8, 2, 3, 4, 5, 6, 7, 8];
    let bd = [9u8; 8];
    mmc.set_mode_page(&page, Some(&header), Some(&bd)).unwrap();
    mmc.set_mode_page(&page, None, None).unwrap();
    let sent = dev.sent.lock().unwrap();
    assert_eq!(sent[0].0, vec![0x55, 0x10, 0, 0, 0, 0, 0, 0, 20, 0, 0]);
    assert_eq!(
        sent[0].1.as_ref().unwrap(),
        &vec![0, 0, 3, 4, 0, 0, 0, 8, 9, 9, 9, 9, 9, 9, 9, 9, 0x05, 0x02, 0x11, 0x22]
    );
    assert_eq!(sent[1].0, vec![0x55, 0x10, 0, 0, 0, 0, 0, 0, 12, 0, 0]);
    assert_eq!(sent[1].1.as_ref().unwrap(), &vec![0, 0, 0, 0, 0, 0, 0, 0, 0x05, 0x02, 0x11, 0x22]);
}

#[test]
fn session_write_parameters_bits() {
    let page = [0xFFu8, 0x32, 0xFF, 0xFF, 0xFF, 0, 0, 0, 0x20, 0, 0];
    let out = session_write_parameters_from(&page, true, false, CdrSessionFormat::CdDigitalAudio);
    assert_eq!(out, vec![0x7F, 0x32, 0xB2, 0x3F, 0xF0, 0, 0, 0, 0, 0, 0]);
    let page = [0x05u8, 0x32, 0x00, 0x00, 0x0F, 0, 0, 0, 0x20];
    let out = session_write_parameters_from(&page, false, true, CdrSessionFormat::CdRom);
    assert_eq!(out, vec![0x05, 0x32, 0x42, 0x00, 0x00, 0, 0, 0, 0]);
}

#[test]
fn start_write_session_reads_changes_and_writes_page() {
    let page = [0x05u8, 0x07, 0x01, 0xC0, 0x08, 0, 0, 0, 0x20];
    let (mmc, dev) = driver(vec![Ok(mode_sense_data(0, &page))]);
    mmc.start_write_session(false, false, CdrSessionFormat::CdDigitalAudio).unwrap();
    let sent = dev.sent.lock().unwrap();
    assert_eq!(sent.len(), 2);
    assert_eq!(sent[0].0[0], 0x5A);
    assert_eq!(sent[1].0, vec![0x55, 0x10, 0, 0, 0, 0, 0, 0, 17, 0, 0]);
    let data = sent[1].1.as_ref().unwrap();
    assert_eq!(&data[8..], &[0x05, 0x07, 0x02, 0x00, 0x00, 0, 0, 0, 0]);
}

#[test]
fn start_write_session_without_page_is_invalid_response() {
    let mut data = vec![0u8; 16];
    data[1] = 6;
    let (mmc, _dev) = driver(vec![Ok(data)]);
    assert!(matches!(
        mmc.start_write_session(true, false, CdrSessionFormat::CdDigitalAudio),
        Err(CdrDriverError::InvalidResponse)
    ));
}

#[test]
fn start_write_session_with_short_page_is_invalid_response() {
    let (mmc, _dev) = driver(vec![Ok(mode_sense_data(0, &[0x05, 0x02, 0, 0]))]);
    assert!(matches!(
        mmc.start_write_session(true, false, CdrSessionFormat::CdDigitalAudio),
        Err(CdrDriverError::InvalidResponse)
    ));
}

#[test]
fn buffer_capacity_is_big_endian() {
    let data = [0u8, 0, 0, 0, 0x00, 0x40, 0x00, 0x00, 0x00, 0x00, 0x12, 0x34];
    let c = buffer_capacity_from(&data);
    assert_eq!(c.capacity, 0x0040_0000);
    assert_eq!(c.available, 0x1234);
    let (mmc, dev) = driver(vec![Ok(data.to_vec()), Ok(vec![0; 5])]);
    let c = mmc.read_buffer_capacity().unwrap();
    assert_eq!(c.available, 0x1234);
    assert_eq!(commands(&dev)[0], vec![0x5C, 0, 0, 0, 0, 0, 0, 0, 12, 0]);
    assert!(matches!(mmc.read_buffer_capacity(), Err(CdrDriverError::InvalidResponse)));
}

#[test]
fn next_write_address_from_track_information() {
    let mut data = vec![0u8; 36];
    data[6] = 0x40;
    data[7] = 0x01;
    data[12..16].copy_from_slice(&[0, 0, 0x01, 0x00]);
    assert_eq!(next_writable_from(&data).unwrap(), Lba(256 + 150));
    let (mmc, dev) = driver(vec![Ok(data.clone())]);
    assert_eq!(mmc.next_write_address().unwrap(), Lba(406));
    assert_eq!(commands(&dev)[0], vec![0x52, 1, 0, 0, 0, 0xFF, 0, 0, 0, 0]);
    data[6] = 0x50;
    assert!(matches!(next_writable_from(&data), Err(CdrDriverError::InvalidResponse)));
    data[6] = 0x40;
    data[7] = 0;
    assert!(matches!(next_writable_from(&data), Err(CdrDriverError::InvalidResponse)));
}

#[test]
fn write10_addresses_are_offset_by_the_pregap() {
    assert_eq!(write10_command(Lba(0), 27), vec![0x2A, 0, 0xFF, 0xFF, 0xFF, 0x6A, 0, 0, 27, 0]);
    assert_eq!(write10_command(Lba(150), 1), vec![0x2A, 0, 0, 0, 0, 0, 0, 0, 1, 0]);
    assert_eq!(write10_command(Lba(0x0102_03A0), 0x1234), vec![0x2A, 0, 0x01, 0x02, 0x03, 0x0A, 0, 0x12, 0x34, 0]);
}

#[test]
fn writer_queues_until_64k_then_writes() {
    let (mmc, dev) = driver(vec![]);
    let mut w = mmc.start_write10(Lba(0)).unwrap();
    assert_eq!(w.address(), Lba(0));
    for i in 0..26u64 {
        w.write(&[i as u8; 2352]).unwrap();
    }
    assert!(dev.sent.lock().unwrap().is_empty());
    w.write(&[26u8; 2352]).unwrap();
    assert_eq!(w.address(), Lba(27));
    {
        let sent = dev.sent.lock().unwrap();
        assert_eq!(sent.len(), 1);
        assert_eq!(sent[0].0, vec![0x2A, 0, 0xFF, 0xFF, 0xFF, 0x6A, 0, 0, 27, 0]);
        let data = sent[0].1.as_ref().unwrap();
        assert_eq!(data.len(), 27 * 2352);
        assert_eq!(data[2352 * 5], 5);
    }
    w.write(&[1u8; 2352]).unwrap();
    w.write(&[2u8; 2352]).unwrap();
    w.flush().unwrap();
    let sent = dev.sent.lock().unwrap();
    assert_eq!(sent[1].0, vec![0x2A, 0, 0xFF, 0xFF, 0xFF, 0x6A + 27, 0, 0, 2, 0]);
    assert_eq!(sent[1].1.as_ref().unwrap().len(), 2 * 2352);
}

#[test]
fn writer_keeps_queue_when_write_fails() {
    let mut answers = Vec::new();
    answers.push(Err(drive_error(vec![0; 18])));
    let (mmc, dev) = driver(answers);
    let mut w = mmc.start_write10(Lba(150)).unwrap();
    w.write(&[7u8; 2352]).unwrap();
    assert!(matches!(w.flush(), Err(CdrDriverError::ScsiError(_))));
    w.flush().unwrap();
    let sent = dev.sent.lock().unwrap();
    assert_eq!(sent.len(), 2);
    assert_eq!(sent[1].0, vec![0x2A, 0, 0, 0, 0, 0, 0, 0, 1, 0]);
    assert_eq!(sent[1].1.as_ref().unwrap().len(), 2352);
}

#[test]
fn driver_clone_and_scsi_driver_share_the_device() {
    let (mmc, dev) = driver(vec![]);
    let other = mmc.clone();
    other.lock_media().unwrap();
    assert_eq!(mmc.scsi_driver().device(), "/dev/sr0");
    assert_eq!(commands(&dev).len(), 1);
}

#[test]
fn driver_error_messages() {
    assert_eq!(CdrDriverError::InvalidResponse.message(), "Invalid response");
    let e: CdrDriverError = ScsiError::DriveError { cmd: vec![0x35], sense_data: None }.into();
    assert_eq!(e.message(), "Generic SCSI error. Original command: 35");
    let e: CdrDriverError = std::io::Error::new(std::io::ErrorKind::Other, "busy").into();
    assert_eq!(e.message(), "busy");
}
