//! A CD recorder driven with the SCSI multimedia commands (MMC): the
//! commands it sends, how it reads the drive's answers, and the driver that
//! puts the two together.

use crate::addresses::Lba;
use crate::driver::{
    BlankMode, CdrDriverBufferCapacity, CdrDriverError, CdrDriverModePage, CdrSessionFormat,
    CdrStatusResult, Progress, Writer,
};
use crate::scsi::{
    rezero_cmd, test_unit_ready_cmd, unit_ready_answer, without_output, ScsiDirection, ScsiDriver,
    ScsiError, TestUnitReadyResponse, Transfer,
};
use std::sync::Arc;
use vstd::prelude::*;

verus! {

/// Big-endian byte `k` (0 = most significant) of a 32-bit value.
pub open spec fn be_byte(v: nat, k: nat) -> u8 {
    ((v / pow256(3 - k)) % 256) as u8
}

pub open spec fn pow256(k: int) -> nat {
    if k <= 0 {
        1
    } else if k == 1 {
        256
    } else if k == 2 {
        65536
    } else {
        16777216
    }
}

/// The 32-bit value of four big-endian bytes.
pub open spec fn be_u32(b0: u8, b1: u8, b2: u8, b3: u8) -> nat {
    b0 as nat * 16777216 + b1 as nat * 65536 + b2 as nat * 256 + b3 as nat
}

/// PREVENT ALLOW MEDIUM REMOVAL: prevent when `lock`, allow otherwise.
pub open spec fn lock_media_cmd(lock: bool) -> Seq<u8> {
    seq![0x1Eu8, 0x0, 0x0, 0x0, if lock { 0x1u8 } else { 0x0u8 }, 0x0]
}

/// START STOP UNIT with the load/eject bit set: load when `load`, eject
/// otherwise.
pub open spec fn load_unload_cmd(load: bool) -> Seq<u8> {
    seq![0x1Bu8, 0x0, 0x0, 0x0, if load { 0x3u8 } else { 0x2u8 }, 0x0]
}

/// The blanking type byte of BLANK, with the immediate bit set: minimal
/// blanking for fast, the whole disc for full.
pub open spec fn blank_type(mode: BlankMode) -> u8 {
    match mode {
        BlankMode::Fast => 0x11,
        BlankMode::Full => 0x10,
    }
}

/// BLANK.
pub open spec fn blank_cmd(mode: BlankMode) -> Seq<u8> {
    seq![0xA1u8, blank_type(mode), 0x0, 0x0, 0x0, 0x0, 0x0, 0x0, 0x0, 0x0, 0x0, 0x0]
}

/// READ DISC INFORMATION, asking for 4 bytes.
pub open spec fn read_disk_info_cmd() -> Seq<u8> {
    seq![0x51u8, 0x0, 0x0, 0x0, 0x0, 0x0, 0x0, 0x0, 0x4, 0x0]
}

/// SEND OPC INFORMATION with the DoOpc bit: run optimum power calibration.
pub open spec fn opc_cmd() -> Seq<u8> {
    seq![0x54u8, 0x1, 0x0, 0x0, 0x0, 0x0, 0x0, 0x0, 0x0, 0x0, 0x0]
}

/// MODE SENSE (10) for the page `page_code`, allocation length 255.
pub open spec fn mode_sense_cmd(page_code: u8) -> Seq<u8> {
    seq![0x5Au8, 0x0, page_code % 64, 0x0, 0x0, 0x0, 0x0, 0x0, 0xFF]
}

/// MODE SELECT (10) with page format set, for a parameter list of `len` bytes.
pub open spec fn mode_select_cmd(len: nat) -> Seq<u8> {
    seq![
        0x55u8,
        0x10,
        0x0,
        0x0,
        0x0,
        0x0,
        0x0,
        ((len / 256) % 256) as u8,
        (len % 256) as u8,
        0x0,
        0x0,
    ]
}

/// SEND CUE SHEET for a cue sheet of `len` bytes.
pub open spec fn send_cue_sheet_cmd(len: nat) -> Seq<u8> {
    seq![
        0x5Du8,
        0x0,
        0x0,
        0x0,
        0x0,
        0x0,
        ((len / 65536) % 256) as u8,
        ((len / 256) % 256) as u8,
        (len % 256) as u8,
        0x0,
    ]
}

/// The logical block address field of WRITE (10) for a block: the block's
/// address less the 150 blocks of the first pregap, as a 32-bit two's
/// complement value.
pub open spec fn write10_lba_field(at: Lba) -> nat {
    (((at.0 as nat % 4294967296) + 4294967296 - 150) % 4294967296) as nat
}

/// WRITE (10) of `blocks` blocks starting at `at`.
pub open spec fn write10_cmd(at: Lba, blocks: nat) -> Seq<u8> {
    seq![
        0x2Au8,
        0x0,
        be_byte(write10_lba_field(at), 0),
        be_byte(write10_lba_field(at), 1),
        be_byte(write10_lba_field(at), 2),
        be_byte(write10_lba_field(at), 3),
        0x0,
        ((blocks / 256) % 256) as u8,
        (blocks % 256) as u8,
        0x0,
    ]
}

/// SYNCHRONIZE CACHE.
pub open spec fn flush_cache_cmd() -> Seq<u8> {
    seq![0x35u8, 0x0, 0x0, 0x0, 0x0, 0x0, 0x0, 0x0, 0x0, 0x0]
}

/// The read and write speed that SET CD SPEED is given: 117 per multiple of
/// the audio data rate, or 0xFFFF (as fast as the drive can) when none is
/// named.
pub open spec fn speed_value(speed_multiplier: Option<u8>) -> nat {
    match speed_multiplier {
        Some(m) => m as nat * 117,
        None => 0xFFFF,
    }
}

/// SET CD SPEED, read and write speed both set to `speed`.
pub open spec fn set_speed_cmd(speed: nat) -> Seq<u8> {
    seq![
        0xBBu8,
        0x0,
        ((speed / 256) % 256) as u8,
        (speed % 256) as u8,
        ((speed / 256) % 256) as u8,
        (speed % 256) as u8,
        0x0,
        0x0,
        0x0,
        0x0,
        0x0,
        0x0,
    ]
}

/// READ BUFFER CAPACITY, asking for 12 bytes.
pub open spec fn read_buffer_capacity_cmd() -> Seq<u8> {
    seq![0x5Cu8, 0x0, 0x0, 0x0, 0x0, 0x0, 0x0, 0x0, 12, 0x0]
}

/// READ TRACK INFORMATION for the invisible (next writable) track.
pub open spec fn read_track_info_cmd() -> Seq<u8> {
    seq![0x52u8, 0x1, 0x0, 0x0, 0x0, 0xFF, 0x0, 0x0, 0x0, 0x0]
}

/// Builds the WRITE (10) command.
pub fn write10_command(at: Lba, blocks: usize) -> (r: Vec<u8>)
    ensures
        r@ == write10_cmd(at, blocks as nat),
{
    let low = (at.0 % 4294967296) as u32;
    let field: u32 = if low >= 150 {
        low - 150
    } else {
        (4294967296u64 - 150 + low as u64) as u32
    };
    assert(field == write10_lba_field(at));
    let r = vec![
        0x2Au8,
        0x0,
        ((field / 16777216) % 256) as u8,
        ((field / 65536) % 256) as u8,
        ((field / 256) % 256) as u8,
        (field % 256) as u8,
        0x0,
        ((blocks / 256) % 256) as u8,
        (blocks % 256) as u8,
        0x0,
    ];
    assert(r@ =~= write10_cmd(at, blocks as nat));
    r
}

/// How the answer to READ DISC INFORMATION gives the drive's status. Any
/// answer with data means ready. Sense data of at least 14 bytes with sense
/// key NOT READY, additional length at least 6 and LONG WRITE IN PROGRESS
/// or FORMAT IN PROGRESS (ASC 4, ASCQ 7 or 8) means busy; its progress
/// indication (bytes 16..18, valid when bit 7 of byte 15 is set, which needs
/// 18 bytes) is reported, or the drive counts as not ready without one.
/// Other sense data means ready; any other error means not ready.
pub open spec fn disk_info_status(outcome: Result<Option<Vec<u8>>, ScsiError>) -> CdrStatusResult {
    match outcome {
        Ok(_) => CdrStatusResult::Ready,
        Err(ScsiError::DriveError { cmd: _, sense_data: Some(sense) }) => {
            let s = sense.bytes@;
            if s.len() >= 14 && s[2] & 0x0F == 2 && s[7] >= 6 && s[12] == 0x4 && (s[13] == 0x8
                || s[13] == 0x7) {
                if s.len() >= 18 && s[15] & 0x80 != 0 {
                    CdrStatusResult::Busy((s[16] as nat * 256 + s[17] as nat) as u16)
                } else {
                    CdrStatusResult::NotReady
                }
            } else {
                CdrStatusResult::Ready
            }
        },
        Err(_) => CdrStatusResult::NotReady,
    }
}

/// Reads the drive status out of the answer to READ DISC INFORMATION.
pub fn disk_info_status_from(outcome: &Result<Option<Vec<u8>>, ScsiError>) -> (r: CdrStatusResult)
    ensures
        r == disk_info_status(*outcome),
{
    match outcome {
        Ok(_) => CdrStatusResult::Ready,
        Err(ScsiError::DriveError { cmd: _, sense_data: Some(sense) }) => {
            let s = &sense.bytes;
            if s.len() >= 14 && s[2] & 0x0F == 2 && s[7] >= 6 && s[12] == 0x4 && (s[13] == 0x8
                || s[13] == 0x7) {
                if s.len() >= 18 && s[15] & 0x80 != 0 {
                    CdrStatusResult::Busy(s[16] as u16 * 256 + s[17] as u16)
                } else {
                    CdrStatusResult::NotReady
                }
            } else {
                CdrStatusResult::Ready
            }
        },
        Err(_) => CdrStatusResult::NotReady,
    }
}

/// A mode page answer is long enough for its header and, where it reports a
/// mode page, for the block descriptor and the page it reports.
pub open spec fn mode_sense_data_complete(data: Seq<u8>) -> bool {
    data.len() >= 8 && {
        let mode_data_len = data[0] as nat * 256 + data[1] as nat;
        let block_desc_len = data[6] as nat * 256 + data[7] as nat;
        mode_data_len > block_desc_len + 6 ==> {
            let start = block_desc_len + 8;
            &&& start + 2 <= data.len()
            &&& start + data[start as int + 1] + 2 <= data.len()
            &&& (block_desc_len >= 8 ==> data.len() >= 16)
        }
    }
}

/// Whether MODE SENSE data `data` reports a mode page.
pub open spec fn mode_sense_has_page(data: Seq<u8>) -> bool {
    data[0] as nat * 256 + data[1] as nat > data[6] as nat * 256 + data[7] as nat + 6
}

/// The mode page that MODE SENSE data reports: it starts after the 8-byte
/// header and the block descriptors, and is its length byte plus 2 long.
pub open spec fn mode_sense_page(data: Seq<u8>) -> Seq<u8> {
    let start = data[6] as nat * 256 + data[7] as nat + 8;
    data.subrange(start as int, start + data[start as int + 1] + 2)
}

/// The block descriptor that MODE SENSE data reports, or zeros when the
/// block descriptors are shorter than one descriptor.
pub open spec fn mode_sense_block_descriptor(data: Seq<u8>) -> Seq<u8> {
    if data[6] as nat * 256 + data[7] as nat >= 8 {
        data.subrange(8, 16)
    } else {
        seq![0u8, 0, 0, 0, 0, 0, 0, 0]
    }
}

/// Whether `page` is what MODE SENSE data `data` describes.
pub open spec fn mode_page_read_from(page: CdrDriverModePage, data: Seq<u8>) -> bool {
    &&& page.header_bytes() == data.subrange(0, 8)
    &&& page.block_descriptor_bytes() == mode_sense_block_descriptor(data)
    &&& page.page() == mode_sense_page(data)
}

/// Splits MODE SENSE data into header, block descriptor and mode page; `None`
/// when it reports no mode page.
pub fn mode_page_from(data: &[u8]) -> (r: Option<CdrDriverModePage>)
    requires
        mode_sense_data_complete(data@),
    ensures
        r is Some <==> mode_sense_has_page(data@),
        r matches Some(page) ==> mode_page_read_from(page, data@),
{
    let mode_data_len = (data[0] as usize) * 256 + data[1] as usize;
    let block_desc_len = (data[6] as usize) * 256 + data[7] as usize;
    if mode_data_len > block_desc_len + 6 {
        let start = block_desc_len + 8;
        let page_len = data[start + 1] as usize + 2;
        let header: [u8; 8] = [
            data[0],
            data[1],
            data[2],
            data[3],
            data[4],
            data[5],
            data[6],
            data[7],
        ];
        let block_descriptor: [u8; 8] = if block_desc_len >= 8 {
            [data[8], data[9], data[10], data[11], data[12], data[13], data[14], data[15]]
        } else {
            [0; 8]
        };
        let end = start + page_len;
        let mut page: Vec<u8> = Vec::new();
        let mut i = start;
        while i < end
            invariant
                end == start + page_len,
                start <= i <= end <= data@.len(),
                page@ == data@.subrange(start as int, i as int),
            decreases end - i,
        {
            page.push(data[i]);
            assert(page@ =~= data@.subrange(start as int, i + 1));
            i = i + 1;
        }
        assert(header@ =~= data@.subrange(0, 8));
        assert(block_descriptor@ =~= mode_sense_block_descriptor(data@));
        Some(CdrDriverModePage::from_parts(page, header, block_descriptor))
    } else {
        None
    }
}

/// The write parameters page (page 5) changed for a session-at-once write:
/// byte 0 loses its PS bit, byte 2 gets write type 2 (session at once),
/// test write when `dry`, buffer underrun protection when `protect_underrun`,
/// and keeps its bits 5 and 7; byte 3 keeps only its multi-session field,
/// byte 4 loses its data block type, and byte 8 (session format) is 0.
pub open spec fn session_write_parameters(
    page: Seq<u8>,
    dry: bool,
    protect_underrun: bool,
) -> Seq<u8> {
    page.update(0, page[0] & 0x7f).update(
        2,
        (page[2] & 0xa0) | (if protect_underrun {
            0x40u8
        } else {
            0u8
        }) | (if dry {
            0x10u8
        } else {
            0u8
        }) | 0x02,
    ).update(3, page[3] & 0x3f).update(4, page[4] & 0xf0).update(8, 0)
}

/// Sets up a write parameters page for a session-at-once write.
pub fn session_write_parameters_from(
    page: &[u8],
    dry: bool,
    protect_underrun: bool,
    session_format: CdrSessionFormat,
) -> (r: Vec<u8>)
    requires
        page@.len() >= 9,
    ensures
        r@ == session_write_parameters(page@, dry, protect_underrun),
{
    let mut out: Vec<u8> = Vec::new();
    let mut i: usize = 0;
    while i < page.len()
        invariant
            i <= page@.len(),
            out@ == page@.subrange(0, i as int),
        decreases page@.len() - i,
    {
        out.push(page[i]);
        assert(out@ =~= page@.subrange(0, i + 1));
        i = i + 1;
    }
    assert(out@ =~= page@);
    let b0 = out[0] & 0x7f;
    out.set(0, b0);
    let mut b2 = out[2] & 0xe0;
    b2 = b2 | 0x02;
    if dry {
        b2 = b2 | (1u8 << 4u8);
    }
    if protect_underrun {
        b2 = b2 | 0x40;
    } else {
        b2 = b2 & !0x40u8;
    }
    let p2 = page[2];
    assert(((((p2 & 0xe0) | 0x02) | (1u8 << 4u8)) | 0x40) == (p2 & 0xa0) | 0x40u8 | 0x10u8 | 0x02)
        by (bit_vector);
    assert(((((p2 & 0xe0) | 0x02) | (1u8 << 4u8)) & !0x40u8) == (p2 & 0xa0) | 0u8 | 0x10u8 | 0x02)
        by (bit_vector);
    assert((((p2 & 0xe0) | 0x02) | 0x40) == (p2 & 0xa0) | 0x40u8 | 0u8 | 0x02) by (bit_vector);
    assert((((p2 & 0xe0) | 0x02) & !0x40u8) == (p2 & 0xa0) | 0u8 | 0u8 | 0x02) by (bit_vector);
    out.set(2, b2);
    let b3 = out[3] & 0x3f;
    out.set(3, b3);
    let b4 = out[4] & 0xf0;
    out.set(4, b4);
    let format_byte: u8 = match session_format {
        CdrSessionFormat::CdDigitalAudio => 0x00,
        CdrSessionFormat::CdRom => 0x00,
    };
    out.set(8, format_byte);
    assert(out@ =~= session_write_parameters(page@, dry, protect_underrun));
    out
}

/// The MODE SELECT parameter list for `mode_page`: an 8-byte mode parameter
/// header (from `header` when given, else zeros) with its mode data length
/// (bytes 0, 1) and bytes 4, 5 cleared and its block descriptor length
/// (bytes 6, 7) set to 8 or 0; then the block descriptor when given; then
/// the page.
pub open spec fn mode_select_data(
    mode_page: Seq<u8>,
    header: Option<Seq<u8>>,
    block_descriptor: Option<Seq<u8>>,
) -> Seq<u8> {
    let h = match header {
        Some(h) => h,
        None => seq![0u8, 0, 0, 0, 0, 0, 0, 0],
    };
    let bd_len: u8 = if block_descriptor is Some {
        8
    } else {
        0
    };
    let h2 = seq![0u8, 0u8, h[2], h[3], 0u8, 0u8, 0u8, bd_len];
    match block_descriptor {
        Some(bd) => h2 + bd + mode_page,
        None => h2 + mode_page,
    }
}

/// A mode page is as long as its length byte (byte 1) says, plus 2.
pub open spec fn mode_page_well_sized(mode_page: Seq<u8>) -> bool {
    mode_page.len() >= 2 && mode_page.len() == mode_page[1] + 2
}

/// Builds the MODE SELECT parameter list.
pub fn mode_select_data_from(
    mode_page: &[u8],
    header: Option<&[u8; 8]>,
    block_descriptor: Option<&[u8; 8]>,
) -> (r: Vec<u8>)
    requires
        mode_page_well_sized(mode_page@),
    ensures
        r@ == mode_select_data(
            mode_page@,
            match header {
                Some(h) => Some(h@),
                None => None,
            },
            match block_descriptor {
                Some(b) => Some(b@),
                None => None,
            },
        ),
{
    let (h2, h3) = match header {
        Some(h) => (h[2], h[3]),
        None => (0u8, 0u8),
    };
    let bd_len: u8 = if block_descriptor.is_some() {
        8
    } else {
        0
    };
    let mut data: Vec<u8> = vec![0u8, 0u8, h2, h3, 0u8, 0u8, 0u8, bd_len];
    match block_descriptor {
        Some(bd) => {
            data.extend_from_slice(bd.as_slice());
        },
        None => {},
    }
    data.extend_from_slice(mode_page);
    proof {
        let hs = match header {
            Some(h) => Some(h@),
            None => None,
        };
        let bs = match block_descriptor {
            Some(b) => Some(b@),
            None => None,
        };
        assert(data@ =~= mode_select_data(mode_page@, hs, bs));
    }
    data
}

/// Buffer capacity from READ BUFFER CAPACITY data: total length in bytes
/// 4..8, blank length in bytes 8..12, both big-endian.
pub fn buffer_capacity_from(data: &[u8]) -> (r: CdrDriverBufferCapacity)
    requires
        data@.len() >= 12,
    ensures
        r.capacity == be_u32(data@[4], data@[5], data@[6], data@[7]),
        r.available == be_u32(data@[8], data@[9], data@[10], data@[11]),
{
    CdrDriverBufferCapacity {
        capacity: data[4] as u32 * 16777216 + data[5] as u32 * 65536 + data[6] as u32 * 256
            + data[7] as u32,
        available: data[8] as u32 * 16777216 + data[9] as u32 * 65536 + data[10] as u32 * 256
            + data[11] as u32,
    }
}

/// Whether READ TRACK INFORMATION data reports a usable next writable
/// address: the track is blank (bit 6 of byte 6), reserved track, packet
/// and fixed bits (0xb0 of byte 6) clear, and the next writable address
/// valid (bit 0 of byte 7).
pub open spec fn track_info_has_next_writable(data: Seq<u8>) -> bool {
    data[6] & 0x40 > 0 && data[7] & 0x1 > 0 && data[6] & 0xb0 == 0
}

/// The next writable address in READ TRACK INFORMATION data (bytes 12..16),
/// moved past the 150 blocks of the first pregap.
pub open spec fn track_info_next_writable(data: Seq<u8>) -> nat {
    be_u32(data[12], data[13], data[14], data[15]) + 150
}

/// Reads the next writable address out of READ TRACK INFORMATION data.
pub fn next_writable_from(data: &[u8]) -> (r: Result<Lba, CdrDriverError>)
    requires
        data@.len() >= 16,
    ensures
        track_info_has_next_writable(data@) ==> (r matches Ok(l) && l.0 == track_info_next_writable(data@)),
        !track_info_has_next_writable(data@) ==> r matches Err(CdrDriverError::InvalidResponse),
{
    if data[6] & 0x40 > 0 && data[7] & 0x1 > 0 && data[6] & 0xb0 == 0 {
        let v = data[12] as u64 * 16777216 + data[13] as u64 * 65536 + data[14] as u64 * 256
            + data[15] as u64;
        Ok(Lba(v + 150))
    } else {
        Err(CdrDriverError::InvalidResponse)
    }
}

/// What the polling after BLANK does with a status reading.
pub enum BlankPoll {
    /// The drive is ready: blanking is over.
    Complete,
    /// Blanking goes on; report this progress and poll again.
    Report(Progress),
    /// Polling failed.
    Fail(ScsiError),
}

/// Decides what to do with a status reading while blanking: ready ends it;
/// a busy drive reports its progress out of 65535; a drive that is not ready,
/// or answers with sense data, reports no progress; any other error fails.
pub fn blank_poll_step(status: Result<CdrStatusResult, ScsiError>) -> (r: BlankPoll)
    ensures
        match status {
            Ok(CdrStatusResult::Ready) => r is Complete,
            Ok(CdrStatusResult::Busy(p)) => r == BlankPoll::Report(
                Progress { progress: p as u64, total: 65535 },
            ),
            Ok(CdrStatusResult::NotReady) => r == BlankPoll::Report(
                Progress { progress: 0, total: 0 },
            ),
            Err(ScsiError::DriveError { cmd: _, sense_data: Some(_) }) => r == BlankPoll::Report(
                Progress { progress: 0, total: 0 },
            ),
            Err(e) => r == BlankPoll::Fail(e),
        },
{
    match status {
        Ok(CdrStatusResult::Ready) => BlankPoll::Complete,
        Ok(CdrStatusResult::Busy(progress)) => BlankPoll::Report(
            Progress::new(progress as u64, 65535),
        ),
        Ok(CdrStatusResult::NotReady) => BlankPoll::Report(Progress::new(0, 0)),
        Err(ScsiError::DriveError { cmd, sense_data: Some(sense) }) => BlankPoll::Report(
            Progress::new(0, 0),
        ),
        Err(e) => BlankPoll::Fail(e),
    }
}

/// A CD recorder reached through a SCSI driver.
pub struct MmcDriver<S: ScsiDriver> {
    scsi: Arc<S>,
}

impl<S: ScsiDriver> Clone for MmcDriver<S> {
    fn clone(&self) -> (r: Self)
        ensures
            r.device() == self.device(),
    {
        MmcDriver { scsi: self.scsi.clone() }
    }
}

impl<S: ScsiDriver> MmcDriver<S> {
    /// The SCSI device the commands go to.
    pub closed spec fn device(&self) -> S {
        *self.scsi
    }

    pub fn new_from_scsi_driver(scsi_driver: Arc<S>) -> (r: Self)
        ensures
            r.device() == *scsi_driver,
    {
        Self { scsi: scsi_driver }
    }

    pub fn scsi_driver(&self) -> (r: Arc<S>)
        ensures
            *r == self.device(),
    {
        self.scsi.clone()
    }

    pub fn lock_media(&self) -> (r: Result<(), ScsiError>)
        ensures
            exists|o|
                #![trigger self.device().may_answer(lock_media_cmd(true), Transfer::NoData, o)]
                self.device().may_answer(lock_media_cmd(true), Transfer::NoData, o) && r
                    == without_output(o),
    {
        assert(self.device() == *self.scsi);
        mmc_lock_media(&*self.scsi, true)
    }

    pub fn unlock_media(&self) -> (r: Result<(), ScsiError>)
        ensures
            exists|o|
                #![trigger self.device().may_answer(lock_media_cmd(false), Transfer::NoData, o)]
                self.device().may_answer(lock_media_cmd(false), Transfer::NoData, o) && r
                    == without_output(o),
    {
        assert(self.device() == *self.scsi);
        mmc_lock_media(&*self.scsi, false)
    }

    /// Allows medium removal, then ejects; an error of the first step is
    /// returned without trying the second.
    pub fn eject(&self) -> (r: Result<(), ScsiError>)
        ensures
            exists|o|
                #![trigger self.device().may_answer(lock_media_cmd(false), Transfer::NoData, o)]
                self.device().may_answer(lock_media_cmd(false), Transfer::NoData, o) && match o {
                    Err(e) => r == Err::<(), ScsiError>(e),
                    Ok(_) => exists|o2|
                        #![trigger self.device().may_answer(load_unload_cmd(false), Transfer::NoData, o2)]
                        self.device().may_answer(load_unload_cmd(false), Transfer::NoData, o2)
                            && r == without_output(o2),
                },
    {
        assert(self.device() == *self.scsi);
        self.unlock_media()?;
        mmc_load_unload(&*self.scsi, false)
    }

    pub fn close_tray(&self) -> (r: Result<(), ScsiError>)
        ensures
            exists|o|
                #![trigger self.device().may_answer(load_unload_cmd(true), Transfer::NoData, o)]
                self.device().may_answer(load_unload_cmd(true), Transfer::NoData, o) && r
                    == without_output(o),
    {
        assert(self.device() == *self.scsi);
        mmc_load_unload(&*self.scsi, true)
    }

    /// Starts blanking the disc. The command returns at once; the drive
    /// reports progress through READ DISC INFORMATION (see `blank_poll_step`).
    pub fn blank(&self, blank_mode: BlankMode) -> (r: Result<(), ScsiError>)
        ensures
            exists|o|
                #![trigger self.device().may_answer(blank_cmd(blank_mode), Transfer::NoData, o)]
                self.device().may_answer(blank_cmd(blank_mode), Transfer::NoData, o) && r
                    == without_output(o),
    {
        assert(self.device() == *self.scsi);
        let blank_byte: u8 = match blank_mode {
            BlankMode::Fast => 0x11,
            BlankMode::Full => 0x10,
        };
        let cmd: Vec<u8> = vec![0xA1, blank_byte, 0x0, 0x0, 0x0, 0x0, 0x0, 0x0, 0x0, 0x0, 0x0, 0x0];
        assert(cmd@ =~= blank_cmd(blank_mode));
        self.scsi.send_cmd(cmd.as_slice())
    }

    /// The drive status as READ DISC INFORMATION reports it.
    pub fn read_disk_info(&self) -> (r: Result<CdrStatusResult, ScsiError>)
        ensures
            exists|o|
                #![trigger self.device().may_answer(read_disk_info_cmd(), Transfer::Output, o)]
                self.device().may_answer(read_disk_info_cmd(), Transfer::Output, o) && r == Ok::<
                    CdrStatusResult,
                    ScsiError,
                >(disk_info_status(o)),
    {
        assert(self.device() == *self.scsi);
        mmc_read_disk_info(&*self.scsi)
    }

    pub fn status(&self) -> (r: Result<CdrStatusResult, ScsiError>)
        ensures
            ready_status(self.device(), r),
    {
        assert(self.device() == *self.scsi);
        mmc_ready(&*self.scsi)
    }

    /// Reads the write parameters mode page, sets it up for a session-at-once
    /// write and writes it back. A page that cannot be read, or is shorter
    /// than its session format byte, is an invalid response.
    pub fn start_write_session(
        &self,
        dry: bool,
        protect_underrun: bool,
        session_format: CdrSessionFormat,
    ) -> (r: Result<(), CdrDriverError>)
        ensures
            write_session_result(self.device(), dry, protect_underrun, r),
    {
        let read = self.get_mode_page(5);
        let mut mode_page = match read {
            Ok(Some(mode_page)) => mode_page,
            Ok(None) => {
                return Err(CdrDriverError::InvalidResponse);
            },
            Err(e) => {
                return Err(CdrDriverError::ScsiError(e));
            },
        };
        let ghost read_page = mode_page;
        if mode_page.page_bytes().len() < 9 {
            return Err(CdrDriverError::InvalidResponse);
        }
        let new_page = session_write_parameters_from(
            mode_page.page_bytes(),
            dry,
            protect_underrun,
            session_format,
        );
        let header = mode_page.header();
        mode_page.set_page(new_page);
        let written = self.set_mode_page(mode_page.page_bytes(), Some(&header), None);
        assert(mode_page_written(
            self.device(),
            session_write_parameters(read_page.page(), dry, protect_underrun),
            Some(read_page.header_bytes()),
            None,
            written,
        ));
        match written {
            Ok(()) => Ok(()),
            Err(e) => Err(CdrDriverError::ScsiError(e)),
        }
    }

    pub fn calibrate_laser_power(&self) -> (r: Result<(), ScsiError>)
        ensures
            exists|o|
                #![trigger self.device().may_answer(opc_cmd(), Transfer::NoData, o)]
                self.device().may_answer(opc_cmd(), Transfer::NoData, o) && r == without_output(o),
    {
        assert(self.device() == *self.scsi);
        let cmd: Vec<u8> = vec![
            0x54,
            0x1,
            0x0,
            0x0,
            0x0,
            0x0,
            0x0,
            0x0,
            0x0,
            0x0,
            0x0,
        ];
        assert(cmd@ =~= opc_cmd());
        self.scsi.send_cmd(cmd.as_slice())
    }

    /// Reads mode page `page_code` with MODE SENSE. Data too short to hold
    /// what its own length fields describe is taken as no page.
    pub fn get_mode_page(&self, page_code: u8) -> (r: Result<Option<CdrDriverModePage>, ScsiError>)
        ensures
            mode_sense_result(self.device(), page_code, r),
    {
        assert(self.device() == *self.scsi);
        let cmd: Vec<u8> = vec![0x5A, 0x0, page_code % 64, 0x0, 0x0, 0x0, 0x0, 0x0, 0xFF];
        assert(cmd@ =~= mode_sense_cmd(page_code));
        let outcome = self.scsi.send_cmd_with_direction(cmd.as_slice(), ScsiDirection::Output);
        match outcome {
            Ok(Some(data)) => {
                if mode_sense_complete_check(data.as_slice()) {
                    Ok(mode_page_from(data.as_slice()))
                } else {
                    Ok(None)
                }
            },
            Ok(None) => Ok(None),
            Err(e) => Err(e),
        }
    }

    /// Writes a mode page with MODE SELECT.
    pub fn set_mode_page(
        &self,
        mode_page: &[u8],
        mode_page_header: Option<&[u8; 8]>,
        block_descriptor: Option<&[u8; 8]>,
    ) -> (r: Result<(), ScsiError>)
        requires
            mode_page_well_sized(mode_page@),
        ensures
            mode_page_written(
                self.device(),
                mode_page@,
                match mode_page_header {
                    Some(h) => Some(h@),
                    None => None,
                },
                match block_descriptor {
                    Some(b) => Some(b@),
                    None => None,
                },
                r,
            ),
    {
        assert(self.device() == *self.scsi);
        let data = mode_select_data_from(mode_page, mode_page_header, block_descriptor);
        let len = data.len();
        let cmd: Vec<u8> = vec![
            0x55,
            0x1 << 4u8,
            0x0,
            0x0,
            0x0,
            0x0,
            0x0,
            ((len / 256) % 256) as u8,
            (len % 256) as u8,
            0x0,
            0x0,
        ];
        assert((0x1u8 << 4u8) == 0x10u8) by (bit_vector);
        assert(cmd@ =~= mode_select_cmd(len as nat));
        self.scsi.send_cmd_with_input(cmd.as_slice(), data.as_slice())
    }

    pub fn send_cue_sheet(&self, cue_sheet: &[u8]) -> (r: Result<(), CdrDriverError>)
        ensures
            exists|o|
                #![trigger self.device().may_answer(send_cue_sheet_cmd(cue_sheet@.len()), Transfer::Input(cue_sheet@), o)]
                self.device().may_answer(
                    send_cue_sheet_cmd(cue_sheet@.len()),
                    Transfer::Input(cue_sheet@),
                    o,
                ) && match o {
                    Ok(_) => r is Ok,
                    Err(e) => r == Err::<(), CdrDriverError>(CdrDriverError::ScsiError(e)),
                },
    {
        assert(self.device() == *self.scsi);
        let len = cue_sheet.len();
        let cmd: Vec<u8> = vec![
            0x5D,
            0x0,
            0x0,
            0x0,
            0x0,
            0x0,
            ((len / 65536) % 256) as u8,
            ((len / 256) % 256) as u8,
            (len % 256) as u8,
            0x0,
        ];
        assert(cmd@ =~= send_cue_sheet_cmd(len as nat));
        match self.scsi.send_cmd_with_direction(cmd.as_slice(), ScsiDirection::Input(cue_sheet)) {
            Ok(_) => Ok(()),
            Err(e) => Err(CdrDriverError::ScsiError(e)),
        }
    }

    /// A writer of 2352-byte blocks starting at `address`.
    pub fn start_write10(&self, address: Lba) -> (r: Result<Writer<S>, CdrDriverError>)
        ensures
            r matches Ok(w) && w.wf() && w.block_size() == 2352 && w.next_address() == address
                && w.queued() == Seq::<u8>::empty() && w.queued_at() == address && w.device()
                == self.device(),
    {
        assert(self.device() == *self.scsi);
        Ok(Writer::new(self.scsi.clone(), 2352, address))
    }

    pub fn flush_cache(&self) -> (r: Result<(), CdrDriverError>)
        ensures
            flush_cache_result(self.device(), r),
    {
        assert(self.device() == *self.scsi);
        let cmd: Vec<u8> = vec![0x35, 0x0, 0x0, 0x0, 0x0, 0x0, 0x0, 0x0, 0x0, 0x0];
        assert(cmd@ =~= flush_cache_cmd());
        match self.scsi.send_cmd_with_direction(cmd.as_slice(), ScsiDirection::NoData) {
            Ok(_) => Ok(()),
            Err(e) => Err(CdrDriverError::ScsiError(e)),
        }
    }

    pub fn set_speed_multiplier(&self, speed_multiplier: Option<u8>) -> (r: Result<
        (),
        CdrDriverError,
    >)
        ensures
            exists|o|
                #![trigger self.device().may_answer(set_speed_cmd(speed_value(speed_multiplier)), Transfer::NoData, o)]
                self.device().may_answer(
                    set_speed_cmd(speed_value(speed_multiplier)),
                    Transfer::NoData,
                    o,
                ) && match o {
                    Ok(_) => r is Ok,
                    Err(e) => r == Err::<(), CdrDriverError>(CdrDriverError::ScsiError(e)),
                },
    {
        assert(self.device() == *self.scsi);
        let speed: u16 = match speed_multiplier {
            Some(m) => m as u16 * 117,
            None => 0xFFFF,
        };
        let cmd: Vec<u8> = vec![
            0xBB,
            0x0,
            (speed / 256) as u8,
            (speed % 256) as u8,
            (speed / 256) as u8,
            (speed % 256) as u8,
            0x0,
            0x0,
            0x0,
            0x0,
            0x0,
            0x0,
        ];
        assert(cmd@ =~= set_speed_cmd(speed_value(speed_multiplier)));
        match self.scsi.send_cmd_with_direction(cmd.as_slice(), ScsiDirection::NoData) {
            Ok(_) => Ok(()),
            Err(e) => Err(CdrDriverError::ScsiError(e)),
        }
    }

    /// Reads the drive's buffer capacity. Data shorter than 12 bytes is an
    /// invalid response.
    pub fn read_buffer_capacity(&self) -> (r: Result<CdrDriverBufferCapacity, CdrDriverError>)
        ensures
            exists|o|
                #![trigger self.device().may_answer(read_buffer_capacity_cmd(), Transfer::Output, o)]
                self.device().may_answer(read_buffer_capacity_cmd(), Transfer::Output, o)
                    && match o {
                    Ok(Some(data)) => if data@.len() >= 12 {
                        r matches Ok(c) && c.capacity == be_u32(
                            data@[4],
                            data@[5],
                            data@[6],
                            data@[7],
                        ) && c.available == be_u32(data@[8], data@[9], data@[10], data@[11])
                    } else {
                        r matches Err(CdrDriverError::InvalidResponse)
                    },
                    Ok(None) => false,
                    Err(e) => r matches Err(CdrDriverError::ScsiError(e2)) && e2 == e,
                },
    {
        assert(self.device() == *self.scsi);
        let cmd: Vec<u8> = vec![0x5C, 0x0, 0x0, 0x0, 0x0, 0x0, 0x0, 0x0, 12, 0x0];
        assert(cmd@ =~= read_buffer_capacity_cmd());
        match self.scsi.send_cmd_with_direction(cmd.as_slice(), ScsiDirection::Output) {
            Ok(Some(data)) => {
                if data.len() >= 12 {
                    Ok(buffer_capacity_from(data.as_slice()))
                } else {
                    Err(CdrDriverError::InvalidResponse)
                }
            },
            Ok(None) => Err(CdrDriverError::InvalidResponse),
            Err(e) => Err(CdrDriverError::ScsiError(e)),
        }
    }

    /// The next writable address of the disc, from READ TRACK INFORMATION.
    /// Data shorter than 16 bytes is an invalid response.
    pub fn next_write_address(&self) -> (r: Result<Lba, CdrDriverError>)
        ensures
            next_write_address_result(self.device(), r),
    {
        assert(self.device() == *self.scsi);
        let cmd: Vec<u8> = vec![0x52, 0x1, 0x0, 0x0, 0x0, 0xFF, 0x0, 0x0, 0x0, 0x0];
        assert(cmd@ =~= read_track_info_cmd());
        match self.scsi.send_cmd_with_direction(cmd.as_slice(), ScsiDirection::Output) {
            Ok(Some(data)) => {
                if data.len() >= 16 {
                    next_writable_from(data.as_slice())
                } else {
                    Err(CdrDriverError::InvalidResponse)
                }
            },
            Ok(None) => Err(CdrDriverError::InvalidResponse),
            Err(e) => Err(CdrDriverError::ScsiError(e)),
        }
    }
}

/// Whether the device may have answered SYNCHRONIZE CACHE so that the flush
/// gives `r`.
pub open spec fn flush_cache_result<S: ScsiDriver>(device: S, r: Result<(), CdrDriverError>) -> bool {
    exists|o|
        #![trigger device.may_answer(flush_cache_cmd(), Transfer::NoData, o)]
        device.may_answer(flush_cache_cmd(), Transfer::NoData, o) && match o {
            Ok(_) => r is Ok,
            Err(e) => r == Err::<(), CdrDriverError>(CdrDriverError::ScsiError(e)),
        }
}

/// Whether the device may have answered READ TRACK INFORMATION so that the
/// query for the next writable address gives `r`: the address when the data
/// reports a usable one, an invalid response when it does not or is shorter
/// than 16 bytes, or the error.
pub open spec fn next_write_address_result<S: ScsiDriver>(
    device: S,
    r: Result<Lba, CdrDriverError>,
) -> bool {
    exists|o|
        #![trigger device.may_answer(read_track_info_cmd(), Transfer::Output, o)]
        device.may_answer(read_track_info_cmd(), Transfer::Output, o) && match o {
            Ok(Some(data)) => if data@.len() >= 16 && track_info_has_next_writable(data@) {
                r matches Ok(l) && l.0 == track_info_next_writable(data@)
            } else {
                r matches Err(CdrDriverError::InvalidResponse)
            },
            Ok(None) => false,
            Err(e) => r matches Err(CdrDriverError::ScsiError(e2)) && e2 == e,
        }
}

/// Checks `mode_sense_data_complete`.
fn mode_sense_complete_check(data: &[u8]) -> (r: bool)
    ensures
        r == mode_sense_data_complete(data@),
{
    if data.len() < 8 {
        return false;
    }
    let mode_data_len = (data[0] as usize) * 256 + data[1] as usize;
    let block_desc_len = (data[6] as usize) * 256 + data[7] as usize;
    if mode_data_len > block_desc_len + 6 {
        let start = block_desc_len + 8;
        if start + 2 > data.len() {
            return false;
        }
        if start + data[start + 1] as usize + 2 > data.len() {
            return false;
        }
        if block_desc_len >= 8 && data.len() < 16 {
            return false;
        }
        true
    } else {
        true
    }
}

/// Whether the device may have answered MODE SENSE for `page_code` so that
/// reading the page gives `r`: the page the data reports when the data is
/// complete and reports one, no page when it reports none or is incomplete,
/// or the error.
pub open spec fn mode_sense_result<S: ScsiDriver>(
    device: S,
    page_code: u8,
    r: Result<Option<CdrDriverModePage>, ScsiError>,
) -> bool {
    exists|o|
        #![trigger device.may_answer(mode_sense_cmd(page_code), Transfer::Output, o)]
        device.may_answer(mode_sense_cmd(page_code), Transfer::Output, o) && match o {
            Ok(Some(data)) => if mode_sense_data_complete(data@) && mode_sense_has_page(data@) {
                r matches Ok(Some(p)) && mode_page_read_from(p, data@)
            } else {
                r matches Ok(None)
            },
            Ok(None) => false,
            Err(e) => r == Err::<Option<CdrDriverModePage>, ScsiError>(e),
        }
}

/// Whether setting up a session-at-once write may end with `r`: the write
/// parameters page (page 5) is read; a read error is passed on; no page, or
/// a page shorter than its session format byte, is an invalid response;
/// otherwise the page, changed as `session_write_parameters` says, is written
/// back with the header it was read with, and the outcome of that write is
/// the result.
pub open spec fn write_session_result<S: ScsiDriver>(
    device: S,
    dry: bool,
    protect_underrun: bool,
    r: Result<(), CdrDriverError>,
) -> bool {
    exists|read: Result<Option<CdrDriverModePage>, ScsiError>|
        #![trigger mode_sense_result(device, 5, read)]
        mode_sense_result(device, 5, read) && match read {
            Err(e) => r == Err::<(), CdrDriverError>(CdrDriverError::ScsiError(e)),
            Ok(None) => r matches Err(CdrDriverError::InvalidResponse),
            Ok(Some(page)) => if page.page().len() < 9 {
                r matches Err(CdrDriverError::InvalidResponse)
            } else {
                exists|w: Result<(), ScsiError>|
                    #![trigger mode_page_written(device, session_write_parameters(page.page(), dry, protect_underrun), Some(page.header_bytes()), None, w)]
                    mode_page_written(
                        device,
                        session_write_parameters(page.page(), dry, protect_underrun),
                        Some(page.header_bytes()),
                        None,
                        w,
                    ) && match w {
                        Ok(_) => r is Ok,
                        Err(e) => r == Err::<(), CdrDriverError>(CdrDriverError::ScsiError(e)),
                    }
            },
        }
}

/// Whether the device may have answered MODE SELECT of `mode_page` (with the
/// given header and block descriptor) so that the write returns `r`.
pub open spec fn mode_page_written<S: ScsiDriver>(
    device: S,
    mode_page: Seq<u8>,
    header: Option<Seq<u8>>,
    block_descriptor: Option<Seq<u8>>,
    r: Result<(), ScsiError>,
) -> bool {
    let data = mode_select_data(mode_page, header, block_descriptor);
    exists|o|
        #![trigger device.may_answer(mode_select_cmd(data.len()), Transfer::Input(data), o)]
        device.may_answer(mode_select_cmd(data.len()), Transfer::Input(data), o) && r
            == without_output(o)
}

/// Whether `r` may be the status that TEST UNIT READY, followed by READ DISC
/// INFORMATION when the unit is ready, gives: busy (with no progress) or
/// not ready (no media) straight from TEST UNIT READY, its error, or the
/// status READ DISC INFORMATION reports.
pub open spec fn ready_status<S: ScsiDriver>(device: S, r: Result<CdrStatusResult, ScsiError>) -> bool {
    exists|o|
        #![trigger device.may_answer(test_unit_ready_cmd(), Transfer::NoData, o)]
        device.may_answer(test_unit_ready_cmd(), Transfer::NoData, o) && match unit_ready_answer(
            without_output(o),
        ) {
            Err(e) => r == Err::<CdrStatusResult, ScsiError>(e),
            Ok(TestUnitReadyResponse::Busy) => r == Ok::<CdrStatusResult, ScsiError>(
                CdrStatusResult::Busy(0),
            ),
            Ok(TestUnitReadyResponse::NoMedia) => r == Ok::<CdrStatusResult, ScsiError>(
                CdrStatusResult::NotReady,
            ),
            Ok(TestUnitReadyResponse::Ready) => exists|o2|
                #![trigger device.may_answer(read_disk_info_cmd(), Transfer::Output, o2)]
                device.may_answer(read_disk_info_cmd(), Transfer::Output, o2) && r == Ok::<
                    CdrStatusResult,
                    ScsiError,
                >(disk_info_status(o2)),
        }
}

/// TEST UNIT READY, then READ DISC INFORMATION when the unit is ready.
pub fn mmc_ready<S: ScsiDriver>(scsi_driver: &S) -> (r: Result<CdrStatusResult, ScsiError>)
    ensures
        ready_status(*scsi_driver, r),
{
    match scsi_driver.test_unit_ready() {
        Err(e) => Err(e),
        Ok(TestUnitReadyResponse::Ready) => mmc_read_disk_info(scsi_driver),
        Ok(TestUnitReadyResponse::Busy) => Ok(CdrStatusResult::Busy(0)),
        Ok(TestUnitReadyResponse::NoMedia) => Ok(CdrStatusResult::NotReady),
    }
}

/// READ DISC INFORMATION, read as a drive status.
pub fn mmc_read_disk_info<S: ScsiDriver>(scsi_driver: &S) -> (r: Result<CdrStatusResult, ScsiError>)
    ensures
        exists|o|
            #![trigger scsi_driver.may_answer(read_disk_info_cmd(), Transfer::Output, o)]
            scsi_driver.may_answer(read_disk_info_cmd(), Transfer::Output, o) && r == Ok::<
                CdrStatusResult,
                ScsiError,
            >(disk_info_status(o)),
{
    let cmd: Vec<u8> = vec![0x51, 0x0, 0x0, 0x0, 0x0, 0x0, 0x0, 0x0, 0x4, 0x0];
    assert(cmd@ =~= read_disk_info_cmd());
    let outcome = scsi_driver.send_cmd_with_direction(cmd.as_slice(), ScsiDirection::Output);
    Ok(disk_info_status_from(&outcome))
}

/// PREVENT ALLOW MEDIUM REMOVAL.
pub fn mmc_lock_media<S: ScsiDriver>(scsi_driver: &S, lock: bool) -> (r: Result<(), ScsiError>)
    ensures
        exists|o|
            #![trigger scsi_driver.may_answer(lock_media_cmd(lock), Transfer::NoData, o)]
            scsi_driver.may_answer(lock_media_cmd(lock), Transfer::NoData, o) && r
                == without_output(o),
{
    let cmd: Vec<u8> = vec![
        0x1E,
        0x0,
        0x0,
        0x0,
        if lock {
            0x1
        } else {
            0x0
        },
        0x0,
    ];
    assert(cmd@ =~= lock_media_cmd(lock));
    scsi_driver.send_cmd(cmd.as_slice())
}

/// START STOP UNIT, loading or ejecting.
pub fn mmc_load_unload<S: ScsiDriver>(scsi_driver: &S, load: bool) -> (r: Result<(), ScsiError>)
    ensures
        exists|o|
            #![trigger scsi_driver.may_answer(load_unload_cmd(load), Transfer::NoData, o)]
            scsi_driver.may_answer(load_unload_cmd(load), Transfer::NoData, o) && r
                == without_output(o),
{
    let cmd: Vec<u8> = vec![
        0x1B,
        0x0,
        0x0,
        0x0,
        if load {
            0x3
        } else {
            0x2
        },
        0x0,
    ];
    assert(cmd@ =~= load_unload_cmd(load));
    scsi_driver.send_cmd(cmd.as_slice())
}

/// Setting up the write parameters page for a session-at-once write changes
/// bytes 0, 2, 3, 4 and 8 only, and keeps every other byte of the page as
/// the drive returned it (audio pause length, packet size, catalog number,
/// sub-headers and the rest). Byte 0 loses its PS bit; byte 2 gets write
/// type 2 (session at once), the test write bit exactly when `dry`, the
/// underrun protection bit exactly when `protect_underrun`, and keeps its
/// bits 5 and 7; byte 3 keeps its multi-session and FP bits only; byte 4
/// keeps its high nibble only; byte 8 (session format) is 0.
pub proof fn lemma_session_write_parameters_bytes(page: Seq<u8>, dry: bool, protect_underrun: bool)
    requires
        page.len() >= 9,
    ensures
        session_write_parameters(page, dry, protect_underrun).len() == page.len(),
        forall|j: int|
            0 <= j < page.len() && j != 0 && j != 2 && j != 3 && j != 4 && j != 8
                ==> #[trigger] session_write_parameters(page, dry, protect_underrun)[j] == page[j],
        session_write_parameters(page, dry, protect_underrun)[0] == page[0] & 0x7f,
        session_write_parameters(page, dry, protect_underrun)[2] & 0x0f == 0x02,
        (session_write_parameters(page, dry, protect_underrun)[2] & 0x10 != 0) == dry,
        (session_write_parameters(page, dry, protect_underrun)[2] & 0x40 != 0) == protect_underrun,
        session_write_parameters(page, dry, protect_underrun)[2] & 0xa0 == page[2] & 0xa0,
        session_write_parameters(page, dry, protect_underrun)[3] == page[3] & 0x3f,
        session_write_parameters(page, dry, protect_underrun)[4] == page[4] & 0xf0,
        session_write_parameters(page, dry, protect_underrun)[8] == 0,
{
    let p2 = page[2];
    let b2 = session_write_parameters(page, dry, protect_underrun)[2];
    if dry && protect_underrun {
        assert(b2 == (p2 & 0xa0) | 0x40u8 | 0x10u8 | 0x02);
        assert(((p2 & 0xa0) | 0x40u8 | 0x10u8 | 0x02) & 0x0f == 0x02 && ((p2 & 0xa0) | 0x40u8
            | 0x10u8 | 0x02) & 0x10 != 0 && ((p2 & 0xa0) | 0x40u8 | 0x10u8 | 0x02) & 0x40 != 0
            && ((p2 & 0xa0) | 0x40u8 | 0x10u8 | 0x02) & 0xa0 == p2 & 0xa0) by (bit_vector);
    } else if dry {
        assert(b2 == (p2 & 0xa0) | 0u8 | 0x10u8 | 0x02);
        assert(((p2 & 0xa0) | 0u8 | 0x10u8 | 0x02) & 0x0f == 0x02 && ((p2 & 0xa0) | 0u8 | 0x10u8
            | 0x02) & 0x10 != 0 && ((p2 & 0xa0) | 0u8 | 0x10u8 | 0x02) & 0x40 == 0 && ((p2 & 0xa0)
            | 0u8 | 0x10u8 | 0x02) & 0xa0 == p2 & 0xa0) by (bit_vector);
    } else if protect_underrun {
        assert(b2 == (p2 & 0xa0) | 0x40u8 | 0u8 | 0x02);
        assert(((p2 & 0xa0) | 0x40u8 | 0u8 | 0x02) & 0x0f == 0x02 && ((p2 & 0xa0) | 0x40u8 | 0u8
            | 0x02) & 0x10 == 0 && ((p2 & 0xa0) | 0x40u8 | 0u8 | 0x02) & 0x40 != 0 && ((p2 & 0xa0)
            | 0x40u8 | 0u8 | 0x02) & 0xa0 == p2 & 0xa0) by (bit_vector);
    } else {
        assert(b2 == (p2 & 0xa0) | 0u8 | 0u8 | 0x02);
        assert(((p2 & 0xa0) | 0u8 | 0u8 | 0x02) & 0x0f == 0x02 && ((p2 & 0xa0) | 0u8 | 0u8 | 0x02)
            & 0x10 == 0 && ((p2 & 0xa0) | 0u8 | 0u8 | 0x02) & 0x40 == 0 && ((p2 & 0xa0) | 0u8 | 0u8
            | 0x02) & 0xa0 == p2 & 0xa0) by (bit_vector);
    }
}

/// How READ DISC INFORMATION sense data reads: sense key NOT READY with
/// additional length at least 6 and ASC 4 with ASCQ 7 or 8 (a format or a
/// long write in progress) never reads as ready: with a valid progress
/// indication (18 bytes, bit 7 of byte 15) it is busy with the progress in
/// bytes 16 and 17 (big-endian), without one it is not ready. Any answer
/// with data reads as ready, and so does sense data with a sense key other
/// than NOT READY.
pub proof fn lemma_disk_info_status_reads_progress(cmd: Vec<u8>, sense: crate::scsi::SenseData)
    ensures
        ({
            let s = sense.bytes@;
            let status = disk_info_status(
                Err(ScsiError::DriveError { cmd, sense_data: Some(sense) }),
            );
            &&& (s.len() >= 14 && s[2] & 0x0F == 2 && s[7] >= 6 && s[12] == 0x04 && (s[13] == 0x07
                || s[13] == 0x08)) ==> {
                &&& status != CdrStatusResult::Ready
                &&& (s.len() >= 18 && s[15] & 0x80 != 0) ==> status == CdrStatusResult::Busy(
                    (s[16] as int * 256 + s[17] as int) as u16,
                )
                &&& !(s.len() >= 18 && s[15] & 0x80 != 0) ==> status == CdrStatusResult::NotReady
            }
            &&& (s.len() >= 3 && s[2] & 0x0F != 2) ==> status == CdrStatusResult::Ready
        }),
        forall|data: Option<Vec<u8>>|
            #[trigger] disk_info_status(Ok(data)) == CdrStatusResult::Ready,
{
}

/// READ TRACK INFORMATION data gives a next writable address exactly when
/// the track is blank (bit 6 of byte 6), the address is valid (bit 0 of
/// byte 7), and the track is neither reserved (bit 7 of byte 6), written in
/// packets (bit 5) nor in fixed packets (bit 4). The address is the
/// big-endian value of bytes 12..16, moved past the 150 blocks of the first
/// pregap.
pub proof fn lemma_track_info_next_writable(data: Seq<u8>)
    requires
        data.len() >= 16,
    ensures
        track_info_has_next_writable(data) <==> (data[6] & 0x40 != 0 && data[7] & 0x01 != 0
            && data[6] & 0x80 == 0 && data[6] & 0x20 == 0 && data[6] & 0x10 == 0),
        track_info_next_writable(data) == data[12] as int * 16777216 + data[13] as int * 65536
            + data[14] as int * 256 + data[15] as int + 150,
{
    let b6 = data[6];
    let b7 = data[7];
    assert((b6 & 0x40 > 0) == (b6 & 0x40 != 0) && (b7 & 0x1 > 0) == (b7 & 0x01 != 0) && (b6 & 0xb0
        == 0) == (b6 & 0x80 == 0 && b6 & 0x20 == 0 && b6 & 0x10 == 0)) by (bit_vector);
}

/// The 32-bit value of four bytes is big-endian: the first byte is the most
/// significant, the last the least.
pub proof fn lemma_be_u32(b0: u8, b1: u8, b2: u8, b3: u8)
    ensures
        be_u32(b0, b1, b2, b3) < 4294967296,
        be_u32(b0, b1, b2, b3) % 256 == b3,
        (be_u32(b0, b1, b2, b3) / 256) % 256 == b2,
        (be_u32(b0, b1, b2, b3) / 65536) % 256 == b1,
        be_u32(b0, b1, b2, b3) / 16777216 == b0,
{
    let v = be_u32(b0, b1, b2, b3);
    vstd::arithmetic::div_mod::lemma_fundamental_div_mod_converse(
        v as int,
        256,
        b0 as int * 65536 + b1 as int * 256 + b2 as int,
        b3 as int,
    );
    vstd::arithmetic::div_mod::lemma_fundamental_div_mod_converse(
        v as int / 256,
        256,
        b0 as int * 256 + b1 as int,
        b2 as int,
    );
    vstd::arithmetic::div_mod::lemma_div_denominator(v as int, 256, 256);
    vstd::arithmetic::div_mod::lemma_fundamental_div_mod_converse(
        v as int / 65536,
        256,
        b0 as int,
        b1 as int,
    );
    vstd::arithmetic::div_mod::lemma_div_denominator(v as int, 65536, 256);
    vstd::arithmetic::div_mod::lemma_fundamental_div_mod_converse(
        v as int,
        16777216,
        b0 as int,
        b1 as int * 65536 + b2 as int * 256 + b3 as int,
    );
}

/// WRITE (10) of `blocks` blocks at `at`: operation code 0x2A; a logical
/// block address field (bytes 2..6, big-endian) holding the address less the
/// 150 blocks of the first pregap, modulo 2^32; a transfer length field
/// (bytes 7..9, big-endian) holding the number of blocks modulo 2^16; zeros
/// elsewhere.
pub proof fn lemma_write10_fields(at: Lba, blocks: nat)
    ensures
        write10_cmd(at, blocks).len() == 10,
        write10_cmd(at, blocks)[0] == 0x2A,
        write10_cmd(at, blocks)[1] == 0 && write10_cmd(at, blocks)[6] == 0 && write10_cmd(
            at,
            blocks,
        )[9] == 0,
        be_u32(
            write10_cmd(at, blocks)[2],
            write10_cmd(at, blocks)[3],
            write10_cmd(at, blocks)[4],
            write10_cmd(at, blocks)[5],
        ) == (at.0 as int - 150) % 4294967296,
        write10_cmd(at, blocks)[7] as int * 256 + write10_cmd(at, blocks)[8] as int == blocks
            % 65536,
{
    let m: int = 4294967296;
    let a = at.0 as int;
    let v = write10_lba_field(at) as int;
    vstd::arithmetic::div_mod::lemma_mod_pos_bound(a, m);
    vstd::arithmetic::div_mod::lemma_fundamental_div_mod(a, m);
    vstd::arithmetic::div_mod::lemma_mod_add_multiples_vanish(a % m - 150, m);
    vstd::arithmetic::div_mod::lemma_mod_multiples_vanish(a / m, a % m - 150, m);
    assert(a - 150 == m * (a / m) + (a % m - 150));
    assert(v == (a - 150) % m);
    vstd::arithmetic::div_mod::lemma_mod_pos_bound(a % m + m - 150, m);
    lemma_be_bytes(v);
    vstd::arithmetic::div_mod::lemma_fundamental_div_mod(blocks as int, 256);
    vstd::arithmetic::div_mod::lemma_div_denominator(blocks as int, 256, 256);
    vstd::arithmetic::div_mod::lemma_fundamental_div_mod(blocks as int / 256, 256);
    vstd::arithmetic::div_mod::lemma_fundamental_div_mod(blocks as int, 65536);
    vstd::arithmetic::div_mod::lemma_mod_pos_bound(blocks as int, 256);
    vstd::arithmetic::div_mod::lemma_mod_pos_bound(blocks as int / 256, 256);
    assert((blocks as int / 256) % 256 * 256 + blocks as int % 256 == blocks as int % 65536)
        by (nonlinear_arith)
        requires
            blocks as int == 256 * (blocks as int / 256) + blocks as int % 256,
            blocks as int / 256 == 256 * ((blocks as int / 256) / 256) + (blocks as int / 256)
                % 256,
            (blocks as int / 256) / 256 == blocks as int / 65536,
            blocks as int == 65536 * (blocks as int / 65536) + blocks as int % 65536,
            0 <= blocks as int % 256 < 256,
            0 <= (blocks as int / 256) % 256 < 256,
            0 <= blocks as int % 65536 < 65536,
    ;
}

/// The big-endian bytes of a 32-bit value give the value back.
proof fn lemma_be_bytes(v: int)
    requires
        0 <= v < 4294967296,
    ensures
        be_u32(be_byte(v as nat, 0), be_byte(v as nat, 1), be_byte(v as nat, 2), be_byte(v as nat, 3))
            == v,
{
    let a = v / 16777216;
    let b = (v / 65536) % 256;
    let c = (v / 256) % 256;
    let d = v % 256;
    vstd::arithmetic::div_mod::lemma_fundamental_div_mod(v, 256);
    vstd::arithmetic::div_mod::lemma_fundamental_div_mod(v / 256, 256);
    vstd::arithmetic::div_mod::lemma_fundamental_div_mod(v / 65536, 256);
    vstd::arithmetic::div_mod::lemma_div_denominator(v, 256, 256);
    vstd::arithmetic::div_mod::lemma_div_denominator(v, 65536, 256);
    vstd::arithmetic::div_mod::lemma_mod_pos_bound(v, 256);
    vstd::arithmetic::div_mod::lemma_mod_pos_bound(v / 256, 256);
    vstd::arithmetic::div_mod::lemma_mod_pos_bound(v / 65536, 256);
    vstd::arithmetic::div_mod::lemma_div_pos_is_pos(v, 16777216);
    assert(a < 256) by (nonlinear_arith)
        requires
            0 <= v < 4294967296,
            a == v / 16777216,
    ;
    vstd::arithmetic::div_mod::lemma_small_mod(a as nat, 256);
    assert(v == a * 16777216 + b * 65536 + c * 256 + d) by (nonlinear_arith)
        requires
            v == 256 * (v / 256) + d,
            v / 256 == 256 * ((v / 256) / 256) + c,
            (v / 256) / 256 == v / 65536,
            v / 65536 == 256 * ((v / 65536) / 256) + b,
            (v / 65536) / 256 == v / 16777216,
            a == v / 16777216,
    ;
}

/// The MODE SELECT parameter list: an 8-byte header whose mode data length
/// (bytes 0, 1) and bytes 4, 5 are zero, whose bytes 2 and 3 come from the
/// given header (zero without one), and whose block descriptor length
/// (bytes 6, 7) is 8 with a block descriptor and 0 without; then the block
/// descriptor, if given; then the mode page, unchanged, to the end.
pub proof fn lemma_mode_select_data_layout(
    mode_page: Seq<u8>,
    header: Option<Seq<u8>>,
    block_descriptor: Option<Seq<u8>>,
)
    requires
        header matches Some(h) ==> h.len() == 8,
        block_descriptor matches Some(b) ==> b.len() == 8,
    ensures
        ({
            let d = mode_select_data(mode_page, header, block_descriptor);
            let bd_len: int = if block_descriptor is Some {
                8
            } else {
                0
            };
            &&& d.len() == 8 + bd_len + mode_page.len()
            &&& d[0] == 0 && d[1] == 0 && d[4] == 0 && d[5] == 0 && d[6] == 0
            &&& d[7] == bd_len
            &&& d[2] == match header {
                Some(h) => h[2],
                None => 0u8,
            }
            &&& d[3] == match header {
                Some(h) => h[3],
                None => 0u8,
            }
            &&& block_descriptor matches Some(b) ==> d.subrange(8, 16) == b
            &&& d.subrange(8 + bd_len, d.len() as int) == mode_page
        }),
{
    let d = mode_select_data(mode_page, header, block_descriptor);
    match block_descriptor {
        Some(b) => {
            assert(d.subrange(8, 16) =~= b);
            assert(d.subrange(16, d.len() as int) =~= mode_page);
        },
        None => {
            assert(d.subrange(8, d.len() as int) =~= mode_page);
        },
    }
}

/// Commands with a length field carry the length big-endian: SEND CUE SHEET
/// in bytes 6..9 (modulo 2^24), MODE SELECT in bytes 7..9 (modulo 2^16).
pub proof fn lemma_length_fields(len: nat)
    ensures
        send_cue_sheet_cmd(len)[0] == 0x5D,
        send_cue_sheet_cmd(len)[6] as int * 65536 + send_cue_sheet_cmd(len)[7] as int * 256
            + send_cue_sheet_cmd(len)[8] as int == len % 16777216,
        mode_select_cmd(len)[0] == 0x55,
        mode_select_cmd(len)[1] == 0x10,
        mode_select_cmd(len)[7] as int * 256 + mode_select_cmd(len)[8] as int == len % 65536,
{
    let n = len as int;
    vstd::arithmetic::div_mod::lemma_fundamental_div_mod(n, 256);
    vstd::arithmetic::div_mod::lemma_fundamental_div_mod(n / 256, 256);
    vstd::arithmetic::div_mod::lemma_fundamental_div_mod(n / 65536, 256);
    vstd::arithmetic::div_mod::lemma_div_denominator(n, 256, 256);
    vstd::arithmetic::div_mod::lemma_fundamental_div_mod(n, 65536);
    vstd::arithmetic::div_mod::lemma_fundamental_div_mod(n, 16777216);
    vstd::arithmetic::div_mod::lemma_div_denominator(n, 65536, 256);
    vstd::arithmetic::div_mod::lemma_mod_pos_bound(n, 256);
    vstd::arithmetic::div_mod::lemma_mod_pos_bound(n / 256, 256);
    vstd::arithmetic::div_mod::lemma_mod_pos_bound(n / 65536, 256);
    vstd::arithmetic::div_mod::lemma_mod_pos_bound(n, 65536);
    vstd::arithmetic::div_mod::lemma_mod_pos_bound(n, 16777216);
    assert((n / 256) % 256 * 256 + n % 256 == n % 65536) by (nonlinear_arith)
        requires
            n == 256 * (n / 256) + n % 256,
            n / 256 == 256 * ((n / 256) / 256) + (n / 256) % 256,
            (n / 256) / 256 == n / 65536,
            n == 65536 * (n / 65536) + n % 65536,
            0 <= n % 256 < 256,
            0 <= (n / 256) % 256 < 256,
            0 <= n % 65536 < 65536,
    ;
    assert((n / 65536) % 256 * 65536 + (n / 256) % 256 * 256 + n % 256 == n % 16777216)
        by (nonlinear_arith)
        requires
            n == 65536 * (n / 65536) + (n / 256) % 256 * 256 + n % 256,
            n / 65536 == 256 * ((n / 65536) / 256) + (n / 65536) % 256,
            (n / 65536) / 256 == n / 16777216,
            n == 16777216 * (n / 16777216) + n % 16777216,
            0 <= (n / 256) % 256 * 256 + n % 256 < 65536,
            0 <= (n / 65536) % 256 < 256,
            0 <= n % 16777216 < 16777216,
    ;
}

/// SET CD SPEED asks for the same read and write speed, big-endian in bytes
/// 2..4 and 4..6: 117 per multiple of the audio rate, or 0xFFFF (the
/// fastest) when no multiple is named.
pub proof fn lemma_set_speed_fields(speed_multiplier: Option<u8>)
    ensures
        set_speed_cmd(speed_value(speed_multiplier))[0] == 0xBB,
        set_speed_cmd(speed_value(speed_multiplier))[2] as int * 256 + set_speed_cmd(
            speed_value(speed_multiplier),
        )[3] as int == match speed_multiplier {
            Some(m) => m as int * 117,
            None => 0xFFFF,
        },
        set_speed_cmd(speed_value(speed_multiplier))[4] == set_speed_cmd(
            speed_value(speed_multiplier),
        )[2],
        set_speed_cmd(speed_value(speed_multiplier))[5] == set_speed_cmd(
            speed_value(speed_multiplier),
        )[3],
{
    let v = speed_value(speed_multiplier) as int;
    assert(v < 65536);
    vstd::arithmetic::div_mod::lemma_fundamental_div_mod(v, 256);
    vstd::arithmetic::div_mod::lemma_mod_pos_bound(v, 256);
    vstd::arithmetic::div_mod::lemma_div_pos_is_pos(v, 256);
    assert(v / 256 < 256) by (nonlinear_arith)
        requires
            0 <= v < 65536,
    ;
    vstd::arithmetic::div_mod::lemma_small_mod((v / 256) as nat, 256);
}

/// The one-byte switches: PREVENT ALLOW MEDIUM REMOVAL prevents removal
/// exactly when locking; START STOP UNIT always sets LoEj (bit 1) and sets
/// Start (bit 0) exactly when loading; BLANK sets Immed (bit 4) and blanks
/// the whole disc (type 0) when full, the minimal set (type 1) when fast.
pub proof fn lemma_switch_bytes(lock: bool, mode: BlankMode)
    ensures
        lock_media_cmd(lock)[0] == 0x1E && lock_media_cmd(lock)[4] == if lock {
            1u8
        } else {
            0u8
        },
        load_unload_cmd(lock)[0] == 0x1B,
        load_unload_cmd(lock)[4] & 0x02 == 0x02,
        (load_unload_cmd(lock)[4] & 0x01 == 0x01) == lock,
        blank_cmd(mode)[0] == 0xA1,
        blank_cmd(mode)[1] & 0x10 == 0x10,
        blank_cmd(mode)[1] & 0x07 == match mode {
            BlankMode::Full => 0u8,
            BlankMode::Fast => 1u8,
        },
{
    assert(3u8 & 0x02 == 0x02 && 2u8 & 0x02 == 0x02 && 3u8 & 0x01 == 0x01 && 2u8 & 0x01 == 0
        && 0x11u8 & 0x10 == 0x10 && 0x10u8 & 0x10 == 0x10 && 0x11u8 & 0x07 == 1 && 0x10u8 & 0x07
        == 0) by (bit_vector);
}

/// A mode page read from MODE SENSE data: the header is the first 8 bytes;
/// the page starts right after the header and the block descriptors (whose
/// length is bytes 6, 7, big-endian) and is as long as its own length byte
/// (its byte 1) plus 2; the block descriptor is bytes 8..16 when the block
/// descriptors hold one, zeros otherwise. Data reports a page exactly when
/// its mode data length (bytes 0, 1) exceeds the block descriptor length by
/// more than 6.
pub proof fn lemma_mode_page_read_layout(page: CdrDriverModePage, data: Seq<u8>)
    requires
        mode_sense_data_complete(data),
        mode_sense_has_page(data),
        mode_page_read_from(page, data),
    ensures
        data[0] as int * 256 + data[1] as int > data[6] as int * 256 + data[7] as int + 6,
        page.header_bytes() == data.subrange(0, 8),
        ({
            let start = data[6] as int * 256 + data[7] as int + 8;
            &&& page.page().len() == data[start + 1] + 2
            &&& forall|k: int|
                0 <= k < page.page().len() ==> #[trigger] page.page()[k] == data[start + k]
        }),
        data[6] as int * 256 + data[7] as int >= 8 ==> page.block_descriptor_bytes()
            == data.subrange(8, 16),
        (data[6] as int * 256 + data[7] as int) < 8 ==> forall|k: int|
            0 <= k < 8 ==> #[trigger] page.block_descriptor_bytes()[k] == 0,
{
}

} // verus!
