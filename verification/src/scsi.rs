//! The SCSI layer: command opcodes, errors, sense data, and the transport
//! trait through which commands reach a device.

use crate::text::{push_spaced_hex, spaced_hex};
use vstd::prelude::*;
use vstd::string::StringExecFns;

verus! {

/// `std::io::Error`, carried through as the cause of a failed transfer.
#[verifier::external_type_specification]
#[verifier::external_body]
pub struct ExIoError(std::io::Error);

/// The operation codes of the commands this crate sends.
#[derive(Debug, Clone, Copy, Eq, PartialEq, Structural)]
pub enum ScsiOpcode {
    Rezero,
    StartStopUnit,
    PreventAllowMediumRemoval,
    Write10,
    FlushCache,
    ReadDiskInfo,
    ReadTrackInformation,
    SendOpcInformation,
    ModeSelect,
    ModeSense,
    ReadBufferCapacity,
    SendCueSheet,
    Blank,
    SetCdSpeed,
}

impl ScsiOpcode {
    /// The operation code byte.
    pub open spec fn spec_code(self) -> u8 {
        match self {
            ScsiOpcode::Rezero => 0x01,
            ScsiOpcode::StartStopUnit => 0x1B,
            ScsiOpcode::PreventAllowMediumRemoval => 0x1E,
            ScsiOpcode::Write10 => 0x2A,
            ScsiOpcode::FlushCache => 0x35,
            ScsiOpcode::ReadDiskInfo => 0x51,
            ScsiOpcode::ReadTrackInformation => 0x52,
            ScsiOpcode::SendOpcInformation => 0x54,
            ScsiOpcode::ModeSelect => 0x55,
            ScsiOpcode::ModeSense => 0x5A,
            ScsiOpcode::ReadBufferCapacity => 0x5C,
            ScsiOpcode::SendCueSheet => 0x5D,
            ScsiOpcode::Blank => 0xA1,
            ScsiOpcode::SetCdSpeed => 0xBB,
        }
    }

    pub fn code(self) -> (c: u8)
        ensures
            c == self.spec_code(),
    {
        match self {
            ScsiOpcode::Rezero => 0x01,
            ScsiOpcode::StartStopUnit => 0x1B,
            ScsiOpcode::PreventAllowMediumRemoval => 0x1E,
            ScsiOpcode::Write10 => 0x2A,
            ScsiOpcode::FlushCache => 0x35,
            ScsiOpcode::ReadDiskInfo => 0x51,
            ScsiOpcode::ReadTrackInformation => 0x52,
            ScsiOpcode::SendOpcInformation => 0x54,
            ScsiOpcode::ModeSelect => 0x55,
            ScsiOpcode::ModeSense => 0x5A,
            ScsiOpcode::ReadBufferCapacity => 0x5C,
            ScsiOpcode::SendCueSheet => 0x5D,
            ScsiOpcode::Blank => 0xA1,
            ScsiOpcode::SetCdSpeed => 0xBB,
        }
    }
}

/// Which way data moves with a command.
pub enum ScsiDirection<'a> {
    NoData,
    Input(&'a [u8]),
    Output,
}

/// The data movement of a command as a value: nothing, bytes sent to the
/// device, or bytes asked of it.
pub enum Transfer {
    NoData,
    Input(Seq<u8>),
    Output,
}

impl<'a> View for ScsiDirection<'a> {
    type V = Transfer;

    open spec fn view(&self) -> Transfer {
        match self {
            ScsiDirection::NoData => Transfer::NoData,
            ScsiDirection::Input(data) => Transfer::Input(data@),
            ScsiDirection::Output => Transfer::Output,
        }
    }
}

#[derive(Debug)]
pub enum ScsiError {
    IoError(std::io::Error),
    DriveError { cmd: Vec<u8>, sense_data: Option<SenseData> },
}

#[derive(Debug, Clone)]
pub struct SenseData {
    pub bytes: Vec<u8>,
}

impl SenseData {
    pub fn new(bytes: Vec<u8>) -> (r: Self)
        ensures
            r.bytes@ == bytes@,
    {
        Self { bytes }
    }

    pub fn bytes(&self) -> (r: &[u8])
        ensures
            r@ == self.bytes@,
    {
        self.bytes.as_slice()
    }

    pub fn len(&self) -> (r: usize)
        ensures
            r == self.bytes@.len(),
    {
        self.bytes.len()
    }
}


impl core::ops::Index<usize> for SenseData {
    type Output = u8;

    /// Sense byte `index`; it must be one of the bytes.
    fn index(&self, index: usize) -> (r: &u8)
        ensures
            *r == self.bytes@[index as int],
    {
        &self.bytes[index]
    }
}

impl vstd::std_specs::core::IndexSpecImpl<usize> for SenseData {
    open spec fn index_req(&self, index: &usize) -> bool {
        *index < self.bytes@.len()
    }
}

impl From<std::io::Error> for ScsiError {
    fn from(value: std::io::Error) -> (r: ScsiError) {
        ScsiError::IoError(value)
    }
}

impl vstd::std_specs::convert::FromSpecImpl<std::io::Error> for ScsiError {
    open spec fn obeys_from_spec() -> bool {
        true
    }

    open spec fn from_spec(v: std::io::Error) -> ScsiError {
        ScsiError::IoError(v)
    }
}

/// The text of a drive error: the sense bytes when there are some, then
/// the command, both in hexadecimal.
pub open spec fn drive_error_text(cmd: Seq<u8>, sense: Option<Seq<u8>>) -> Seq<char> {
    "Generic SCSI error"@ + match sense {
        Some(s) => ": Sense bytes:"@ + spaced_hex(s),
        None => Seq::empty(),
    } + ". Original command:"@ + spaced_hex(cmd)
}

impl ScsiError {
    /// The error as text: an I/O error as it displays itself, a drive error
    /// as `drive_error_text` describes it.
    pub fn message(&self) -> (r: String)
        ensures
            match self {
                ScsiError::IoError(e) => vstd::string::to_string_from_display_ensures::<
                    std::io::Error,
                >(e, r),
                ScsiError::DriveError { cmd, sense_data } => r@ == drive_error_text(
                    cmd@,
                    match sense_data {
                        Some(s) => Some(s.bytes@),
                        None => None,
                    },
                ),
            },
    {
        match self {
            ScsiError::IoError(e) => e.to_string(),
            ScsiError::DriveError { cmd, sense_data } => {
                let mut s = String::new();
                s.append("Generic SCSI error");
                match sense_data {
                    Some(sense) => {
                        s.append(": Sense bytes:");
                        push_spaced_hex(&mut s, sense.bytes.as_slice());
                    },
                    None => {},
                }
                s.append(". Original command:");
                push_spaced_hex(&mut s, cmd.as_slice());
                assert(s@ =~= drive_error_text(
                    cmd@,
                    match sense_data {
                        Some(x) => Some(x.bytes@),
                        None => None,
                    },
                ));
                s
            },
        }
    }
}

pub struct ScsiEnquiry {
    pub vendor: String,
    pub product: String,
    pub revision: String,
}

#[derive(Debug, Clone, Copy, Eq, PartialEq, Structural)]
pub enum TestUnitReadyResponse {
    Ready,
    Busy,
    NoMedia,
}

impl From<TestUnitReadyResponse> for bool {
    fn from(value: TestUnitReadyResponse) -> (r: bool) {
        value == TestUnitReadyResponse::Ready
    }
}

impl vstd::std_specs::convert::FromSpecImpl<TestUnitReadyResponse> for bool {
    open spec fn obeys_from_spec() -> bool {
        true
    }

    open spec fn from_spec(v: TestUnitReadyResponse) -> bool {
        v == TestUnitReadyResponse::Ready
    }
}

/// The sense key: the low nibble of byte 2 of the sense data.
pub open spec fn sense_key(sense: Seq<u8>) -> u8 {
    sense[2] & 0x0F
}

/// How TEST UNIT READY is answered for each outcome of the command. Sense
/// key NOT READY (2) means busy, or no media when the additional sense code
/// is 0x3A; sense key UNIT ATTENTION (6) still means ready. Any other error
/// is passed on, and so is sense data too short to hold the bytes that its
/// sense key calls for.
pub open spec fn unit_ready_answer(outcome: Result<(), ScsiError>) -> Result<
    TestUnitReadyResponse,
    ScsiError,
> {
    match outcome {
        Ok(_) => Ok(TestUnitReadyResponse::Ready),
        Err(e) => match e {
            ScsiError::DriveError { cmd, sense_data: Some(sense) } => {
                let s = sense.bytes@;
                if s.len() < 3 {
                    Err(e)
                } else if sense_key(s) == 2 {
                    if s.len() < 13 {
                        Err(e)
                    } else if s[12] == 0x3A {
                        Ok(TestUnitReadyResponse::NoMedia)
                    } else {
                        Ok(TestUnitReadyResponse::Busy)
                    }
                } else if sense_key(s) == 6 {
                    Ok(TestUnitReadyResponse::Ready)
                } else {
                    Err(e)
                }
            },
            _ => Err(e),
        },
    }
}

/// Interprets the outcome of TEST UNIT READY.
pub fn unit_ready_from(outcome: Result<(), ScsiError>) -> (r: Result<
    TestUnitReadyResponse,
    ScsiError,
>)
    ensures
        r == unit_ready_answer(outcome),
{
    match outcome {
        Ok(_) => Ok(TestUnitReadyResponse::Ready),
        Err(e) => {
            let (is_drive, len, key, asc) = match &e {
                ScsiError::DriveError { cmd: _, sense_data: Some(sense) } => {
                    let n = sense.bytes.len();
                    let key = if n >= 3 {
                        sense.bytes[2] & 0x0F
                    } else {
                        0
                    };
                    let asc = if n >= 13 {
                        sense.bytes[12]
                    } else {
                        0
                    };
                    (true, n, key, asc)
                },
                _ => (false, 0, 0, 0),
            };
            if !is_drive || len < 3 {
                Err(e)
            } else if key == 2 {
                if len < 13 {
                    Err(e)
                } else if asc == 0x3A {
                    Ok(TestUnitReadyResponse::NoMedia)
                } else {
                    Ok(TestUnitReadyResponse::Busy)
                }
            } else if key == 6 {
                Ok(TestUnitReadyResponse::Ready)
            } else {
                Err(e)
            }
        },
    }
}

/// The INQUIRY command, asking for 44 bytes of standard data.
pub open spec fn inquiry_cmd() -> Seq<u8> {
    seq![0x12u8, 0x0, 0x0, 0x0, 0x2C, 0x0]
}

/// The TEST UNIT READY command.
pub open spec fn test_unit_ready_cmd() -> Seq<u8> {
    seq![0x0u8, 0x0, 0x0, 0x0, 0x0, 0x0]
}

/// The REZERO UNIT command.
pub open spec fn rezero_cmd() -> Seq<u8> {
    seq![0x01u8, 0x0, 0x0, 0x0, 0x0, 0x0]
}

/// The text that `String::from_utf8_lossy` makes of `bytes`.
pub uninterp spec fn utf8_lossy(bytes: Seq<u8>) -> Seq<char>;

/// Bytes below 0x80, read as the characters with the same code.
pub open spec fn ascii_text(bytes: Seq<u8>) -> Seq<char> {
    bytes.map_values(|b: u8| b as char)
}

/// Calls `String::from_utf8_lossy` and makes the text an owned `String`.
/// Claimed: the text is the function's result for these bytes, and bytes
/// that are all ASCII come back as the same characters (ASCII is valid
/// UTF-8, which the function keeps unchanged).
#[verifier::external_body]
fn lossy_string(bytes: &[u8]) -> (s: String)
    ensures
        s@ == utf8_lossy(bytes@),
        (forall|i: int| 0 <= i < bytes@.len() ==> bytes@[i] < 0x80) ==> s@ == ascii_text(bytes@),
{
    String::from_utf8_lossy(bytes).to_string()
}

/// How a command that asks for output ends, given the outcome of its
/// transfer: the output, or the error.
pub open spec fn answered_with_output(
    outcome: Result<Option<Vec<u8>>, ScsiError>,
    r: Result<Vec<u8>, ScsiError>,
) -> bool {
    match outcome {
        Ok(Some(v)) => r == Ok::<Vec<u8>, ScsiError>(v),
        Ok(None) => false,
        Err(e) => r == Err::<Vec<u8>, ScsiError>(e),
    }
}

/// The identification strings in standard INQUIRY data: vendor in bytes
/// 8..16, product in 16..32, revision in 32..36.
pub open spec fn enquiry_matches(e: ScsiEnquiry, data: Seq<u8>) -> bool {
    &&& e.vendor@ == utf8_lossy(data.subrange(8, 16))
    &&& e.product@ == utf8_lossy(data.subrange(16, 32))
    &&& e.revision@ == utf8_lossy(data.subrange(32, 36))
}

/// Reads the identification strings out of standard INQUIRY data.
pub fn enquiry_from(data: &[u8]) -> (e: ScsiEnquiry)
    requires
        data@.len() >= 36,
    ensures
        enquiry_matches(e, data@),
{
    ScsiEnquiry {
        vendor: lossy_string(&data[8..16]),
        product: lossy_string(&data[16..32]),
        revision: lossy_string(&data[32..36]),
    }
}

/// A copy of the first `n` bytes of `bytes`.
pub fn copy_prefix(bytes: &[u8], n: usize) -> (r: Vec<u8>)
    requires
        n <= bytes@.len(),
    ensures
        r@ == bytes@.take(n as int),
{
    let mut out: Vec<u8> = Vec::new();
    let mut i: usize = 0;
    while i < n
        invariant
            i <= n <= bytes@.len(),
            out@ == bytes@.take(i as int),
        decreases n - i,
    {
        out.push(bytes[i]);
        assert(out@ =~= bytes@.take(i + 1));
        i = i + 1;
    }
    out
}

/// How a completed SG_IO transfer ends: a non-zero SCSI status is a drive
/// error for `cmd`, carrying the sense bytes the device wrote (if any);
/// otherwise the command succeeded, with `output` when it asked for output.
pub fn sg_io_outcome(
    cmd: &[u8],
    wants_output: bool,
    status: u8,
    sense: &[u8],
    sense_written: u8,
    output: Vec<u8>,
) -> (r: Result<Option<Vec<u8>>, ScsiError>)
    requires
        sense_written as nat <= sense@.len(),
    ensures
        status != 0 ==> (r matches Err(ScsiError::DriveError { cmd: c, sense_data: sd }) && c@
            == cmd@ && if sense_written > 0 {
            sd matches Some(x) && x.bytes@ == sense@.take(sense_written as int)
        } else {
            sd is None
        }),
        status == 0 && wants_output ==> (r matches Ok(Some(o)) && o@ == output@),
        status == 0 && !wants_output ==> r matches Ok(None),
{
    if status != 0 {
        let sense_data = if sense_written > 0 {
            Some(SenseData::new(copy_prefix(sense, sense_written as usize)))
        } else {
            None
        };
        let c = copy_prefix(cmd, cmd.len());
        assert(cmd@.take(cmd@.len() as int) =~= cmd@);
        return Err(ScsiError::DriveError { cmd: c, sense_data });
    }
    if wants_output {
        Ok(Some(output))
    } else {
        Ok(None)
    }
}

/// What an outcome of a transfer gives a command that moves no data back:
/// success without the (absent) output, or the error.
pub open spec fn without_output(outcome: Result<Option<Vec<u8>>, ScsiError>) -> Result<(), ScsiError> {
    match outcome {
        Ok(_) => Ok(()),
        Err(e) => Err(e),
    }
}

/// A device that takes SCSI commands.
pub trait ScsiDriver: Send + Sync {
    fn device(&self) -> &str;

    fn vendor(&self) -> &str;

    fn product(&self) -> &str;

    fn revision(&self) -> &str;

    /// Whether the device may answer `cmd`, with data moving as `transfer`
    /// says, with `outcome`. A device can answer one command differently at
    /// different times; this only ties an outcome to the command it answers.
    /// A driver that does not describe its device further allows any outcome;
    /// code that works for every driver cannot rely on that.
    closed spec fn may_answer(
        &self,
        cmd: Seq<u8>,
        transfer: Transfer,
        outcome: Result<Option<Vec<u8>>, ScsiError>,
    ) -> bool {
        true
    }

    /// Sends `cmd` to the device. On success the returned bytes are there
    /// exactly when the command asked for output.
    fn send_cmd_with_direction(&self, cmd: &[u8], direction: ScsiDirection) -> (r: Result<
        Option<Vec<u8>>,
        ScsiError,
    >)
        ensures
            self.may_answer(cmd@, direction@, r),
            r matches Ok(output) ==> (output is Some <==> direction@ is Output),
    ;

    fn send_cmd(&self, cmd: &[u8]) -> (r: Result<(), ScsiError>)
        ensures
            exists|outcome|
                #![trigger self.may_answer(cmd@, Transfer::NoData, outcome)]
                self.may_answer(cmd@, Transfer::NoData, outcome) && r == without_output(outcome),
    {
        let outcome = self.send_cmd_with_direction(cmd, ScsiDirection::NoData);
        match outcome {
            Ok(_) => Ok(()),
            Err(e) => Err(e),
        }
    }

    fn send_cmd_with_input(&self, cmd: &[u8], input: &[u8]) -> (r: Result<(), ScsiError>)
        ensures
            exists|outcome|
                #![trigger self.may_answer(cmd@, Transfer::Input(input@), outcome)]
                self.may_answer(cmd@, Transfer::Input(input@), outcome) && r == without_output(
                    outcome,
                ),
    {
        let outcome = self.send_cmd_with_direction(cmd, ScsiDirection::Input(input));
        match outcome {
            Ok(_) => Ok(()),
            Err(e) => Err(e),
        }
    }

    fn send_cmd_with_output(&self, cmd: &[u8]) -> (r: Result<Vec<u8>, ScsiError>)
        ensures
            exists|outcome|
                #![trigger self.may_answer(cmd@, Transfer::Output, outcome)]
                self.may_answer(cmd@, Transfer::Output, outcome) && answered_with_output(
                    outcome,
                    r,
                ),
    {
        let outcome = self.send_cmd_with_direction(cmd, ScsiDirection::Output);
        match outcome {
            Ok(Some(output)) => Ok(output),
            Ok(None) => {
                assert(false);
                Ok(Vec::new())
            },
            Err(e) => Err(e),
        }
    }

    /// Asks the device for its identification. Data too short to hold the
    /// identification strings gives a drive error for INQUIRY without sense.
    fn inquiry(&self) -> (r: Result<ScsiEnquiry, ScsiError>)
        ensures
            exists|outcome|
                #![trigger self.may_answer(inquiry_cmd(), Transfer::Output, outcome)]
                self.may_answer(inquiry_cmd(), Transfer::Output, outcome) && match outcome {
                    Ok(Some(data)) => if data@.len() >= 36 {
                        r matches Ok(e) && enquiry_matches(e, data@)
                    } else {
                        r matches Err(ScsiError::DriveError { cmd, sense_data: None }) && cmd@
                            == inquiry_cmd()
                    },
                    Ok(None) => false,
                    Err(e) => r matches Err(e2) && e2 == e,
                },
    {
        let cmd: Vec<u8> = vec![0x12, 0x0, 0x0, 0x0, 0x2C, 0x0];
        assert(cmd@ =~= inquiry_cmd());
        let outcome = self.send_cmd_with_direction(cmd.as_slice(), ScsiDirection::Output);
        match outcome {
            Ok(Some(data)) => {
                if data.len() >= 36 {
                    Ok(enquiry_from(data.as_slice()))
                } else {
                    Err(ScsiError::DriveError { cmd, sense_data: None })
                }
            },
            Ok(None) => {
                assert(false);
                Err(ScsiError::DriveError { cmd, sense_data: None })
            },
            Err(e) => Err(e),
        }
    }

    fn test_unit_ready(&self) -> (r: Result<TestUnitReadyResponse, ScsiError>)
        ensures
            exists|outcome|
                #![trigger self.may_answer(test_unit_ready_cmd(), Transfer::NoData, outcome)]
                self.may_answer(test_unit_ready_cmd(), Transfer::NoData, outcome) && r
                    == unit_ready_answer(without_output(outcome)),
    {
        let cmd: [u8; 6] = [0x0, 0x0, 0x0, 0x0, 0x0, 0x0];
        assert(cmd@ =~= test_unit_ready_cmd());
        let outcome = self.send_cmd_with_direction(&cmd, ScsiDirection::NoData);
        let sent = match outcome {
            Ok(_) => Ok(()),
            Err(e) => Err(e),
        };
        unit_ready_from(sent)
    }

    fn rezero(&self) -> (r: Result<(), ScsiError>)
        ensures
            exists|outcome|
                #![trigger self.may_answer(rezero_cmd(), Transfer::NoData, outcome)]
                self.may_answer(rezero_cmd(), Transfer::NoData, outcome) && r == without_output(
                    outcome,
                ),
    {
        let cmd: [u8; 6] = [ScsiOpcode::Rezero.code(), 0x0, 0x0, 0x0, 0x0, 0x0];
        assert(cmd@ =~= rezero_cmd());
        self.send_cmd(&cmd)
    }
}

/// How TEST UNIT READY is answered: success means ready. Sense data with
/// sense key NOT READY (2) means no medium when the additional sense code
/// (byte 12) is 0x3A and busy otherwise; sense key UNIT ATTENTION (6) means
/// ready; any other sense key, and any error without sense data, is passed
/// on unchanged.
pub proof fn lemma_unit_ready_answers(outcome: Result<(), ScsiError>)
    ensures
        outcome is Ok ==> unit_ready_answer(outcome) == Ok::<TestUnitReadyResponse, ScsiError>(
            TestUnitReadyResponse::Ready,
        ),
        outcome matches Err(ScsiError::DriveError { cmd, sense_data: Some(sense) }) ==> {
            let s = sense.bytes@;
            &&& (s.len() >= 13 && s[2] & 0x0F == 2 && s[12] == 0x3A) ==> unit_ready_answer(outcome)
                == Ok::<TestUnitReadyResponse, ScsiError>(TestUnitReadyResponse::NoMedia)
            &&& (s.len() >= 13 && s[2] & 0x0F == 2 && s[12] != 0x3A) ==> unit_ready_answer(outcome)
                == Ok::<TestUnitReadyResponse, ScsiError>(TestUnitReadyResponse::Busy)
            &&& (s.len() >= 3 && s[2] & 0x0F == 6) ==> unit_ready_answer(outcome) == Ok::<
                TestUnitReadyResponse,
                ScsiError,
            >(TestUnitReadyResponse::Ready)
            &&& (s.len() >= 3 && s[2] & 0x0F != 2 && s[2] & 0x0F != 6) ==> unit_ready_answer(
                outcome,
            ) == Err::<TestUnitReadyResponse, ScsiError>(
                ScsiError::DriveError { cmd, sense_data: Some(sense) },
            )
        },
        outcome matches Err(ScsiError::DriveError { cmd, sense_data: None }) ==> unit_ready_answer(
            outcome,
        ) == Err::<TestUnitReadyResponse, ScsiError>(ScsiError::DriveError { cmd, sense_data: None }),
        outcome matches Err(ScsiError::IoError(e)) ==> unit_ready_answer(outcome) == Err::<
            TestUnitReadyResponse,
            ScsiError,
        >(ScsiError::IoError(e)),
{
}

} // verus!
