//! Cue sheets for session-at-once writing: one 8-byte descriptor for every
//! track/index transition, in the layout that SEND CUE SHEET expects.

use crate::addresses::Msf;
use crate::text::{padded_hex, push_padded_hex};
use vstd::prelude::*;
use vstd::string::StringExecFns;

verus! {

/// The track number that marks the lead-out area.
pub const TRACK_LEAD_OUT: u8 = 0xAA;

#[derive(Debug, Clone, Copy, Eq, PartialEq, Default, Structural)]
pub enum CueSheetControl {
    Audio,
    #[default]
    Data,
}

#[derive(Debug, Clone, Copy, Eq, PartialEq, Default, Structural)]
pub enum CueSheetDataFormSubchannel {
    #[default]
    NoSubchannel,
    SupplyRawPQ,
    SupplyPackedRW,
    SupplyRawRW,
}

#[derive(Debug, Clone, Copy, Eq, PartialEq, Default, Structural)]
pub enum CueSheetDataForm {
    DigitalAudio,
    #[default]
    Rom1,
    Rom2,
}

impl CueSheetControl {
    /// The control nibble of this kind of track.
    pub open spec fn spec_code(self) -> u8 {
        match self {
            CueSheetControl::Audio => 0x0,
            CueSheetControl::Data => 0x4,
        }
    }

    pub fn code(self) -> (c: u8)
        ensures
            c == self.spec_code(),
    {
        match self {
            CueSheetControl::Audio => 0x0,
            CueSheetControl::Data => 0x4,
        }
    }
}

impl CueSheetDataFormSubchannel {
    /// The sub-channel data form nibble.
    pub open spec fn spec_code(self) -> u8 {
        match self {
            CueSheetDataFormSubchannel::NoSubchannel => 0x0,
            CueSheetDataFormSubchannel::SupplyRawPQ => 0x1,
            CueSheetDataFormSubchannel::SupplyPackedRW => 0x2,
            CueSheetDataFormSubchannel::SupplyRawRW => 0x3,
        }
    }

    pub fn code(self) -> (c: u8)
        ensures
            c == self.spec_code(),
    {
        match self {
            CueSheetDataFormSubchannel::NoSubchannel => 0x0,
            CueSheetDataFormSubchannel::SupplyRawPQ => 0x1,
            CueSheetDataFormSubchannel::SupplyPackedRW => 0x2,
            CueSheetDataFormSubchannel::SupplyRawRW => 0x3,
        }
    }
}

impl CueSheetDataForm {
    /// The main-channel data form nibble.
    pub open spec fn spec_code(self) -> u8 {
        match self {
            CueSheetDataForm::DigitalAudio => 0x0,
            CueSheetDataForm::Rom1 => 0x1,
            CueSheetDataForm::Rom2 => 0x2,
        }
    }

    pub fn code(self) -> (c: u8)
        ensures
            c == self.spec_code(),
    {
        match self {
            CueSheetDataForm::DigitalAudio => 0x0,
            CueSheetDataForm::Rom1 => 0x1,
            CueSheetDataForm::Rom2 => 0x2,
        }
    }
}

/// One track/index transition of a cue sheet.
#[derive(Debug, Clone, Copy, Eq, PartialEq, Structural)]
pub struct CueSheetTransition {
    pub control: CueSheetControl,
    pub track: u8,
    pub index: u8,
    pub data_form_subchannel: CueSheetDataFormSubchannel,
    pub data_form: CueSheetDataForm,
    pub scms: u8,
    pub address: Msf,
}

impl CueSheetTransition {
    /// The 8-byte descriptor of this transition: control and ADR (1), track,
    /// index, data form, SCMS, then the start address as minute, second, frame.
    pub open spec fn spec_bytes(self) -> Seq<u8> {
        seq![
            (self.control.spec_code() * 16 + 1) as u8,
            self.track,
            self.index,
            (self.data_form_subchannel.spec_code() * 16 + self.data_form.spec_code()) as u8,
            self.scms,
            self.address.minutes,
            self.address.seconds,
            self.address.frames,
        ]
    }

    pub fn generate(&self) -> (r: Vec<u8>)
        ensures
            r@ == self.spec_bytes(),
    {
        let control = self.control.code();
        let subchannel = self.data_form_subchannel.code();
        let form = self.data_form.code();
        assert(control <= 4 ==> (control << 4u8) | 1u8 == control * 16 + 1) by (bit_vector);
        assert(subchannel <= 3 && form <= 2 ==> (subchannel << 4u8) | form == subchannel * 16
            + form) by (bit_vector);
        let r = vec![
            (control << 4u8) | 0x1,
            self.track,
            self.index,
            (subchannel << 4u8) | form,
            self.scms,
            self.address.minutes,
            self.address.seconds,
            self.address.frames,
        ];
        assert(r@ =~= self.spec_bytes());
        r
    }
}

/// The dump of one transition: its bytes in hexadecimal, then a newline.
pub open spec fn transition_dump(t: CueSheetTransition) -> Seq<char> {
    padded_hex(t.spec_bytes()) + seq!['\n']
}

/// The dump of a cue sheet: a line of column numbers, then one line per
/// transition.
pub open spec fn cue_sheet_dump(transitions: Seq<CueSheetTransition>) -> Seq<char>
    decreases transitions.len(),
{
    if transitions.len() == 0 {
        "1   2   3   4   5   6   7   8"@ + seq!['\n']
    } else {
        cue_sheet_dump(transitions.drop_last()) + transition_dump(transitions.last())
    }
}

impl CueSheetTransition {
    /// The transition's bytes in hexadecimal on one line.
    pub fn dump(&self) -> (r: String)
        ensures
            r@ == transition_dump(*self),
    {
        let bytes = self.generate();
        let mut s = String::new();
        push_padded_hex(&mut s, bytes.as_slice());
        s.push('\n');
        assert(s@ =~= transition_dump(*self));
        s
    }
}

/// The bytes of a cue sheet: the descriptors of its transitions, in order.
pub open spec fn cue_sheet_bytes(transitions: Seq<CueSheetTransition>) -> Seq<u8>
    decreases transitions.len(),
{
    if transitions.len() == 0 {
        Seq::empty()
    } else {
        cue_sheet_bytes(transitions.drop_last()) + transitions.last().spec_bytes()
    }
}

pub struct CueSheet {
    transitions: Vec<CueSheetTransition>,
}

impl View for CueSheet {
    type V = Seq<CueSheetTransition>;

    closed spec fn view(&self) -> Seq<CueSheetTransition> {
        self.transitions@
    }
}

impl CueSheet {
    pub fn new() -> (r: Self)
        ensures
            r@ == Seq::<CueSheetTransition>::empty(),
    {
        Self { transitions: Vec::new() }
    }

    pub fn generate(&self) -> (r: Vec<u8>)
        ensures
            r@ == cue_sheet_bytes(self@),
    {
        let mut out: Vec<u8> = Vec::new();
        let n = self.transitions.len();
        let mut i: usize = 0;
        while i < n
            invariant
                n == self.transitions@.len(),
                0 <= i <= n,
                out@ == cue_sheet_bytes(self.transitions@.take(i as int)),
            decreases n - i,
        {
            let bytes = self.transitions[i].generate();
            out.extend_from_slice(bytes.as_slice());
            assert(self.transitions@.take(i + 1).drop_last() =~= self.transitions@.take(i as int));
            i = i + 1;
        }
        assert(self.transitions@.take(n as int) =~= self.transitions@);
        out
    }

    /// The cue sheet in hexadecimal, one transition per line under a line of
    /// column numbers.
    pub fn dump(&self) -> (r: String)
        ensures
            r@ == cue_sheet_dump(self@),
    {
        let mut s = String::new();
        s.append("1   2   3   4   5   6   7   8");
        s.push('\n');
        let n = self.transitions.len();
        let mut i: usize = 0;
        while i < n
            invariant
                n == self.transitions@.len(),
                i <= n,
                s@ == cue_sheet_dump(self.transitions@.take(i as int)),
            decreases n - i,
        {
            let line = self.transitions[i].dump();
            s.append(line.as_str());
            assert(self.transitions@.take(i + 1).drop_last() =~= self.transitions@.take(i as int));
            i = i + 1;
        }
        assert(self.transitions@.take(n as int) =~= self.transitions@);
        s
    }

    pub fn push_transition(&mut self, transition: CueSheetTransition)
        ensures
            final(self)@ == old(self)@.push(transition),
    {
        self.transitions.push(transition);
    }
}

/// A cue sheet is eight bytes per transition.
pub proof fn lemma_cue_sheet_bytes_len(transitions: Seq<CueSheetTransition>)
    ensures
        cue_sheet_bytes(transitions).len() == 8 * transitions.len(),
    decreases transitions.len(),
{
    if transitions.len() > 0 {
        lemma_cue_sheet_bytes_len(transitions.drop_last());
    }
}

/// Byte `j` of the descriptor of transition `i` stands at offset `8 * i + j`.
pub proof fn lemma_cue_sheet_bytes_index(transitions: Seq<CueSheetTransition>, i: int, j: int)
    requires
        0 <= i < transitions.len(),
        0 <= j < 8,
    ensures
        cue_sheet_bytes(transitions)[8 * i + j] == transitions[i].spec_bytes()[j],
    decreases transitions.len(),
{
    let prefix = transitions.drop_last();
    lemma_cue_sheet_bytes_len(prefix);
    if i < transitions.len() - 1 {
        lemma_cue_sheet_bytes_index(prefix, i, j);
    }
}

/// Pushing a transition appends its descriptor to the generated bytes.
pub proof fn lemma_cue_sheet_bytes_push(
    transitions: Seq<CueSheetTransition>,
    transition: CueSheetTransition,
)
    ensures
        cue_sheet_bytes(transitions.push(transition)) == cue_sheet_bytes(transitions)
            + transition.spec_bytes(),
{
    assert(transitions.push(transition).drop_last() =~= transitions);
}

/// The descriptor of a transition, byte by byte: control nibble 0 (audio) or
/// 4 (data) with ADR 1, the track and index numbers, the data form byte
/// `16 * s + f` with the MMC sub-channel code `s` (0 none, 1 raw P-Q,
/// 2 packed R-W, 3 raw R-W) and main data form `f` (0 audio, 1 mode 1,
/// 2 mode 2), the SCMS byte, then minute, second and frame.
pub proof fn lemma_transition_descriptor(t: CueSheetTransition)
    ensures
        t.spec_bytes().len() == 8,
        t.spec_bytes()[0] == match t.control {
            CueSheetControl::Audio => 0x01int,
            CueSheetControl::Data => 0x41int,
        },
        t.spec_bytes()[1] == t.track,
        t.spec_bytes()[2] == t.index,
        t.spec_bytes()[3] == 16 * match t.data_form_subchannel {
            CueSheetDataFormSubchannel::NoSubchannel => 0int,
            CueSheetDataFormSubchannel::SupplyRawPQ => 1int,
            CueSheetDataFormSubchannel::SupplyPackedRW => 2int,
            CueSheetDataFormSubchannel::SupplyRawRW => 3int,
        } + match t.data_form {
            CueSheetDataForm::DigitalAudio => 0int,
            CueSheetDataForm::Rom1 => 1int,
            CueSheetDataForm::Rom2 => 2int,
        },
        t.spec_bytes()[4] == t.scms,
        t.spec_bytes()[5] == t.address.minutes,
        t.spec_bytes()[6] == t.address.seconds,
        t.spec_bytes()[7] == t.address.frames,
{
}

} // verus!
