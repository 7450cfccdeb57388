use alight::addresses::Msf;
use alight::cue_sheet::{
    CueSheet, CueSheetControl, CueSheetDataForm, CueSheetDataFormSubchannel, CueSheetTransition,
    TRACK_LEAD_OUT,
};

fn transition(track: u8, index: u8, address: Msf) -> CueSheetTransition {
    CueSheetTransition {
        control: CueSheetControl::Audio,
        track,
        index,
        data_form_subchannel: CueSheetDataFormSubchannel::NoSubchannel,
        data_form: CueSheetDataForm::DigitalAudio,
        scms: 0,
        address,
    }
}

#[test]
fn audio_transition_bytes() {
    let t = transition(1, 1, Msf::seconds(2));
    assert_eq!(t.generate(), vec![0x01, 1, 1, 0x00, 0, 0, 2, 0]);
}

#[test]
fn data_transition_nibbles() {
    let t = CueSheetTransition {
        control: CueSheetControl::Data,
        track: TRACK_LEAD_OUT,
        index: 1,
        data_form_subchannel: CueSheetDataFormSubchannel::SupplyRawRW,
        data_form: CueSheetDataForm::Rom2,
        scms: 0x80,
        address: Msf::new(70, 1, 2),
    };
    assert_eq!(t.generate(), vec![0x41, 0xAA, 1, 0x32, 0x80, 70, 1, 2]);
}

#[test]
fn defaults_are_data_rom1_no_subchannel() {
    assert_eq!(CueSheetControl::default(), CueSheetControl::Data);
    assert_eq!(CueSheetDataForm::default(), CueSheetDataForm::Rom1);
    assert_eq!(CueSheetDataFormSubchannel::default(), CueSheetDataFormSubchannel::NoSubchannel);
}

#[test]
fn cue_sheet_concatenates_transitions() {
    let mut sheet = CueSheet::new();
    assert!(sheet.generate().is_empty());
    sheet.push_transition(transition(1, 0, Msf::default()));
    sheet.push_transition(transition(1, 1, Msf::seconds(2)));
    let bytes = sheet.generate();
    assert_eq!(bytes.len(), 16);
    assert_eq!(&bytes[0..8], &[0x01, 1, 0, 0, 0, 0, 0, 0]);
    assert_eq!(&bytes[8..16], &[0x01, 1, 1, 0, 0, 0, 2, 0]);
}

#[test]
fn cue_sheet_dump_lists_bytes_in_hex() {
    let mut sheet = CueSheet::new();
    assert_eq!(sheet.dump(), "1   2   3   4   5   6   7   8\n");
    sheet.push_transition(transition(0xAB, 1, Msf::new(0, 0, 0x1f)));
    assert_eq!(
        sheet.dump(),
        "1   2   3   4   5   6   7   8\n01  ab  01  00  00  00  00  1f  \n"
    );
    assert_eq!(
        transition(2, 1, Msf::new(1, 2, 3)).dump(),
        "01  02  01  00  00  01  02  03  \n"
    );
}
