use alight::addresses::{Lba, Msf};

#[test]
fn msf_to_lba_counts_frames() {
    let lba: Lba = Msf::new(1, 2, 3).into();
    assert_eq!(lba, Lba(4500 + 150 + 3));
}

#[test]
fn lba_to_msf_splits_frames() {
    let msf: Msf = Lba(4653).into();
    assert_eq!(msf, Msf::new(1, 2, 3));
}

#[test]
fn msf_constructors_set_one_field() {
    assert_eq!(Msf::minutes(7), Msf { minutes: 7, seconds: 0, frames: 0 });
    assert_eq!(Msf::seconds(7), Msf { minutes: 0, seconds: 7, frames: 0 });
    assert_eq!(Msf::frames(7), Msf { minutes: 0, seconds: 0, frames: 7 });
}

#[test]
fn msf_plus_lba_carries_into_seconds_and_minutes() {
    assert_eq!(Msf::seconds(2) + Lba(100), Msf::new(0, 3, 25));
    assert_eq!(Msf::new(0, 59, 74) + Lba(1), Msf::minutes(1));
}

#[test]
fn msf_plus_msf_normalizes() {
    assert_eq!(Msf::new(0, 30, 50) + Msf::new(0, 30, 50), Msf::new(1, 1, 25));
}

#[test]
fn lba_additions() {
    assert_eq!(Lba(10) + Lba(5), Lba(15));
    assert_eq!(Lba(10) + Msf::seconds(2), Lba(160));
}

#[test]
fn minutes_wrap_at_256() {
    let msf: Msf = Lba(256 * 4500 + 76).into();
    assert_eq!(msf, Msf::new(0, 1, 1));
}

#[test]
fn roundtrip_lba_msf_lba() {
    for l in [0u64, 1, 74, 75, 4499, 4500, 123_456, 1_151_999] {
        let msf: Msf = Lba(l).into();
        let back: Lba = msf.into();
        assert_eq!(back, Lba(l));
    }
}

#[test]
fn roundtrip_msf_lba_msf() {
    let m = Msf::new(74, 59, 74);
    let lba: Lba = m.into();
    let back: Msf = lba.into();
    assert_eq!(back, m);
}

#[test]
fn unnormalized_msf_does_not_roundtrip() {
    let m = Msf::new(0, 60, 0);
    let lba: Lba = m.into();
    let back: Msf = lba.into();
    assert_eq!(back, Msf::new(1, 0, 0));
}

#[test]
fn msf_addition_is_associative_even_when_wrapping() {
    let a = Msf::new(200, 30, 10);
    let b = Msf::new(100, 45, 70);
    let c = Msf::new(20, 50, 40);
    assert_eq!((a + b) + c, a + (b + c));
    assert_eq!(a + b, b + a);
}

#[test]
fn msf_display_pads_to_two_digits() {
    assert_eq!(Msf::new(1, 2, 3).display(), "01:02:03");
    assert_eq!(Msf::new(12, 34, 56).display(), "12:34:56");
    assert_eq!(Msf::new(123, 0, 9).display(), "123:00:09");
}
