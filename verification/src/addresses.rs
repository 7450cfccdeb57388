//! Disc addresses: logical block addresses and minute/second/frame triples.
//!
//! A CD holds 75 frames (sectors) per second. An `Msf` names a position as
//! minutes, seconds and frames; an `Lba` names it by its frame count.

use vstd::arithmetic::div_mod::{
    lemma_div_denominator, lemma_fundamental_div_mod, lemma_fundamental_div_mod_converse_div,
    lemma_fundamental_div_mod_converse_mod, lemma_mod_pos_bound,
};
use crate::text::{decimal_two_digits, push_decimal_two_digits};
use vstd::prelude::*;

verus! {

/// Frames per second of audio on a CD.
pub const FRAMES_PER_SECOND: u64 = 75;

/// Frames per minute of audio on a CD.
pub const FRAMES_PER_MINUTE: u64 = 4500;

/// Number of frames after which the minute field of an `Msf` wraps around
/// (the minute field holds 256 values).
pub open spec fn msf_period() -> nat {
    1152000
}

/// A logical block address.
#[derive(Debug, Eq, Default, PartialEq, Clone, Copy, Structural)]
pub struct Lba(pub u64);

/// A position given as minutes, seconds and frames.
#[derive(Debug, Eq, Default, PartialEq, Clone, Copy, Structural)]
pub struct Msf {
    pub minutes: u8,
    pub seconds: u8,
    pub frames: u8,
}

/// The number of frames that an `Msf` denotes.
pub open spec fn msf_frame_count(m: Msf) -> nat {
    m.frames as nat + 75 * (m.seconds as nat) + 4500 * (m.minutes as nat)
}

/// The `Msf` that a frame count converts to: the minute field keeps the
/// whole minutes modulo 256.
pub open spec fn msf_of_count(n: nat) -> Msf {
    Msf {
        minutes: ((n / 4500) % 256) as u8,
        seconds: ((n / 75) % 60) as u8,
        frames: (n % 75) as u8,
    }
}

/// An `Msf` whose seconds and frames are in their natural ranges.
pub open spec fn msf_is_normal(m: Msf) -> bool {
    m.seconds < 60 && m.frames < 75
}

impl Msf {
    pub fn new(minutes: u8, seconds: u8, frames: u8) -> (r: Msf)
        ensures
            r == (Msf { minutes, seconds, frames }),
    {
        Msf { minutes, seconds, frames }
    }

    pub fn minutes(minutes: u8) -> (r: Msf)
        ensures
            r == (Msf { minutes, seconds: 0, frames: 0 }),
    {
        Msf::new(minutes, 0, 0)
    }

    pub fn seconds(seconds: u8) -> (r: Msf)
        ensures
            r == (Msf { minutes: 0, seconds, frames: 0 }),
    {
        Msf::new(0, seconds, 0)
    }

    pub fn frames(frames: u8) -> (r: Msf)
        ensures
            r == (Msf { minutes: 0, seconds: 0, frames }),
    {
        Msf::new(0, 0, frames)
    }

    /// The position as text, `MM:SS:FF`, each field at least two digits.
    pub open spec fn text(self) -> Seq<char> {
        decimal_two_digits(self.minutes) + seq![':'] + decimal_two_digits(self.seconds) + seq![
            ':',
        ] + decimal_two_digits(self.frames)
    }

    /// The position as text, `MM:SS:FF`, each field at least two digits.
    pub fn display(&self) -> (r: String)
        ensures
            r@ == self.text(),
    {
        let mut s = String::new();
        push_decimal_two_digits(&mut s, self.minutes);
        s.push(':');
        push_decimal_two_digits(&mut s, self.seconds);
        s.push(':');
        push_decimal_two_digits(&mut s, self.frames);
        assert(s@ =~= self.text());
        s
    }

    /// The logical block address of this position.
    pub fn to_lba(self) -> (r: Lba)
        ensures
            r.0 == msf_frame_count(self),
    {
        Lba(self.frames as u64 + self.seconds as u64 * 75 + self.minutes as u64 * 60 * 75)
    }

    /// The sum of two positions, with the minute field wrapping at 256.
    pub fn add_msf(self, rhs: Msf) -> (r: Msf)
        ensures
            r == msf_of_count(msf_frame_count(self) + msf_frame_count(rhs)),
    {
        let lhs = self.to_lba();
        let rhs = rhs.to_lba();
        Lba(lhs.0 + rhs.0).to_msf()
    }

    /// The position `rhs` frames after this one, with the minute field
    /// wrapping at 256.
    pub fn add_lba(self, rhs: Lba) -> (r: Msf)
        requires
            msf_frame_count(self) + rhs.0 <= u64::MAX,
        ensures
            r == msf_of_count(msf_frame_count(self) + rhs.0 as nat),
    {
        Lba(self.to_lba().0 + rhs.0).to_msf()
    }
}

impl Lba {
    /// The minute/second/frame form of this address; minutes wrap at 256.
    pub fn to_msf(self) -> (r: Msf)
        ensures
            r == msf_of_count(self.0 as nat),
    {
        Msf {
            minutes: ((self.0 / 4500) % 256) as u8,
            seconds: ((self.0 / 75) % 60) as u8,
            frames: (self.0 % 75) as u8,
        }
    }

    /// The address `rhs.0` frames after this one.
    pub fn add_lba(self, rhs: Lba) -> (r: Lba)
        requires
            self.0 + rhs.0 <= u64::MAX,
        ensures
            r.0 == self.0 + rhs.0,
    {
        Lba(self.0 + rhs.0)
    }

    /// The address that lies as many frames after this one as `rhs` denotes.
    pub fn add_msf(self, rhs: Msf) -> (r: Lba)
        requires
            self.0 + msf_frame_count(rhs) <= u64::MAX,
        ensures
            r.0 == self.0 + msf_frame_count(rhs),
    {
        Lba(self.0 + rhs.to_lba().0)
    }
}

impl From<Msf> for Lba {
    fn from(value: Msf) -> (r: Lba) {
        value.to_lba()
    }
}

impl vstd::std_specs::convert::FromSpecImpl<Msf> for Lba {
    open spec fn obeys_from_spec() -> bool {
        true
    }

    open spec fn from_spec(v: Msf) -> Lba {
        Lba(msf_frame_count(v) as u64)
    }
}

impl From<Lba> for Msf {
    fn from(value: Lba) -> (r: Msf) {
        value.to_msf()
    }
}

impl vstd::std_specs::convert::FromSpecImpl<Lba> for Msf {
    open spec fn obeys_from_spec() -> bool {
        true
    }

    open spec fn from_spec(v: Lba) -> Msf {
        msf_of_count(v.0 as nat)
    }
}


impl core::ops::Add<Lba> for Lba {
    type Output = Lba;

    fn add(self, rhs: Lba) -> (r: Lba) {
        self.add_lba(rhs)
    }
}

impl vstd::std_specs::ops::AddSpecImpl<Lba> for Lba {
    open spec fn obeys_add_spec() -> bool {
        true
    }

    open spec fn add_req(self, rhs: Lba) -> bool {
        self.0 + rhs.0 <= u64::MAX
    }

    open spec fn add_spec(self, rhs: Lba) -> Lba {
        Lba((self.0 + rhs.0) as u64)
    }
}

impl core::ops::Add<Msf> for Lba {
    type Output = Lba;

    fn add(self, rhs: Msf) -> (r: Lba) {
        self.add_msf(rhs)
    }
}

impl vstd::std_specs::ops::AddSpecImpl<Msf> for Lba {
    open spec fn obeys_add_spec() -> bool {
        true
    }

    open spec fn add_req(self, rhs: Msf) -> bool {
        self.0 + msf_frame_count(rhs) <= u64::MAX
    }

    open spec fn add_spec(self, rhs: Msf) -> Lba {
        Lba((self.0 + msf_frame_count(rhs)) as u64)
    }
}

impl core::ops::Add<Msf> for Msf {
    type Output = Msf;

    fn add(self, rhs: Msf) -> (r: Msf) {
        self.add_msf(rhs)
    }
}

impl vstd::std_specs::ops::AddSpecImpl<Msf> for Msf {
    open spec fn obeys_add_spec() -> bool {
        true
    }

    open spec fn add_req(self, rhs: Msf) -> bool {
        true
    }

    open spec fn add_spec(self, rhs: Msf) -> Msf {
        msf_of_count(msf_frame_count(self) + msf_frame_count(rhs))
    }
}

impl core::ops::Add<Lba> for Msf {
    type Output = Msf;

    fn add(self, rhs: Lba) -> (r: Msf) {
        self.add_lba(rhs)
    }
}

impl vstd::std_specs::ops::AddSpecImpl<Lba> for Msf {
    open spec fn obeys_add_spec() -> bool {
        true
    }

    open spec fn add_req(self, rhs: Lba) -> bool {
        msf_frame_count(self) + rhs.0 <= u64::MAX
    }

    open spec fn add_spec(self, rhs: Lba) -> Msf {
        msf_of_count(msf_frame_count(self) + rhs.0 as nat)
    }
}

/// The frame count of the `Msf` that `n` converts to is `n` modulo the
/// period at which the minute field wraps.
pub proof fn lemma_msf_of_count_frames(n: nat)
    ensures
        msf_frame_count(msf_of_count(n)) == n % msf_period(),
        msf_is_normal(msf_of_count(n)),
{
    let q = n / 4500;
    let r = n % 4500;
    lemma_fundamental_div_mod(n as int, 75);
    lemma_fundamental_div_mod((n / 75) as int, 60);
    lemma_div_denominator(n as int, 75, 60);
    lemma_fundamental_div_mod(q as int, 256);
    lemma_mod_pos_bound(n as int, 75);
    lemma_mod_pos_bound((n / 75) as int, 60);
    lemma_mod_pos_bound(q as int, 256);
    let a = q % 256;
    let b = (n / 75) % 60;
    let c = n % 75;
    assert(n / 75 == 60 * q + b);
    assert(n == 75 * (n / 75) + c);
    assert(n == 4500 * q + 75 * b + c) by (nonlinear_arith)
        requires
            n == 75 * (n / 75) + c,
            n / 75 == 60 * q + b,
    ;
    assert(q == 256 * (q / 256) + a);
    assert(n == (q / 256) * 1152000 + (4500 * a + 75 * b + c)) by (nonlinear_arith)
        requires
            n == 4500 * q + 75 * b + c,
            q == 256 * (q / 256) + a,
    ;
    assert(4500 * a + 75 * b + c < 1152000) by (nonlinear_arith)
        requires
            a < 256,
            b < 60,
            c < 75,
    ;
    lemma_fundamental_div_mod_converse_mod(
        n as int,
        1152000,
        (q / 256) as int,
        (4500 * a + 75 * b + c) as int,
    );
}

/// `msf_of_count` only looks at its argument modulo the wrap period.
pub proof fn lemma_msf_of_count_periodic(n: nat)
    ensures
        msf_of_count(n) == msf_of_count(n % msf_period()),
{
    let m = n % msf_period();
    let k = n / msf_period();
    lemma_fundamental_div_mod(n as int, 1152000);
    lemma_mod_pos_bound(n as int, 1152000);
    assert(n == k * 1152000 + m);
    // n / 75 == 15360 * k + m / 75, and likewise for 4500.
    lemma_fundamental_div_mod(m as int, 75);
    lemma_mod_pos_bound(m as int, 75);
    assert(n == (15360 * k + m / 75) * 75 + m % 75) by (nonlinear_arith)
        requires
            n == k * 1152000 + m,
            m == 75 * (m / 75) + m % 75,
    ;
    lemma_fundamental_div_mod_converse_div(
        n as int,
        75,
        (15360 * k + m / 75) as int,
        (m % 75) as int,
    );
    lemma_fundamental_div_mod_converse_mod(
        n as int,
        75,
        (15360 * k + m / 75) as int,
        (m % 75) as int,
    );
    lemma_fundamental_div_mod((m / 75) as int, 60);
    lemma_mod_pos_bound((m / 75) as int, 60);
    assert(n / 75 == (256 * k + (m / 75) / 60) * 60 + (m / 75) % 60) by (nonlinear_arith)
        requires
            n / 75 == 15360 * k + m / 75,
            m / 75 == 60 * ((m / 75) / 60) + (m / 75) % 60,
    ;
    lemma_fundamental_div_mod_converse_mod(
        (n / 75) as int,
        60,
        (256 * k + (m / 75) / 60) as int,
        ((m / 75) % 60) as int,
    );
    lemma_fundamental_div_mod(m as int, 4500);
    lemma_mod_pos_bound(m as int, 4500);
    assert(n == (256 * k + m / 4500) * 4500 + m % 4500) by (nonlinear_arith)
        requires
            n == k * 1152000 + m,
            m == 4500 * (m / 4500) + m % 4500,
    ;
    lemma_fundamental_div_mod_converse_div(
        n as int,
        4500,
        (256 * k + m / 4500) as int,
        (m % 4500) as int,
    );
    lemma_fundamental_div_mod((m / 4500) as int, 256);
    lemma_mod_pos_bound((m / 4500) as int, 256);
    assert(n / 4500 == (k + (m / 4500) / 256) * 256 + (m / 4500) % 256) by (nonlinear_arith)
        requires
            n / 4500 == 256 * k + m / 4500,
            m / 4500 == 256 * ((m / 4500) / 256) + (m / 4500) % 256,
    ;
    lemma_fundamental_div_mod_converse_mod(
        (n / 4500) as int,
        256,
        (k + (m / 4500) / 256) as int,
        ((m / 4500) % 256) as int,
    );
}

/// Converting an address to minutes/seconds/frames and back gives the
/// address again, for every address below the point where the minute
/// field wraps.
pub proof fn lemma_lba_msf_roundtrip(l: Lba)
    requires
        l.0 < msf_period(),
    ensures
        msf_frame_count(msf_of_count(l.0 as nat)) == l.0,
{
    lemma_msf_of_count_frames(l.0 as nat);
    vstd::arithmetic::div_mod::lemma_small_mod(l.0 as nat, msf_period());
}

/// Converting a position with seconds below 60 and frames below 75 to an
/// address and back gives the position again.
pub proof fn lemma_msf_lba_roundtrip(m: Msf)
    requires
        msf_is_normal(m),
    ensures
        msf_of_count(msf_frame_count(m)) == m,
{
    let n = msf_frame_count(m);
    assert(n == (60 * (m.minutes as nat) + m.seconds as nat) * 75 + m.frames as nat)
        by (nonlinear_arith)
        requires
            n == m.frames as nat + 75 * (m.seconds as nat) + 4500 * (m.minutes as nat),
    ;
    lemma_fundamental_div_mod_converse_div(
        n as int,
        75,
        (60 * (m.minutes as nat) + m.seconds as nat) as int,
        m.frames as int,
    );
    lemma_fundamental_div_mod_converse_mod(
        n as int,
        75,
        (60 * (m.minutes as nat) + m.seconds as nat) as int,
        m.frames as int,
    );
    lemma_fundamental_div_mod_converse_div(
        (n / 75) as int,
        60,
        m.minutes as int,
        m.seconds as int,
    );
    lemma_fundamental_div_mod_converse_mod(
        (n / 75) as int,
        60,
        m.minutes as int,
        m.seconds as int,
    );
    lemma_div_denominator(n as int, 75, 60);
    lemma_fundamental_div_mod_converse_mod(m.minutes as int, 256, 0, m.minutes as int);
}

/// Adding positions is adding their frame counts modulo the wrap period:
/// the result does not depend on the order of the operands.
pub proof fn lemma_msf_add_commutative(a: Msf, b: Msf)
    ensures
        msf_of_count(msf_frame_count(a) + msf_frame_count(b)) == msf_of_count(
            msf_frame_count(b) + msf_frame_count(a),
        ),
{
}

/// Adding positions is associative: `(a + b) + c == a + (b + c)`.
pub proof fn lemma_msf_add_associative(a: Msf, b: Msf, c: Msf)
    ensures
        msf_of_count(
            msf_frame_count(msf_of_count(msf_frame_count(a) + msf_frame_count(b)))
                + msf_frame_count(c),
        ) == msf_of_count(
            msf_frame_count(a) + msf_frame_count(
                msf_of_count(msf_frame_count(b) + msf_frame_count(c)),
            ),
        ),
{
    let na = msf_frame_count(a);
    let nb = msf_frame_count(b);
    let nc = msf_frame_count(c);
    lemma_msf_of_count_frames(na + nb);
    lemma_msf_of_count_frames(nb + nc);
    lemma_msf_add_mod_left(na + nb, nc);
    lemma_msf_add_mod_left(nb + nc, na);
    assert(nb + nc + na == na + (nb + nc));
    assert(na + nb + nc == na + (nb + nc));
}

/// Reducing the left operand of a sum modulo the wrap period does not
/// change the position the sum converts to.
pub proof fn lemma_msf_add_mod_left(x: nat, y: nat)
    ensures
        msf_of_count((x % msf_period()) + y) == msf_of_count(x + y),
{
    lemma_msf_of_count_periodic(x + y);
    lemma_msf_of_count_periodic((x % msf_period()) + y);
    vstd::arithmetic::div_mod::lemma_add_mod_noop(x as int, y as int, 1152000);
    lemma_mod_pos_bound(x as int, 1152000);
    lemma_mod_pos_bound(y as int, 1152000);
    vstd::arithmetic::div_mod::lemma_add_mod_noop((x % 1152000) as int, y as int, 1152000);
    vstd::arithmetic::div_mod::lemma_mod_twice(x as int, 1152000);
}

/// A frame is one step of a position, a second is 75 frames, and a minute
/// is 60 seconds (4500 frames): the frame counts of neighbouring positions
/// differ by those amounts.
pub proof fn lemma_msf_units(minutes: u8, seconds: u8, frames: u8)
    ensures
        frames < 255 ==> msf_frame_count(Msf { minutes, seconds, frames: (frames + 1) as u8 })
            == msf_frame_count(Msf { minutes, seconds, frames }) + 1,
        seconds < 255 ==> msf_frame_count(Msf { minutes, seconds: (seconds + 1) as u8, frames })
            == msf_frame_count(Msf { minutes, seconds, frames }) + 75,
        minutes < 255 ==> msf_frame_count(Msf { minutes: (minutes + 1) as u8, seconds: 0, frames: 0 })
            == msf_frame_count(Msf { minutes, seconds: 0, frames: 0 }) + 60 * msf_frame_count(
            Msf { minutes: 0, seconds: 1, frames: 0 },
        ),
        msf_frame_count(Msf { minutes: 0, seconds: 1, frames: 0 }) == 75,
        msf_frame_count(Msf { minutes: 0, seconds: 0, frames: 0 }) == 0,
{
}

/// Converting a frame count splits it into whole minutes (modulo 256),
/// seconds and frames, each field below its unit: 75 frames make a second,
/// 60 seconds a minute.
pub proof fn lemma_msf_of_count_fields(n: nat)
    ensures
        msf_of_count(n).frames == n % 75,
        msf_of_count(n).seconds == (n / 75) % 60,
        msf_of_count(n).minutes == (n / 4500) % 256,
        msf_of_count(n).frames < 75 && msf_of_count(n).seconds < 60,
{
    lemma_mod_pos_bound(n as int, 75);
    lemma_mod_pos_bound((n / 75) as int, 60);
    lemma_mod_pos_bound((n / 4500) as int, 256);
}

} // verus!
