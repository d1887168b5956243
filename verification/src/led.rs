//! LED colors and the packets that set them.
use vstd::prelude::*;

use crate::single::{
    grain, lemma_close, lemma_close_whole, lemma_nearest_single, lemma_nearest_single_monotone,
    lemma_thirds, nearest_single, to_single, ONE,
};

verus! {

pub const PRO_PREFIX: u8 = 0x05;

pub const CMD_SLIDERS: u8 = 0x00;

pub const CMD_SLIDER_LABELS: u8 = 0x01;

pub const CMD_KNOBS: u8 = 0x02;

pub const CMD_LOGO: u8 = 0x03;

pub const CMD_GLOBAL_ANIMATION: u8 = 0x04;

pub const ANIM_RAINBOW_HORIZONTAL: u8 = 0x01;

pub const ANIM_RAINBOW_VERTICAL: u8 = 0x02;

pub const ANIM_WAVE: u8 = 0x03;

pub const ANIM_BREATH: u8 = 0x04;

#[derive(Debug, Clone, Copy, PartialEq, Eq, Structural)]
pub struct Rgb {
    pub r: u8,
    pub g: u8,
    pub b: u8,
}

impl Rgb {
    pub fn new(r: u8, g: u8, b: u8) -> (c: Rgb)
        ensures
            c == (Rgb { r, g, b }),
    {
        Rgb { r, g, b }
    }
}

/// The largest of three bytes.
pub open spec fn largest(c: Rgb) -> u8 {
    if c.r >= c.g && c.r >= c.b {
        c.r
    } else if c.g >= c.b {
        c.g
    } else {
        c.b
    }
}

/// The smallest of three bytes.
pub open spec fn smallest(c: Rgb) -> u8 {
    if c.r <= c.g && c.r <= c.b {
        c.r
    } else if c.g <= c.b {
        c.g
    } else {
        c.b
    }
}

/// A color channel as a fraction of full intensity, in single precision.
pub open spec fn channel(c: u8) -> nat {
    nearest_single(c as nat, 255)
}

/// The distance of two channels, in single precision.
pub open spec fn spread(a: u8, b: u8) -> nat {
    if a >= b {
        nearest_single((channel(a) - channel(b)) as nat, ONE as nat)
    } else {
        nearest_single((channel(b) - channel(a)) as nat, ONE as nat)
    }
}

/// The position on a color wheel of six sectors: `base` plus the signed
/// distance of the two lesser channels over that of the extremes, each step
/// in single precision. Below zero the wheel goes on at six.
pub open spec fn wheel(base: nat, ahead: u8, behind: u8, c: Rgb) -> nat {
    let t = nearest_single(spread(ahead, behind), spread(largest(c), smallest(c)));
    if ahead >= behind {
        if base == 0 {
            t
        } else {
            nearest_single((base * ONE + t) as nat, ONE as nat)
        }
    } else {
        nearest_single((if base == 0 {
            6 * ONE - t
        } else {
            base * ONE - t
        }) as nat, ONE as nat)
    }
}

/// The position of a color on the wheel: red at zero, green at two, blue at
/// four. A gray has no hue and counts as red.
pub open spec fn wheel_position(c: Rgb) -> nat {
    if largest(c) == smallest(c) {
        0
    } else if c.r == largest(c) {
        wheel(0, c.g, c.b, c)
    } else if c.g == largest(c) {
        wheel(2, c.b, c.r, c)
    } else {
        wheel(4, c.r, c.g, c)
    }
}

/// The hue byte of a color: its angle on the color wheel, with 255 for the
/// full circle, computed in single precision and rounded to the nearest
/// integer, a half upwards.
pub open spec fn hue_of(c: Rgb) -> u8 {
    let degrees = nearest_single(60 * wheel_position(c), ONE as nat);
    let turn = nearest_single(degrees, (360 * ONE) as nat);
    let scaled = nearest_single(255 * turn, ONE as nat);
    let rounded = (2 * scaled + ONE) / (2 * ONE as int);
    if rounded < 255 {
        rounded as u8
    } else {
        255
    }
}

proof fn lemma_channel(c: u8)
    ensures
        channel(c) <= 2 * ONE,
        2 * (channel(c) * 255) <= 2 * (c * ONE) + 0x200_0000,
        2 * (channel(c) * 255) + 0x200_0000 >= 2 * (c * ONE),
{
    lemma_nearest_single(c as nat, 255);
    lemma_channel_grain(c);
}

proof fn lemma_channel_grain(c: u8)
    ensures
        grain(c as nat, 255, 1) * 255 <= 0x200_0000,
{
    crate::single::lemma_grain(c as nat, 255, 1);
}

/// Distinct intensities stay distinct in single precision.
proof fn lemma_channels_apart(a: u8, b: u8)
    requires
        a > b,
    ensures
        channel(a) > channel(b),
{
    lemma_channel(a);
    lemma_channel(b);
}

proof fn lemma_channel_monotone(a: u8, b: u8)
    requires
        a <= b,
    ensures
        channel(a) <= channel(b),
{
    lemma_nearest_single_monotone(a as nat, b as nat, 255);
}

/// The spread of two channels of a color is at most that of its extremes.
proof fn lemma_spread(a: u8, b: u8, c: Rgb)
    requires
        smallest(c) <= a <= largest(c),
        smallest(c) <= b <= largest(c),
    ensures
        spread(a, b) <= spread(largest(c), smallest(c)),
        spread(a, b) <= 4 * ONE,
{
    lemma_channel_monotone(smallest(c), a);
    lemma_channel_monotone(a, largest(c));
    lemma_channel_monotone(smallest(c), b);
    lemma_channel_monotone(b, largest(c));
    lemma_channel(largest(c));
    let most = (channel(largest(c)) - channel(smallest(c))) as nat;
    if a >= b {
        lemma_channel_monotone(b, a);
        lemma_nearest_single_monotone((channel(a) - channel(b)) as nat, most, ONE as nat);
        lemma_nearest_single((channel(a) - channel(b)) as nat, ONE as nat);
    } else {
        lemma_channel_monotone(a, b);
        lemma_nearest_single_monotone((channel(b) - channel(a)) as nat, most, ONE as nat);
        lemma_nearest_single((channel(b) - channel(a)) as nat, ONE as nat);
    }
}

/// The extremes of a color that is not gray are apart.
proof fn lemma_extremes(c: Rgb)
    requires
        largest(c) != smallest(c),
    ensures
        0 < spread(largest(c), smallest(c)) <= 4 * ONE,
{
    let a = largest(c);
    let b = smallest(c);
    lemma_channels_apart(a, b);
    lemma_channel(a);
    lemma_channel(b);
    let n = (channel(a) - channel(b)) as nat;
    lemma_nearest_single(n, ONE as nat);
    lemma_spread(a, b, c);
    assert(n * 510 >= 2 * ONE - 2 * 0x200_0000);
    crate::single::lemma_grain(n, ONE as nat, 1);
    let g = grain(n, ONE as nat, 1);
    let r = nearest_single(n, ONE as nat);
    assert(g > 1 ==> 2 * n >= 0x100_0000 * g) by (nonlinear_arith)
        requires
            g > 1 ==> 2 * (n * ONE) >= 0x100_0000 * (g * (ONE as nat)),
            ONE == 0x100_0000_0000,
    ;
    assert(2 * r + g >= 2 * n) by (nonlinear_arith)
        requires
            2 * (r * (ONE as nat)) + g * (ONE as nat) >= 2 * (n * ONE),
            ONE == 0x100_0000_0000,
    ;
}

fn channel_of(c: u8) -> (r: u128)
    ensures
        r == channel(c),
        r <= 2 * ONE,
{
    proof {
        lemma_channel(c);
    }
    to_single(c as u128, 255)
}

fn spread_of(a: u8, b: u8) -> (r: u128)
    ensures
        r == spread(a, b),
{
    let x = channel_of(a);
    let y = channel_of(b);
    if a >= b {
        proof {
            lemma_channel_monotone(b, a);
        }
        to_single(x - y, ONE)
    } else {
        proof {
            lemma_channel_monotone(a, b);
        }
        to_single(y - x, ONE)
    }
}

fn wheel_of(base: u128, ahead: u8, behind: u8, c: Rgb, high: u8, low: u8) -> (r: u128)
    requires
        base == 0 || base == 2 || base == 4,
        high == largest(c),
        low == smallest(c),
        high != low,
        low <= ahead <= high,
        low <= behind <= high,
    ensures
        r == wheel(base as nat, ahead, behind, c),
        r <= 16 * ONE,
{
    proof {
        lemma_spread(ahead, behind, c);
        lemma_extremes(c);
        let n = spread(ahead, behind);
        let d = spread(high, low);
        lemma_nearest_single(n, d);
        let t = nearest_single(n, d);
        assert(t <= 2 * ONE) by (nonlinear_arith)
            requires
                t * d <= 2 * (n * ONE),
                n <= d,
                d > 0,
        ;
        lemma_nearest_single((base * ONE + t) as nat, ONE as nat);
        lemma_nearest_single((6 * ONE - t) as nat, ONE as nat);
        if base > 0 {
            lemma_nearest_single((base * ONE - t) as nat, ONE as nat);
        }
    }
    let near = spread_of(ahead, behind);
    let far = spread_of(high, low);
    let t = to_single(near, far);
    if ahead >= behind {
        if base == 0 {
            t
        } else {
            to_single(base * ONE + t, ONE)
        }
    } else {
        if base == 0 {
            to_single(6 * ONE - t, ONE)
        } else {
            to_single(base * ONE - t, ONE)
        }
    }
}

/// Converts a color to a hue byte for the animated effects. Saturation and
/// brightness are discarded.
pub fn rgb_to_hue(c: Rgb) -> (hue: u8)
    ensures
        hue == hue_of(c),
{
    let high = if c.r >= c.g && c.r >= c.b {
        c.r
    } else if c.g >= c.b {
        c.g
    } else {
        c.b
    };
    let low = if c.r <= c.g && c.r <= c.b {
        c.r
    } else if c.g <= c.b {
        c.g
    } else {
        c.b
    };
    let position: u128 = if high == low {
        0
    } else if c.r == high {
        wheel_of(0, c.g, c.b, c, high, low)
    } else if c.g == high {
        wheel_of(2, c.b, c.r, c, high, low)
    } else {
        wheel_of(4, c.r, c.g, c, high, low)
    };
    proof {
        lemma_nearest_single(60 * position as nat, ONE as nat);
        let degrees = nearest_single(60 * position as nat, ONE as nat);
        lemma_nearest_single(degrees, (360 * ONE) as nat);
        let turn = nearest_single(degrees, (360 * ONE) as nat);
        lemma_nearest_single(255 * turn, ONE as nat);
    }
    let degrees = to_single(60 * position, ONE);
    let turn = to_single(degrees, 360 * ONE);
    let scaled = to_single(255 * turn, ONE);
    let rounded: u128 = (2 * scaled + ONE) / (2 * ONE);
    if rounded < 255 {
        rounded as u8
    } else {
        255
    }
}

/// A gray has no hue: it gets the hue byte zero, whatever its brightness.
pub proof fn law_gray_has_hue_zero(v: u8)
    ensures
        hue_of(Rgb { r: v, g: v, b: v }) == 0,
{
    let c = Rgb { r: v, g: v, b: v };
    assert(wheel_position(c) == 0);
    lemma_hue_at_zero(c);
}

proof fn lemma_hue_at_zero(c: Rgb)
    requires
        wheel_position(c) == 0,
    ensures
        hue_of(c) == 0,
{
    lemma_zero_is_exact(ONE as nat);
    lemma_zero_is_exact((360 * ONE) as nat);
    assert(60 * wheel_position(c) == 0);
    let degrees = nearest_single(60 * wheel_position(c), ONE as nat);
    let turn = nearest_single(degrees, (360 * ONE) as nat);
    assert(255 * turn == 0);
    assert((2 * 0 + ONE) / (2 * ONE as int) == 0);
}

/// Red, green and blue lie a third of the circle apart, whatever their
/// brightness.
pub proof fn law_primaries_are_thirds(v: u8)
    requires
        v > 0,
    ensures
        hue_of(Rgb { r: v, g: 0, b: 0 }) == 0,
        hue_of(Rgb { r: 0, g: v, b: 0 }) == 85,
        hue_of(Rgb { r: 0, g: 0, b: v }) == 170,
{
    let red = Rgb { r: v, g: 0, b: 0 };
    let green = Rgb { r: 0, g: v, b: 0 };
    let blue = Rgb { r: 0, g: 0, b: v };
    lemma_zero_is_exact(ONE as nat);
    assert(spread(0, 0) == 0);
    lemma_extremes(red);
    lemma_zero_is_exact(spread(v, 0));
    assert(wheel_position(red) == 0);
    lemma_hue_at_zero(red);
    lemma_thirds();
    assert(wheel_position(green) == 2 * ONE);
    assert(wheel_position(blue) == 4 * ONE);
    lemma_thirds_scaled();
}

proof fn lemma_thirds_scaled()
    ensures
        (2 * nearest_single(255 * 366503886848, ONE as nat) + ONE) / (2 * ONE as int) == 85,
        (2 * nearest_single(255 * 733007773696, ONE as nat) + ONE) / (2 * ONE as int) == 170,
{
    lemma_nearest_single(255 * 366503886848, ONE as nat);
    lemma_nearest_single(255 * 733007773696, ONE as nat);
    crate::single::lemma_grain(255 * 366503886848, ONE as nat, 1);
    crate::single::lemma_grain(255 * 733007773696, ONE as nat, 1);
}

proof fn lemma_zero_is_exact(d: nat)
    requires
        d > 0,
    ensures
        nearest_single(0, d) == 0,
{
    lemma_nearest_single(0, d);
    let r = nearest_single(0, d);
    assert(r == 0) by (nonlinear_arith)
        requires
            r * d <= 0,
            d > 0,
            r >= 0,
    ;
}

/// How the LEDs of one control are lit.
#[derive(Debug, Clone, Copy, PartialEq, Eq, Structural)]
pub enum LedMode {
    Static(Rgb),
    Gradient(Rgb, Rgb),
    /// Sliders only.
    VolumeGradient(Rgb, Rgb),
}

impl LedMode {
    /// The seven bytes of a mode.
    pub open spec fn bytes(self) -> Seq<u8> {
        match self {
            LedMode::Static(c) => seq![0x01u8, c.r, c.g, c.b, 0, 0, 0],
            LedMode::Gradient(a, b) => seq![0x02u8, a.r, a.g, a.b, b.r, b.g, b.b],
            LedMode::VolumeGradient(a, b) => seq![0x03u8, a.r, a.g, a.b, b.r, b.g, b.b],
        }
    }

    /// The seven bytes of the mode.
    pub fn to_bytes(self) -> (r: [u8; 7])
        ensures
            r@ == self.bytes(),
    {
        let r: [u8; 7] = match self {
            LedMode::Static(c) => [0x01, c.r, c.g, c.b, 0x00, 0x00, 0x00],
            LedMode::Gradient(a, b) => [0x02, a.r, a.g, a.b, b.r, b.g, b.b],
            LedMode::VolumeGradient(a, b) => [0x03, a.r, a.g, a.b, b.r, b.g, b.b],
        };
        assert(r@ =~= self.bytes());
        r
    }
}

/// How the logo is lit.
#[derive(Debug, Clone, Copy, PartialEq, Eq, Structural)]
pub enum LogoMode {
    Static(Rgb),
    Rainbow { brightness: u8, speed: u8 },
    Breath { hue: u8, brightness: u8, speed: u8 },
}

/// The bytes of a row of modes, one after the other.
pub open spec fn modes_bytes(modes: Seq<LedMode>) -> Seq<u8>
    decreases modes.len(),
{
    if modes.len() == 0 {
        seq![]
    } else {
        modes_bytes(modes.drop_last()) + modes.last().bytes()
    }
}

/// The packet that sets the modes of a group of controls.
pub open spec fn group_packet(command: u8, modes: Seq<LedMode>) -> Seq<u8> {
    seq![PRO_PREFIX, command] + modes_bytes(modes)
}

/// The packet that sets the logo.
pub open spec fn logo_packet(mode: LogoMode) -> Seq<u8> {
    match mode {
        LogoMode::Static(c) => seq![PRO_PREFIX, CMD_LOGO, 0x01, c.r, c.g, c.b],
        LogoMode::Rainbow { brightness, speed } => seq![
            PRO_PREFIX,
            CMD_LOGO,
            0x02,
            0xFF,
            brightness,
            speed,
        ],
        LogoMode::Breath { hue, brightness, speed } => seq![
            PRO_PREFIX,
            CMD_LOGO,
            0x03,
            hue,
            brightness,
            speed,
        ],
    }
}

/// The packet that starts a rainbow.
pub open spec fn rainbow_packet(rainbow_type: u8, brightness: u8, speed: u8) -> Seq<u8> {
    seq![PRO_PREFIX, CMD_GLOBAL_ANIMATION, rainbow_type, 0x00, 0xFF, brightness, speed, 0x00]
}

/// A flag as a byte.
pub open spec fn flag_byte(b: bool) -> u8 {
    if b {
        1
    } else {
        0
    }
}

/// The packet that starts a wave.
pub open spec fn wave_packet(hue: u8, brightness: u8, speed: u8, reverse: bool, bounce: bool) -> Seq<
    u8,
> {
    seq![
        PRO_PREFIX,
        CMD_GLOBAL_ANIMATION,
        ANIM_WAVE,
        hue,
        0xFF,
        brightness,
        speed,
        flag_byte(reverse),
        flag_byte(bounce),
    ]
}

/// The packet that starts a breath animation.
pub open spec fn breath_packet(hue: u8, brightness: u8, speed: u8) -> Seq<u8> {
    seq![PRO_PREFIX, CMD_GLOBAL_ANIMATION, ANIM_BREATH, hue, 0xFF, brightness, speed]
}

fn group(command: u8, modes: &[LedMode]) -> (packet: Vec<u8>)
    ensures
        packet@ == group_packet(command, modes@),
{
    let mut packet: Vec<u8> = vec![PRO_PREFIX, command];
    let mut i: usize = 0;
    assert(packet@ =~= group_packet(command, modes@.take(0)));
    while i < modes.len()
        invariant
            i <= modes@.len(),
            packet@ == group_packet(command, modes@.take(i as int)),
        decreases modes@.len() - i,
    {
        let ghost before = packet@;
        let bytes = modes[i].to_bytes();
        let mut k: usize = 0;
        while k < 7
            invariant
                k <= 7,
                packet@ == before + bytes@.take(k as int),
            decreases 7 - k,
        {
            packet.push(bytes[k]);
            assert(bytes@.take(k + 1) =~= bytes@.take(k as int).push(bytes@[k as int]));
            assert(packet@ =~= before + bytes@.take(k + 1));
            k += 1;
        }
        assert(bytes@.take(7) =~= bytes@);
        let ghost longer = modes@.take(i + 1);
        assert(longer.drop_last() =~= modes@.take(i as int));
        assert(packet@ =~= group_packet(command, longer));
        i += 1;
    }
    assert(modes@.take(i as int) =~= modes@);
    packet
}

/// The packet that sets the five knobs.
pub fn set_knob_colors(knobs: &[LedMode; 5]) -> (packet: Vec<u8>)
    ensures
        packet@ == group_packet(CMD_KNOBS, knobs@),
{
    group(CMD_KNOBS, knobs.as_slice())
}

/// The packet that sets the four sliders.
pub fn set_slider_colors(sliders: &[LedMode; 4]) -> (packet: Vec<u8>)
    ensures
        packet@ == group_packet(CMD_SLIDERS, sliders@),
{
    group(CMD_SLIDERS, sliders.as_slice())
}

/// The packet that sets the four slider labels.
pub fn set_slider_label_colors(labels: &[LedMode; 4]) -> (packet: Vec<u8>)
    ensures
        packet@ == group_packet(CMD_SLIDER_LABELS, labels@),
{
    group(CMD_SLIDER_LABELS, labels.as_slice())
}

/// The packet that sets the logo.
pub fn set_logo(mode: LogoMode) -> (packet: Vec<u8>)
    ensures
        packet@ == logo_packet(mode),
{
    let packet = match mode {
        LogoMode::Static(c) => vec![PRO_PREFIX, CMD_LOGO, 0x01, c.r, c.g, c.b],
        LogoMode::Rainbow { brightness, speed } => vec![
            PRO_PREFIX,
            CMD_LOGO,
            0x02,
            0xFF,
            brightness,
            speed,
        ],
        LogoMode::Breath { hue, brightness, speed } => vec![
            PRO_PREFIX,
            CMD_LOGO,
            0x03,
            hue,
            brightness,
            speed,
        ],
    };
    assert(packet@ =~= logo_packet(mode));
    packet
}

/// The packet that starts a rainbow of the given animation type.
pub fn set_rainbow(rainbow_type: u8, brightness: u8, speed: u8) -> (packet: Vec<u8>)
    ensures
        packet@ == rainbow_packet(rainbow_type, brightness, speed),
{
    let packet = vec![
        PRO_PREFIX,
        CMD_GLOBAL_ANIMATION,
        rainbow_type,
        0x00,  // phase
        0xFF,  // placeholder
        brightness,
        speed,
        0x00,  // no reverse
    ];
    assert(packet@ =~= rainbow_packet(rainbow_type, brightness, speed));
    packet
}

fn flag(b: bool) -> (r: u8)
    ensures
        r == flag_byte(b),
{
    if b {
        1
    } else {
        0
    }
}

/// The packet that starts a wave.
pub fn set_wave(hue: u8, brightness: u8, speed: u8, reverse: bool, bounce: bool) -> (packet: Vec<
    u8,
>)
    ensures
        packet@ == wave_packet(hue, brightness, speed, reverse, bounce),
{
    let packet = vec![
        PRO_PREFIX,
        CMD_GLOBAL_ANIMATION,
        ANIM_WAVE,
        hue,
        0xFF,  // placeholder
        brightness,
        speed,
        flag(reverse),
        flag(bounce),
    ];
    assert(packet@ =~= wave_packet(hue, brightness, speed, reverse, bounce));
    packet
}

/// The packet that starts a breath animation.
pub fn set_breath(hue: u8, brightness: u8, speed: u8) -> (packet: Vec<u8>)
    ensures
        packet@ == breath_packet(hue, brightness, speed),
{
    let packet = vec![
        PRO_PREFIX,
        CMD_GLOBAL_ANIMATION,
        ANIM_BREATH,
        hue,
        0xFF,  // placeholder
        brightness,
        speed,
    ];
    assert(packet@ =~= breath_packet(hue, brightness, speed));
    packet
}

proof fn lemma_modes_bytes_len(modes: Seq<LedMode>)
    ensures
        modes_bytes(modes).len() == 7 * modes.len(),
    decreases modes.len(),
{
    if modes.len() > 0 {
        lemma_modes_bytes_len(modes.drop_last());
    }
}

/// Every packet of a group of at most eight controls fits into a report of 64
/// bytes, and its length is two more than seven bytes for each control.
pub proof fn law_group_packet_fits_report(command: u8, modes: Seq<LedMode>)
    requires
        modes.len() <= 8,
    ensures
        group_packet(command, modes).len() == 2 + 7 * modes.len(),
        group_packet(command, modes).len() <= 64,
{
    lemma_modes_bytes_len(modes);
}

/// Two modes with the same bytes are the same mode: nothing of a mode is lost
/// in its packet.
pub proof fn law_mode_bytes_are_faithful(a: LedMode, b: LedMode)
    requires
        a.bytes() == b.bytes(),
    ensures
        a == b,
{
    let x = a.bytes();
    let y = b.bytes();
    assert(x[0] == y[0] && x[1] == y[1] && x[2] == y[2] && x[3] == y[3] && x[4] == y[4] && x[5]
        == y[5] && x[6] == y[6]);
}

/// The packet of a group begins with the prefix of the panel and the command;
/// then each control has seven bytes, in the order of the controls, and they
/// are those of its own mode.
pub proof fn law_each_control_has_its_bytes(command: u8, modes: Seq<LedMode>, i: int, k: int)
    requires
        0 <= i < modes.len(),
        0 <= k < 7,
    ensures
        group_packet(command, modes).len() == 2 + 7 * modes.len(),
        group_packet(command, modes)[0] == 5,
        group_packet(command, modes)[1] == command,
        group_packet(command, modes)[2 + 7 * i + k] == modes[i].bytes()[k],
{
    lemma_modes_bytes_len(modes);
    lemma_modes_bytes_at(modes, i, k);
    assert(group_packet(command, modes)[2 + 7 * i + k] == modes_bytes(modes)[7 * i + k]);
}

proof fn lemma_modes_bytes_at(modes: Seq<LedMode>, i: int, k: int)
    requires
        0 <= i < modes.len(),
        0 <= k < 7,
    ensures
        modes_bytes(modes)[7 * i + k] == modes[i].bytes()[k],
    decreases modes.len(),
{
    lemma_modes_bytes_len(modes.drop_last());
    if i < modes.len() - 1 {
        lemma_modes_bytes_at(modes.drop_last(), i, k);
    }
}

/// The bytes of a mode: its number, the three bytes of its first color and
/// those of its second, zeros where there is none.
pub proof fn law_modes_have_their_colors(a: Rgb, b: Rgb, mode: LedMode)
    ensures
        mode.bytes().len() == 7,
        mode.bytes()[0] == match mode {
            LedMode::Static(_) => 1u8,
            LedMode::Gradient(_, _) => 2u8,
            LedMode::VolumeGradient(_, _) => 3u8,
        },
        mode == LedMode::Static(a) || mode == LedMode::Gradient(a, b) || mode
            == LedMode::VolumeGradient(a, b) ==> mode.bytes()[1] == a.r && mode.bytes()[2] == a.g
            && mode.bytes()[3] == a.b,
        mode == LedMode::Gradient(a, b) || mode == LedMode::VolumeGradient(a, b)
            ==> mode.bytes()[4] == b.r && mode.bytes()[5] == b.g && mode.bytes()[6] == b.b,
        mode == LedMode::Static(a) ==> mode.bytes()[4] == 0 && mode.bytes()[5] == 0
            && mode.bytes()[6] == 0,
{
}

/// The packets of the logo and of the animations, byte by byte.
pub proof fn law_animations_have_their_settings(
    c: Rgb,
    hue: u8,
    brightness: u8,
    speed: u8,
    reverse: bool,
    bounce: bool,
    kind: u8,
)
    ensures
        logo_packet(LogoMode::Static(c)) == seq![5u8, 3, 1, c.r, c.g, c.b],
        logo_packet(LogoMode::Rainbow { brightness, speed }) == seq![
            5u8,
            3,
            2,
            0xFF,
            brightness,
            speed,
        ],
        logo_packet(LogoMode::Breath { hue, brightness, speed }) == seq![
            5u8,
            3,
            3,
            hue,
            brightness,
            speed,
        ],
        rainbow_packet(kind, brightness, speed) == seq![5u8, 4, kind, 0, 0xFF, brightness, speed, 0],
        wave_packet(hue, brightness, speed, reverse, bounce) == seq![
            5u8,
            4,
            3,
            hue,
            0xFF,
            brightness,
            speed,
            if reverse {
                1
            } else {
                0
            },
            if bounce {
                1
            } else {
                0
            },
        ],
        breath_packet(hue, brightness, speed) == seq![5u8, 4, 4, hue, 0xFF, brightness, speed],
{
}

proof fn lemma_scale(m: int, x: int, y: int, by: int)
    requires
        m >= 0,
        -by <= x - y <= by,
    ensures
        -(m * by) <= m * x - m * y <= m * by,
{
    assert(m * (x - y) <= m * by) by (nonlinear_arith)
        requires
            m >= 0,
            x - y <= by,
    ;
    assert(m * (y - x) <= m * by) by (nonlinear_arith)
        requires
            m >= 0,
            y - x <= by,
    ;
    assert(m * (x - y) == m * x - m * y) by (nonlinear_arith);
    assert(m * (y - x) == m * y - m * x) by (nonlinear_arith);
}

/// The distance of two channels is that of their bytes, in 255ths.
proof fn lemma_spread_is_close(a: u8, b: u8)
    ensures
        ({
            let n = if a >= b {
                a - b
            } else {
                b - a
            };
            -0x400_0000 <= 255 * spread(a, b) - n * ONE <= 0x400_0000
        }),
{
    let (high, low) = if a >= b {
        (a, b)
    } else {
        (b, a)
    };
    lemma_channel(high);
    lemma_channel(low);
    lemma_channel_monotone(low, high);
    lemma_close_whole((channel(high) - channel(low)) as nat);
}

/// The share of the lesser distance in the greater one is that of the bytes.
proof fn lemma_share_is_close(ahead: u8, behind: u8, c: Rgb)
    requires
        largest(c) != smallest(c),
        smallest(c) <= ahead <= largest(c),
        smallest(c) <= behind <= largest(c),
    ensures
        ({
            let t = nearest_single(spread(ahead, behind), spread(largest(c), smallest(c)));
            let m = largest(c) - smallest(c);
            let n = if ahead >= behind {
                ahead - behind
            } else {
                behind - ahead
            };
            &&& -0x1000_0000 <= m * t - n * ONE <= 0x1000_0000
            &&& t <= 2 * ONE
        }),
{
    let near = spread(ahead, behind);
    let far = spread(largest(c), smallest(c));
    let t = nearest_single(near, far);
    let m: int = largest(c) - smallest(c);
    let n: int = if ahead >= behind {
        ahead - behind
    } else {
        behind - ahead
    };
    lemma_spread(ahead, behind, c);
    lemma_extremes(c);
    lemma_spread_is_close(ahead, behind);
    lemma_spread_is_close(largest(c), smallest(c));
    lemma_close(near, far);
    lemma_nearest_single(near, far);
    assert(t <= 2 * ONE) by (nonlinear_arith)
        requires
            t * far <= 2 * (near * ONE),
            near <= far,
            far > 0,
    ;
    let x: int = t * far as int;
    let y: int = m * t;
    lemma_scale(t as int, (255 * far) as int, m * ONE, 0x400_0000);
    assert(t as int * (255 * far) == 255 * x) by (nonlinear_arith)
        requires
            x == t * far,
    ;
    assert(t as int * (m * ONE) == ONE * y) by (nonlinear_arith)
        requires
            y == m * t,
    ;
}

/// The position on the wheel is that of the bytes.
proof fn lemma_wheel_is_close(base: nat, ahead: u8, behind: u8, c: Rgb)
    requires
        base == 0 || base == 2 || base == 4,
        largest(c) != smallest(c),
        smallest(c) <= ahead <= largest(c),
        smallest(c) <= behind <= largest(c),
    ensures
        ({
            let m = largest(c) - smallest(c);
            let at = if base == 0 && ahead < behind {
                6 * m + ahead - behind
            } else {
                base * m + ahead - behind
            };
            -0x2000_0000 <= m * wheel(base, ahead, behind, c) - at * ONE <= 0x2000_0000
        }),
        wheel(base, ahead, behind, c) <= 9 * ONE,
{
    let m: int = largest(c) - smallest(c);
    let t = nearest_single(spread(ahead, behind), spread(largest(c), smallest(c)));
    lemma_share_is_close(ahead, behind, c);
    let from: int = if base == 0 && ahead < behind {
        6
    } else {
        base as int
    };
    let exact: int = if ahead >= behind {
        from * ONE + t
    } else {
        from * ONE - t
    };
    assert(exact >= 0);
    lemma_close_whole(exact as nat);
    let p = wheel(base, ahead, behind, c);
    lemma_scale(m, p as int, exact, 0x8_0001);
    assert(m * (from * ONE + t) == (m * from) * ONE + m * t) by (nonlinear_arith);
    assert(m * (from * ONE - t) == (m * from) * ONE - m * t) by (nonlinear_arith);
    assert(m * from == from * m) by (nonlinear_arith);
}

/// The hue byte of a position on the wheel.
proof fn lemma_hue_is_close(c: Rgb)
    requires
        wheel_position(c) <= 9 * ONE,
    ensures
        ({
            let degrees = nearest_single(60 * wheel_position(c), ONE as nat);
            let turn = nearest_single(degrees, (360 * ONE) as nat);
            let scaled = nearest_single(255 * turn, ONE as nat);
            &&& -0x4000_0000 <= 6 * scaled - 255 * wheel_position(c) <= 0x4000_0000
            &&& 2 * (hue_of(c) * ONE) - 2 * scaled <= ONE
            &&& hue_of(c) < 255 ==> 2 * scaled - 2 * (hue_of(c) * ONE) <= ONE
        }),
{
    let p = wheel_position(c);
    let degrees = nearest_single(60 * p, ONE as nat);
    let turn = nearest_single(degrees, (360 * ONE) as nat);
    let scaled = nearest_single(255 * turn, ONE as nat);
    lemma_close_whole(60 * p);
    lemma_close(degrees, (360 * ONE) as nat);
    lemma_close_whole(255 * turn);
    assert(-0x300_0000 <= degrees - 60 * p <= 0x300_0000);
    assert(turn * ((360 * ONE) as nat) == ONE * (360 * turn)) by (nonlinear_arith);
    assert(-0x300_0000 <= 360 * turn - degrees <= 0x300_0000);
    assert(-0x200_0000 <= scaled - 255 * turn <= 0x200_0000);
    let rounded = (2 * scaled + ONE) / (2 * ONE as int);
    assert(2 * ONE * rounded <= 2 * scaled + ONE < 2 * ONE * rounded + 2 * ONE);
}

/// The hue byte of a color that is not gray is 255 times its angle on the color
/// wheel, rounded: red stands at zero, green at a third and blue at two thirds
/// of the circle, and between two of them the angle goes with the share of the
/// lesser channel. It is off by no more than a half, and by as little as the
/// roundings on the way leave where two bytes are equally near.
pub proof fn law_hue_is_the_angle(c: Rgb, most: u8, least: u8, at: int)
    requires
        c.r <= most && c.g <= most && c.b <= most,
        c.r >= least && c.g >= least && c.b >= least,
        c.r == most || c.g == most || c.b == most,
        c.r == least || c.g == least || c.b == least,
        least < most,
        c.r == most && c.g >= c.b ==> at == c.g - c.b,
        c.r == most && c.g < c.b ==> at == 6 * (most - least) + c.g - c.b,
        c.r < most && c.g == most ==> at == 2 * (most - least) + c.b - c.r,
        c.r < most && c.g < most ==> at == 4 * (most - least) + c.r - c.g,
    ensures
        ({
            let m = most - least;
            -6 * m - 1 <= 12 * (m * hue_of(c)) - 510 * at <= 6 * m + 1
        }),
{
    let m: int = most - least;
    assert(largest(c) == most && smallest(c) == least);
    let p = wheel_position(c) as int;
    if c.r == most {
        lemma_wheel_is_close(0, c.g, c.b, c);
    } else if c.g == most {
        lemma_wheel_is_close(2, c.b, c.r, c);
    } else {
        lemma_wheel_is_close(4, c.r, c.g, c);
    }
    lemma_hue_is_close(c);
    let degrees = nearest_single(60 * wheel_position(c), ONE as nat);
    let turn = nearest_single(degrees, (360 * ONE) as nat);
    let scaled = nearest_single(255 * turn, ONE as nat) as int;
    lemma_scale(m, 6 * scaled, 255 * p, 0x4000_0000);
    assert(m * (6 * scaled) == 6 * (m * scaled)) by (nonlinear_arith);
    assert(m * (255 * p) == 255 * (m * p)) by (nonlinear_arith);
    let hue = hue_of(c) as int;
    assert(m * (2 * (hue * ONE)) == 2 * ONE * (m * hue)) by (nonlinear_arith);
    assert(m * (2 * scaled) == 2 * (m * scaled)) by (nonlinear_arith);
    if hue < 255 {
        lemma_scale(m, 2 * (hue * ONE), 2 * scaled, ONE as int);
    } else {
        assert(m * (2 * (hue * ONE) - 2 * scaled) <= m * ONE) by (nonlinear_arith)
            requires
                m >= 0,
                2 * (hue * ONE) - 2 * scaled <= ONE,
        ;
        assert(m * (2 * (hue * ONE) - 2 * scaled) == m * (2 * (hue * ONE)) - m * (2 * scaled))
            by (nonlinear_arith);
        assert(at <= 6 * m);
    }
}

} // verus!
