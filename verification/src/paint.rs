//! What the LEDs show: the packets that bring the panel to the appearance
//! that the runtime state asks for.
use vstd::prelude::*;
use vstd::string::*;

use crate::clock::Instant;
use crate::config::{
    color_bytes, Complaint, LogoConfig, LogoIndicator, RainbowStyle, RgbColor, RgbMode, DEFAULT_BRIGHTNESS,
    DEFAULT_SPEED,
};
use crate::led::{
    breath_packet, group_packet, hue_of, law_animations_have_their_settings,
    law_each_control_has_its_bytes, law_group_packet_fits_report, logo_packet, rainbow_packet,
    rgb_to_hue, set_breath, set_knob_colors, set_logo, set_rainbow, set_slider_colors,
    set_slider_label_colors, set_wave, wave_packet, LedMode, LogoMode, Rgb,
    ANIM_RAINBOW_HORIZONTAL, ANIM_RAINBOW_VERTICAL, CMD_KNOBS, CMD_SLIDERS, CMD_SLIDER_LABELS,
};
use crate::runtime::{black, ObsRuntime, ObsState, RuntimeView};
use crate::text::{after_prefix, append_decimal, decimal, hex_byte, hex_value};

verus! {

/// The contents of a row of packets.
pub open spec fn packets(v: Seq<Vec<u8>>) -> Seq<Seq<u8>> {
    Seq::new(v.len(), |i: int| v[i]@)
}

/// A color as the LED protocol has it.
pub open spec fn rgb(c: RgbColor) -> Rgb {
    Rgb { r: c.r, g: c.g, b: c.b }
}

/// The same mode for `n` controls.
pub open spec fn all_of(mode: LedMode, n: nat) -> Seq<LedMode> {
    Seq::new(n, |i: int| mode)
}

/// The packets that give the knobs, the sliders and the labels each one mode.
pub open spec fn panel_of(knobs: LedMode, sliders: LedMode, labels: LedMode) -> Seq<Seq<u8>> {
    seq![
        group_packet(CMD_KNOBS, all_of(knobs, 5)),
        group_packet(CMD_SLIDERS, all_of(sliders, 4)),
        group_packet(CMD_SLIDER_LABELS, all_of(labels, 4)),
    ]
}

/// The packets that give knobs, sliders and labels one color. A slider strip
/// has no mode that lights it evenly, so it shows its level in that color.
pub open spec fn solid_panel(c: RgbColor) -> Seq<Seq<u8>> {
    panel_of(LedMode::Static(rgb(c)), LedMode::Gradient(rgb(c), rgb(c)), LedMode::Static(rgb(c)))
}

/// The packet that gives the logo one color.
pub open spec fn solid_logo(c: RgbColor) -> Seq<u8> {
    logo_packet(LogoMode::Static(rgb(c)))
}

/// The color of the logo: an indicator's where there is one.
pub open spec fn logo_color(indicator: Option<RgbColor>, fallback: RgbColor) -> RgbColor {
    match indicator {
        Some(c) => c,
        None => fallback,
    }
}

/// The packets for a panel of one color with the given logo.
pub open spec fn solid_look(c: RgbColor, logo: RgbColor) -> Seq<Seq<u8>> {
    solid_panel(c).push(solid_logo(logo))
}

/// The packets for an `[rgb]` mode. An override replaces the color of the
/// logo; the animations drive every LED at once and leave no logo to override.
pub open spec fn mode_look(mode: RgbMode, logo_override: Option<RgbColor>) -> Seq<Seq<u8>> {
    match mode {
        RgbMode::Solid { r, g, b } => {
            let c = RgbColor { r, g, b };
            solid_look(c, logo_color(logo_override, c))
        },
        RgbMode::Rainbow { style } => seq![
            rainbow_packet(
                match style {
                    RainbowStyle::Horizontal => ANIM_RAINBOW_HORIZONTAL,
                    RainbowStyle::Vertical => ANIM_RAINBOW_VERTICAL,
                },
                DEFAULT_BRIGHTNESS,
                DEFAULT_SPEED,
            ),
        ],
        RgbMode::Gradient { color1, color2 } => {
            let led = LedMode::Gradient(rgb(color1), rgb(color2));
            panel_of(led, led, led).push(solid_logo(logo_color(logo_override, color1)))
        },
        RgbMode::VolumeGradient { color1, color2 } => {
            let plain = LedMode::Static(rgb(color1));
            panel_of(plain, LedMode::VolumeGradient(rgb(color1), rgb(color2)), plain).push(
                solid_logo(logo_color(logo_override, color1)),
            )
        },
        RgbMode::Wave { hue, brightness, speed, reverse, bounce } => seq![
            wave_packet(hue, brightness, speed, reverse, bounce),
        ],
        RgbMode::Breath { hue, brightness, speed } => seq![breath_packet(hue, brightness, speed)],
    }
}

/// Whether a mode writes the logo on its own.
pub open spec fn independent_logo(idle_rgb: Option<RgbMode>) -> bool {
    match idle_rgb {
        None => true,
        Some(RgbMode::Solid { .. }) => true,
        Some(RgbMode::Gradient { .. }) => true,
        Some(RgbMode::VolumeGradient { .. }) => true,
        _ => false,
    }
}

/// The packets for a state of the runtime at an instant.
pub open spec fn look(s: RuntimeView, idle_rgb: Option<RgbMode>, now: Instant) -> Seq<Seq<u8>> {
    let indicator = s.indicator_color(now);
    match s.flash {
        Some(f) => solid_look(f.color_at(now), f.color_at(now)),
        None => match s.state {
            ObsState::Idle => if s.connected {
                solid_look(s.colors.idle_panel, logo_color(indicator, s.colors.idle_panel))
            } else {
                match idle_rgb {
                    Some(mode) => mode_look(mode, indicator),
                    None => solid_look(black(), logo_color(indicator, black())),
                }
            },
            ObsState::Recording => solid_look(
                s.colors.recording,
                logo_color(indicator, s.colors.recording),
            ),
            ObsState::RecordingPaused => if s.paused_use_breath {
                seq![breath_packet(hue_of(rgb(s.colors.paused)), DEFAULT_BRIGHTNESS, DEFAULT_SPEED)]
            } else {
                solid_look(s.colors.paused, logo_color(indicator, s.colors.paused))
            },
        },
    }
}

/// Whether the logo shows the indicator in a state of the runtime.
pub open spec fn indicator_shows(s: RuntimeView, idle_rgb: Option<RgbMode>) -> bool {
    &&& s.flash is None
    &&& match s.state {
        ObsState::Idle => s.connected || independent_logo(idle_rgb),
        ObsState::Recording => true,
        ObsState::RecordingPaused => !s.paused_use_breath,
    }
}

fn paint_panel(knobs: LedMode, sliders: LedMode, labels: LedMode) -> (r: Vec<Vec<u8>>)
    ensures
        packets(r@) == panel_of(knobs, sliders, labels),
{
    let k = [knobs;5];
    let s = [sliders;4];
    let l = [labels;4];
    assert(k@ =~= all_of(knobs, 5));
    assert(s@ =~= all_of(sliders, 4));
    assert(l@ =~= all_of(labels, 4));
    let mut out: Vec<Vec<u8>> = Vec::new();
    out.push(set_knob_colors(&k));
    out.push(set_slider_colors(&s));
    out.push(set_slider_label_colors(&l));
    assert(packets(out@) =~= panel_of(knobs, sliders, labels));
    out
}

fn rgb_of(c: RgbColor) -> (r: Rgb)
    ensures
        r == rgb(c),
{
    Rgb::new(c.r, c.g, c.b)
}

fn paint_panel_solid(c: RgbColor) -> (r: Vec<Vec<u8>>)
    ensures
        packets(r@) == solid_panel(c),
{
    let plain = LedMode::Static(rgb_of(c));
    paint_panel(plain, LedMode::Gradient(rgb_of(c), rgb_of(c)), plain)
}

fn paint_logo_solid(c: RgbColor) -> (r: Vec<u8>)
    ensures
        r@ == solid_logo(c),
{
    set_logo(LogoMode::Static(rgb_of(c)))
}

fn with_logo(panel: Vec<Vec<u8>>, logo: RgbColor) -> (r: Vec<Vec<u8>>)
    ensures
        packets(r@) == packets(panel@).push(solid_logo(logo)),
{
    let mut out = panel;
    out.push(paint_logo_solid(logo));
    assert(packets(out@) =~= packets(panel@).push(solid_logo(logo)));
    out
}

fn paint_solid(c: RgbColor, logo: RgbColor) -> (r: Vec<Vec<u8>>)
    ensures
        packets(r@) == solid_look(c, logo),
{
    with_logo(paint_panel_solid(c), logo)
}

fn one_packet(p: Vec<u8>) -> (r: Vec<Vec<u8>>)
    ensures
        packets(r@) == seq![p@],
{
    let mut out: Vec<Vec<u8>> = Vec::new();
    out.push(p);
    assert(packets(out@) =~= seq![p@]);
    out
}

fn logo_or(indicator: Option<RgbColor>, fallback: RgbColor) -> (r: RgbColor)
    ensures
        r == logo_color(indicator, fallback),
{
    match indicator {
        Some(c) => c,
        None => fallback,
    }
}

/// The packets that apply an `[rgb]` mode, in the order in which they are to
/// be written.
pub fn apply_rgb(mode: RgbMode, logo_override: Option<RgbColor>) -> (r: Vec<Vec<u8>>)
    ensures
        packets(r@) == mode_look(mode, logo_override),
{
    match mode {
        RgbMode::Solid { r, g, b } => {
            let c = RgbColor { r, g, b };
            paint_solid(c, logo_or(logo_override, c))
        },
        RgbMode::Rainbow { style } => {
            let rainbow_type = match style {
                RainbowStyle::Horizontal => ANIM_RAINBOW_HORIZONTAL,
                RainbowStyle::Vertical => ANIM_RAINBOW_VERTICAL,
            };
            one_packet(set_rainbow(rainbow_type, DEFAULT_BRIGHTNESS, DEFAULT_SPEED))
        },
        RgbMode::Gradient { color1, color2 } => {
            let led = LedMode::Gradient(rgb_of(color1), rgb_of(color2));
            with_logo(paint_panel(led, led, led), logo_or(logo_override, color1))
        },
        RgbMode::VolumeGradient { color1, color2 } => {
            let plain = LedMode::Static(rgb_of(color1));
            let level = LedMode::VolumeGradient(rgb_of(color1), rgb_of(color2));
            with_logo(paint_panel(plain, level, plain), logo_or(logo_override, color1))
        },
        RgbMode::Wave { hue, brightness, speed, reverse, bounce } => one_packet(
            set_wave(hue, brightness, speed, reverse, bounce),
        ),
        RgbMode::Breath { hue, brightness, speed } => one_packet(
            set_breath(hue, brightness, speed),
        ),
    }
}

/// The packets for the runtime state at an instant, in the order in which
/// they are to be written.
///
/// The logo shows the color of a flash, else the configured indicator where
/// the mode writes the logo on its own, else the color of the panel.
pub fn paint_leds_at(obs: &ObsRuntime, idle_rgb: Option<RgbMode>, now: Instant) -> (r: Vec<Vec<u8>>)
    ensures
        packets(r@) == look(obs@, idle_rgb, now),
{
    let colors = obs.colors();
    if let Some(f) = obs.flash() {
        let c = f.current_color_at(now);
        return paint_solid(c, c);
    }
    let indicator = obs.logo_indicator_color_at(now);
    match obs.state() {
        ObsState::Idle => if obs.connected() {
            paint_solid(colors.idle_panel, logo_or(indicator, colors.idle_panel))
        } else {
            match idle_rgb {
                Some(mode) => apply_rgb(mode, indicator),
                None => {
                    let off = RgbColor { r: 0, g: 0, b: 0 };
                    paint_solid(off, logo_or(indicator, off))
                },
            }
        },
        ObsState::Recording => paint_solid(colors.recording, logo_or(indicator, colors.recording)),
        ObsState::RecordingPaused => if obs.paused_use_breath() {
            let hue = rgb_to_hue(rgb_of(colors.paused));
            one_packet(set_breath(hue, DEFAULT_BRIGHTNESS, DEFAULT_SPEED))
        } else {
            paint_solid(colors.paused, logo_or(indicator, colors.paused))
        },
    }
}

/// The packets for the runtime state right now.
pub fn paint_leds(obs: &ObsRuntime, idle_rgb: Option<RgbMode>) -> (r: Vec<Vec<u8>>)
    ensures
        exists|now: Instant| now.is_reading() && packets(r@) == #[trigger] look(obs@, idle_rgb, now),
{
    let now = obs.now();
    paint_leds_at(obs, idle_rgb, now)
}

/// Whether an `[rgb]` mode writes the logo on its own. The animations drive
/// every LED in lockstep.
pub fn logo_is_independent(idle_rgb: Option<RgbMode>) -> (r: bool)
    ensures
        r == independent_logo(idle_rgb),
{
    match idle_rgb {
        None => true,
        Some(mode) => match mode {
            RgbMode::Solid { .. }
            | RgbMode::Gradient { .. }
            | RgbMode::VolumeGradient { .. } => true,
            RgbMode::Rainbow { .. } | RgbMode::Wave { .. } | RgbMode::Breath { .. } => false,
        },
    }
}

/// Whether a repaint would show the logo indicator.
pub fn logo_indicator_visible(obs: &ObsRuntime, idle_rgb: Option<RgbMode>) -> (r: bool)
    ensures
        r == indicator_shows(obs@, idle_rgb),
{
    if obs.flash().is_some() {
        return false;
    }
    match obs.state() {
        ObsState::Idle => obs.connected() || logo_is_independent(idle_rgb),
        ObsState::Recording => true,
        ObsState::RecordingPaused => !obs.paused_use_breath(),
    }
}

// ---------------------------------------------------------------------------
// The description of a mode
// ---------------------------------------------------------------------------

/// A hexadecimal digit, a capital where it is a letter.
pub open spec fn hex_char(d: int) -> char {
    if d < 10 {
        (d + 48) as char
    } else {
        (d + 55) as char
    }
}

/// A byte as two hexadecimal digits.
pub open spec fn hex2(b: u8) -> Seq<char> {
    seq![hex_char(b as int / 16), hex_char(b as int % 16)]
}

/// A color in hexadecimal notation.
pub open spec fn hex_color(r: u8, g: u8, b: u8) -> Seq<char> {
    "#"@ + hex2(r) + hex2(g) + hex2(b)
}

/// The description of an `[rgb]` mode.
pub open spec fn description(mode: RgbMode) -> Seq<char> {
    match mode {
        RgbMode::Solid { r, g, b } => "RGB mode: solid ("@ + hex_color(r, g, b) + ")"@,
        RgbMode::Rainbow { style } => match style {
            RainbowStyle::Horizontal => "RGB mode: rainbow (horizontal)"@,
            RainbowStyle::Vertical => "RGB mode: rainbow (vertical)"@,
        },
        RgbMode::Gradient { color1, color2 } => "RGB mode: gradient ("@ + hex_color(
            color1.r,
            color1.g,
            color1.b,
        ) + " -> "@ + hex_color(color2.r, color2.g, color2.b) + ")"@,
        RgbMode::VolumeGradient { color1, color2 } => "RGB mode: volume-gradient ("@ + hex_color(
            color1.r,
            color1.g,
            color1.b,
        ) + " -> "@ + hex_color(color2.r, color2.g, color2.b) + ")"@,
        RgbMode::Wave { hue, .. } => "RGB mode: wave (hue="@ + decimal(hue as nat) + ")"@,
        RgbMode::Breath { hue, .. } => "RGB mode: breath (hue="@ + decimal(hue as nat) + ")"@,
    }
}

fn append_hex_digit(s: &mut String, d: u8)
    requires
        d < 16,
    ensures
        final(s)@ == old(s)@.push(hex_char(d as int)),
{
    let digits = "0123456789ABCDEF";
    proof {
        reveal_strlit("0123456789ABCDEF");
    }
    let digit = digits.substring_char(d as usize, d as usize + 1);
    assert(digit@ =~= seq![hex_char(d as int)]);
    s.append(digit);
    assert(s@ =~= old(s)@.push(hex_char(d as int)));
}

fn append_hex2(s: &mut String, b: u8)
    ensures
        final(s)@ == old(s)@ + hex2(b),
{
    append_hex_digit(s, b / 16);
    append_hex_digit(s, b % 16);
    assert(s@ =~= old(s)@ + hex2(b));
}

fn append_color(s: &mut String, r: u8, g: u8, b: u8)
    ensures
        final(s)@ == old(s)@ + hex_color(r, g, b),
{
    s.append("#");
    append_hex2(s, r);
    append_hex2(s, g);
    append_hex2(s, b);
    assert(s@ =~= old(s)@ + hex_color(r, g, b));
}

fn describe_two(intro: &str, color1: RgbColor, color2: RgbColor) -> (s: String)
    ensures
        s@ == intro@ + hex_color(color1.r, color1.g, color1.b) + " -> "@ + hex_color(
            color2.r,
            color2.g,
            color2.b,
        ) + ")"@,
{
    let mut s = intro.to_owned();
    append_color(&mut s, color1.r, color1.g, color1.b);
    s.append(" -> ");
    append_color(&mut s, color2.r, color2.g, color2.b);
    s.append(")");
    s
}

fn describe_hue(intro: &str, hue: u8) -> (s: String)
    ensures
        s@ == intro@ + decimal(hue as nat) + ")"@,
{
    let mut s = intro.to_owned();
    append_decimal(&mut s, hue as u64);
    s.append(")");
    s
}

/// The description of an `[rgb]` mode for the log.
pub fn log_rgb_mode(mode: RgbMode) -> (line: String)
    ensures
        line@ == description(mode),
{
    match mode {
        RgbMode::Solid { r, g, b } => {
            let mut s = "RGB mode: solid (".to_owned();
            append_color(&mut s, r, g, b);
            s.append(")");
            s
        },
        RgbMode::Rainbow { style } => match style {
            RainbowStyle::Horizontal => "RGB mode: rainbow (horizontal)".to_owned(),
            RainbowStyle::Vertical => "RGB mode: rainbow (vertical)".to_owned(),
        },
        RgbMode::Gradient { color1, color2 } => describe_two(
            "RGB mode: gradient (",
            color1,
            color2,
        ),
        RgbMode::VolumeGradient { color1, color2 } => describe_two(
            "RGB mode: volume-gradient (",
            color1,
            color2,
        ),
        RgbMode::Wave { hue, .. } => describe_hue("RGB mode: wave (hue=", hue),
        RgbMode::Breath { hue, .. } => describe_hue("RGB mode: breath (hue=", hue),
    }
}

// ---------------------------------------------------------------------------
// Laws
// ---------------------------------------------------------------------------

/// A color in the notation of the log reads back as the same color.
pub proof fn law_color_notation_reads_back(r: u8, g: u8, b: u8)
    ensures
        color_bytes(hex_color(r, g, b)) == Ok::<(u8, u8, u8), Complaint>((r, g, b)),
{
    reveal_strlit("#");
    let s = hex_color(r, g, b);
    let d = hex2(r) + hex2(g) + hex2(b);
    assert(s.subrange(0, 1) =~= "#"@);
    assert(s.skip(1) =~= d);
    assert(after_prefix(s, "#"@) == Some(d));
    lemma_hex2(r);
    lemma_hex2(g);
    lemma_hex2(b);
    assert(d[0] == hex2(r)[0] && d[1] == hex2(r)[1] && d[2] == hex2(g)[0] && d[3] == hex2(g)[1]
        && d[4] == hex2(b)[0] && d[5] == hex2(b)[1]);
}

proof fn lemma_hex2(b: u8)
    ensures
        hex_byte(hex2(b)[0], hex2(b)[1]) == Some(b),
        hex2(b)[0] <= '\u{7f}',
        hex2(b)[1] <= '\u{7f}',
{
    lemma_hex_char(b as int / 16);
    lemma_hex_char(b as int % 16);
}

proof fn lemma_hex_char(d: int)
    requires
        0 <= d < 16,
    ensures
        hex_value(hex_char(d)) == Some(d as u8),
        hex_char(d) <= '\u{7f}',
{
}

/// While a flash is active nothing else is shown: the whole panel and the
/// logo have its color.
pub proof fn law_flash_takes_the_whole_panel(
    s: RuntimeView,
    idle_rgb: Option<RgbMode>,
    now: Instant,
)
    requires
        s.flash is Some,
    ensures
        look(s, idle_rgb, now) == solid_look(
            s.flash->Some_0.color_at(now),
            s.flash->Some_0.color_at(now),
        ),
{
}

/// Where the indicator is visible and has a color, the logo is written last
/// and has that color; where it is not visible, it makes no difference to any
/// packet.
pub proof fn law_indicator_visibility_matches_paint(
    s: RuntimeView,
    logo_cfg: LogoConfig,
    idle_rgb: Option<RgbMode>,
    now: Instant,
)
    ensures
        indicator_shows(s, idle_rgb) ==> (s.indicator_color(now) matches Some(c) ==> look(
            s,
            idle_rgb,
            now,
        ).len() == 4 && look(s, idle_rgb, now).last() == solid_logo(c)),
        !indicator_shows(s, idle_rgb) ==> look(s, idle_rgb, now) == look(
            (RuntimeView { logo_cfg, ..s }),
            idle_rgb,
            now,
        ),
{
}

/// Without an indicator the logo blends in: it gets the color that the panel
/// has while OBS is connected and no animation runs.
pub proof fn law_logo_without_indicator_matches_panel(
    s: RuntimeView,
    idle_rgb: Option<RgbMode>,
    now: Instant,
)
    requires
        s.logo_cfg.indicator == LogoIndicator::Off,
        s.flash is None,
        s.connected,
        !(s.state == ObsState::RecordingPaused && s.paused_use_breath),
    ensures
        ({
            let c = match s.state {
                ObsState::Idle => s.colors.idle_panel,
                ObsState::Recording => s.colors.recording,
                ObsState::RecordingPaused => s.colors.paused,
            };
            look(s, idle_rgb, now) == solid_look(c, c)
        }),
{
}

/// While OBS is idle and not connected, the panel looks as if OBS did not
/// exist: the `[rgb]` mode, or all LEDs off.
pub proof fn law_disconnected_panel_follows_rgb(
    s: RuntimeView,
    idle_rgb: Option<RgbMode>,
    now: Instant,
)
    requires
        s.flash is None,
        s.state == ObsState::Idle,
        !s.connected,
        s.logo_cfg.indicator != LogoIndicator::Mic,
    ensures
        look(s, idle_rgb, now) == match idle_rgb {
            Some(mode) => mode_look(mode, None),
            None => solid_look(black(), black()),
        },
{
}

/// Every packet fits into a report, whatever is shown.
pub proof fn law_every_packet_fits_report(
    s: RuntimeView,
    idle_rgb: Option<RgbMode>,
    now: Instant,
    i: int,
)
    requires
        0 <= i < look(s, idle_rgb, now).len(),
    ensures
        look(s, idle_rgb, now)[i].len() <= 64,
{
    assert forall|command: u8, mode: LedMode, n: nat| n <= 8 implies (#[trigger] group_packet(
        command,
        all_of(mode, n),
    )).len() <= 64 by {
        law_group_packet_fits_report(command, all_of(mode, n));
    }
}

/// Whether a packet gives `n` controls, each in turn, the same seven bytes.
pub open spec fn lights(packet: Seq<u8>, command: u8, n: int, led: Seq<u8>) -> bool {
    &&& packet.len() == 2 + 7 * n
    &&& packet[0] == 5
    &&& packet[1] == command
    &&& forall|j: int| 2 <= j < packet.len() ==> #[trigger] packet[j] == led[(j - 2) % 7]
}

/// Whether packets give the five knobs, the four sliders, the four labels and
/// the logo these bytes.
pub open spec fn lights_all(
    p: Seq<Seq<u8>>,
    knobs: Seq<u8>,
    sliders: Seq<u8>,
    labels: Seq<u8>,
    logo: RgbColor,
) -> bool {
    &&& p.len() == 4
    &&& lights(p[0], 2, 5, knobs)
    &&& lights(p[1], 0, 4, sliders)
    &&& lights(p[2], 1, 4, labels)
    &&& p[3] == seq![5u8, 3, 1, logo.r, logo.g, logo.b]
}

proof fn lemma_lights(command: u8, mode: LedMode, n: nat)
    ensures
        lights(group_packet(command, all_of(mode, n)), command, n as int, mode.bytes()),
{
    let modes = all_of(mode, n);
    let p = group_packet(command, modes);
    if n > 0 {
        law_each_control_has_its_bytes(command, modes, 0, 0);
    } else {
        assert(p =~= seq![5u8, command]);
    }
    assert forall|j: int| 2 <= j < p.len() implies #[trigger] p[j] == mode.bytes()[(j - 2) % 7] by {
        let i = (j - 2) / 7;
        let k = (j - 2) % 7;
        law_each_control_has_its_bytes(command, modes, i, k);
    }
}

proof fn lemma_lights_all(knobs: LedMode, sliders: LedMode, labels: LedMode, logo: RgbColor)
    ensures
        lights_all(
            panel_of(knobs, sliders, labels).push(solid_logo(logo)),
            knobs.bytes(),
            sliders.bytes(),
            labels.bytes(),
            logo,
        ),
{
    lemma_lights(CMD_KNOBS, knobs, 5);
    lemma_lights(CMD_SLIDERS, sliders, 4);
    lemma_lights(CMD_SLIDER_LABELS, labels, 4);
    law_animations_have_their_settings(rgb(logo), 0, 0, 0, false, false, 0);
}

/// A panel of one color: every knob and label is lit in it, every slider has a
/// gradient from it to it, and the logo has its own.
pub proof fn law_solid_panels_have_one_color(c: RgbColor, logo: RgbColor)
    ensures
        ({
            let plain = seq![1u8, c.r, c.g, c.b, 0, 0, 0];
            let level = seq![2u8, c.r, c.g, c.b, c.r, c.g, c.b];
            lights_all(solid_look(c, logo), plain, level, plain, logo)
        }),
{
    lemma_lights_all(
        LedMode::Static(rgb(c)),
        LedMode::Gradient(rgb(c), rgb(c)),
        LedMode::Static(rgb(c)),
        logo,
    );
    assert(LedMode::Static(rgb(c)).bytes() =~= seq![1u8, c.r, c.g, c.b, 0, 0, 0]);
    assert(LedMode::Gradient(rgb(c), rgb(c)).bytes() =~= seq![2u8, c.r, c.g, c.b, c.r, c.g, c.b]);
}

/// Each `[rgb]` mode lights the panel as it says. A solid mode has its color
/// everywhere. A gradient runs from its first color to its second on every
/// knob, slider and label. A volume gradient does so on the sliders, by their
/// level, and has its first color elsewhere. The logo has the first color
/// unless it is overridden.
pub proof fn law_modes_light_the_panel(
    c: RgbColor,
    color1: RgbColor,
    color2: RgbColor,
    logo: Option<RgbColor>,
)
    ensures
        ({
            let plain = seq![1u8, c.r, c.g, c.b, 0, 0, 0];
            let even = seq![2u8, c.r, c.g, c.b, c.r, c.g, c.b];
            let own = match logo {
                Some(l) => l,
                None => c,
            };
            lights_all(
                mode_look(RgbMode::Solid { r: c.r, g: c.g, b: c.b }, logo),
                plain,
                even,
                plain,
                own,
            )
        }),
        ({
            let both = seq![2u8, color1.r, color1.g, color1.b, color2.r, color2.g, color2.b];
            let own = match logo {
                Some(l) => l,
                None => color1,
            };
            lights_all(
                mode_look(RgbMode::Gradient { color1, color2 }, logo),
                both,
                both,
                both,
                own,
            )
        }),
        ({
            let first = seq![1u8, color1.r, color1.g, color1.b, 0, 0, 0];
            let level = seq![3u8, color1.r, color1.g, color1.b, color2.r, color2.g, color2.b];
            let own = match logo {
                Some(l) => l,
                None => color1,
            };
            lights_all(
                mode_look(RgbMode::VolumeGradient { color1, color2 }, logo),
                first,
                level,
                first,
                own,
            )
        }),
{
    law_solid_panels_have_one_color(
        c,
        match logo {
            Some(l) => l,
            None => c,
        },
    );
    assert((RgbColor { r: c.r, g: c.g, b: c.b }) == c);
    let own = match logo {
        Some(l) => l,
        None => color1,
    };
    let a = rgb(color1);
    let b = rgb(color2);
    lemma_lights_all(LedMode::Gradient(a, b), LedMode::Gradient(a, b), LedMode::Gradient(a, b), own);
    lemma_lights_all(LedMode::Static(a), LedMode::VolumeGradient(a, b), LedMode::Static(a), own);
    assert(LedMode::Static(a).bytes() =~= seq![1u8, color1.r, color1.g, color1.b, 0, 0, 0]);
    assert(LedMode::Gradient(a, b).bytes() =~= seq![
        2u8,
        color1.r,
        color1.g,
        color1.b,
        color2.r,
        color2.g,
        color2.b,
    ]);
    assert(LedMode::VolumeGradient(a, b).bytes() =~= seq![
        3u8,
        color1.r,
        color1.g,
        color1.b,
        color2.r,
        color2.g,
        color2.b,
    ]);
}

/// The animations drive the whole panel with one packet that carries their
/// settings, and no logo of its own.
pub proof fn law_animations_drive_the_whole_panel(
    hue: u8,
    brightness: u8,
    speed: u8,
    reverse: bool,
    bounce: bool,
    logo: Option<RgbColor>,
)
    ensures
        mode_look(RgbMode::Rainbow { style: RainbowStyle::Horizontal }, logo) == seq![
            seq![5u8, 4, 1, 0, 0xFF, 200, 64, 0],
        ],
        mode_look(RgbMode::Rainbow { style: RainbowStyle::Vertical }, logo) == seq![
            seq![5u8, 4, 2, 0, 0xFF, 200, 64, 0],
        ],
        mode_look(RgbMode::Wave { hue, brightness, speed, reverse, bounce }, logo) == seq![
            seq![
                5u8,
                4,
                3,
                hue,
                0xFF,
                brightness,
                speed,
                if reverse {
                    1
                } else {
                    0
                },
                if bounce {
                    1
                } else {
                    0
                },
            ],
        ],
        mode_look(RgbMode::Breath { hue, brightness, speed }, logo) == seq![
            seq![5u8, 4, 4, hue, 0xFF, brightness, speed],
        ],
{
    law_animations_have_their_settings(
        Rgb { r: 0, g: 0, b: 0 },
        hue,
        brightness,
        speed,
        reverse,
        bounce,
        1,
    );
    law_animations_have_their_settings(Rgb { r: 0, g: 0, b: 0 }, 0, 200, 64, false, false, 1);
    law_animations_have_their_settings(Rgb { r: 0, g: 0, b: 0 }, 0, 200, 64, false, false, 2);
}

/// The panel shows what OBS does: while no flash is on, it has the color for a
/// recording, for a pause, or for an idle connection, and the logo that of the
/// indicator where there is one. A pause may breathe instead, in the hue of its
/// color. A flash takes over everything. Without a connection the `[rgb]` mode
/// is shown, with the indicator on the logo, or nothing but the indicator.
pub proof fn law_panel_shows_what_obs_does(s: RuntimeView, idle_rgb: Option<RgbMode>, now: Instant)
    ensures
        ({
            let p = look(s, idle_rgb, now);
            let one = |c: RgbColor, logo: RgbColor|
                {
                    let plain = seq![1u8, c.r, c.g, c.b, 0, 0, 0];
                    let level = seq![2u8, c.r, c.g, c.b, c.r, c.g, c.b];
                    lights_all(p, plain, level, plain, logo)
                };
            let or = |c: RgbColor| match s.indicator_color(now) {
                Some(i) => i,
                None => c,
            };
            let dark = RgbColor { r: 0, g: 0, b: 0 };
            match s.flash {
                Some(f) => one(f.color_at(now), f.color_at(now)),
                None => match s.state {
                    ObsState::Recording => one(s.colors.recording, or(s.colors.recording)),
                    ObsState::RecordingPaused => if s.paused_use_breath {
                        p == seq![seq![5u8, 4, 4, hue_of(rgb(s.colors.paused)), 0xFF, 200, 64]]
                    } else {
                        one(s.colors.paused, or(s.colors.paused))
                    },
                    ObsState::Idle => if s.connected {
                        one(s.colors.idle_panel, or(s.colors.idle_panel))
                    } else {
                        match idle_rgb {
                            Some(mode) => p == mode_look(mode, s.indicator_color(now)),
                            None => one(dark, or(dark)),
                        }
                    },
                },
            }
        }),
{
    let or = |c: RgbColor| match s.indicator_color(now) {
        Some(i) => i,
        None => c,
    };
    let dark = RgbColor { r: 0, g: 0, b: 0 };
    law_solid_panels_have_one_color(s.colors.recording, or(s.colors.recording));
    law_solid_panels_have_one_color(s.colors.paused, or(s.colors.paused));
    law_solid_panels_have_one_color(s.colors.idle_panel, or(s.colors.idle_panel));
    law_solid_panels_have_one_color(dark, or(dark));
    if let Some(f) = s.flash {
        law_solid_panels_have_one_color(f.color_at(now), f.color_at(now));
    }
    law_animations_have_their_settings(
        rgb(dark),
        hue_of(rgb(s.colors.paused)),
        200,
        64,
        false,
        false,
        0,
    );
}

/// The colors of a mode are described digit by digit: the two digits of a byte
/// have its value, in base 16.
pub proof fn law_descriptions_have_the_colors(r: u8, g: u8, b: u8, c: RgbColor, d: RgbColor, hue: u8)
    ensures
        hex_color(r, g, b).len() == 7,
        hex_color(r, g, b)[0] == '#',
        hex_value(hex_color(r, g, b)[1]) == Some((r / 16) as u8),
        hex_value(hex_color(r, g, b)[2]) == Some((r % 16) as u8),
        hex_value(hex_color(r, g, b)[3]) == Some((g / 16) as u8),
        hex_value(hex_color(r, g, b)[4]) == Some((g % 16) as u8),
        hex_value(hex_color(r, g, b)[5]) == Some((b / 16) as u8),
        hex_value(hex_color(r, g, b)[6]) == Some((b % 16) as u8),
        description(RgbMode::Solid { r, g, b }) == "RGB mode: solid ("@ + hex_color(r, g, b) + ")"@,
        description(RgbMode::Gradient { color1: c, color2: d }) == "RGB mode: gradient ("@
            + hex_color(c.r, c.g, c.b) + " -> "@ + hex_color(d.r, d.g, d.b) + ")"@,
        description(RgbMode::VolumeGradient { color1: c, color2: d })
            == "RGB mode: volume-gradient ("@ + hex_color(c.r, c.g, c.b) + " -> "@ + hex_color(
            d.r,
            d.g,
            d.b,
        ) + ")"@,
        description(RgbMode::Breath { hue, brightness: r, speed: g }) == "RGB mode: breath (hue="@
            + decimal(hue as nat) + ")"@,
        description(
            RgbMode::Wave { hue, brightness: r, speed: g, reverse: true, bounce: true },
        ) == "RGB mode: wave (hue="@ + decimal(hue as nat) + ")"@,
{
    reveal_strlit("#");
    lemma_hex_char(r as int / 16);
    lemma_hex_char(r as int % 16);
    lemma_hex_char(g as int / 16);
    lemma_hex_char(g as int % 16);
    lemma_hex_char(b as int / 16);
    lemma_hex_char(b as int % 16);
}

/// A color is written as a hash sign and six digits, with capital letters.
pub proof fn law_color_notation_has_capitals(r: u8, g: u8, b: u8)
    ensures
        hex_color(r, g, b).len() == 7,
        hex_color(r, g, b)[0] == '#',
        forall|i: int|
            1 <= i < 7 ==> {
                let c = #[trigger] hex_color(r, g, b)[i];
                '0' <= c && c <= '9' || 'A' <= c && c <= 'F'
            },
{
    reveal_strlit("#");
}

/// A row of packets is read packet by packet, in its order.
pub proof fn law_packets_keep_their_order(v: Seq<Vec<u8>>)
    ensures
        packets(v).len() == v.len(),
        forall|i: int| 0 <= i < v.len() ==> #[trigger] packets(v)[i] == v[i]@,
{
}

/// A rainbow is described by its direction, and a wave by its hue, whatever
/// else it has.
pub proof fn law_animations_are_described(
    hue: u8,
    brightness: u8,
    speed: u8,
    reverse: bool,
    bounce: bool,
)
    ensures
        description(RgbMode::Rainbow { style: RainbowStyle::Horizontal })
            == "RGB mode: rainbow (horizontal)"@,
        description(RgbMode::Rainbow { style: RainbowStyle::Vertical })
            == "RGB mode: rainbow (vertical)"@,
        description(RgbMode::Wave { hue, brightness, speed, reverse, bounce })
            == "RGB mode: wave (hue="@ + decimal(hue as nat) + ")"@,
{
}

} // verus!
