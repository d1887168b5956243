//! What the keys of the configuration file mean: which setting each of them
//! makes, and what holds where it is absent.
use vstd::prelude::*;

use crate::config::{
    action_of, apps_of, color_bytes, color_of, config_of, config_of_text, control_of, draft_after,
    effective_password_of, joined, logo_of, obs_colors_of, obs_of, opt_text, rgb_of, target_of,
    text_at, texts, with_control, with_section, ActionView, AppTargetView, Complaint, ConfigView,
    ControlId, Draft, LogoConfig, LogoIndicator, ObsColors, ObsConfigView, RainbowStyle, RgbColor,
    RgbMode,
};
use crate::settings::{lookup, toml_document, Tree};
use crate::text::{
    after_prefix, byte_of, decimal, hex_byte, law_prefix_and_rest_are_the_text, signed_decimal,
};

verus! {

// ---------------------------------------------------------------------------
// Tables
// ---------------------------------------------------------------------------

/// Whether no key of a table occurs twice.
pub open spec fn keys_differ(t: Seq<(Seq<char>, Tree)>) -> bool {
    forall|i: int, j: int|
        0 <= i < j < t.len() ==> (#[trigger] t[i]).0 != (#[trigger] t[j]).0
}

/// Whether a table has a key.
pub open spec fn has_key(t: Seq<(Seq<char>, Tree)>, key: Seq<char>) -> bool {
    exists|i: int| 0 <= i < t.len() && (#[trigger] t[i]).0 == key
}

/// A key that a table has leads to the value beside it, and a key that it does
/// not have leads to nothing.
pub proof fn law_keys_lead_to_their_values(t: Seq<(Seq<char>, Tree)>, key: Seq<char>)
    requires
        keys_differ(t),
    ensures
        forall|v: Tree| #[trigger] t.contains((key, v)) <==> lookup(t, key) == Some(v),
        lookup(t, key) is None <==> !has_key(t, key),
    decreases t.len(),
{
    if t.len() > 0 {
        let rest = t.drop_first();
        assert forall|i: int, j: int| 0 <= i < j < rest.len() implies (#[trigger] rest[i]).0 != (
        #[trigger] rest[j]).0 by {
            assert(rest[i] == t[i + 1] && rest[j] == t[j + 1]);
        }
        law_keys_lead_to_their_values(rest, key);
        assert forall|v: Tree| #[trigger] t.contains((key, v)) <==> lookup(t, key) == Some(v) by {
            if t.contains((key, v)) {
                let i = choose|i: int| 0 <= i < t.len() && t[i] == (key, v);
                if i > 0 {
                    assert(rest[i - 1] == (key, v));
                    assert(rest.contains((key, v)));
                    assert(t[0].0 != t[i].0);
                }
            }
            if lookup(t, key) == Some(v) {
                if t[0].0 == key {
                    assert(t[0] == (key, v));
                } else {
                    assert(rest.contains((key, v)));
                    let i = choose|i: int| 0 <= i < rest.len() && rest[i] == (key, v);
                    assert(t[i + 1] == (key, v));
                }
            }
        }
        if has_key(t, key) {
            let i = choose|i: int| 0 <= i < t.len() && (#[trigger] t[i]).0 == key;
            if i > 0 {
                assert(rest[i - 1].0 == key);
            }
        }
        if has_key(rest, key) {
            let i = choose|i: int| 0 <= i < rest.len() && (#[trigger] rest[i]).0 == key;
            assert(t[i + 1].0 == key);
        }
        if t[0].0 == key {
            assert(has_key(t, key));
        }
    }
}

// ---------------------------------------------------------------------------
// Colors
// ---------------------------------------------------------------------------

/// The value of a hexadecimal digit, negative where it is none.
pub open spec fn digit_worth(c: char) -> int {
    let u = c as int;
    if 48 <= u <= 57 {
        u - 48
    } else if 65 <= u <= 70 {
        u - 55
    } else if 97 <= u <= 102 {
        u - 87
    } else {
        -1
    }
}

/// The value of two digits, negative where they are none. A plus sign may
/// stand in place of the first.
pub open spec fn pair_worth(a: char, b: char) -> int {
    if digit_worth(b) < 0 {
        -1
    } else if a == '+' {
        digit_worth(b)
    } else if digit_worth(a) < 0 {
        -1
    } else {
        16 * digit_worth(a) + digit_worth(b)
    }
}

/// Whether a text is the notation of a color: six digits, after a number sign
/// or not, the first two for red, the next for green and the last for blue.
pub open spec fn denotes(s: Seq<char>, c: RgbColor) -> bool {
    let d = if s.len() > 0 && s[0] == '#' {
        s.skip(1)
    } else {
        s
    };
    &&& d.len() == 6
    &&& pair_worth(d[0], d[1]) == c.r
    &&& pair_worth(d[2], d[3]) == c.g
    &&& pair_worth(d[4], d[5]) == c.b
}

proof fn lemma_pair(a: char, b: char)
    ensures
        match hex_byte(a, b) {
            Some(x) => pair_worth(a, b) == x && a as int <= 0x7f && b as int <= 0x7f,
            None => pair_worth(a, b) < 0,
        },
{
}

/// A text is read as a color exactly where it denotes that color.
pub proof fn law_colors_are_read_digit_by_digit(s: Seq<char>, c: RgbColor)
    ensures
        color_bytes(s) == Ok::<(u8, u8, u8), Complaint>((c.r, c.g, c.b)) <==> denotes(s, c),
        color_of(s) == Ok::<RgbColor, Complaint>(c) <==> denotes(s, c),
{
    reveal_strlit("#");
    if s.len() > 0 && s[0] == '#' {
        assert(s =~= "#"@ + s.skip(1));
        law_prefix_and_rest_are_the_text(s, "#"@, s.skip(1));
    } else if let Some(rest) = after_prefix(s, "#"@) {
        law_prefix_and_rest_are_the_text(s, "#"@, rest);
        assert(s[0] == "#"@[0]);
    }
    let d = if s.len() > 0 && s[0] == '#' {
        s.skip(1)
    } else {
        s
    };
    if d.len() == 6 {
        lemma_pair(d[0], d[1]);
        lemma_pair(d[2], d[3]);
        lemma_pair(d[4], d[5]);
    }
}

/// Whether a text is the notation of some color.
pub open spec fn is_color(s: Seq<char>) -> bool {
    exists|c: RgbColor| denotes(s, c)
}

/// Whether a color is the one that a table has under a key, or the default
/// where it has none.
pub open spec fn color_by_key(
    t: Seq<(Seq<char>, Tree)>,
    key: Seq<char>,
    default: RgbColor,
    c: RgbColor,
) -> bool {
    &&& forall|v: Tree| #[trigger]
        t.contains((key, v)) ==> v is Text && denotes(v->Text_0, c)
    &&& !has_key(t, key) ==> c == default
}

/// Whether what a table has under a key can be read as a color.
pub open spec fn color_fits(t: Seq<(Seq<char>, Tree)>, key: Seq<char>) -> bool {
    forall|v: Tree| #[trigger] t.contains((key, v)) ==> v is Text && is_color(v->Text_0)
}

proof fn lemma_color_at(t: Seq<(Seq<char>, Tree)>, key: Seq<char>, default: RgbColor, intro: Seq<char>)
    requires
        keys_differ(t),
    ensures
        crate::config::color_at(t, key, default, intro) is Ok <==> color_fits(t, key),
        crate::config::color_at(t, key, default, intro) matches Ok(c) ==> color_by_key(
            t,
            key,
            default,
            c,
        ),
{
    law_keys_lead_to_their_values(t, key);
    if let Some(v) = lookup(t, key) {
        assert(t.contains((key, v)));
        if let Tree::Text(s) = v {
            if let Ok(c) = color_of(s) {
                law_colors_are_read_digit_by_digit(s, c);
                assert(is_color(s));
            }
            if is_color(s) {
                let c = choose|c: RgbColor| denotes(s, c);
                law_colors_are_read_digit_by_digit(s, c);
            }
        }
    }
}

/// Each key of `[obs.colors]` sets the color that it names and no other, and a
/// key that is absent leaves the default: a dim red for a recording, amber for
/// a pause, green for success, magenta for failure, half a second for a flash
/// and a dark gray for an idle panel.
pub proof fn law_obs_colors_are_set_by_key(t: Seq<(Seq<char>, Tree)>, c: ObsColors)
    requires
        keys_differ(t),
        obs_colors_of(t) == Ok::<ObsColors, Complaint>(c),
    ensures
        color_by_key(t, "recording"@, RgbColor { r: 0x50, g: 0, b: 0 }, c.recording),
        color_by_key(t, "recording_paused"@, RgbColor { r: 0xFF, g: 0xC0, b: 0 }, c.paused),
        color_by_key(t, "success_flash"@, RgbColor { r: 0, g: 0xFF, b: 0 }, c.success_flash),
        color_by_key(t, "error_flash"@, RgbColor { r: 0xFF, g: 0, b: 0xFF }, c.error_flash),
        color_by_key(t, "idle_panel"@, RgbColor { r: 0x20, g: 0x20, b: 0x20 }, c.idle_panel),
        forall|v: Tree| #[trigger]
            t.contains(("flash_duration_ms"@, v)) ==> v is Integer && v->Integer_0
                == c.flash_duration_ms,
        !has_key(t, "flash_duration_ms"@) ==> c.flash_duration_ms == 500,
{
    let d = crate::config::default_obs_colors();
    let intro = "[obs.colors] \""@;
    lemma_color_at(t, "recording"@, d.recording, intro);
    lemma_color_at(t, "recording_paused"@, d.paused, intro);
    lemma_color_at(t, "success_flash"@, d.success_flash, intro);
    lemma_color_at(t, "error_flash"@, d.error_flash, intro);
    lemma_color_at(t, "idle_panel"@, d.idle_panel, intro);
    law_keys_lead_to_their_values(t, "flash_duration_ms"@);
}

/// The `[obs.colors]` table is accepted exactly where each color in it is one
/// and the duration is not negative.
pub proof fn law_obs_colors_are_accepted(t: Seq<(Seq<char>, Tree)>)
    requires
        keys_differ(t),
    ensures
        obs_colors_of(t) is Ok <==> {
            &&& color_fits(t, "recording"@)
            &&& color_fits(t, "recording_paused"@)
            &&& color_fits(t, "success_flash"@)
            &&& color_fits(t, "error_flash"@)
            &&& color_fits(t, "idle_panel"@)
            &&& forall|v: Tree| #[trigger]
                t.contains(("flash_duration_ms"@, v)) ==> v is Integer && v->Integer_0 >= 0
        },
{
    let d = crate::config::default_obs_colors();
    let intro = "[obs.colors] \""@;
    lemma_color_at(t, "recording"@, d.recording, intro);
    lemma_color_at(t, "recording_paused"@, d.paused, intro);
    lemma_color_at(t, "success_flash"@, d.success_flash, intro);
    lemma_color_at(t, "error_flash"@, d.error_flash, intro);
    lemma_color_at(t, "idle_panel"@, d.idle_panel, intro);
    law_keys_lead_to_their_values(t, "flash_duration_ms"@);
    if let Some(v) = lookup(t, "flash_duration_ms"@) {
        assert(t.contains(("flash_duration_ms"@, v)));
    }
}

/// Each key of `[logo]` sets the color that it names and no other, or selects
/// the indicator. An absent key leaves the default: no indicator, red for
/// muted, green for unmuted, a dim orange for unknown, cyan for a running
/// replay buffer and nothing for a stopped one.
pub proof fn law_logo_is_set_by_key(t: Seq<(Seq<char>, Tree)>, c: LogoConfig)
    requires
        keys_differ(t),
        logo_of(t) == Ok::<LogoConfig, Complaint>(c),
    ensures
        color_by_key(t, "mic_muted"@, RgbColor { r: 0xFF, g: 0, b: 0 }, c.mic_muted),
        color_by_key(t, "mic_unmuted"@, RgbColor { r: 0, g: 0xFF, b: 0 }, c.mic_unmuted),
        color_by_key(t, "mic_unknown"@, RgbColor { r: 0x80, g: 0x40, b: 0 }, c.mic_unknown),
        color_by_key(t, "replay_active"@, RgbColor { r: 0, g: 0xFF, b: 0xFF }, c.replay_active),
        color_by_key(t, "replay_inactive"@, RgbColor { r: 0, g: 0, b: 0 }, c.replay_inactive),
        t.contains(("indicator"@, Tree::Text("mic"@))) ==> c.indicator == LogoIndicator::Mic,
        t.contains(("indicator"@, Tree::Text("replay"@))) ==> c.indicator == LogoIndicator::Replay,
        t.contains(("indicator"@, Tree::Text("none"@))) ==> c.indicator == LogoIndicator::Off,
        !has_key(t, "indicator"@) ==> c.indicator == LogoIndicator::Off,
{
    reveal_strlit("mic");
    reveal_strlit("replay");
    reveal_strlit("none");
    assert("mic"@.len() != "replay"@.len() && "mic"@.len() != "none"@.len() && "none"@.len()
        != "replay"@.len());
    let d = crate::config::default_logo();
    let intro = "[logo] \""@;
    lemma_color_at(t, "mic_muted"@, d.mic_muted, intro);
    lemma_color_at(t, "mic_unmuted"@, d.mic_unmuted, intro);
    lemma_color_at(t, "mic_unknown"@, d.mic_unknown, intro);
    lemma_color_at(t, "replay_active"@, d.replay_active, intro);
    lemma_color_at(t, "replay_inactive"@, d.replay_inactive, intro);
    law_keys_lead_to_their_values(t, "indicator"@);
}

/// The `[logo]` section is accepted exactly where each color in it is one and
/// the indicator is one of the three.
pub proof fn law_logo_is_accepted(t: Seq<(Seq<char>, Tree)>)
    requires
        keys_differ(t),
    ensures
        logo_of(t) is Ok <==> {
            &&& color_fits(t, "mic_muted"@)
            &&& color_fits(t, "mic_unmuted"@)
            &&& color_fits(t, "mic_unknown"@)
            &&& color_fits(t, "replay_active"@)
            &&& color_fits(t, "replay_inactive"@)
            &&& forall|v: Tree| #[trigger]
                t.contains(("indicator"@, v)) ==> v == Tree::Text("mic"@) || v == Tree::Text(
                    "replay"@,
                ) || v == Tree::Text("none"@)
        },
{
    let d = crate::config::default_logo();
    let intro = "[logo] \""@;
    lemma_color_at(t, "mic_muted"@, d.mic_muted, intro);
    lemma_color_at(t, "mic_unmuted"@, d.mic_unmuted, intro);
    lemma_color_at(t, "mic_unknown"@, d.mic_unknown, intro);
    lemma_color_at(t, "replay_active"@, d.replay_active, intro);
    lemma_color_at(t, "replay_inactive"@, d.replay_inactive, intro);
    law_keys_lead_to_their_values(t, "indicator"@);
    if let Some(v) = lookup(t, "indicator"@) {
        assert(t.contains(("indicator"@, v)));
    }
}

// ---------------------------------------------------------------------------
// The LED mode
// ---------------------------------------------------------------------------

/// Whether a byte is the number that a table has under a key, or the default
/// where it has none.
pub open spec fn byte_by_key(
    t: Seq<(Seq<char>, Tree)>,
    key: Seq<char>,
    default: Option<u8>,
    b: u8,
) -> bool {
    &&& forall|v: Tree| #[trigger] t.contains((key, v)) ==> v is Integer && v->Integer_0 == b
    &&& !has_key(t, key) ==> default == Some(b)
}

/// Whether a flag is the one that a table has under a key, or off where it has
/// none.
pub open spec fn flag_by_key(t: Seq<(Seq<char>, Tree)>, key: Seq<char>, b: bool) -> bool {
    &&& forall|v: Tree| #[trigger] t.contains((key, v)) ==> v == Tree::Boolean(b)
    &&& !has_key(t, key) ==> !b
}

/// Whether what a table has under a key can be read as a byte.
pub open spec fn byte_fits(t: Seq<(Seq<char>, Tree)>, key: Seq<char>) -> bool {
    forall|v: Tree| #[trigger] t.contains((key, v)) ==> v is Integer && 0 <= v->Integer_0 <= 255
}

/// Whether what a table has under a key can be read as a flag.
pub open spec fn flag_fits(t: Seq<(Seq<char>, Tree)>, key: Seq<char>) -> bool {
    forall|v: Tree| #[trigger] t.contains((key, v)) ==> v is Boolean
}

/// Whether a table has a text that denotes a color under a key.
pub open spec fn color_given(t: Seq<(Seq<char>, Tree)>, key: Seq<char>) -> bool {
    exists|s: Seq<char>| #[trigger] t.contains((key, Tree::Text(s))) && is_color(s)
}

proof fn lemma_byte(t: Seq<(Seq<char>, Tree)>, key: Seq<char>, default: u8, mode: Seq<char>)
    requires
        keys_differ(t),
    ensures
        crate::config::byte_or(t, key, default) is Ok <==> byte_fits(t, key),
        crate::config::byte_or(t, key, default) matches Ok(b) ==> byte_by_key(
            t,
            key,
            Some(default),
            b,
        ),
        crate::config::byte_required(t, key, mode) is Ok <==> byte_fits(t, key) && has_key(t, key),
        crate::config::byte_required(t, key, mode) matches Ok(b) ==> byte_by_key(t, key, None, b),
{
    law_keys_lead_to_their_values(t, key);
    if let Some(v) = lookup(t, key) {
        assert(t.contains((key, v)));
    }
}

proof fn lemma_flag(t: Seq<(Seq<char>, Tree)>, key: Seq<char>, intro: Seq<char>)
    requires
        keys_differ(t),
    ensures
        crate::config::flag_at(t, key, false, intro) is Ok <==> flag_fits(t, key),
        crate::config::flag_at(t, key, false, intro) matches Ok(b) ==> flag_by_key(t, key, b),
{
    law_keys_lead_to_their_values(t, key);
    if let Some(v) = lookup(t, key) {
        assert(t.contains((key, v)));
    }
}

proof fn lemma_text(t: Seq<(Seq<char>, Tree)>, key: Seq<char>)
    requires
        keys_differ(t),
    ensures
        forall|s: Seq<char>| #[trigger]
            t.contains((key, Tree::Text(s))) <==> text_at(t, key) == Some(s),
        !has_key(t, key) ==> text_at(t, key) is None,
{
    law_keys_lead_to_their_values(t, key);
}

proof fn lemma_color_text(t: Seq<(Seq<char>, Tree)>, key: Seq<char>)
    requires
        keys_differ(t),
    ensures
        color_given(t, key) <==> text_at(t, key) is Some && color_bytes(
            text_at(t, key)->Some_0,
        ) is Ok,
        color_given(t, key) <==> text_at(t, key) is Some && color_of(text_at(t, key)->Some_0) is Ok,
        text_at(t, key) matches Some(s) ==> (color_bytes(s) matches Ok(x) ==> color_by_key(
            t,
            key,
            RgbColor { r: x.0, g: x.1, b: x.2 },
            RgbColor { r: x.0, g: x.1, b: x.2 },
        )),
        text_at(t, key) matches Some(s) ==> (color_of(s) matches Ok(c) ==> color_by_key(
            t,
            key,
            c,
            c,
        )),
{
    law_keys_lead_to_their_values(t, key);
    lemma_text(t, key);
    if let Some(s) = text_at(t, key) {
        assert(t.contains((key, Tree::Text(s))));
        if let Ok((r, g, b)) = color_bytes(s) {
            law_colors_are_read_digit_by_digit(s, RgbColor { r, g, b });
            assert(is_color(s));
        }
        if is_color(s) {
            let c = choose|c: RgbColor| denotes(s, c);
            law_colors_are_read_digit_by_digit(s, c);
        }
    }
    if color_given(t, key) {
        let s = choose|s: Seq<char>| #[trigger] t.contains((key, Tree::Text(s))) && is_color(s);
        assert(text_at(t, key) == Some(s));
    }
}

proof fn lemma_mode_names()
    ensures
        "solid"@ != "rainbow"@,
        "solid"@ != "gradient"@,
        "solid"@ != "volume-gradient"@,
        "solid"@ != "wave"@,
        "solid"@ != "breath"@,
        "rainbow"@ != "gradient"@,
        "rainbow"@ != "volume-gradient"@,
        "rainbow"@ != "wave"@,
        "rainbow"@ != "breath"@,
        "gradient"@ != "volume-gradient"@,
        "gradient"@ != "wave"@,
        "gradient"@ != "breath"@,
        "volume-gradient"@ != "wave"@,
        "volume-gradient"@ != "breath"@,
        "wave"@ != "breath"@,
        "horizontal"@ != "vertical"@,
{
    reveal_strlit("solid");
    reveal_strlit("rainbow");
    reveal_strlit("gradient");
    reveal_strlit("volume-gradient");
    reveal_strlit("wave");
    reveal_strlit("breath");
    reveal_strlit("horizontal");
    reveal_strlit("vertical");
    assert("solid"@[0] != "rainbow"@[0]);
    assert("solid"@[0] != "gradient"@[0]);
    assert("solid"@[0] != "volume-gradient"@[0]);
    assert("solid"@[0] != "wave"@[0]);
    assert("solid"@[0] != "breath"@[0]);
    assert("rainbow"@[0] != "gradient"@[0]);
    assert("rainbow"@[0] != "volume-gradient"@[0]);
    assert("rainbow"@[0] != "wave"@[0]);
    assert("rainbow"@[0] != "breath"@[0]);
    assert("gradient"@[0] != "volume-gradient"@[0]);
    assert("gradient"@[0] != "wave"@[0]);
    assert("gradient"@[0] != "breath"@[0]);
    assert("volume-gradient"@[0] != "wave"@[0]);
    assert("volume-gradient"@[0] != "breath"@[0]);
    assert("wave"@[0] != "breath"@[0]);
    assert("horizontal"@[0] != "vertical"@[0]);
}

/// Whether the `[rgb]` section selects the mode of a name.
pub open spec fn selects(t: Seq<(Seq<char>, Tree)>, mode: Seq<char>) -> bool {
    t.contains(("mode"@, Tree::Text(mode)))
}

/// The `[rgb]` section gives the mode that it names, with the settings that its
/// keys name. Brightness is 200 and speed 64 where they are absent, a rainbow is
/// horizontal, and a wave neither runs backwards nor bounces.
pub proof fn law_rgb_is_set_by_key(t: Seq<(Seq<char>, Tree)>, m: RgbMode)
    requires
        keys_differ(t),
        rgb_of(t) == Ok::<RgbMode, Complaint>(m),
    ensures
        selects(t, "solid"@) ==> (m matches RgbMode::Solid { r, g, b } && color_by_key(
            t,
            "color"@,
            RgbColor { r, g, b },
            RgbColor { r, g, b },
        )),
        selects(t, "gradient"@) ==> (m matches RgbMode::Gradient { color1, color2 } && color_by_key(
            t,
            "color1"@,
            color1,
            color1,
        ) && color_by_key(t, "color2"@, color2, color2)),
        selects(t, "volume-gradient"@) ==> (m matches RgbMode::VolumeGradient { color1, color2 }
            && color_by_key(t, "color1"@, color1, color1) && color_by_key(
            t,
            "color2"@,
            color2,
            color2,
        )),
        selects(t, "wave"@) ==> (m matches RgbMode::Wave { hue, brightness, speed, reverse, bounce }
            && byte_by_key(t, "hue"@, None, hue) && byte_by_key(
            t,
            "brightness"@,
            Some(200),
            brightness,
        ) && byte_by_key(t, "speed"@, Some(64), speed) && flag_by_key(t, "reverse"@, reverse)
            && flag_by_key(t, "bounce"@, bounce)),
        selects(t, "breath"@) ==> (m matches RgbMode::Breath { hue, brightness, speed }
            && byte_by_key(t, "hue"@, None, hue) && byte_by_key(
            t,
            "brightness"@,
            Some(200),
            brightness,
        ) && byte_by_key(t, "speed"@, Some(64), speed)),
        selects(t, "rainbow"@) ==> m is Rainbow,
        selects(t, "rainbow"@) && !has_key(t, "style"@) ==> m == (RgbMode::Rainbow {
            style: RainbowStyle::Horizontal,
        }),
        selects(t, "rainbow"@) && t.contains(("style"@, Tree::Text("horizontal"@))) ==> m == (
        RgbMode::Rainbow { style: RainbowStyle::Horizontal }),
        selects(t, "rainbow"@) && t.contains(("style"@, Tree::Text("vertical"@))) ==> m == (
        RgbMode::Rainbow { style: RainbowStyle::Vertical }),
{
    lemma_mode_names();
    lemma_text(t, "mode"@);
    lemma_text(t, "style"@);
    lemma_color_text(t, "color"@);
    lemma_color_text(t, "color1"@);
    lemma_color_text(t, "color2"@);
    lemma_byte(t, "hue"@, 0, "wave"@);
    lemma_byte(t, "hue"@, 0, "breath"@);
    lemma_byte(t, "brightness"@, 200, "wave"@);
    lemma_byte(t, "speed"@, 64, "wave"@);
    lemma_flag(t, "reverse"@, "[rgb] \""@);
    lemma_flag(t, "bounce"@, "[rgb] \""@);
}

/// The `[rgb]` section is accepted exactly where it names one of the six modes
/// and has what that mode needs, and nothing of it is out of range.
pub proof fn law_rgb_is_accepted(t: Seq<(Seq<char>, Tree)>)
    requires
        keys_differ(t),
    ensures
        rgb_of(t) is Ok <==> {
            ||| selects(t, "solid"@) && color_given(t, "color"@)
            ||| selects(t, "rainbow"@) && forall|s: Seq<char>| #[trigger]
                t.contains(("style"@, Tree::Text(s))) ==> s == "horizontal"@ || s == "vertical"@
            ||| selects(t, "gradient"@) && color_given(t, "color1"@) && color_given(t, "color2"@)
            ||| selects(t, "volume-gradient"@) && color_given(t, "color1"@) && color_given(
                t,
                "color2"@,
            )
            ||| selects(t, "wave"@) && has_key(t, "hue"@) && byte_fits(t, "hue"@) && byte_fits(
                t,
                "brightness"@,
            ) && byte_fits(t, "speed"@) && flag_fits(t, "reverse"@) && flag_fits(t, "bounce"@)
            ||| selects(t, "breath"@) && has_key(t, "hue"@) && byte_fits(t, "hue"@) && byte_fits(
                t,
                "brightness"@,
            ) && byte_fits(t, "speed"@)
        },
{
    lemma_mode_names();
    lemma_text(t, "mode"@);
    lemma_text(t, "style"@);
    lemma_color_text(t, "color"@);
    lemma_color_text(t, "color1"@);
    lemma_color_text(t, "color2"@);
    lemma_byte(t, "hue"@, 0, "wave"@);
    lemma_byte(t, "hue"@, 0, "breath"@);
    lemma_byte(t, "brightness"@, 200, "wave"@);
    lemma_byte(t, "speed"@, 64, "wave"@);
    lemma_flag(t, "reverse"@, "[rgb] \""@);
    lemma_flag(t, "bounce"@, "[rgb] \""@);
    if let Some(s) = text_at(t, "style"@) {
        assert(t.contains(("style"@, Tree::Text(s))));
    }
    if let Some(s) = text_at(t, "mode"@) {
        assert(t.contains(("mode"@, Tree::Text(s))));
    }
}

// ---------------------------------------------------------------------------
// OBS
// ---------------------------------------------------------------------------

/// Each key of `[obs]` makes the setting that it names: where OBS is reached,
/// with which password, and what happens on a connection. An absent key leaves
/// port 4455 of this machine, no password, and everything else off.
pub proof fn law_obs_is_set_by_key(t: Seq<(Seq<char>, Tree)>, c: ObsConfigView)
    requires
        keys_differ(t),
        obs_of(t) == Ok::<ObsConfigView, Complaint>(c),
    ensures
        forall|s: Seq<char>| #[trigger] t.contains(("host"@, Tree::Text(s))) ==> c.host == s,
        !has_key(t, "host"@) ==> c.host == "localhost"@,
        forall|v: Tree| #[trigger]
            t.contains(("port"@, v)) ==> v is Integer && v->Integer_0 == c.port,
        !has_key(t, "port"@) ==> c.port == 4455,
        forall|s: Seq<char>| #[trigger]
            t.contains(("password"@, Tree::Text(s))) ==> if s.len() > 0 {
                c.password == Some(s)
            } else {
                c.password is None
            },
        !has_key(t, "password"@) ==> c.password is None,
        flag_by_key(t, "start_replay_buffer"@, c.start_replay_buffer),
        flag_by_key(t, "paused_use_breath"@, c.paused_use_breath),
        flag_by_key(t, "match_canvas_to_display"@, c.match_canvas_to_display),
        forall|s: Seq<char>| #[trigger]
            t.contains(("capture_display"@, Tree::Text(s))) ==> c.capture_display == Some(s),
        !has_key(t, "capture_display"@) ==> c.capture_display is None,
        forall|v: Tree| #[trigger]
            t.contains(("colors"@, v)) ==> v is Table && obs_colors_of(v->Table_0) == Ok::<
                ObsColors,
                Complaint,
            >(c.colors),
        !has_key(t, "colors"@) ==> obs_colors_of(Seq::empty()) == Ok::<ObsColors, Complaint>(
            c.colors,
        ),
{
    lemma_text(t, "host"@);
    lemma_text(t, "password"@);
    lemma_text(t, "capture_display"@);
    law_keys_lead_to_their_values(t, "port"@);
    law_keys_lead_to_their_values(t, "colors"@);
    let intro = "[obs] \""@;
    lemma_flag(t, "start_replay_buffer"@, intro);
    lemma_flag(t, "paused_use_breath"@, intro);
    lemma_flag(t, "match_canvas_to_display"@, intro);
}

/// The `[obs]` section is accepted exactly where its port is one, its flags are
/// flags and its colors are accepted.
pub proof fn law_obs_is_accepted(t: Seq<(Seq<char>, Tree)>)
    requires
        keys_differ(t),
    ensures
        obs_of(t) is Ok <==> {
            &&& forall|v: Tree| #[trigger]
                t.contains(("port"@, v)) ==> v is Integer && 1 <= v->Integer_0 <= 65535
            &&& flag_fits(t, "start_replay_buffer"@)
            &&& flag_fits(t, "paused_use_breath"@)
            &&& flag_fits(t, "match_canvas_to_display"@)
            &&& forall|v: Tree| #[trigger]
                t.contains(("colors"@, v)) ==> v is Table && obs_colors_of(v->Table_0) is Ok
        },
{
    law_keys_lead_to_their_values(t, "port"@);
    law_keys_lead_to_their_values(t, "colors"@);
    let intro = "[obs] \""@;
    lemma_flag(t, "start_replay_buffer"@, intro);
    lemma_flag(t, "paused_use_breath"@, intro);
    lemma_flag(t, "match_canvas_to_display"@, intro);
    if let Some(v) = lookup(t, "port"@) {
        assert(t.contains(("port"@, v)));
    }
    if let Some(v) = lookup(t, "colors"@) {
        assert(t.contains(("colors"@, v)));
    }
}

/// A password from the environment wins, one that is empty means that there is
/// none, and without one the configured password is used.
pub proof fn law_environment_wins(environment: Seq<char>, configured: Option<Seq<char>>)
    ensures
        environment.len() > 0 ==> effective_password_of(Some(environment), configured) == Some(
            environment,
        ),
        environment.len() == 0 ==> effective_password_of(Some(environment), configured) is None,
        effective_password_of(None, configured) == configured,
{
}

// ---------------------------------------------------------------------------
// Controls
// ---------------------------------------------------------------------------

/// Whether app names are the ones that a section gives: a single one, or a list
/// of them in its order.
pub open spec fn apps_by_key(t: Seq<(Seq<char>, Tree)>, apps: Seq<Seq<char>>) -> bool {
    &&& has_key(t, "app"@)
    &&& forall|v: Tree| #[trigger]
        t.contains(("app"@, v)) ==> match v {
            Tree::Text(s) => apps.len() == 1 && apps[0] == s,
            Tree::List(l) => l.len() > 0 && apps.len() == l.len() && forall|i: int|
                0 <= i < l.len() ==> #[trigger] l[i] == Tree::Text(apps[i]),
            _ => false,
        }
}

/// Whether an icon is the one that a section gives.
pub open spec fn icon_by_key(t: Seq<(Seq<char>, Tree)>, icon: Option<Seq<char>>) -> bool {
    &&& forall|s: Seq<char>| #[trigger] t.contains(("icon"@, Tree::Text(s))) ==> icon == Some(s)
    &&& icon matches Some(s) ==> t.contains(("icon"@, Tree::Text(s)))
}

/// Whether a section has app names that can be read.
pub open spec fn apps_fit(t: Seq<(Seq<char>, Tree)>) -> bool {
    &&& has_key(t, "app"@)
    &&& forall|v: Tree| #[trigger]
        t.contains(("app"@, v)) ==> match v {
            Tree::Text(_) => true,
            Tree::List(l) => l.len() > 0 && forall|i: int|
                0 <= i < l.len() ==> (#[trigger] l[i]) is Text,
            _ => false,
        }
}

proof fn lemma_apps(key: Seq<char>, t: Seq<(Seq<char>, Tree)>)
    requires
        keys_differ(t),
    ensures
        apps_of(key, t) is Ok <==> apps_fit(t),
        apps_of(key, t) matches Ok(apps) ==> apps_by_key(t, apps),
{
    law_keys_lead_to_their_values(t, "app"@);
    if let Some(v) = lookup(t, "app"@) {
        assert(t.contains(("app"@, v)));
    }
}

proof fn lemma_action_names()
    ensures
        "volume"@ != "toggle-mute"@,
        "volume"@ != "obs-save-replay"@,
        "volume"@ != "obs-toggle-recording"@,
        "volume"@ != "obs-pause-recording"@,
        "volume"@ != "obs-split-recording"@,
        "toggle-mute"@ != "obs-save-replay"@,
        "toggle-mute"@ != "obs-toggle-recording"@,
        "toggle-mute"@ != "obs-pause-recording"@,
        "toggle-mute"@ != "obs-split-recording"@,
        "obs-save-replay"@ != "obs-toggle-recording"@,
        "obs-save-replay"@ != "obs-pause-recording"@,
        "obs-save-replay"@ != "obs-split-recording"@,
        "obs-toggle-recording"@ != "obs-pause-recording"@,
        "obs-toggle-recording"@ != "obs-split-recording"@,
        "obs-pause-recording"@ != "obs-split-recording"@,
{
    reveal_strlit("volume");
    reveal_strlit("toggle-mute");
    reveal_strlit("obs-save-replay");
    reveal_strlit("obs-toggle-recording");
    reveal_strlit("obs-pause-recording");
    reveal_strlit("obs-split-recording");
    assert("volume"@[0] == 'v' && "toggle-mute"@[0] == 't' && "obs-save-replay"@[0] == 'o');
    assert("obs-toggle-recording"@[0] == 'o' && "obs-pause-recording"@[0] == 'o'
        && "obs-split-recording"@[0] == 'o');
    assert("obs-save-replay"@[5] == 'a' && "obs-toggle-recording"@[5] == 'o');
    assert("obs-save-replay"@[4] == 's' && "obs-pause-recording"@[4] == 'p');
    assert("obs-split-recording"@[5] == 'p' && "obs-split-recording"@[4] == 's');
    assert("obs-toggle-recording"@[4] == 't');
}

/// Whether a section asks for an action.
pub open spec fn asks_for(t: Seq<(Seq<char>, Tree)>, action: Seq<char>) -> bool {
    t.contains(("action"@, Tree::Text(action)))
}

/// The section of a control gives the action that it names, with the apps and
/// the icon that its keys give.
pub proof fn law_actions_are_set_by_key(key: Seq<char>, t: Seq<(Seq<char>, Tree)>, a: ActionView)
    requires
        keys_differ(t),
        action_of(key, t) == Ok::<ActionView, Complaint>(a),
    ensures
        asks_for(t, "volume"@) <==> a is Volume,
        a matches ActionView::Volume { apps, icon } ==> apps_by_key(t, apps) && icon_by_key(t, icon),
        asks_for(t, "toggle-mute"@) <==> a is ToggleMute,
        a matches ActionView::ToggleMute { apps, icon } ==> apps_by_key(t, apps) && icon_by_key(
            t,
            icon,
        ),
        asks_for(t, "obs-save-replay"@) <==> a is ObsSaveReplay,
        asks_for(t, "obs-toggle-recording"@) <==> a is ObsToggleRecording,
        asks_for(t, "obs-pause-recording"@) <==> a is ObsPauseRecording,
        asks_for(t, "obs-split-recording"@) <==> a is ObsSplitRecording,
{
    lemma_action_names();
    lemma_text(t, "action"@);
    lemma_text(t, "icon"@);
    lemma_apps(key, t);
}

/// The section of a control is accepted exactly where it asks for one of the
/// six actions, and names apps where the action needs them.
pub proof fn law_actions_are_accepted(key: Seq<char>, t: Seq<(Seq<char>, Tree)>)
    requires
        keys_differ(t),
    ensures
        action_of(key, t) is Ok <==> {
            ||| (asks_for(t, "volume"@) || asks_for(t, "toggle-mute"@)) && apps_fit(t)
            ||| asks_for(t, "obs-save-replay"@)
            ||| asks_for(t, "obs-toggle-recording"@)
            ||| asks_for(t, "obs-pause-recording"@)
            ||| asks_for(t, "obs-split-recording"@)
        },
{
    lemma_action_names();
    lemma_text(t, "action"@);
    lemma_apps(key, t);
    if let Some(s) = text_at(t, "action"@) {
        assert(t.contains(("action"@, Tree::Text(s))));
    }
}

/// Whether a character is a letter, capital or small.
pub open spec fn is_letter(c: char, small: char) -> bool {
    c == small || c as int == small as int - 32
}

/// The names `system` and `mic`, in capitals or small letters, stand for the
/// default devices, and any other name for an app of that name.
pub proof fn law_devices_are_known_by_their_names(app: Seq<char>)
    ensures
        ({
            let system = app.len() == 6 && is_letter(app[0], 's') && is_letter(app[1], 'y')
                && is_letter(app[2], 's') && is_letter(app[3], 't') && is_letter(app[4], 'e')
                && is_letter(app[5], 'm');
            let mic = app.len() == 3 && is_letter(app[0], 'm') && is_letter(app[1], 'i')
                && is_letter(app[2], 'c');
            &&& target_of(app) == AppTargetView::System <==> system
            &&& target_of(app) == AppTargetView::Mic <==> mic
            &&& !system && !mic ==> target_of(app) == AppTargetView::Named(app)
        }),
{
    reveal_strlit("system");
    reveal_strlit("mic");
    let s = "system"@;
    let m = "mic"@;
    assert(s.len() == 6 && s[0] == 's' && s[1] == 'y' && s[2] == 's' && s[3] == 't' && s[4] == 'e'
        && s[5] == 'm');
    assert(m.len() == 3 && m[0] == 'm' && m[1] == 'i' && m[2] == 'c');
    crate::text::law_case_is_that_of_ascii_letters(app, s);
    crate::text::law_case_is_that_of_ascii_letters(app, m);
}

/// A section name stands for a control exactly where it is the kind of the
/// control followed by its number, counted from one.
pub proof fn law_controls_are_known_by_their_names(key: Seq<char>, i: u8)
    ensures
        control_of(key) == Ok::<ControlId, Complaint>(ControlId::Knob(i)) <==> i < 5 && key
            == "knob"@ + key.skip(4) && byte_of(key.skip(4)) == Some((i + 1) as u8),
        control_of(key) == Ok::<ControlId, Complaint>(ControlId::Slider(i)) <==> i < 4 && key
            == "slider"@ + key.skip(6) && byte_of(key.skip(6)) == Some((i + 1) as u8),
        control_of(key) == Ok::<ControlId, Complaint>(ControlId::Button(i)) <==> i < 5 && key
            == "button"@ + key.skip(6) && byte_of(key.skip(6)) == Some((i + 1) as u8),
{
    reveal_strlit("knob");
    reveal_strlit("slider");
    reveal_strlit("button");
    law_prefix_and_rest_are_the_text(key, "knob"@, key.skip(4));
    law_prefix_and_rest_are_the_text(key, "slider"@, key.skip(6));
    law_prefix_and_rest_are_the_text(key, "button"@, key.skip(6));
    if let Some(rest) = after_prefix(key, "knob"@) {
        law_prefix_and_rest_are_the_text(key, "knob"@, rest);
        assert(key.skip(4) =~= rest);
        assert(key[0] == "knob"@[0]);
    }
    if let Some(rest) = after_prefix(key, "slider"@) {
        law_prefix_and_rest_are_the_text(key, "slider"@, rest);
        assert(key.skip(6) =~= rest);
        assert(key[0] == "slider"@[0]);
    }
    if let Some(rest) = after_prefix(key, "button"@) {
        law_prefix_and_rest_are_the_text(key, "button"@, rest);
        assert(key.skip(6) =~= rest);
        assert(key[0] == "button"@[0]);
    }
}

// ---------------------------------------------------------------------------
// The whole file
// ---------------------------------------------------------------------------

/// Whether a section describes a control: it is none of the three that have a
/// meaning of their own.
pub open spec fn is_control_section(key: Seq<char>) -> bool {
    key != "rgb"@ && key != "obs"@ && key != "logo"@
}

/// Whether a section gives a control an action.
pub open spec fn gives(section: (Seq<char>, Tree), id: ControlId, a: ActionView) -> bool {
    &&& is_control_section(section.0)
    &&& section.1 is Table
    &&& control_of(section.0) == Ok::<ControlId, Complaint>(id)
    &&& action_of(section.0, section.1->Table_0) == Ok::<ActionView, Complaint>(a)
}

/// Whether a section, taken by itself, can be read.
pub open spec fn section_fits(section: (Seq<char>, Tree)) -> bool {
    &&& section.1 is Table
    &&& if section.0 == "rgb"@ {
        rgb_of(section.1->Table_0) is Ok
    } else if section.0 == "obs"@ {
        obs_of(section.1->Table_0) is Ok
    } else if section.0 == "logo"@ {
        logo_of(section.1->Table_0) is Ok
    } else {
        &&& control_of(section.0) is Ok
        &&& action_of(section.0, section.1->Table_0) is Ok
        &&& (control_of(section.0)->Ok_0 is Button) == !(action_of(
            section.0,
            section.1->Table_0,
        )->Ok_0 is Volume)
    }
}

/// Whether a section gives a control an action of OBS.
pub open spec fn wants_obs(section: (Seq<char>, Tree)) -> bool {
    &&& is_control_section(section.0)
    &&& section.1 is Table
    &&& action_of(section.0, section.1->Table_0) is Ok
    &&& !(action_of(section.0, section.1->Table_0)->Ok_0 is Volume)
    &&& !(action_of(section.0, section.1->Table_0)->Ok_0 is ToggleMute)
}

/// What the first `n` sections of a file have come to: the parts with sections
/// of their own.
spec fn parts_hold(top: Seq<(Seq<char>, Tree)>, n: int, c: ConfigView) -> bool {
    &&& forall|i: int|
        0 <= i < n && (#[trigger] top[i]).0 == "rgb"@ ==> c.rgb is Some && rgb_of(
            top[i].1->Table_0,
        ) == Ok::<RgbMode, Complaint>(c.rgb->Some_0)
    &&& (forall|i: int| 0 <= i < n ==> (#[trigger] top[i]).0 != "rgb"@) ==> c.rgb is None
    &&& forall|i: int|
        0 <= i < n && (#[trigger] top[i]).0 == "obs"@ ==> c.obs is Some && obs_of(
            top[i].1->Table_0,
        ) == Ok::<ObsConfigView, Complaint>(c.obs->Some_0)
    &&& (forall|i: int| 0 <= i < n ==> (#[trigger] top[i]).0 != "obs"@) ==> c.obs is None
    &&& forall|i: int|
        0 <= i < n && (#[trigger] top[i]).0 == "logo"@ ==> logo_of(top[i].1->Table_0) == Ok::<
            LogoConfig,
            Complaint,
        >(c.logo)
    &&& (forall|i: int| 0 <= i < n ==> (#[trigger] top[i]).0 != "logo"@) ==> logo_of(Seq::empty())
        == Ok::<LogoConfig, Complaint>(c.logo)
}

/// The control that a section names, if it is one of a control.
#[verifier::opaque]
spec fn control_in(section: (Seq<char>, Tree)) -> Option<ControlId> {
    if is_control_section(section.0) && control_of(section.0) is Ok {
        Some(control_of(section.0)->Ok_0)
    } else {
        None
    }
}

/// The action that a section of a control asks for.
#[verifier::opaque]
spec fn action_in(section: (Seq<char>, Tree)) -> Option<ActionView> {
    if is_control_section(section.0) && section.1 is Table && action_of(
        section.0,
        section.1->Table_0,
    ) is Ok {
        Some(action_of(section.0, section.1->Table_0)->Ok_0)
    } else {
        None
    }
}

/// Whether the section at `i` is the last of the first `n` that names a control,
/// and gives it an action.
spec fn gives_last(
    top: Seq<(Seq<char>, Tree)>,
    n: int,
    i: int,
    id: ControlId,
    a: ActionView,
) -> bool {
    &&& 0 <= i < n
    &&& control_in(top[i]) == Some(id)
    &&& action_in(top[i]) == Some(a)
    &&& forall|j: int| i < j < n ==> control_in(#[trigger] top[j]) != Some(id)
}

/// What the first `n` sections of a file have come to: the controls.
spec fn controls_hold(
    top: Seq<(Seq<char>, Tree)>,
    n: int,
    mappings: Map<ControlId, ActionView>,
) -> bool {
    &&& forall|i: int|
        0 <= i < n && control_in(#[trigger] top[i]) is Some ==> mappings.dom().contains(
            control_in(top[i])->Some_0,
        )
    &&& forall|id: ControlId| #[trigger]
        mappings.dom().contains(id) ==> exists|i: int| gives_last(top, n, i, id, mappings[id])
}

/// Whether an action is one of OBS.
spec fn for_obs(a: Option<ActionView>) -> bool {
    a is Some && !(a->Some_0 is Volume) && !(a->Some_0 is ToggleMute)
}

/// Whether one of the first `n` sections wants OBS.
spec fn some_want_obs(top: Seq<(Seq<char>, Tree)>, n: int) -> bool {
    exists|i: int| 0 <= i < n && for_obs(action_in(#[trigger] top[i]))
}

proof fn lemma_in_section(section: (Seq<char>, Tree), id: ControlId, a: ActionView)
    ensures
        control_in(section) == Some(id) && action_in(section) == Some(a) <==> gives(section, id, a),
        for_obs(action_in(section)) <==> wants_obs(section),
        control_in(section) == Some(id) <==> is_control_section(section.0) && control_of(section.0)
            == Ok::<ControlId, Complaint>(id),
{
    reveal(control_in);
    reveal(action_in);
}

proof fn lemma_section_adds(d: Draft, section: (Seq<char>, Tree), e: Draft)
    requires
        with_section(d, section.0, section.1) == Ok::<Draft, Complaint>(e),
    ensures
        control_in(section) is Some <==> action_in(section) is Some,
        control_in(section) is Some ==> e.config.mappings == d.config.mappings.insert(
            control_in(section)->Some_0,
            action_in(section)->Some_0,
        ),
        control_in(section) is None ==> e.config.mappings == d.config.mappings,
        e.obs_keys.len() > 0 <==> d.obs_keys.len() > 0 || for_obs(action_in(section)),
{
    reveal(control_in);
    reveal(action_in);
}

/// What the first `n` sections of a file have come to.
spec fn draft_holds(top: Seq<(Seq<char>, Tree)>, n: int, d: Draft) -> bool {
    &&& parts_hold(top, n, d.config)
    &&& controls_hold(top, n, d.config.mappings)
    &&& d.obs_keys.len() > 0 <==> some_want_obs(top, n)
    &&& forall|i: int| 0 <= i < n ==> section_fits(#[trigger] top[i])
}

proof fn lemma_section_names()
    ensures
        "rgb"@ != "obs"@,
        "rgb"@ != "logo"@,
        "obs"@ != "logo"@,
{
    reveal_strlit("rgb");
    reveal_strlit("obs");
    reveal_strlit("logo");
    assert("rgb"@[0] != "obs"@[0] && "rgb"@[0] != "logo"@[0] && "obs"@[0] != "logo"@[0]);
}

proof fn lemma_draft(top: Seq<(Seq<char>, Tree)>, n: nat)
    requires
        keys_differ(top),
        n <= top.len(),
    ensures
        draft_after(top, n) matches Ok(d) ==> draft_holds(top, n as int, d),
        draft_after(top, n) is Ok <==> forall|i: int| 0 <= i < n ==> section_fits(#[trigger] top[i]),
    decreases n,
{
    lemma_section_names();
    if n == 0 {
        assert(lookup(Seq::<(Seq<char>, Tree)>::empty(), "indicator"@) is None);
    } else {
        let m = (n - 1) as nat;
        lemma_draft(top, m);
        if let Ok(d) = draft_after(top, m) {
            let section = top[m as int];
            assert(with_section(d, section.0, section.1) is Ok <==> section_fits(section));
            if let Ok(e) = draft_after(top, n) {
                lemma_parts_step(top, m as int, d, e);
                lemma_section_adds(d, section, e);
                lemma_controls_step(top, m as int, d.config.mappings, e.config.mappings);
            }
        }
    }
}

#[verifier::spinoff_prover]
proof fn lemma_parts_step(top: Seq<(Seq<char>, Tree)>, m: int, d: Draft, e: Draft)
    requires
        keys_differ(top),
        0 <= m < top.len(),
        parts_hold(top, m, d.config),
        with_section(d, top[m].0, top[m].1) == Ok::<Draft, Complaint>(e),
    ensures
        parts_hold(top, m + 1, e.config),
{
    lemma_section_names();
    let n = m + 1;
    if forall|i: int| 0 <= i < n ==> (#[trigger] top[i]).0 != "rgb"@ {
        assert(forall|i: int| 0 <= i < m ==> (#[trigger] top[i]).0 != "rgb"@);
        assert(top[m].0 != "rgb"@);
    }
    if forall|i: int| 0 <= i < n ==> (#[trigger] top[i]).0 != "obs"@ {
        assert(forall|i: int| 0 <= i < m ==> (#[trigger] top[i]).0 != "obs"@);
        assert(top[m].0 != "obs"@);
    }
    if forall|i: int| 0 <= i < n ==> (#[trigger] top[i]).0 != "logo"@ {
        assert(forall|i: int| 0 <= i < m ==> (#[trigger] top[i]).0 != "logo"@);
        assert(top[m].0 != "logo"@);
    }
}

proof fn lemma_controls_step(
    top: Seq<(Seq<char>, Tree)>,
    m: int,
    old_map: Map<ControlId, ActionView>,
    new_map: Map<ControlId, ActionView>,
)
    requires
        0 <= m < top.len(),
        controls_hold(top, m, old_map),
        control_in(top[m]) is Some <==> action_in(top[m]) is Some,
        control_in(top[m]) is Some ==> new_map == old_map.insert(
            control_in(top[m])->Some_0,
            action_in(top[m])->Some_0,
        ),
        control_in(top[m]) is None ==> new_map == old_map,
    ensures
        controls_hold(top, m + 1, new_map),
        some_want_obs(top, m + 1) <==> some_want_obs(top, m) || for_obs(action_in(top[m])),
{
    let n = m + 1;
    assert forall|id: ControlId| #[trigger] new_map.dom().contains(id) implies exists|i: int|
        gives_last(top, n, i, id, new_map[id]) by {
        if control_in(top[m]) == Some(id) {
            assert(gives_last(top, n, m, id, new_map[id]));
        } else {
            assert(old_map.dom().contains(id));
            let i = choose|i: int| gives_last(top, m, i, id, old_map[id]);
            assert(gives_last(top, n, i, id, new_map[id]));
        }
    }
    if some_want_obs(top, m) {
        let i = choose|i: int| 0 <= i < m && for_obs(action_in(#[trigger] top[i]));
        assert(for_obs(action_in(top[i])));
    }
    if for_obs(action_in(top[m])) {
        assert(for_obs(action_in(top[m])));
    }
}

/// The sections of an accepted file make up the configuration: `[rgb]`, `[obs]`
/// and `[logo]` give their part, or leave it as it is without them, and a
/// control has an action exactly where a section gives it one, that of the last
/// such section.
pub proof fn law_sections_make_up_the_configuration(top: Seq<(Seq<char>, Tree)>, c: ConfigView)
    requires
        keys_differ(top),
        config_of(top) == Ok::<ConfigView, Complaint>(c),
    ensures
        forall|t: Seq<(Seq<char>, Tree)>| #[trigger]
            top.contains(("rgb"@, Tree::Table(t))) ==> c.rgb is Some && rgb_of(t) == Ok::<
                RgbMode,
                Complaint,
            >(c.rgb->Some_0),
        !has_key(top, "rgb"@) ==> c.rgb is None,
        forall|t: Seq<(Seq<char>, Tree)>| #[trigger]
            top.contains(("obs"@, Tree::Table(t))) ==> c.obs is Some && obs_of(t) == Ok::<
                ObsConfigView,
                Complaint,
            >(c.obs->Some_0),
        !has_key(top, "obs"@) ==> c.obs is None,
        forall|t: Seq<(Seq<char>, Tree)>| #[trigger]
            top.contains(("logo"@, Tree::Table(t))) ==> logo_of(t) == Ok::<LogoConfig, Complaint>(
                c.logo,
            ),
        !has_key(top, "logo"@) ==> logo_of(Seq::empty()) == Ok::<LogoConfig, Complaint>(c.logo),
        forall|i: int|
            0 <= i < top.len() && is_control_section((#[trigger] top[i]).0) ==> control_of(
                top[i].0,
            ) is Ok && c.mappings.dom().contains(control_of(top[i].0)->Ok_0),
        forall|id: ControlId| #[trigger]
            c.mappings.dom().contains(id) ==> exists|i: int|
                0 <= i < top.len() && gives(#[trigger] top[i], id, c.mappings[id]) && forall|j: int|
                    i < j < top.len() && is_control_section((#[trigger] top[j]).0) ==> control_of(
                        top[j].0,
                    ) != Ok::<ControlId, Complaint>(id),
{
    lemma_draft(top, top.len());
    let d = draft_after(top, top.len())->Ok_0;
    assert(draft_holds(top, top.len() as int, d));
    assert forall|t: Seq<(Seq<char>, Tree)>| #[trigger]
        top.contains(("rgb"@, Tree::Table(t))) implies c.rgb is Some && rgb_of(t) == Ok::<
        RgbMode,
        Complaint,
    >(c.rgb->Some_0) by {
        let i = choose|i: int| 0 <= i < top.len() && top[i] == ("rgb"@, Tree::Table(t));
        assert(top[i].0 == "rgb"@);
    }
    assert forall|t: Seq<(Seq<char>, Tree)>| #[trigger]
        top.contains(("obs"@, Tree::Table(t))) implies c.obs is Some && obs_of(t) == Ok::<
        ObsConfigView,
        Complaint,
    >(c.obs->Some_0) by {
        let i = choose|i: int| 0 <= i < top.len() && top[i] == ("obs"@, Tree::Table(t));
        assert(top[i].0 == "obs"@);
    }
    assert forall|t: Seq<(Seq<char>, Tree)>| #[trigger]
        top.contains(("logo"@, Tree::Table(t))) implies logo_of(t) == Ok::<LogoConfig, Complaint>(
        c.logo,
    ) by {
        let i = choose|i: int| 0 <= i < top.len() && top[i] == ("logo"@, Tree::Table(t));
        assert(top[i].0 == "logo"@);
    }
    assert forall|i: int| 0 <= i < top.len() && is_control_section((#[trigger] top[i]).0) implies
        control_of(top[i].0) is Ok && c.mappings.dom().contains(control_of(top[i].0)->Ok_0) by {
        assert(section_fits(top[i]));
        lemma_in_section(top[i], control_of(top[i].0)->Ok_0, ActionView::ObsSaveReplay);
    }
    assert forall|id: ControlId| #[trigger] c.mappings.dom().contains(id) implies exists|i: int|
        0 <= i < top.len() && gives(#[trigger] top[i], id, c.mappings[id]) && forall|j: int|
            i < j < top.len() && is_control_section((#[trigger] top[j]).0) ==> control_of(top[j].0)
                != Ok::<ControlId, Complaint>(id) by {
        let i = choose|i: int| gives_last(top, top.len() as int, i, id, c.mappings[id]);
        lemma_in_section(top[i], id, c.mappings[id]);
        assert(gives(top[i], id, c.mappings[id]));
        assert forall|j: int| i < j < top.len() && is_control_section((#[trigger] top[j]).0) implies
            control_of(top[j].0) != Ok::<ControlId, Complaint>(id) by {
            lemma_in_section(top[j], id, ActionView::ObsSaveReplay);
            assert(control_in(top[j]) != Some(id));
        }
    }
}

/// A file is accepted exactly where each of its sections can be read, volume
/// actions stand on knobs and sliders and all others on buttons, and actions of
/// OBS come with an `[obs]` section.
pub proof fn law_files_are_accepted(top: Seq<(Seq<char>, Tree)>)
    requires
        keys_differ(top),
    ensures
        config_of(top) is Ok <==> {
            &&& forall|i: int| 0 <= i < top.len() ==> section_fits(#[trigger] top[i])
            &&& (exists|i: int| 0 <= i < top.len() && wants_obs(#[trigger] top[i])) ==> has_key(
                top,
                "obs"@,
            )
        },
{
    lemma_draft(top, top.len());
    if let Ok(d) = draft_after(top, top.len()) {
        assert(draft_holds(top, top.len() as int, d));
        assert forall|i: int| 0 <= i < top.len() implies for_obs(action_in(#[trigger] top[i]))
            == wants_obs(top[i]) by {
            lemma_in_section(top[i], ControlId::Knob(0), ActionView::ObsSaveReplay);
        }
        if has_key(top, "obs"@) {
            let i = choose|i: int| 0 <= i < top.len() && (#[trigger] top[i]).0 == "obs"@;
            assert(top[i].0 == "obs"@);
        }
    }
}

// ---------------------------------------------------------------------------
// What is rejected
// ---------------------------------------------------------------------------

/// Whether something was rejected with these words and no further cause.
pub open spec fn rejected<T>(r: Result<T, Complaint>, words: Seq<char>) -> bool {
    r is Err && r->Err_0.message == words && r->Err_0.cause is None
}

/// A section name that is that of no control is rejected by its name, and one
/// with a number that the panel does not have by the number.
pub proof fn law_unknown_controls_are_named(key: Seq<char>, n: u8, digits: Seq<char>)
    ensures
        (forall|rest: Seq<char>|
            key != "knob"@ + rest && key != "slider"@ + rest && key != #[trigger] ("button"@
                + rest)) ==> rejected(
            control_of(key),
            "unknown control: "@ + key + " (expected knob1-5, slider1-4, or button1-5)"@,
        ),
        byte_of(digits) == Some(n) && (n < 1 || n > 5) ==> {
            &&& rejected(
                control_of("knob"@ + digits),
                "knob number must be 1-5, got "@ + decimal(n as nat),
            )
            &&& rejected(
                control_of("button"@ + digits),
                "button number must be 1-5, got "@ + decimal(n as nat),
            )
        },
        byte_of(digits) == Some(n) && (n < 1 || n > 4) ==> rejected(
            control_of("slider"@ + digits),
            "slider number must be 1-4, got "@ + decimal(n as nat),
        ),
        byte_of(digits) is None ==> {
            let knob = control_of("knob"@ + digits);
            let slider = control_of("slider"@ + digits);
            let button = control_of("button"@ + digits);
            &&& knob is Err && knob->Err_0.message == "invalid knob number"@
            &&& slider is Err && slider->Err_0.message == "invalid slider number"@
            &&& button is Err && button->Err_0.message == "invalid button number"@
        },
{
    reveal_strlit("knob");
    reveal_strlit("slider");
    reveal_strlit("button");
    law_prefix_and_rest_are_the_text("knob"@ + digits, "knob"@, digits);
    law_prefix_and_rest_are_the_text("slider"@ + digits, "slider"@, digits);
    law_prefix_and_rest_are_the_text("button"@ + digits, "button"@, digits);
    if let Some(rest) = after_prefix("slider"@ + digits, "knob"@) {
        law_prefix_and_rest_are_the_text("slider"@ + digits, "knob"@, rest);
        assert(("slider"@ + digits)[0] == 's' && ("knob"@ + rest)[0] == 'k');
    }
    if let Some(rest) = after_prefix("button"@ + digits, "knob"@) {
        law_prefix_and_rest_are_the_text("button"@ + digits, "knob"@, rest);
        assert(("button"@ + digits)[0] == 'b' && ("knob"@ + rest)[0] == 'k');
    }
    if let Some(rest) = after_prefix("button"@ + digits, "slider"@) {
        law_prefix_and_rest_are_the_text("button"@ + digits, "slider"@, rest);
        assert(("button"@ + digits)[0] == 'b' && ("slider"@ + rest)[0] == 's');
    }
    if let Some(rest) = after_prefix(key, "knob"@) {
        law_prefix_and_rest_are_the_text(key, "knob"@, rest);
        assert("button"@ + rest == "button"@ + rest);
    }
    if let Some(rest) = after_prefix(key, "slider"@) {
        law_prefix_and_rest_are_the_text(key, "slider"@, rest);
        assert("button"@ + rest == "button"@ + rest);
    }
    if let Some(rest) = after_prefix(key, "button"@) {
        law_prefix_and_rest_are_the_text(key, "button"@, rest);
        assert("button"@ + rest == "button"@ + rest);
    }
}

/// A section of a control is rejected where it has no action or one that is
/// not known, where an action on apps has none, and where the action does not
/// belong on the control; the words name the section, and what was found.
pub proof fn law_rejected_actions_are_named(key: Seq<char>, t: Seq<(Seq<char>, Tree)>, d: Draft)
    requires
        keys_differ(t),
    ensures
        ({
            let r = action_of(key, t);
            let on_apps = t.contains(("action"@, Tree::Text("volume"@))) || t.contains(
                ("action"@, Tree::Text("toggle-mute"@)),
            );
            &&& !has_key(t, "action"@) ==> rejected(r, "["@ + key + "] missing \"action\" field"@)
            &&& on_apps && !has_key(t, "app"@) ==> rejected(
                r,
                "["@ + key + "] missing \"app\" field"@,
            )
            &&& on_apps && t.contains(("app"@, Tree::List(Seq::empty()))) ==> rejected(
                r,
                "["@ + key + "] app list cannot be empty"@,
            )
            &&& forall|v: Tree| #[trigger]
                t.contains(("app"@, v)) && on_apps ==> {
                    &&& !(v is Text) && !(v is List) ==> rejected(
                        r,
                        "["@ + key + "] \"app\" must be a string or array of strings"@,
                    )
                    &&& v is List && (exists|i: int|
                        0 <= i < v->List_0.len() && !(#[trigger] v->List_0[i] is Text)) ==> rejected(
                        r,
                        "["@ + key + "] app array entries must be strings"@,
                    )
                }
            &&& forall|a: Seq<char>| #[trigger]
                t.contains(("action"@, Tree::Text(a))) && a != "volume"@ && a != "toggle-mute"@ && a
                    != "obs-save-replay"@ && a != "obs-toggle-recording"@ && a
                    != "obs-pause-recording"@ && a != "obs-split-recording"@ ==> rejected(
                    r,
                    "["@ + key + "] unknown action: \""@ + a + "\""@,
                )
        }),
        control_of(key) is Ok && action_of(key, t) is Ok ==> {
            let r = with_control(d, key, t);
            let button = control_of(key)->Ok_0 is Button;
            let a = action_of(key, t)->Ok_0;
            &&& button && a is Volume ==> rejected(
                r,
                "["@ + key + "] volume controls cannot be assigned to buttons"@,
            )
            &&& !button && a is ToggleMute ==> rejected(
                r,
                "["@ + key + "] toggle-mute can only be assigned to buttons"@,
            )
            &&& !button && !(a is Volume) && !(a is ToggleMute) ==> rejected(
                r,
                "["@ + key + "] OBS actions can only be assigned to buttons"@,
            )
        },
{
    law_keys_lead_to_their_values(t, "action"@);
    law_keys_lead_to_their_values(t, "app"@);
}

/// A value of `[obs]`, `[logo]` or `[rgb]` that cannot be read is rejected by
/// its section and its key, with the value where that is the trouble.
pub proof fn law_rejected_values_are_named(t: Seq<(Seq<char>, Tree)>, n: i64, s: Seq<char>)
    requires
        keys_differ(t),
    ensures
        t.contains(("port"@, Tree::Integer(n))) && !(1 <= n <= 65535) ==> rejected(
            obs_of(t),
            "[obs] \"port\" must be in 1-65535, got "@ + signed_decimal(n as int),
        ),
        forall|v: Tree| #[trigger]
            t.contains(("port"@, v)) && !(v is Integer) ==> rejected(
                obs_of(t),
                "[obs] \"port\" must be an integer (1-65535)"@,
            ),
        forall|v: Tree| #[trigger]
            t.contains(("recording"@, v)) && !(v is Text) ==> rejected(
                obs_colors_of(t),
                "[obs.colors] \""@ + "recording"@ + "\" must be a hex color string"@,
            ),
        t.contains(("flash_duration_ms"@, Tree::Integer(n))) && n < 0 && color_fits(t, "recording"@)
            && color_fits(t, "recording_paused"@) && color_fits(t, "success_flash"@) && color_fits(
            t,
            "error_flash"@,
        ) ==> rejected(
            obs_colors_of(t),
            "[obs.colors] \"flash_duration_ms\" must be non-negative, got "@ + signed_decimal(
                n as int,
            ),
        ),
        t.contains(("indicator"@, Tree::Text(s))) && s != "none"@ && s != "mic"@ && s != "replay"@
            ==> rejected(logo_of(t), "[logo] unknown indicator: \""@ + s + "\""@),
        forall|v: Tree| #[trigger]
            t.contains(("indicator"@, v)) && !(v is Text) ==> rejected(
                logo_of(t),
                "[logo] \"indicator\" must be a string"@,
            ),
        !has_key(t, "mode"@) ==> rejected(rgb_of(t), "[rgb] missing \"mode\" field"@),
        t.contains(("mode"@, Tree::Text(s))) && s != "solid"@ && s != "rainbow"@ && s != "gradient"@
            && s != "volume-gradient"@ && s != "wave"@ && s != "breath"@ ==> rejected(
            rgb_of(t),
            "[rgb] unknown mode: \""@ + s + "\""@,
        ),
        t.contains(("mode"@, Tree::Text("wave"@))) && t.contains(("hue"@, Tree::Integer(n))) && !(0
            <= n <= 255) ==> rejected(
            rgb_of(t),
            "[rgb] \""@ + "hue"@ + "\" must be in 0-255, got "@ + signed_decimal(n as int),
        ),
{
    reveal_strlit("wave");
    reveal_strlit("solid");
    reveal_strlit("rainbow");
    reveal_strlit("gradient");
    reveal_strlit("volume-gradient");
    assert("wave"@[0] == 'w');
    assert("solid"@[0] == 's' && "rainbow"@[0] == 'r' && "gradient"@[0] == 'g'
        && "volume-gradient"@[0] == 'v');
    law_keys_lead_to_their_values(t, "port"@);
    law_keys_lead_to_their_values(t, "recording"@);
    law_keys_lead_to_their_values(t, "flash_duration_ms"@);
    law_keys_lead_to_their_values(t, "indicator"@);
    law_keys_lead_to_their_values(t, "mode"@);
    law_keys_lead_to_their_values(t, "hue"@);
    let d = crate::config::default_obs_colors();
    let intro = "[obs.colors] \""@;
    lemma_color_at(t, "recording"@, d.recording, intro);
    lemma_color_at(t, "recording_paused"@, d.paused, intro);
    lemma_color_at(t, "success_flash"@, d.success_flash, intro);
    lemma_color_at(t, "error_flash"@, d.error_flash, intro);
}

/// Texts are joined in their order, with the separator between each two and
/// nowhere else.
pub proof fn law_joined_texts_have_separators_between(
    parts: Seq<Seq<char>>,
    part: Seq<char>,
    separator: Seq<char>,
)
    ensures
        joined(Seq::empty(), separator).len() == 0,
        joined(seq![part], separator) == part,
        parts.len() > 0 ==> joined(parts.push(part), separator) == joined(parts, separator)
            + separator + part,
        parts.len() > 0 ==> joined(seq![part] + parts, separator) == part + separator + joined(
            parts,
            separator,
        ),
    decreases parts.len(),
{
    assert(parts.push(part).drop_last() =~= parts);
    if parts.len() > 0 {
        let all = seq![part] + parts;
        assert(all.drop_last() =~= seq![part] + parts.drop_last());
        assert(all.last() == parts.last());
        if parts.len() == 1 {
            assert(all.drop_last() =~= seq![part]);
            assert(joined(all.drop_last(), separator) == part);
            assert(joined(parts, separator) == parts[0]);
            assert(joined(all, separator) =~= part + separator + parts[0]);
        } else {
            law_joined_texts_have_separators_between(parts.drop_last(), part, separator);
            assert(joined(all, separator) =~= part + separator + joined(parts, separator));
        }
    }
}

/// Whether a table has a text under a key.
pub open spec fn has_text(t: Seq<(Seq<char>, Tree)>, key: Seq<char>) -> bool {
    exists|s: Seq<char>| #[trigger] t.contains((key, Tree::Text(s)))
}

/// An LED mode without what it needs is rejected by the mode and the key that
/// is missing; a number or a flag that is none, and a style that is not known,
/// by their keys.
pub proof fn law_rejected_modes_are_named(t: Seq<(Seq<char>, Tree)>, mode: Seq<char>, s: Seq<char>)
    requires
        keys_differ(t),
        t.contains(("mode"@, Tree::Text(mode))),
    ensures
        mode == "solid"@ && !has_text(t, "color"@) ==> rejected(
            rgb_of(t),
            "[rgb] solid mode requires a \"color\" field"@,
        ),
        mode == "rainbow"@ && t.contains(("style"@, Tree::Text(s))) && s != "horizontal"@ && s
            != "vertical"@ ==> rejected(rgb_of(t), "[rgb] unknown rainbow style: \""@ + s + "\""@),
        mode == "gradient"@ || mode == "volume-gradient"@ ==> {
            &&& !has_text(t, "color1"@) ==> rejected(
                rgb_of(t),
                "[rgb] "@ + mode + " mode requires \"color1\" field"@,
            )
            &&& has_text(t, "color1"@) && !has_text(t, "color2"@) ==> rejected(
                rgb_of(t),
                "[rgb] "@ + mode + " mode requires \"color2\" field"@,
            )
        },
        mode == "wave"@ || mode == "breath"@ ==> {
            &&& !has_key(t, "hue"@) ==> rejected(
                rgb_of(t),
                "[rgb] "@ + mode + " mode requires \""@ + "hue"@ + "\" field (0-255)"@,
            )
            &&& forall|n: i64, v: Tree|
                #![trigger t.contains(("hue"@, Tree::Integer(n))), t.contains(("brightness"@, v))]
                t.contains(("hue"@, Tree::Integer(n))) && 0 <= n <= 255 && t.contains(
                    ("brightness"@, v),
                ) ==> {
                    &&& !(v is Integer) ==> rejected(
                        rgb_of(t),
                        "[rgb] \""@ + "brightness"@ + "\" must be an integer (0-255)"@,
                    )
                    &&& v is Integer && !(0 <= v->Integer_0 <= 255) ==> rejected(
                        rgb_of(t),
                        "[rgb] \""@ + "brightness"@ + "\" must be in 0-255, got "@ + signed_decimal(
                            v->Integer_0 as int,
                        ),
                    )
                }
        },
{
    reveal_strlit("solid");
    reveal_strlit("rainbow");
    reveal_strlit("gradient");
    reveal_strlit("volume-gradient");
    reveal_strlit("wave");
    reveal_strlit("breath");
    assert("solid"@[0] == 's' && "rainbow"@[0] == 'r' && "gradient"@[0] == 'g'
        && "volume-gradient"@[0] == 'v' && "wave"@[0] == 'w' && "breath"@[0] == 'b');
    law_keys_lead_to_their_values(t, "mode"@);
    law_keys_lead_to_their_values(t, "color"@);
    law_keys_lead_to_their_values(t, "style"@);
    law_keys_lead_to_their_values(t, "color1"@);
    law_keys_lead_to_their_values(t, "color2"@);
    law_keys_lead_to_their_values(t, "hue"@);
    law_keys_lead_to_their_values(t, "brightness"@);
    lemma_has_text(t, "color"@);
    lemma_has_text(t, "color1"@);
    lemma_has_text(t, "color2"@);
}

proof fn lemma_has_text(t: Seq<(Seq<char>, Tree)>, key: Seq<char>)
    requires
        keys_differ(t),
    ensures
        has_text(t, key) <==> text_at(t, key) is Some,
{
    law_keys_lead_to_their_values(t, key);
    if let Some(s) = text_at(t, key) {
        assert(t.contains((key, Tree::Text(s))));
    }
}

/// A flag of `[obs]` that is none is rejected by its key, a text that is no
/// color by what it has in place of one, and a section that is no table by its
/// name; actions of OBS without an `[obs]` section by the controls that have
/// them.
pub proof fn law_other_rejections_are_named(
    t: Seq<(Seq<char>, Tree)>,
    s: Seq<char>,
    d: Draft,
    key: Seq<char>,
    v: Tree,
    top: Seq<(Seq<char>, Tree)>,
)
    requires
        keys_differ(t),
    ensures
        !has_key(t, "port"@) && t.contains(("start_replay_buffer"@, v)) && !(v is Boolean)
            ==> rejected(
            obs_of(t),
            "[obs] \""@ + "start_replay_buffer"@ + "\" must be a boolean"@,
        ),
        s.len() > 0 && s[0] != '#' && s.len() != 6 ==> rejected(
            color_of(s),
            "invalid color: expected 6 hex digits, got \""@ + s + "\""@,
        ),
        !(v is Table) ==> {
            &&& rejected(with_section(d, "rgb"@, v), "[rgb] must be a table"@)
            &&& rejected(with_section(d, "obs"@, v), "[obs] must be a table"@)
            &&& rejected(with_section(d, "logo"@, v), "[logo] must be a table"@)
            &&& is_control_section(key) ==> rejected(
                with_section(d, key, v),
                "["@ + key + "] expected a table"@,
            )
        },
        draft_after(top, top.len()) == Ok::<Draft, Complaint>(d) && d.obs_keys.len() > 0
            && d.config.obs is None ==> rejected(
            config_of(top),
            "OBS actions configured on ["@ + joined(d.obs_keys, "], ["@)
                + "] require an [obs] section"@,
        ),
{
    reveal_strlit("rgb");
    reveal_strlit("obs");
    reveal_strlit("logo");
    reveal_strlit("#");
    assert("rgb"@[0] == 'r' && "obs"@[0] == 'o' && "logo"@[0] == 'l');
    law_keys_lead_to_their_values(t, "port"@);
    law_keys_lead_to_their_values(t, "start_replay_buffer"@);
    if let Some(rest) = after_prefix(s, "#"@) {
        law_prefix_and_rest_are_the_text(s, "#"@, rest);
        assert(("#"@ + rest)[0] == '#');
    }
}

/// A row of texts is read text by text, in its order.
pub proof fn law_rows_of_texts_keep_their_order(v: Seq<String>, text: String)
    ensures
        texts(v).len() == v.len(),
        forall|i: int| 0 <= i < v.len() ==> #[trigger] texts(v)[i] == v[i]@,
        opt_text(Some(text)) == Some(text@) && opt_text(None) is None,
{
}

/// A file that is no TOML is rejected with the words of the TOML reader as the
/// cause; any other is read section by section.
pub proof fn law_unreadable_files_give_the_cause(content: Seq<char>)
    ensures
        match toml_document(content) {
            Err(reason) => config_of_text(content) == Err::<ConfigView, Complaint>(
                Complaint { message: "failed to parse config file"@, cause: Some(reason) },
            ),
            Ok(top) => config_of_text(content) == config_of(top),
        },
{
}

} // verus!
