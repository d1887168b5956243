//! The configuration file: what each control does, how the LEDs look and how
//! OBS is reached.
use vstd::prelude::*;
use vstd::string::*;

use crate::keys::{color_by_key, has_key, keys_differ, law_obs_colors_are_set_by_key};
use crate::mappings::Mappings;
use crate::settings::{
    fields, get, items, lemma_tree_parts, lookup, parse_toml, toml_document, tree, Setting, Tree,
};
use crate::text::{
    after_prefix, append_signed, byte_of, chars_of, decimal, decimal_error, digits_value,
    eq_ignore_ascii_case, hex_byte, hex_error, parse_hex_byte, parse_u8, same, same_ignoring_ascii_case,
    signed_decimal, strip_prefix,
};

verus! {

pub const DEFAULT_BRIGHTNESS: u8 = 200;

pub const DEFAULT_SPEED: u8 = 64;

/// The port on which obs-websocket listens unless it is told otherwise.
pub const DEFAULT_OBS_PORT: u16 = 4455;

/// What a control does when it is moved or pressed.
#[derive(Debug)]
pub enum Action {
    Volume { apps: Vec<String>, icon: Option<String> },
    ToggleMute { apps: Vec<String>, icon: Option<String> },
    ObsSaveReplay,
    ObsToggleRecording,
    ObsPauseRecording,
    ObsSplitRecording,
}

/// The content of an [`Action`].
pub enum ActionView {
    Volume { apps: Seq<Seq<char>>, icon: Option<Seq<char>> },
    ToggleMute { apps: Seq<Seq<char>>, icon: Option<Seq<char>> },
    ObsSaveReplay,
    ObsToggleRecording,
    ObsPauseRecording,
    ObsSplitRecording,
}

/// The texts of a list of strings.
pub open spec fn texts(v: Seq<String>) -> Seq<Seq<char>> {
    Seq::new(v.len(), |i: int| v[i]@)
}

/// The text of an optional string.
pub open spec fn opt_text(v: Option<String>) -> Option<Seq<char>> {
    match v {
        Some(s) => Some(s@),
        None => None,
    }
}

impl View for Action {
    type V = ActionView;

    open spec fn view(&self) -> ActionView {
        match *self {
            Action::Volume { apps, icon } => ActionView::Volume {
                apps: texts(apps@),
                icon: opt_text(icon),
            },
            Action::ToggleMute { apps, icon } => ActionView::ToggleMute {
                apps: texts(apps@),
                icon: opt_text(icon),
            },
            Action::ObsSaveReplay => ActionView::ObsSaveReplay,
            Action::ObsToggleRecording => ActionView::ObsToggleRecording,
            Action::ObsPauseRecording => ActionView::ObsPauseRecording,
            Action::ObsSplitRecording => ActionView::ObsSplitRecording,
        }
    }
}

impl ActionView {
    /// Whether the action is carried out by OBS.
    pub open spec fn is_obs(self) -> bool {
        !(self is Volume) && !(self is ToggleMute)
    }
}

impl Action {
    /// Whether an app name stands for the default audio output.
    pub fn is_system(app: &str) -> (r: bool)
        ensures
            r == same_ignoring_ascii_case(app@, "system"@),
    {
        eq_ignore_ascii_case(app, "system")
    }

    /// Whether an app name stands for the default microphone.
    pub fn is_mic(app: &str) -> (r: bool)
        ensures
            r == same_ignoring_ascii_case(app@, "mic"@),
    {
        eq_ignore_ascii_case(app, "mic")
    }

    /// Whether the action is carried out by OBS.
    pub fn is_obs(&self) -> (r: bool)
        ensures
            r == self@.is_obs(),
    {
        match self {
            Action::ObsSaveReplay
            | Action::ObsToggleRecording
            | Action::ObsPauseRecording
            | Action::ObsSplitRecording => true,
            Action::Volume { .. } | Action::ToggleMute { .. } => false,
        }
    }
}

/// What an app name in the configuration refers to.
#[derive(Debug)]
pub enum AppTarget {
    System,
    Mic,
    Named(String),
}

/// The content of an [`AppTarget`].
pub enum AppTargetView {
    System,
    Mic,
    Named(Seq<char>),
}

impl View for AppTarget {
    type V = AppTargetView;

    open spec fn view(&self) -> AppTargetView {
        match *self {
            AppTarget::System => AppTargetView::System,
            AppTarget::Mic => AppTargetView::Mic,
            AppTarget::Named(s) => AppTargetView::Named(s@),
        }
    }
}

/// What an app name refers to.
pub open spec fn target_of(app: Seq<char>) -> AppTargetView {
    if same_ignoring_ascii_case(app, "system"@) {
        AppTargetView::System
    } else if same_ignoring_ascii_case(app, "mic"@) {
        AppTargetView::Mic
    } else {
        AppTargetView::Named(app)
    }
}

impl AppTargetView {
    /// The name under which the target is shown.
    pub open spec fn label(self) -> Seq<char> {
        match self {
            AppTargetView::System => "system"@,
            AppTargetView::Mic => "mic"@,
            AppTargetView::Named(s) => s,
        }
    }
}

impl AppTarget {
    /// What an app name of the configuration refers to.
    pub fn from_app(app: &str) -> (r: AppTarget)
        ensures
            r@ == target_of(app@),
    {
        if Action::is_system(app) {
            AppTarget::System
        } else if Action::is_mic(app) {
            AppTarget::Mic
        } else {
            AppTarget::Named(app.to_owned())
        }
    }

    /// The name under which the target is shown.
    pub fn label(&self) -> (r: &str)
        ensures
            r@ == self@.label(),
    {
        match self {
            AppTarget::System => "system",
            AppTarget::Mic => "mic",
            AppTarget::Named(s) => s.as_str(),
        }
    }
}

/// A control of the panel, counted from zero within its kind.
#[derive(Debug, Clone, Copy, PartialEq, Eq, Hash, Structural)]
pub enum ControlId {
    Knob(u8),
    Slider(u8),
    Button(u8),
}

impl ControlId {
    /// Whether the control is a button.
    pub fn is_button(self) -> (r: bool)
        ensures
            r == (self is Button),
    {
        match self {
            ControlId::Button(_) => true,
            _ => false,
        }
    }

    /// Whether the panel has this control.
    pub open spec fn exists_on_panel(self) -> bool {
        match self {
            ControlId::Knob(i) => i < 5,
            ControlId::Slider(i) => i < 4,
            ControlId::Button(i) => i < 5,
        }
    }
}

#[derive(Debug, Clone, Copy, PartialEq, Eq, Structural)]
pub enum RainbowStyle {
    Horizontal,
    Vertical,
}

#[derive(Debug, Clone, Copy, PartialEq, Eq, Structural)]
pub struct RgbColor {
    pub r: u8,
    pub g: u8,
    pub b: u8,
}

/// The appearance of the panel while OBS is not connected.
#[derive(Debug, Clone, Copy, PartialEq, Eq, Structural)]
pub enum RgbMode {
    Solid { r: u8, g: u8, b: u8 },
    Rainbow { style: RainbowStyle },
    Gradient { color1: RgbColor, color2: RgbColor },
    VolumeGradient { color1: RgbColor, color2: RgbColor },
    Wave { hue: u8, brightness: u8, speed: u8, reverse: bool, bounce: bool },
    Breath { hue: u8, brightness: u8, speed: u8 },
}

/// Which state the logo LED shows.
#[derive(Debug, Clone, Copy, PartialEq, Eq, Structural)]
pub enum LogoIndicator {
    /// The logo matches the panel.
    Off,
    Mic,
    Replay,
}

/// The logo indicator and its colors.
#[derive(Debug, Clone, Copy, PartialEq, Eq, Structural)]
pub struct LogoConfig {
    pub indicator: LogoIndicator,
    pub mic_muted: RgbColor,
    pub mic_unmuted: RgbColor,
    /// Shown blinking while the microphone state is not confirmed.
    pub mic_unknown: RgbColor,
    pub replay_active: RgbColor,
    pub replay_inactive: RgbColor,
}

/// The logo settings that hold where the file says nothing.
pub open spec fn default_logo() -> LogoConfig {
    LogoConfig {
        indicator: LogoIndicator::Off,
        mic_muted: RgbColor { r: 0xFF, g: 0x00, b: 0x00 },
        mic_unmuted: RgbColor { r: 0x00, g: 0xFF, b: 0x00 },
        mic_unknown: RgbColor { r: 0x80, g: 0x40, b: 0x00 },
        replay_active: RgbColor { r: 0x00, g: 0xFF, b: 0xFF },
        replay_inactive: RgbColor { r: 0x00, g: 0x00, b: 0x00 },
    }
}

impl Default for LogoConfig {
    fn default() -> (r: Self)
        ensures
            r == default_logo(),
    {
        LogoConfig {
            indicator: LogoIndicator::Off,
            mic_muted: RgbColor { r: 0xFF, g: 0x00, b: 0x00 },
            mic_unmuted: RgbColor { r: 0x00, g: 0xFF, b: 0x00 },
            mic_unknown: RgbColor { r: 0x80, g: 0x40, b: 0x00 },
            replay_active: RgbColor { r: 0x00, g: 0xFF, b: 0xFF },
            replay_inactive: RgbColor { r: 0x00, g: 0x00, b: 0x00 },
        }
    }
}

/// The colors that reflect the state of OBS.
#[derive(Debug, Clone, Copy, PartialEq, Eq, Structural)]
pub struct ObsColors {
    pub recording: RgbColor,
    pub paused: RgbColor,
    pub success_flash: RgbColor,
    pub error_flash: RgbColor,
    pub flash_duration_ms: u64,
    /// The panel while OBS is connected and idle.
    pub idle_panel: RgbColor,
}

/// The OBS colors that hold where the file says nothing.
pub open spec fn default_obs_colors() -> ObsColors {
    ObsColors {
        recording: RgbColor { r: 0x50, g: 0x00, b: 0x00 },
        paused: RgbColor { r: 0xFF, g: 0xC0, b: 0x00 },
        success_flash: RgbColor { r: 0x00, g: 0xFF, b: 0x00 },
        error_flash: RgbColor { r: 0xFF, g: 0x00, b: 0xFF },
        flash_duration_ms: 500,
        idle_panel: RgbColor { r: 0x20, g: 0x20, b: 0x20 },
    }
}

impl Default for ObsColors {
    fn default() -> (r: Self)
        ensures
            r == default_obs_colors(),
    {
        ObsColors {
            // The red of the panel is compressed at the high end: from 0x80
            // on it reads as full red, while 0x50 is visibly dimmer.
            recording: RgbColor { r: 0x50, g: 0x00, b: 0x00 },
            paused: RgbColor { r: 0xFF, g: 0xC0, b: 0x00 },
            success_flash: RgbColor { r: 0x00, g: 0xFF, b: 0x00 },
            error_flash: RgbColor { r: 0xFF, g: 0x00, b: 0xFF },
            flash_duration_ms: 500,
            idle_panel: RgbColor { r: 0x20, g: 0x20, b: 0x20 },
        }
    }
}

/// How OBS is reached and what happens on a connection.
#[derive(Debug, Clone)]
pub struct ObsConfig {
    pub host: String,
    pub port: u16,
    pub password: Option<String>,
    /// Start the replay buffer on every successful connection.
    pub start_replay_buffer: bool,
    /// Render a paused recording as a breath animation of the whole panel.
    pub paused_use_breath: bool,
    /// Set the OBS canvas to the monitor resolution before an output starts.
    pub match_canvas_to_display: bool,
    /// The connector name of the monitor to match.
    pub capture_display: Option<String>,
    pub colors: ObsColors,
}

/// The content of an [`ObsConfig`].
pub struct ObsConfigView {
    pub host: Seq<char>,
    pub port: u16,
    pub password: Option<Seq<char>>,
    pub start_replay_buffer: bool,
    pub paused_use_breath: bool,
    pub match_canvas_to_display: bool,
    pub capture_display: Option<Seq<char>>,
    pub colors: ObsColors,
}

impl View for ObsConfig {
    type V = ObsConfigView;

    open spec fn view(&self) -> ObsConfigView {
        ObsConfigView {
            host: self.host@,
            port: self.port,
            password: opt_text(self.password),
            start_replay_buffer: self.start_replay_buffer,
            paused_use_breath: self.paused_use_breath,
            match_canvas_to_display: self.match_canvas_to_display,
            capture_display: opt_text(self.capture_display),
            colors: self.colors,
        }
    }
}

/// Why a configuration was rejected.
#[derive(Debug)]
pub struct ConfigError {
    pub message: String,
    /// Why a text could not be read, where that is the reason.
    pub cause: Option<String>,
}

/// The content of a [`ConfigError`].
#[verifier::ext_equal]
pub struct Complaint {
    pub message: Seq<char>,
    pub cause: Option<Seq<char>>,
}

/// A complaint that says all by itself.
pub open spec fn plain(message: Seq<char>) -> Complaint {
    Complaint { message, cause: None }
}

/// A complaint that rests on another.
pub open spec fn because(message: Seq<char>, cause: Seq<char>) -> Complaint {
    Complaint { message, cause: Some(cause) }
}

impl View for ConfigError {
    type V = Complaint;

    open spec fn view(&self) -> Complaint {
        Complaint { message: self.message@, cause: opt_text(self.cause) }
    }
}

impl ConfigError {
    /// The message for the user.
    pub fn to_string(&self) -> (r: String)
        ensures
            r@ == self@.message,
    {
        self.message.clone()
    }
}

/// Whether an outcome is the one that `expected` describes: the same value,
/// or an error with the same content.
pub open spec fn agrees<T>(r: Result<T, ConfigError>, expected: Result<T, Complaint>) -> bool {
    match r {
        Ok(v) => expected == Ok::<T, Complaint>(v),
        Err(e) => expected == Err::<T, Complaint>(e@),
    }
}

/// [`agrees`] for values that are compared by their content.
pub open spec fn agrees_by_view<T: View>(
    r: Result<T, ConfigError>,
    expected: Result<T::V, Complaint>,
) -> bool {
    match r {
        Ok(v) => expected == Ok::<T::V, Complaint>(v@),
        Err(e) => expected == Err::<T::V, Complaint>(e@),
    }
}

fn fail(a: &str) -> (r: ConfigError)
    ensures
        r@ == plain(a@),
{
    ConfigError { message: a.to_owned(), cause: None }
}

fn fail3(a: &str, b: &str, c: &str) -> (r: ConfigError)
    ensures
        r@ == plain(a@ + b@ + c@),
{
    let mut message = a.to_owned();
    message.append(b);
    message.append(c);
    ConfigError { message, cause: None }
}

fn fail5(a: &str, b: &str, c: &str, d: &str, e: &str) -> (r: ConfigError)
    ensures
        r@ == plain(a@ + b@ + c@ + d@ + e@),
{
    let mut message = a.to_owned();
    message.append(b);
    message.append(c);
    message.append(d);
    message.append(e);
    ConfigError { message, cause: None }
}

fn fail_because(a: &str, cause: String) -> (r: ConfigError)
    ensures
        r@ == because(a@, cause@),
{
    ConfigError { message: a.to_owned(), cause: Some(cause) }
}

fn fail_number(a: &str, n: i64) -> (r: ConfigError)
    ensures
        r@ == plain(a@ + signed_decimal(n as int)),
{
    let mut message = a.to_owned();
    append_signed(&mut message, n);
    ConfigError { message, cause: None }
}

// ---------------------------------------------------------------------------
// Names of controls
// ---------------------------------------------------------------------------

/// The control of one kind that a number names, or the complaint.
pub open spec fn numbered(
    number: Seq<char>,
    most: u8,
    invalid: Seq<char>,
    out_of_range: Seq<char>,
) -> Result<u8, Complaint> {
    match byte_of(number) {
        None => Err(because(invalid, decimal_error(number))),
        Some(n) => if 1 <= n && n <= most {
            Ok((n - 1) as u8)
        } else {
            Err(plain(out_of_range + signed_decimal(n as int)))
        },
    }
}

/// The control that a section name stands for: the kind of control and its
/// number, which may have a plus sign and leading zeros.
pub open spec fn control_of(key: Seq<char>) -> Result<ControlId, Complaint> {
    if let Some(n) = after_prefix(key, "knob"@) {
        match numbered(n, 5, "invalid knob number"@, "knob number must be 1-5, got "@) {
            Ok(i) => Ok(ControlId::Knob(i)),
            Err(e) => Err(e),
        }
    } else if let Some(n) = after_prefix(key, "slider"@) {
        match numbered(n, 4, "invalid slider number"@, "slider number must be 1-4, got "@) {
            Ok(i) => Ok(ControlId::Slider(i)),
            Err(e) => Err(e),
        }
    } else if let Some(n) = after_prefix(key, "button"@) {
        match numbered(n, 5, "invalid button number"@, "button number must be 1-5, got "@) {
            Ok(i) => Ok(ControlId::Button(i)),
            Err(e) => Err(e),
        }
    } else {
        Err(plain("unknown control: "@ + key + " (expected knob1-5, slider1-4, or button1-5)"@))
    }
}

fn parse_numbered(number: &str, most: u8, invalid: &str, out_of_range: &str) -> (r: Result<
    u8,
    ConfigError,
>)
    ensures
        agrees(r, numbered(number@, most, invalid@, out_of_range@)),
{
    match parse_u8(number) {
        Err(words) => Err(fail_because(invalid, words)),
        Ok(n) => if 1 <= n && n <= most {
            Ok(n - 1)
        } else {
            Err(fail_number(out_of_range, n as i64))
        },
    }
}

/// The control that a section name stands for.
pub fn parse_control_id(key: &str) -> (r: Result<ControlId, ConfigError>)
    ensures
        agrees(r, control_of(key@)),
{
    if let Some(n) = strip_prefix(key, "knob") {
        return match parse_numbered(n, 5, "invalid knob number", "knob number must be 1-5, got ") {
            Ok(i) => Ok(ControlId::Knob(i)),
            Err(e) => Err(e),
        };
    }
    if let Some(n) = strip_prefix(key, "slider") {
        return match parse_numbered(
            n,
            4,
            "invalid slider number",
            "slider number must be 1-4, got ",
        ) {
            Ok(i) => Ok(ControlId::Slider(i)),
            Err(e) => Err(e),
        };
    }
    if let Some(n) = strip_prefix(key, "button") {
        return match parse_numbered(
            n,
            5,
            "invalid button number",
            "button number must be 1-5, got ",
        ) {
            Ok(i) => Ok(ControlId::Button(i)),
            Err(e) => Err(e),
        };
    }
    Err(fail3("unknown control: ", key, " (expected knob1-5, slider1-4, or button1-5)"))
}

// ---------------------------------------------------------------------------
// Colors and numbers
// ---------------------------------------------------------------------------

/// The color that a text denotes: six hexadecimal digits behind an optional
/// `#`, two for each of red, green and blue. A plus sign may stand for the
/// first digit of a pair that is below 16.
pub open spec fn color_bytes(s: Seq<char>) -> Result<(u8, u8, u8), Complaint> {
    let d = match after_prefix(s, "#"@) {
        Some(rest) => rest,
        None => s,
    };
    if d.len() != 6 || !vstd::utf8::is_ascii_chars(d) {
        Err(plain("invalid color: expected 6 hex digits, got \""@ + d + "\""@))
    } else {
        match (hex_byte(d[0], d[1]), hex_byte(d[2], d[3]), hex_byte(d[4], d[5])) {
            (None, _, _) => Err(because("invalid red component"@, hex_error(d.subrange(0, 2)))),
            (_, None, _) => Err(because("invalid green component"@, hex_error(d.subrange(2, 4)))),
            (_, _, None) => Err(because("invalid blue component"@, hex_error(d.subrange(4, 6)))),
            (Some(r), Some(g), Some(b)) => Ok((r, g, b)),
        }
    }
}

/// [`color_bytes`] as a color.
pub open spec fn color_of(s: Seq<char>) -> Result<RgbColor, Complaint> {
    match color_bytes(s) {
        Ok((r, g, b)) => Ok(RgbColor { r, g, b }),
        Err(e) => Err(e),
    }
}

/// Reads a color in hexadecimal notation.
pub fn parse_hex_color(s: &str) -> (res: Result<(u8, u8, u8), ConfigError>)
    ensures
        agrees(res, color_bytes(s@)),
{
    let d = match strip_prefix(s, "#") {
        Some(rest) => rest,
        None => s,
    };
    let v = chars_of(d);
    if v.len() != 6 || !d.is_ascii() {
        return Err(fail3("invalid color: expected 6 hex digits, got \"", d, "\""));
    }
    let r = match parse_hex_byte(d.substring_char(0, 2)) {
        Ok(x) => x,
        Err(words) => {
            return Err(fail_because("invalid red component", words));
        },
    };
    let g = match parse_hex_byte(d.substring_char(2, 4)) {
        Ok(x) => x,
        Err(words) => {
            return Err(fail_because("invalid green component", words));
        },
    };
    let b = match parse_hex_byte(d.substring_char(4, 6)) {
        Ok(x) => x,
        Err(words) => {
            return Err(fail_because("invalid blue component", words));
        },
    };
    Ok((r, g, b))
}

fn parse_color(s: &str) -> (res: Result<RgbColor, ConfigError>)
    ensures
        agrees(res, color_of(s@)),
{
    match parse_hex_color(s) {
        Ok((r, g, b)) => Ok(RgbColor { r, g, b }),
        Err(e) => Err(e),
    }
}

/// A number of a field as a byte.
pub open spec fn byte_in_range(n: int, field: Seq<char>) -> Result<u8, Complaint> {
    if 0 <= n <= 255 {
        Ok(n as u8)
    } else {
        Err(plain("[rgb] \""@ + field + "\" must be in 0-255, got "@ + signed_decimal(n)))
    }
}

/// Checks that a number of a field is a byte.
pub fn range_check_u8(n: i64, field: &str) -> (r: Result<u8, ConfigError>)
    ensures
        agrees(r, byte_in_range(n as int, field@)),
{
    if n < 0 || n > 255 {
        let mut message = "[rgb] \"".to_owned();
        message.append(field);
        message.append("\" must be in 0-255, got ");
        append_signed(&mut message, n);
        return Err(ConfigError { message, cause: None });
    }
    Ok(n as u8)
}

// ---------------------------------------------------------------------------
// Fields of a section
// ---------------------------------------------------------------------------

/// The text under a key; `None` where the key is absent or holds no text.
pub open spec fn text_at(t: Seq<(Seq<char>, Tree)>, key: Seq<char>) -> Option<Seq<char>> {
    match lookup(t, key) {
        Some(Tree::Text(s)) => Some(s),
        _ => None,
    }
}

fn text_field<'a>(t: &'a Vec<(String, Setting)>, key: &str) -> (r: Option<&'a str>)
    ensures
        match r {
            Some(s) => text_at(fields(t@), key@) == Some(s@),
            None => text_at(fields(t@), key@) is None,
        },
{
    match get(t, key) {
        Some(Setting::Text(s)) => Some(s.as_str()),
        _ => None,
    }
}

/// An optional text as an owned string.
fn owned(s: Option<&str>) -> (r: Option<String>)
    ensures
        match s {
            Some(x) => opt_text(r) == Some(x@),
            None => r is None,
        },
{
    match s {
        Some(x) => Some(x.to_owned()),
        None => None,
    }
}

/// A flag of a section, `default` where it is absent. `intro` begins the
/// message of the error: the section's name and an opening quote.
pub open spec fn flag_at(
    t: Seq<(Seq<char>, Tree)>,
    key: Seq<char>,
    default: bool,
    intro: Seq<char>,
) -> Result<bool, Complaint> {
    match lookup(t, key) {
        None => Ok(default),
        Some(Tree::Boolean(b)) => Ok(b),
        Some(_) => Err(plain(intro + key + "\" must be a boolean"@)),
    }
}

fn parse_flag(t: &Vec<(String, Setting)>, key: &str, default: bool, intro: &str) -> (r: Result<
    bool,
    ConfigError,
>)
    ensures
        agrees(r, flag_at(fields(t@), key@, default, intro@)),
{
    match get(t, key) {
        None => Ok(default),
        Some(Setting::Boolean(b)) => Ok(*b),
        Some(_) => Err(fail3(intro, key, "\" must be a boolean")),
    }
}

/// A color of a section, `default` where it is absent.
pub open spec fn color_at(
    t: Seq<(Seq<char>, Tree)>,
    key: Seq<char>,
    default: RgbColor,
    intro: Seq<char>,
) -> Result<RgbColor, Complaint> {
    match lookup(t, key) {
        None => Ok(default),
        Some(Tree::Text(s)) => color_of(s),
        Some(_) => Err(plain(intro + key + "\" must be a hex color string"@)),
    }
}

fn parse_color_field(
    t: &Vec<(String, Setting)>,
    key: &str,
    default: RgbColor,
    intro: &str,
) -> (r: Result<RgbColor, ConfigError>)
    ensures
        agrees(r, color_at(fields(t@), key@, default, intro@)),
{
    match get(t, key) {
        None => Ok(default),
        Some(Setting::Text(s)) => parse_color(s.as_str()),
        Some(_) => Err(fail3(intro, key, "\" must be a hex color string")),
    }
}

// ---------------------------------------------------------------------------
// The [rgb] section
// ---------------------------------------------------------------------------

/// The two colors of a gradient mode.
pub open spec fn two_colors(t: Seq<(Seq<char>, Tree)>, mode: Seq<char>) -> Result<
    (RgbColor, RgbColor),
    Complaint,
> {
    match (text_at(t, "color1"@), text_at(t, "color2"@)) {
        (None, _) => Err(plain("[rgb] "@ + mode + " mode requires \"color1\" field"@)),
        (_, None) => Err(plain("[rgb] "@ + mode + " mode requires \"color2\" field"@)),
        (Some(a), Some(b)) => match (color_of(a), color_of(b)) {
            (Err(e), _) => Err(e),
            (_, Err(e)) => Err(e),
            (Ok(c1), Ok(c2)) => Ok((c1, c2)),
        },
    }
}

/// A byte that a mode cannot do without.
pub open spec fn byte_required(
    t: Seq<(Seq<char>, Tree)>,
    field: Seq<char>,
    mode: Seq<char>,
) -> Result<u8, Complaint> {
    match lookup(t, field) {
        Some(Tree::Integer(n)) => byte_in_range(n as int, field),
        _ => Err(plain("[rgb] "@ + mode + " mode requires \""@ + field + "\" field (0-255)"@)),
    }
}

/// A byte of a mode, `default` where it is absent.
pub open spec fn byte_or(t: Seq<(Seq<char>, Tree)>, field: Seq<char>, default: u8) -> Result<
    u8,
    Complaint,
> {
    match lookup(t, field) {
        None => Ok(default),
        Some(Tree::Integer(n)) => byte_in_range(n as int, field),
        Some(_) => Err(plain("[rgb] \""@ + field + "\" must be an integer (0-255)"@)),
    }
}

/// The wave mode that a section describes.
pub open spec fn wave_of(t: Seq<(Seq<char>, Tree)>) -> Result<RgbMode, Complaint> {
    match byte_required(t, "hue"@, "wave"@) {
        Err(e) => Err(e),
        Ok(hue) => match byte_or(t, "brightness"@, DEFAULT_BRIGHTNESS) {
            Err(e) => Err(e),
            Ok(brightness) => match byte_or(t, "speed"@, DEFAULT_SPEED) {
                Err(e) => Err(e),
                Ok(speed) => match flag_at(t, "reverse"@, false, "[rgb] \""@) {
                    Err(e) => Err(e),
                    Ok(reverse) => match flag_at(t, "bounce"@, false, "[rgb] \""@) {
                        Err(e) => Err(e),
                        Ok(bounce) => Ok(
                            RgbMode::Wave { hue, brightness, speed, reverse, bounce },
                        ),
                    },
                },
            },
        },
    }
}

/// The breath mode that a section describes.
pub open spec fn breath_of(t: Seq<(Seq<char>, Tree)>) -> Result<RgbMode, Complaint> {
    match byte_required(t, "hue"@, "breath"@) {
        Err(e) => Err(e),
        Ok(hue) => match byte_or(t, "brightness"@, DEFAULT_BRIGHTNESS) {
            Err(e) => Err(e),
            Ok(brightness) => match byte_or(t, "speed"@, DEFAULT_SPEED) {
                Err(e) => Err(e),
                Ok(speed) => Ok(RgbMode::Breath { hue, brightness, speed }),
            },
        },
    }
}

/// The LED mode that the `[rgb]` section describes.
pub open spec fn rgb_of(t: Seq<(Seq<char>, Tree)>) -> Result<RgbMode, Complaint> {
    match text_at(t, "mode"@) {
        None => Err(plain("[rgb] missing \"mode\" field"@)),
        Some(mode) => if mode == "solid"@ {
            match text_at(t, "color"@) {
                None => Err(plain("[rgb] solid mode requires a \"color\" field"@)),
                Some(s) => match color_bytes(s) {
                    Err(e) => Err(e),
                    Ok((r, g, b)) => Ok(RgbMode::Solid { r, g, b }),
                },
            }
        } else if mode == "rainbow"@ {
            match text_at(t, "style"@) {
                None => Ok(RgbMode::Rainbow { style: RainbowStyle::Horizontal }),
                Some(style) => if style == "horizontal"@ {
                    Ok(RgbMode::Rainbow { style: RainbowStyle::Horizontal })
                } else if style == "vertical"@ {
                    Ok(RgbMode::Rainbow { style: RainbowStyle::Vertical })
                } else {
                    Err(plain("[rgb] unknown rainbow style: \""@ + style + "\""@))
                },
            }
        } else if mode == "gradient"@ {
            match two_colors(t, "gradient"@) {
                Err(e) => Err(e),
                Ok((color1, color2)) => Ok(RgbMode::Gradient { color1, color2 }),
            }
        } else if mode == "volume-gradient"@ {
            match two_colors(t, "volume-gradient"@) {
                Err(e) => Err(e),
                Ok((color1, color2)) => Ok(RgbMode::VolumeGradient { color1, color2 }),
            }
        } else if mode == "wave"@ {
            wave_of(t)
        } else if mode == "breath"@ {
            breath_of(t)
        } else {
            Err(plain("[rgb] unknown mode: \""@ + mode + "\""@))
        },
    }
}

fn parse_two_colors(t: &Vec<(String, Setting)>, mode_name: &str) -> (r: Result<
    (RgbColor, RgbColor),
    ConfigError,
>)
    ensures
        agrees(r, two_colors(fields(t@), mode_name@)),
{
    let color1 = match text_field(t, "color1") {
        Some(s) => s,
        None => {
            return Err(fail3("[rgb] ", mode_name, " mode requires \"color1\" field"));
        },
    };
    let color2 = match text_field(t, "color2") {
        Some(s) => s,
        None => {
            return Err(fail3("[rgb] ", mode_name, " mode requires \"color2\" field"));
        },
    };
    let c1 = match parse_color(color1) {
        Ok(c) => c,
        Err(e) => {
            return Err(e);
        },
    };
    match parse_color(color2) {
        Ok(c2) => Ok((c1, c2)),
        Err(e) => Err(e),
    }
}

fn parse_u8_required(t: &Vec<(String, Setting)>, field: &str, mode_name: &str) -> (r: Result<
    u8,
    ConfigError,
>)
    ensures
        agrees(r, byte_required(fields(t@), field@, mode_name@)),
{
    match get(t, field) {
        Some(Setting::Integer(n)) => range_check_u8(*n, field),
        _ => Err(fail5("[rgb] ", mode_name, " mode requires \"", field, "\" field (0-255)")),
    }
}

fn parse_u8_with_default(t: &Vec<(String, Setting)>, field: &str, default: u8) -> (r: Result<
    u8,
    ConfigError,
>)
    ensures
        agrees(r, byte_or(fields(t@), field@, default)),
{
    match get(t, field) {
        None => Ok(default),
        Some(Setting::Integer(n)) => range_check_u8(*n, field),
        Some(_) => Err(fail3("[rgb] \"", field, "\" must be an integer (0-255)")),
    }
}

fn parse_wave(t: &Vec<(String, Setting)>) -> (r: Result<RgbMode, ConfigError>)
    ensures
        agrees(r, wave_of(fields(t@))),
{
    let hue = match parse_u8_required(t, "hue", "wave") {
        Ok(x) => x,
        Err(e) => {
            return Err(e);
        },
    };
    let brightness = match parse_u8_with_default(t, "brightness", DEFAULT_BRIGHTNESS) {
        Ok(x) => x,
        Err(e) => {
            return Err(e);
        },
    };
    let speed = match parse_u8_with_default(t, "speed", DEFAULT_SPEED) {
        Ok(x) => x,
        Err(e) => {
            return Err(e);
        },
    };
    let reverse = match parse_flag(t, "reverse", false, "[rgb] \"") {
        Ok(x) => x,
        Err(e) => {
            return Err(e);
        },
    };
    match parse_flag(t, "bounce", false, "[rgb] \"") {
        Ok(bounce) => Ok(RgbMode::Wave { hue, brightness, speed, reverse, bounce }),
        Err(e) => Err(e),
    }
}

fn parse_breath(t: &Vec<(String, Setting)>) -> (r: Result<RgbMode, ConfigError>)
    ensures
        agrees(r, breath_of(fields(t@))),
{
    let hue = match parse_u8_required(t, "hue", "breath") {
        Ok(x) => x,
        Err(e) => {
            return Err(e);
        },
    };
    let brightness = match parse_u8_with_default(t, "brightness", DEFAULT_BRIGHTNESS) {
        Ok(x) => x,
        Err(e) => {
            return Err(e);
        },
    };
    match parse_u8_with_default(t, "speed", DEFAULT_SPEED) {
        Ok(speed) => Ok(RgbMode::Breath { hue, brightness, speed }),
        Err(e) => Err(e),
    }
}

/// Reads the `[rgb]` section.
pub fn parse_rgb_section(t: &Vec<(String, Setting)>) -> (r: Result<RgbMode, ConfigError>)
    ensures
        agrees(r, rgb_of(fields(t@))),
{
    let mode = match text_field(t, "mode") {
        Some(m) => m,
        None => {
            return Err(fail("[rgb] missing \"mode\" field"));
        },
    };
    if same(mode, "solid") {
        match text_field(t, "color") {
            None => Err(fail("[rgb] solid mode requires a \"color\" field")),
            Some(s) => match parse_hex_color(s) {
                Err(e) => Err(e),
                Ok((r, g, b)) => Ok(RgbMode::Solid { r, g, b }),
            },
        }
    } else if same(mode, "rainbow") {
        match text_field(t, "style") {
            None => Ok(RgbMode::Rainbow { style: RainbowStyle::Horizontal }),
            Some(style) => if same(style, "horizontal") {
                Ok(RgbMode::Rainbow { style: RainbowStyle::Horizontal })
            } else if same(style, "vertical") {
                Ok(RgbMode::Rainbow { style: RainbowStyle::Vertical })
            } else {
                Err(fail3("[rgb] unknown rainbow style: \"", style, "\""))
            },
        }
    } else if same(mode, "gradient") {
        match parse_two_colors(t, "gradient") {
            Err(e) => Err(e),
            Ok((color1, color2)) => Ok(RgbMode::Gradient { color1, color2 }),
        }
    } else if same(mode, "volume-gradient") {
        match parse_two_colors(t, "volume-gradient") {
            Err(e) => Err(e),
            Ok((color1, color2)) => Ok(RgbMode::VolumeGradient { color1, color2 }),
        }
    } else if same(mode, "wave") {
        parse_wave(t)
    } else if same(mode, "breath") {
        parse_breath(t)
    } else {
        Err(fail3("[rgb] unknown mode: \"", mode, "\""))
    }
}

// ---------------------------------------------------------------------------
// The [logo] section
// ---------------------------------------------------------------------------

/// The indicator that the `[logo]` section selects.
pub open spec fn indicator_of(t: Seq<(Seq<char>, Tree)>) -> Result<LogoIndicator, Complaint> {
    match lookup(t, "indicator"@) {
        None => Ok(LogoIndicator::Off),
        Some(Tree::Text(s)) => if s == "none"@ {
            Ok(LogoIndicator::Off)
        } else if s == "mic"@ {
            Ok(LogoIndicator::Mic)
        } else if s == "replay"@ {
            Ok(LogoIndicator::Replay)
        } else {
            Err(plain("[logo] unknown indicator: \""@ + s + "\""@))
        },
        Some(_) => Err(plain("[logo] \"indicator\" must be a string"@)),
    }
}

/// The logo settings that the `[logo]` section describes.
pub open spec fn logo_of(t: Seq<(Seq<char>, Tree)>) -> Result<LogoConfig, Complaint> {
    let d = default_logo();
    let intro = "[logo] \""@;
    match indicator_of(t) {
        Err(e) => Err(e),
        Ok(indicator) => match color_at(t, "mic_muted"@, d.mic_muted, intro) {
            Err(e) => Err(e),
            Ok(mic_muted) => match color_at(t, "mic_unmuted"@, d.mic_unmuted, intro) {
                Err(e) => Err(e),
                Ok(mic_unmuted) => match color_at(t, "mic_unknown"@, d.mic_unknown, intro) {
                    Err(e) => Err(e),
                    Ok(mic_unknown) => match color_at(
                        t,
                        "replay_active"@,
                        d.replay_active,
                        intro,
                    ) {
                        Err(e) => Err(e),
                        Ok(replay_active) => match color_at(
                            t,
                            "replay_inactive"@,
                            d.replay_inactive,
                            intro,
                        ) {
                            Err(e) => Err(e),
                            Ok(replay_inactive) => Ok(
                                LogoConfig {
                                    indicator,
                                    mic_muted,
                                    mic_unmuted,
                                    mic_unknown,
                                    replay_active,
                                    replay_inactive,
                                },
                            ),
                        },
                    },
                },
            },
        },
    }
}

fn parse_indicator(t: &Vec<(String, Setting)>) -> (r: Result<LogoIndicator, ConfigError>)
    ensures
        agrees(r, indicator_of(fields(t@))),
{
    match get(t, "indicator") {
        None => Ok(LogoIndicator::Off),
        Some(Setting::Text(s)) => if same(s.as_str(), "none") {
            Ok(LogoIndicator::Off)
        } else if same(s.as_str(), "mic") {
            Ok(LogoIndicator::Mic)
        } else if same(s.as_str(), "replay") {
            Ok(LogoIndicator::Replay)
        } else {
            Err(fail3("[logo] unknown indicator: \"", s.as_str(), "\""))
        },
        Some(_) => Err(fail("[logo] \"indicator\" must be a string")),
    }
}

/// Reads the `[logo]` section.
pub fn parse_logo_section(t: &Vec<(String, Setting)>) -> (r: Result<LogoConfig, ConfigError>)
    ensures
        agrees(r, logo_of(fields(t@))),
{
    let d = LogoConfig::default();
    let indicator = match parse_indicator(t) {
        Ok(x) => x,
        Err(e) => {
            return Err(e);
        },
    };
    let mic_muted = match parse_color_field(t, "mic_muted", d.mic_muted, "[logo] \"") {
        Ok(x) => x,
        Err(e) => {
            return Err(e);
        },
    };
    let mic_unmuted = match parse_color_field(t, "mic_unmuted", d.mic_unmuted, "[logo] \"") {
        Ok(x) => x,
        Err(e) => {
            return Err(e);
        },
    };
    let mic_unknown = match parse_color_field(t, "mic_unknown", d.mic_unknown, "[logo] \"") {
        Ok(x) => x,
        Err(e) => {
            return Err(e);
        },
    };
    let replay_active = match parse_color_field(t, "replay_active", d.replay_active, "[logo] \"") {
        Ok(x) => x,
        Err(e) => {
            return Err(e);
        },
    };
    match parse_color_field(t, "replay_inactive", d.replay_inactive, "[logo] \"") {
        Ok(replay_inactive) => Ok(
            LogoConfig {
                indicator,
                mic_muted,
                mic_unmuted,
                mic_unknown,
                replay_active,
                replay_inactive,
            },
        ),
        Err(e) => Err(e),
    }
}

// ---------------------------------------------------------------------------
// The [obs] section
// ---------------------------------------------------------------------------

/// The flash duration of the `[obs.colors]` table.
pub open spec fn flash_duration_of(t: Seq<(Seq<char>, Tree)>, default: u64) -> Result<
    u64,
    Complaint,
> {
    match lookup(t, "flash_duration_ms"@) {
        None => Ok(default),
        Some(Tree::Integer(n)) => if n < 0 {
            Err(plain("[obs.colors] \"flash_duration_ms\" must be non-negative, got "@ + signed_decimal(
                    n as int,
                )))
        } else {
            Ok(n as u64)
        },
        Some(_) => Err(plain("[obs.colors] \"flash_duration_ms\" must be a non-negative integer"@)),
    }
}

/// The colors that the `[obs.colors]` table describes.
pub open spec fn obs_colors_of(t: Seq<(Seq<char>, Tree)>) -> Result<ObsColors, Complaint> {
    let d = default_obs_colors();
    let intro = "[obs.colors] \""@;
    match color_at(t, "recording"@, d.recording, intro) {
        Err(e) => Err(e),
        Ok(recording) => match color_at(t, "recording_paused"@, d.paused, intro) {
            Err(e) => Err(e),
            Ok(paused) => match color_at(t, "success_flash"@, d.success_flash, intro) {
                Err(e) => Err(e),
                Ok(success_flash) => match color_at(t, "error_flash"@, d.error_flash, intro) {
                    Err(e) => Err(e),
                    Ok(error_flash) => match flash_duration_of(t, d.flash_duration_ms) {
                        Err(e) => Err(e),
                        Ok(flash_duration_ms) => match color_at(
                            t,
                            "idle_panel"@,
                            d.idle_panel,
                            intro,
                        ) {
                            Err(e) => Err(e),
                            Ok(idle_panel) => Ok(
                                ObsColors {
                                    recording,
                                    paused,
                                    success_flash,
                                    error_flash,
                                    flash_duration_ms,
                                    idle_panel,
                                },
                            ),
                        },
                    },
                },
            },
        },
    }
}

/// The port of the `[obs]` section.
pub open spec fn port_of(t: Seq<(Seq<char>, Tree)>) -> Result<u16, Complaint> {
    match lookup(t, "port"@) {
        None => Ok(DEFAULT_OBS_PORT),
        Some(Tree::Integer(n)) => if 1 <= n <= 65535 {
            Ok(n as u16)
        } else {
            Err(plain("[obs] \"port\" must be in 1-65535, got "@ + signed_decimal(n as int)))
        },
        Some(_) => Err(plain("[obs] \"port\" must be an integer (1-65535)"@)),
    }
}

/// The colors of the `[obs]` section.
pub open spec fn colors_of(t: Seq<(Seq<char>, Tree)>) -> Result<ObsColors, Complaint> {
    match lookup(t, "colors"@) {
        None => Ok(default_obs_colors()),
        Some(Tree::Table(c)) => obs_colors_of(c),
        Some(_) => Err(plain("[obs.colors] must be a table"@)),
    }
}

/// A text where it is not empty.
pub open spec fn non_empty(s: Option<Seq<char>>) -> Option<Seq<char>> {
    match s {
        Some(x) => if x.len() == 0 {
            None
        } else {
            Some(x)
        },
        None => None,
    }
}

/// The OBS settings that the `[obs]` section describes.
pub open spec fn obs_of(t: Seq<(Seq<char>, Tree)>) -> Result<ObsConfigView, Complaint> {
    let intro = "[obs] \""@;
    match port_of(t) {
        Err(e) => Err(e),
        Ok(port) => match flag_at(t, "start_replay_buffer"@, false, intro) {
            Err(e) => Err(e),
            Ok(start_replay_buffer) => match flag_at(t, "paused_use_breath"@, false, intro) {
                Err(e) => Err(e),
                Ok(paused_use_breath) => match flag_at(
                    t,
                    "match_canvas_to_display"@,
                    false,
                    intro,
                ) {
                    Err(e) => Err(e),
                    Ok(match_canvas_to_display) => match colors_of(t) {
                        Err(e) => Err(e),
                        Ok(colors) => Ok(
                            ObsConfigView {
                                host: match text_at(t, "host"@) {
                                    Some(h) => h,
                                    None => "localhost"@,
                                },
                                port,
                                password: non_empty(text_at(t, "password"@)),
                                start_replay_buffer,
                                paused_use_breath,
                                match_canvas_to_display,
                                capture_display: text_at(t, "capture_display"@),
                                colors,
                            },
                        ),
                    },
                },
            },
        },
    }
}

fn parse_flash_duration(t: &Vec<(String, Setting)>, default: u64) -> (r: Result<u64, ConfigError>)
    ensures
        agrees(r, flash_duration_of(fields(t@), default)),
{
    match get(t, "flash_duration_ms") {
        None => Ok(default),
        Some(Setting::Integer(n)) => if *n < 0 {
            Err(fail_number("[obs.colors] \"flash_duration_ms\" must be non-negative, got ", *n))
        } else {
            Ok(*n as u64)
        },
        Some(_) => Err(
            fail("[obs.colors] \"flash_duration_ms\" must be a non-negative integer"),
        ),
    }
}

fn parse_obs_colors(t: &Vec<(String, Setting)>) -> (r: Result<ObsColors, ConfigError>)
    ensures
        agrees(r, obs_colors_of(fields(t@))),
        r matches Ok(c) ==> keys_differ(fields(t@)) ==> {
            let f = fields(t@);
            &&& color_by_key(f, "recording"@, RgbColor { r: 0x50, g: 0, b: 0 }, c.recording)
            &&& color_by_key(f, "recording_paused"@, RgbColor { r: 0xFF, g: 0xC0, b: 0 }, c.paused)
            &&& color_by_key(f, "success_flash"@, RgbColor { r: 0, g: 0xFF, b: 0 }, c.success_flash)
            &&& color_by_key(f, "error_flash"@, RgbColor { r: 0xFF, g: 0, b: 0xFF }, c.error_flash)
            &&& color_by_key(f, "idle_panel"@, RgbColor { r: 0x20, g: 0x20, b: 0x20 }, c.idle_panel)
            &&& forall|v: Tree| #[trigger]
                f.contains(("flash_duration_ms"@, v)) ==> v is Integer && v->Integer_0
                    == c.flash_duration_ms
            &&& !has_key(f, "flash_duration_ms"@) ==> c.flash_duration_ms == 500
        },
{
    let d = ObsColors::default();
    let recording = match parse_color_field(t, "recording", d.recording, "[obs.colors] \"") {
        Ok(x) => x,
        Err(e) => {
            return Err(e);
        },
    };
    let paused = match parse_color_field(t, "recording_paused", d.paused, "[obs.colors] \"") {
        Ok(x) => x,
        Err(e) => {
            return Err(e);
        },
    };
    let success_flash = match parse_color_field(
        t,
        "success_flash",
        d.success_flash,
        "[obs.colors] \"",
    ) {
        Ok(x) => x,
        Err(e) => {
            return Err(e);
        },
    };
    let error_flash = match parse_color_field(t, "error_flash", d.error_flash, "[obs.colors] \"") {
        Ok(x) => x,
        Err(e) => {
            return Err(e);
        },
    };
    let flash_duration_ms = match parse_flash_duration(t, d.flash_duration_ms) {
        Ok(x) => x,
        Err(e) => {
            return Err(e);
        },
    };
    match parse_color_field(t, "idle_panel", d.idle_panel, "[obs.colors] \"") {
        Ok(idle_panel) => {
            let c = ObsColors {
                recording,
                paused,
                success_flash,
                error_flash,
                flash_duration_ms,
                idle_panel,
            };
            proof {
                if keys_differ(fields(t@)) {
                    law_obs_colors_are_set_by_key(fields(t@), c);
                }
            }
            Ok(c)
        },
        Err(e) => Err(e),
    }
}

fn parse_port(t: &Vec<(String, Setting)>) -> (r: Result<u16, ConfigError>)
    ensures
        agrees(r, port_of(fields(t@))),
{
    match get(t, "port") {
        None => Ok(DEFAULT_OBS_PORT),
        Some(Setting::Integer(n)) => if 1 <= *n && *n <= 65535 {
            Ok(*n as u16)
        } else {
            Err(fail_number("[obs] \"port\" must be in 1-65535, got ", *n))
        },
        Some(_) => Err(fail("[obs] \"port\" must be an integer (1-65535)")),
    }
}

fn parse_colors(t: &Vec<(String, Setting)>) -> (r: Result<ObsColors, ConfigError>)
    ensures
        agrees(r, colors_of(fields(t@))),
{
    match get(t, "colors") {
        None => Ok(ObsColors::default()),
        Some(v) => {
            proof {
                lemma_tree_parts(*v);
            }
            match v {
                Setting::Table(c) => parse_obs_colors(c),
                _ => Err(fail("[obs.colors] must be a table")),
            }
        },
    }
}

/// Reads the `[obs]` section.
pub fn parse_obs_section(t: &Vec<(String, Setting)>) -> (r: Result<ObsConfig, ConfigError>)
    ensures
        agrees_by_view(r, obs_of(fields(t@))),
{
    let host = match text_field(t, "host") {
        Some(h) => h.to_owned(),
        None => "localhost".to_owned(),
    };
    let port = match parse_port(t) {
        Ok(x) => x,
        Err(e) => {
            return Err(e);
        },
    };
    let password = match text_field(t, "password") {
        Some(s) => if s.is_empty() {
            None
        } else {
            Some(s.to_owned())
        },
        None => None,
    };
    let start_replay_buffer = match parse_flag(t, "start_replay_buffer", false, "[obs] \"") {
        Ok(x) => x,
        Err(e) => {
            return Err(e);
        },
    };
    let paused_use_breath = match parse_flag(t, "paused_use_breath", false, "[obs] \"") {
        Ok(x) => x,
        Err(e) => {
            return Err(e);
        },
    };
    let match_canvas_to_display = match parse_flag(
        t,
        "match_canvas_to_display",
        false,
        "[obs] \"",
    ) {
        Ok(x) => x,
        Err(e) => {
            return Err(e);
        },
    };
    let capture_display = owned(text_field(t, "capture_display"));
    match parse_colors(t) {
        Ok(colors) => Ok(
            ObsConfig {
                host,
                port,
                password,
                start_replay_buffer,
                paused_use_breath,
                match_canvas_to_display,
                capture_display,
                colors,
            },
        ),
        Err(e) => Err(e),
    }
}

/// The password to use: one from the environment wins over the configured
/// one, and an empty one means that none is used.
pub open spec fn effective_password_of(
    environment: Option<Seq<char>>,
    configured: Option<Seq<char>>,
) -> Option<Seq<char>> {
    if environment is Some {
        non_empty(environment)
    } else {
        configured
    }
}

/// The password to use, given the one that the environment holds.
pub fn effective_password(environment: Option<String>, configured: Option<String>) -> (r: Option<
    String,
>)
    ensures
        opt_text(r) == effective_password_of(opt_text(environment), opt_text(configured)),
{
    match environment {
        Some(s) => if s.as_str().is_empty() {
            None
        } else {
            Some(s)
        },
        None => configured,
    }
}

// ---------------------------------------------------------------------------
// The sections of the controls
// ---------------------------------------------------------------------------

/// Whether every item of a list is a text.
pub open spec fn all_texts(v: Seq<Tree>) -> bool {
    forall|i: int| 0 <= i < v.len() ==> (#[trigger] v[i]) is Text
}

/// The app names of a control's section.
pub open spec fn apps_of(key: Seq<char>, t: Seq<(Seq<char>, Tree)>) -> Result<
    Seq<Seq<char>>,
    Complaint,
> {
    match lookup(t, "app"@) {
        None => Err(plain("["@ + key + "] missing \"app\" field"@)),
        Some(Tree::Text(s)) => Ok(seq![s]),
        Some(Tree::List(v)) => if !all_texts(v) {
            Err(plain("["@ + key + "] app array entries must be strings"@))
        } else if v.len() == 0 {
            Err(plain("["@ + key + "] app list cannot be empty"@))
        } else {
            Ok(Seq::new(v.len(), |i: int| v[i]->Text_0))
        },
        Some(_) => Err(plain("["@ + key + "] \"app\" must be a string or array of strings"@)),
    }
}

/// The action of a control's section.
pub open spec fn action_of(key: Seq<char>, t: Seq<(Seq<char>, Tree)>) -> Result<
    ActionView,
    Complaint,
> {
    match text_at(t, "action"@) {
        None => Err(plain("["@ + key + "] missing \"action\" field"@)),
        Some(action) => if action == "volume"@ {
            match apps_of(key, t) {
                Err(e) => Err(e),
                Ok(apps) => Ok(ActionView::Volume { apps, icon: text_at(t, "icon"@) }),
            }
        } else if action == "toggle-mute"@ {
            match apps_of(key, t) {
                Err(e) => Err(e),
                Ok(apps) => Ok(ActionView::ToggleMute { apps, icon: text_at(t, "icon"@) }),
            }
        } else if action == "obs-save-replay"@ {
            Ok(ActionView::ObsSaveReplay)
        } else if action == "obs-toggle-recording"@ {
            Ok(ActionView::ObsToggleRecording)
        } else if action == "obs-pause-recording"@ {
            Ok(ActionView::ObsPauseRecording)
        } else if action == "obs-split-recording"@ {
            Ok(ActionView::ObsSplitRecording)
        } else {
            Err(plain("["@ + key + "] unknown action: \""@ + action + "\""@))
        },
    }
}

fn parse_apps(key: &str, t: &Vec<(String, Setting)>) -> (r: Result<Vec<String>, ConfigError>)
    ensures
        match r {
            Ok(v) => apps_of(key@, fields(t@)) == Ok::<Seq<Seq<char>>, Complaint>(texts(v@)),
            Err(e) => apps_of(key@, fields(t@)) == Err::<Seq<Seq<char>>, Complaint>(e@),
        },
{
    let value = match get(t, "app") {
        Some(v) => v,
        None => {
            return Err(fail3("[", key, "] missing \"app\" field"));
        },
    };
    proof {
        lemma_tree_parts(*value);
    }
    match value {
        Setting::Text(s) => {
            let mut apps: Vec<String> = Vec::new();
            apps.push(s.clone());
            assert(texts(apps@) =~= seq![s@]);
            Ok(apps)
        },
        Setting::List(v) => {
            let ghost all = items(v@);
            let mut apps: Vec<String> = Vec::new();
            let mut i: usize = 0;
            while i < v.len()
                invariant
                    i <= v@.len(),
                    all == items(v@),
                    lookup(fields(t@), "app"@) == Some(Tree::List(all)),
                    apps@.len() == i,
                    forall|j: int|
                        0 <= j < i ==> (#[trigger] all[j]) is Text && apps@[j]@ == all[j]->Text_0,
                decreases v@.len() - i,
            {
                assert(all[i as int] == tree(v@[i as int]));
                match &v[i] {
                    Setting::Text(s) => {
                        apps.push(s.clone());
                    },
                    _ => {
                        return Err(fail3("[", key, "] app array entries must be strings"));
                    },
                }
                i += 1;
            }
            if apps.len() == 0 {
                return Err(fail3("[", key, "] app list cannot be empty"));
            }
            assert(texts(apps@) =~= Seq::new(all.len(), |i: int| all[i]->Text_0));
            Ok(apps)
        },
        _ => Err(fail3("[", key, "] \"app\" must be a string or array of strings")),
    }
}

/// Reads the action of a control's section.
pub fn parse_action(key: &str, t: &Vec<(String, Setting)>) -> (r: Result<Action, ConfigError>)
    ensures
        agrees_by_view(r, action_of(key@, fields(t@))),
{
    let action = match text_field(t, "action") {
        Some(a) => a,
        None => {
            return Err(fail3("[", key, "] missing \"action\" field"));
        },
    };
    if same(action, "volume") {
        match parse_apps(key, t) {
            Err(e) => Err(e),
            Ok(apps) => Ok(Action::Volume { apps, icon: owned(text_field(t, "icon")) }),
        }
    } else if same(action, "toggle-mute") {
        match parse_apps(key, t) {
            Err(e) => Err(e),
            Ok(apps) => Ok(Action::ToggleMute { apps, icon: owned(text_field(t, "icon")) }),
        }
    } else if same(action, "obs-save-replay") {
        Ok(Action::ObsSaveReplay)
    } else if same(action, "obs-toggle-recording") {
        Ok(Action::ObsToggleRecording)
    } else if same(action, "obs-pause-recording") {
        Ok(Action::ObsPauseRecording)
    } else if same(action, "obs-split-recording") {
        Ok(Action::ObsSplitRecording)
    } else {
        Err(fail5("[", key, "] unknown action: \"", action, "\""))
    }
}

// ---------------------------------------------------------------------------
// The whole file
// ---------------------------------------------------------------------------

/// A configuration that was read and accepted.
#[derive(Debug)]
pub struct Config {
    pub mappings: Mappings,
    pub rgb: Option<RgbMode>,
    pub obs: Option<ObsConfig>,
    pub logo: LogoConfig,
}

/// The content of a [`Config`].
#[verifier::ext_equal]
pub struct ConfigView {
    pub mappings: Map<ControlId, ActionView>,
    pub rgb: Option<RgbMode>,
    pub obs: Option<ObsConfigView>,
    pub logo: LogoConfig,
}

/// The content of optional OBS settings.
pub open spec fn opt_obs(o: Option<ObsConfig>) -> Option<ObsConfigView> {
    match o {
        Some(c) => Some(c@),
        None => None,
    }
}

impl View for Config {
    type V = ConfigView;

    open spec fn view(&self) -> ConfigView {
        ConfigView {
            mappings: self.mappings@,
            rgb: self.rgb,
            obs: opt_obs(self.obs),
            logo: self.logo,
        }
    }
}

/// What has been read of a file: the configuration so far and the names of
/// the sections that hold an OBS action.
#[verifier::ext_equal]
pub struct Draft {
    pub config: ConfigView,
    pub obs_keys: Seq<Seq<char>>,
}

/// What is known before the first section.
pub open spec fn empty_draft() -> Draft {
    Draft {
        config: ConfigView {
            mappings: Map::empty(),
            rgb: None,
            obs: None,
            logo: default_logo(),
        },
        obs_keys: seq![],
    }
}

/// Whether a control may carry an action: volume belongs to knobs and
/// sliders, everything else to buttons.
pub open spec fn placed_well(control: ControlId, action: ActionView) -> bool {
    (control is Button) == !(action is Volume)
}

/// The message for an action on a control that may not carry it.
pub open spec fn misplaced(key: Seq<char>, action: ActionView) -> Seq<char> {
    if action is ToggleMute {
        "["@ + key + "] toggle-mute can only be assigned to buttons"@
    } else if action is Volume {
        "["@ + key + "] volume controls cannot be assigned to buttons"@
    } else {
        "["@ + key + "] OBS actions can only be assigned to buttons"@
    }
}

/// The draft after a section that describes a control.
pub open spec fn with_control(d: Draft, key: Seq<char>, t: Seq<(Seq<char>, Tree)>) -> Result<
    Draft,
    Complaint,
> {
    match action_of(key, t) {
        Err(e) => Err(e),
        Ok(action) => match control_of(key) {
            Err(e) => Err(e),
            Ok(control) => if !placed_well(control, action) {
                Err(plain(misplaced(key, action)))
            } else {
                Ok(
                    Draft {
                        config: ConfigView {
                            mappings: d.config.mappings.insert(control, action),
                            ..d.config
                        },
                        obs_keys: if action.is_obs() {
                            d.obs_keys.push(key)
                        } else {
                            d.obs_keys
                        },
                    },
                )
            },
        },
    }
}

/// The draft after one more section.
pub open spec fn with_section(d: Draft, key: Seq<char>, value: Tree) -> Result<Draft, Complaint> {
    if key == "rgb"@ {
        match value {
            Tree::Table(t) => match rgb_of(t) {
                Err(e) => Err(e),
                Ok(rgb) => Ok(
                    Draft { config: ConfigView { rgb: Some(rgb), ..d.config }, ..d },
                ),
            },
            _ => Err(plain("[rgb] must be a table"@)),
        }
    } else if key == "obs"@ {
        match value {
            Tree::Table(t) => match obs_of(t) {
                Err(e) => Err(e),
                Ok(obs) => Ok(
                    Draft { config: ConfigView { obs: Some(obs), ..d.config }, ..d },
                ),
            },
            _ => Err(plain("[obs] must be a table"@)),
        }
    } else if key == "logo"@ {
        match value {
            Tree::Table(t) => match logo_of(t) {
                Err(e) => Err(e),
                Ok(logo) => Ok(Draft { config: ConfigView { logo, ..d.config }, ..d }),
            },
            _ => Err(plain("[logo] must be a table"@)),
        }
    } else {
        match value {
            Tree::Table(t) => with_control(d, key, t),
            _ => Err(plain("["@ + key + "] expected a table"@)),
        }
    }
}

/// The draft after the first `n` sections, or the error of the first section
/// that is rejected.
pub open spec fn draft_after(top: Seq<(Seq<char>, Tree)>, n: nat) -> Result<Draft, Complaint>
    decreases n,
{
    if n == 0 {
        Ok(empty_draft())
    } else {
        match draft_after(top, (n - 1) as nat) {
            Err(e) => Err(e),
            Ok(d) => with_section(d, top[n - 1].0, top[n - 1].1),
        }
    }
}

/// Texts with a separator between neighbours.
pub open spec fn joined(parts: Seq<Seq<char>>, separator: Seq<char>) -> Seq<char>
    decreases parts.len(),
{
    if parts.len() == 0 {
        seq![]
    } else if parts.len() == 1 {
        parts[0]
    } else {
        joined(parts.drop_last(), separator) + separator + parts.last()
    }
}

/// The configuration that the sections of a document describe, or the
/// message of the error for which the document is rejected.
pub open spec fn config_of(top: Seq<(Seq<char>, Tree)>) -> Result<ConfigView, Complaint> {
    match draft_after(top, top.len()) {
        Err(e) => Err(e),
        Ok(d) => if d.obs_keys.len() > 0 && d.config.obs is None {
            Err(plain("OBS actions configured on ["@ + joined(d.obs_keys, "], ["@)
                    + "] require an [obs] section"@))
        } else {
            Ok(d.config)
        },
    }
}

/// The configuration that a file's text describes.
pub open spec fn config_of_text(content: Seq<char>) -> Result<ConfigView, Complaint> {
    match toml_document(content) {
        Err(reason) => Err(because("failed to parse config file"@, reason)),
        Ok(top) => config_of(top),
    }
}

/// Once a section is rejected, the file is rejected for the same reason.
proof fn lemma_first_error(top: Seq<(Seq<char>, Tree)>, k: nat, n: nat)
    requires
        k <= n,
        draft_after(top, k) is Err,
    ensures
        draft_after(top, n) == draft_after(top, k),
    decreases n,
{
    if k < n {
        lemma_first_error(top, k, (n - 1) as nat);
    }
}

/// Texts with a separator between neighbours.
pub fn join(parts: &Vec<String>, separator: &str) -> (r: String)
    ensures
        r@ == joined(texts(parts@), separator@),
{
    let ghost all = texts(parts@);
    let mut out = String::new();
    let mut i: usize = 0;
    assert(out@ =~= joined(all.take(0), separator@));
    while i < parts.len()
        invariant
            i <= parts@.len(),
            all == texts(parts@),
            out@ == joined(all.take(i as int), separator@),
        decreases parts@.len() - i,
    {
        let ghost longer = all.take(i + 1);
        assert(longer.drop_last() =~= all.take(i as int));
        assert(longer.last() == parts@[i as int]@);
        if i > 0 {
            out.append(separator);
            out.append(parts[i].as_str());
        } else {
            out.append(parts[i].as_str());
            assert(out@ =~= longer[0]);
        }
        i += 1;
    }
    assert(all.take(i as int) =~= all);
    out
}

/// Reads the sections of a document.
pub fn config_from_document(top: &Vec<(String, Setting)>) -> (r: Result<Config, ConfigError>)
    ensures
        agrees_by_view(r, config_of(fields(top@))),
{
    let ghost all = fields(top@);
    let mut mappings = Mappings::new();
    let mut rgb: Option<RgbMode> = None;
    let mut obs: Option<ObsConfig> = None;
    let mut logo = LogoConfig::default();
    let mut obs_keys: Vec<String> = Vec::new();
    assert(texts(obs_keys@) =~= seq![]);
    let mut i: usize = 0;
    while i < top.len()
        invariant
            i <= top@.len(),
            all == fields(top@),
            draft_after(all, i as nat) == Ok::<Draft, Complaint>(
                Draft {
                    config: ConfigView { mappings: mappings@, rgb, obs: opt_obs(obs), logo },
                    obs_keys: texts(obs_keys@),
                },
            ),
        decreases top@.len() - i,
    {
        let ghost next = draft_after(all, (i + 1) as nat);
        assert(all[i as int] == (top@[i as int].0@, tree(top@[i as int].1)));
        proof {
            lemma_tree_parts(top@[i as int].1);
            if next is Err {
                lemma_first_error(all, (i + 1) as nat, all.len());
            }
        }
        let key = top[i].0.as_str();
        if same(key, "rgb") {
            match &top[i].1 {
                Setting::Table(t) => match parse_rgb_section(t) {
                    Ok(mode) => {
                        rgb = Some(mode);
                    },
                    Err(e) => {
                        return Err(e);
                    },
                },
                _ => {
                    return Err(fail("[rgb] must be a table"));
                },
            }
        } else if same(key, "obs") {
            match &top[i].1 {
                Setting::Table(t) => match parse_obs_section(t) {
                    Ok(section) => {
                        obs = Some(section);
                    },
                    Err(e) => {
                        return Err(e);
                    },
                },
                _ => {
                    return Err(fail("[obs] must be a table"));
                },
            }
        } else if same(key, "logo") {
            match &top[i].1 {
                Setting::Table(t) => match parse_logo_section(t) {
                    Ok(section) => {
                        logo = section;
                    },
                    Err(e) => {
                        return Err(e);
                    },
                },
                _ => {
                    return Err(fail("[logo] must be a table"));
                },
            }
        } else {
            let t = match &top[i].1 {
                Setting::Table(t) => t,
                _ => {
                    return Err(fail3("[", key, "] expected a table"));
                },
            };
            let action = match parse_action(key, t) {
                Ok(a) => a,
                Err(e) => {
                    return Err(e);
                },
            };
            let control = match parse_control_id(key) {
                Ok(c) => c,
                Err(e) => {
                    return Err(e);
                },
            };
            match action {
                Action::ToggleMute { .. } => if !control.is_button() {
                    return Err(fail3("[", key, "] toggle-mute can only be assigned to buttons"));
                },
                Action::Volume { .. } => if control.is_button() {
                    return Err(fail3("[", key, "] volume controls cannot be assigned to buttons"));
                },
                _ => if !control.is_button() {
                    return Err(fail3("[", key, "] OBS actions can only be assigned to buttons"));
                },
            }
            if action.is_obs() {
                let ghost before = texts(obs_keys@);
                obs_keys.push(top[i].0.clone());
                assert(texts(obs_keys@) =~= before.push(key@));
            }
            mappings.insert(control, action);
        }
        i += 1;
    }
    if obs_keys.len() > 0 && obs.is_none() {
        let names = join(&obs_keys, "], [");
        return Err(
            fail3("OBS actions configured on [", names.as_str(), "] require an [obs] section"),
        );
    }
    Ok(Config { mappings, rgb, obs, logo })
}

/// Reads the text of a configuration file. An error in the notation of the
/// file comes with its cause.
pub fn parse_config(content: &str) -> (r: Result<Config, ConfigError>)
    ensures
        agrees_by_view(r, config_of_text(content@)),
{
    match parse_toml(content) {
        Ok(top) => config_from_document(&top),
        Err(reason) => Err(fail_because("failed to parse config file", reason)),
    }
}

// ---------------------------------------------------------------------------
// What an accepted configuration guarantees
// ---------------------------------------------------------------------------

/// The guarantees of an accepted configuration.
pub open spec fn sound(c: ConfigView) -> bool {
    &&& forall|id: ControlId| #[trigger]
        c.mappings.dom().contains(id) ==> id.exists_on_panel() && placed_well(id, c.mappings[id])
    &&& forall|id: ControlId| #[trigger]
        c.mappings.dom().contains(id) ==> match c.mappings[id] {
            ActionView::Volume { apps, .. } => apps.len() > 0,
            ActionView::ToggleMute { apps, .. } => apps.len() > 0,
            _ => c.obs is Some,
        }
    &&& c.obs matches Some(o) ==> o.port >= 1 && (o.password matches Some(p) ==> p.len() > 0)
}

/// [`sound`] of an unfinished configuration, where the `[obs]` section may
/// still follow.
spec fn sound_so_far(d: Draft) -> bool {
    &&& forall|id: ControlId| #[trigger]
        d.config.mappings.dom().contains(id) ==> id.exists_on_panel() && placed_well(
            id,
            d.config.mappings[id],
        )
    &&& forall|id: ControlId| #[trigger]
        d.config.mappings.dom().contains(id) ==> match d.config.mappings[id] {
            ActionView::Volume { apps, .. } => apps.len() > 0,
            ActionView::ToggleMute { apps, .. } => apps.len() > 0,
            _ => d.obs_keys.len() > 0,
        }
    &&& d.config.obs matches Some(o) ==> o.port >= 1 && (o.password matches Some(p) ==> p.len()
        > 0)
}

proof fn lemma_sound_so_far(top: Seq<(Seq<char>, Tree)>, n: nat)
    requires
        draft_after(top, n) is Ok,
    ensures
        sound_so_far(draft_after(top, n)->Ok_0),
    decreases n,
{
    if n > 0 {
        lemma_sound_so_far(top, (n - 1) as nat);
    }
}

/// Every accepted configuration is sound: each mapped control exists on the
/// panel; volume actions sit on knobs and sliders, all others on buttons; a
/// volume or mute action names at least one app; an OBS action comes with an
/// `[obs]` section; the OBS port is not zero and a password is not empty.
pub proof fn law_accepted_config_is_sound(content: Seq<char>)
    ensures
        config_of_text(content) matches Ok(c) ==> sound(c),
{
    if let Ok(top) = toml_document(content) {
        if draft_after(top, top.len()) is Ok {
            lemma_sound_so_far(top, top.len());
        }
    }
}

/// A section that is rejected makes the whole file rejected, whatever the
/// sections behind it hold: the reported error is that of the first rejected
/// section.
pub proof fn law_first_rejected_section_is_reported(top: Seq<(Seq<char>, Tree)>, n: nat)
    requires
        n < top.len(),
        draft_after(top, n) is Ok,
        with_section(draft_after(top, n)->Ok_0, top[n as int].0, top[n as int].1) is Err,
    ensures
        config_of(top) == Err::<ConfigView, Complaint>(
            with_section(draft_after(top, n)->Ok_0, top[n as int].0, top[n as int].1)->Err_0,
        ),
{
    lemma_first_error(top, n + 1, top.len());
}

/// A file without any section is accepted: no control is mapped, the LEDs
/// have no mode, OBS is not used and the logo shows nothing of its own.
pub proof fn law_empty_document_is_accepted()
    ensures
        config_of(seq![]) == Ok::<ConfigView, Complaint>(empty_draft().config),
{
}

/// The name of a control in the configuration: its kind, then its number,
/// counted from one.
pub open spec fn control_name(id: ControlId) -> Seq<char> {
    match id {
        ControlId::Knob(i) => "knob"@ + decimal((i + 1) as nat),
        ControlId::Slider(i) => "slider"@ + decimal((i + 1) as nat),
        ControlId::Button(i) => "button"@ + decimal((i + 1) as nat),
    }
}

/// Every control of the panel can be named, and its name stands for it.
pub proof fn law_controls_have_their_names(id: ControlId)
    requires
        id.exists_on_panel(),
    ensures
        control_of(control_name(id)) == Ok::<ControlId, Complaint>(id),
{
    reveal_strlit("knob");
    reveal_strlit("slider");
    reveal_strlit("button");
    let (kind, i) = match id {
        ControlId::Knob(i) => ("knob"@, i),
        ControlId::Slider(i) => ("slider"@, i),
        ControlId::Button(i) => ("button"@, i),
    };
    let number = decimal((i + 1) as nat);
    let name = kind + number;
    assert(name.subrange(0, kind.len() as int) =~= kind);
    assert(name.skip(kind.len() as int) =~= number);
    assert(name[0] == kind[0]);
    assert(number.drop_last() =~= Seq::<char>::empty());
    reveal_with_fuel(digits_value, 2);
    assert(digits_value(number) == i + 1);
}

} // verus!
