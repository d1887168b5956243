//! The popups of the KDE Plasma OSD service.
use vstd::prelude::*;
use vstd::string::*;

verus! {

/// A call of the OSD service.
#[derive(Debug, Clone)]
pub enum OsdCall {
    VolumeChanged { percent: i32 },
    MediaPlayerVolumeChanged { percent: i32, player_name: String, icon: String },
    MicrophoneVolumeChanged { percent: i32 },
    ShowText { icon: String, text: String },
}

/// The content of an [`OsdCall`].
pub enum OsdCallView {
    VolumeChanged { percent: i32 },
    MediaPlayerVolumeChanged { percent: i32, player_name: Seq<char>, icon: Seq<char> },
    MicrophoneVolumeChanged { percent: i32 },
    ShowText { icon: Seq<char>, text: Seq<char> },
}

impl View for OsdCall {
    type V = OsdCallView;

    open spec fn view(&self) -> OsdCallView {
        match *self {
            OsdCall::VolumeChanged { percent } => OsdCallView::VolumeChanged { percent },
            OsdCall::MediaPlayerVolumeChanged { percent, player_name, icon } =>
                OsdCallView::MediaPlayerVolumeChanged {
                percent,
                player_name: player_name@,
                icon: icon@,
            },
            OsdCall::MicrophoneVolumeChanged { percent } => OsdCallView::MicrophoneVolumeChanged {
                percent,
            },
            OsdCall::ShowText { icon, text } => OsdCallView::ShowText { icon: icon@, text: text@ },
        }
    }
}

impl OsdCallView {
    /// The D-Bus method of a call.
    pub open spec fn method(self) -> Seq<char> {
        match self {
            OsdCallView::VolumeChanged { .. } => "volumeChanged"@,
            OsdCallView::MediaPlayerVolumeChanged { .. } => "mediaPlayerVolumeChanged"@,
            OsdCallView::MicrophoneVolumeChanged { .. } => "microphoneVolumeChanged"@,
            OsdCallView::ShowText { .. } => "showText"@,
        }
    }
}

impl OsdCall {
    /// The D-Bus method of the call.
    pub fn method(&self) -> (r: &'static str)
        ensures
            r@ == self@.method(),
    {
        match self {
            OsdCall::VolumeChanged { .. } => "volumeChanged",
            OsdCall::MediaPlayerVolumeChanged { .. } => "mediaPlayerVolumeChanged",
            OsdCall::MicrophoneVolumeChanged { .. } => "microphoneVolumeChanged",
            OsdCall::ShowText { .. } => "showText",
        }
    }
}

/// The word for a mute state.
pub open spec fn status(muted: bool) -> Seq<char> {
    if muted {
        "Muted"@
    } else {
        "Unmuted"@
    }
}

/// The icon for a mute state of an output.
pub open spec fn mute_icon(muted: bool) -> Seq<char> {
    if muted {
        "audio-volume-muted"@
    } else {
        "audio-volume-high"@
    }
}

/// The icon for a mute state of a microphone.
pub open spec fn mic_icon(muted: bool) -> Seq<char> {
    if muted {
        "microphone-sensitivity-muted"@
    } else {
        "microphone-sensitivity-high"@
    }
}

/// What a popup says of the mute state of a name.
pub open spec fn mute_text(name: Seq<char>, muted: bool) -> Seq<char> {
    name + ": "@ + status(muted)
}

/// What a popup says of the mute state of a name.
pub fn describe_mute(name: &str, muted: bool) -> (r: String)
    ensures
        r@ == mute_text(name@, muted),
{
    let mut s = name.to_owned();
    s.append(": ");
    if muted {
        s.append("Muted");
    } else {
        s.append("Unmuted");
    }
    s
}

/// The popup of the system volume.
pub fn volume_changed(percent: i32) -> (r: OsdCall)
    ensures
        r@ == (OsdCallView::VolumeChanged { percent }),
{
    OsdCall::VolumeChanged { percent }
}

/// The volume popup of apps.
pub fn media_player_volume_changed(percent: i32, player_name: &str, icon: &str) -> (r: OsdCall)
    ensures
        r@ == (OsdCallView::MediaPlayerVolumeChanged {
            percent,
            player_name: player_name@,
            icon: icon@,
        }),
{
    OsdCall::MediaPlayerVolumeChanged {
        percent,
        player_name: player_name.to_owned(),
        icon: icon.to_owned(),
    }
}

/// The popup of the microphone volume.
pub fn microphone_volume_changed(percent: i32) -> (r: OsdCall)
    ensures
        r@ == (OsdCallView::MicrophoneVolumeChanged { percent }),
{
    OsdCall::MicrophoneVolumeChanged { percent }
}

/// A popup with an icon and a text.
pub fn show_text(icon: &str, text: &str) -> (r: OsdCall)
    ensures
        r@ == (OsdCallView::ShowText { icon: icon@, text: text@ }),
{
    OsdCall::ShowText { icon: icon.to_owned(), text: text.to_owned() }
}

/// The popup of a mute state.
pub fn show_mute(name: &str, muted: bool) -> (r: OsdCall)
    ensures
        r@ == (OsdCallView::ShowText { icon: mute_icon(muted), text: mute_text(name@, muted) }),
{
    let icon = if muted {
        "audio-volume-muted"
    } else {
        "audio-volume-high"
    };
    show_text(icon, describe_mute(name, muted).as_str())
}

/// The popup of the mute state of the microphone.
pub fn show_mic_mute(muted: bool) -> (r: OsdCall)
    ensures
        r@ == (OsdCallView::ShowText {
            icon: mic_icon(muted),
            text: mute_text("Microphone"@, muted),
        }),
{
    let icon = if muted {
        "microphone-sensitivity-muted"
    } else {
        "microphone-sensitivity-high"
    };
    show_text(icon, describe_mute("Microphone", muted).as_str())
}

/// A popup names what it is about and says whether it is muted; its icon shows
/// the same, as a loudspeaker or as a microphone. Each popup has its own
/// method.
pub proof fn law_popups_say_what_they_show(name: Seq<char>, call: OsdCallView)
    ensures
        mute_text(name, true) == name + ": "@ + "Muted"@,
        mute_text(name, false) == name + ": "@ + "Unmuted"@,
        mute_icon(true) == "audio-volume-muted"@,
        mute_icon(false) == "audio-volume-high"@,
        mic_icon(true) == "microphone-sensitivity-muted"@,
        mic_icon(false) == "microphone-sensitivity-high"@,
        call is VolumeChanged ==> call.method() == "volumeChanged"@,
        call is MediaPlayerVolumeChanged ==> call.method() == "mediaPlayerVolumeChanged"@,
        call is MicrophoneVolumeChanged ==> call.method() == "microphoneVolumeChanged"@,
        call is ShowText ==> call.method() == "showText"@,
{
}

} // verus!
