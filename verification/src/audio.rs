//! Audio streams: which of them a control drives, and what is asked of
//! PulseAudio.
use vstd::prelude::*;
use vstd::string::*;
use vstd::utf8::is_ascii_chars;

use crate::config::{opt_text, texts};
use crate::text::{
    ascii_lowered, chars_of, contains, eq_ignore_ascii_case, found_in, is_substring,
    law_substrings_are_cut_out, lowercase, same_ignoring_ascii_case, to_lowercase, trim, trimmed,
};

verus! {

// ---------------------------------------------------------------------------
// Volumes
// ---------------------------------------------------------------------------

/// The volume that PulseAudio shows as 100 %.
pub const VOLUME_NORMAL: u32 = 0x10000;

/// A volume in the unit of PulseAudio.
#[derive(Debug, Clone, Copy, PartialEq, Eq, Structural)]
pub struct Volume(pub u32);

/// The volume for the position of a control: the position as a fraction of
/// its range, to the nearest unit.
pub open spec fn volume_at(value: u8) -> Volume {
    Volume(((2 * value * VOLUME_NORMAL + 255) / 510) as u32)
}

/// The volume for the position of a control.
pub fn volume_from_u8(value: u8) -> (r: Volume)
    ensures
        r == volume_at(value),
{
    Volume((2 * value as u32 * VOLUME_NORMAL + 255) / 510)
}

/// The position of a control in percent, to the nearest one.
pub open spec fn percent_at(value: u8) -> int {
    (200 * value + 255) / 510
}

/// The position of a control in percent.
pub fn value_to_percent(value: u8) -> (r: u8)
    ensures
        r == percent_at(value),
        r <= 100,
{
    ((200 * value as u32 + 255) / 510) as u8
}

/// The volume and the percentage are those nearest to the share of its range
/// that a control has gone: 65536 and 100 stand for all of it.
pub proof fn law_volume_is_the_share_of_the_range(value: u8)
    ensures
        -255 <= 2 * (255 * volume_at(value).0 - 65536 * value) <= 255,
        -255 <= 2 * (255 * percent_at(value) - 100 * value) <= 255,
{
}

/// A control at its end gives silence or exactly the normal volume, and a
/// control that is moved up makes the sound louder.
pub proof fn law_volume_follows_the_control(lower: u8, higher: u8)
    ensures
        volume_at(0) == Volume(0),
        volume_at(255) == Volume(VOLUME_NORMAL),
        lower < higher ==> volume_at(lower).0 < volume_at(higher).0 <= VOLUME_NORMAL,
        lower <= higher ==> percent_at(lower) <= percent_at(higher),
        percent_at(0) == 0,
        percent_at(255) == 100,
{
}

// ---------------------------------------------------------------------------
// Default devices
// ---------------------------------------------------------------------------

/// A default device.
#[derive(Debug, Clone, Copy, PartialEq, Eq, Structural)]
pub enum Target {
    DefaultSink,
    DefaultSource,
}

impl Target {
    /// The name of a device in messages.
    pub open spec fn word(self) -> Seq<char> {
        match self {
            Target::DefaultSink => "system"@,
            Target::DefaultSource => "mic"@,
        }
    }

    /// The name by which PulseAudio knows the device.
    pub fn pa_name(self) -> (r: &'static str)
        ensures
            r@ == match self {
                Target::DefaultSink => "@DEFAULT_SINK@"@,
                Target::DefaultSource => "@DEFAULT_SOURCE@"@,
            },
    {
        match self {
            Target::DefaultSink => "@DEFAULT_SINK@",
            Target::DefaultSource => "@DEFAULT_SOURCE@",
        }
    }

    /// The name of the device in messages.
    pub fn label(self) -> (r: &'static str)
        ensures
            r@ == self.word(),
    {
        match self {
            Target::DefaultSink => "system",
            Target::DefaultSource => "mic",
        }
    }

    /// The number of channels to assume where PulseAudio does not tell.
    pub fn default_channels(self) -> (r: u8)
        ensures
            r == match self {
                Target::DefaultSink => 2u8,
                Target::DefaultSource => 1u8,
            },
    {
        match self {
            Target::DefaultSink => 2,
            Target::DefaultSource => 1,
        }
    }
}

/// A message of an enumeration of PulseAudio.
#[derive(Debug, Clone, Copy, PartialEq, Eq, Structural)]
pub enum Listed {
    /// A device, and whether it is muted.
    Item(bool),
    End,
    Error,
}

/// What an enumeration has told of the mute state of a device.
#[derive(Debug, Clone, Copy, PartialEq, Eq, Structural)]
pub struct MuteQuery {
    pub mute: Option<bool>,
    pub errored: bool,
}

impl MuteQuery {
    /// Before any message.
    pub open spec fn blank() -> MuteQuery {
        MuteQuery { mute: None, errored: false }
    }

    /// After one more message.
    pub open spec fn with(self, message: Listed) -> MuteQuery {
        match message {
            Listed::Item(muted) => MuteQuery { mute: Some(muted), ..self },
            Listed::End => self,
            Listed::Error => MuteQuery { errored: true, ..self },
        }
    }

    /// After a row of messages.
    pub open spec fn after(messages: Seq<Listed>) -> MuteQuery
        decreases messages.len(),
    {
        if messages.len() == 0 {
            MuteQuery::blank()
        } else {
            MuteQuery::after(messages.drop_last()).with(messages.last())
        }
    }

    /// The mute state, or why there is none.
    pub open spec fn result(self, target: Target) -> Result<bool, Seq<char>> {
        if self.errored {
            Err("PulseAudio enumeration error while querying "@ + target.word())
        } else {
            match self.mute {
                Some(muted) => Ok(muted),
                None => Err(target.word() + " not found"@),
            }
        }
    }

    /// Before any message.
    pub fn new() -> (r: MuteQuery)
        ensures
            r == MuteQuery::blank(),
    {
        MuteQuery { mute: None, errored: false }
    }

    /// Takes a message.
    pub fn observe(&mut self, message: Listed)
        ensures
            *final(self) == old(self).with(message),
    {
        match message {
            Listed::Item(muted) => {
                self.mute = Some(muted);
            },
            Listed::End => {},
            Listed::Error => {
                self.errored = true;
            },
        }
    }

    /// The mute state, or why there is none.
    pub fn query_default_mute(&self, target: Target) -> (r: Result<bool, String>)
        ensures
            match r {
                Ok(muted) => self.result(target) == Ok::<bool, Seq<char>>(muted),
                Err(m) => self.result(target) == Err::<bool, Seq<char>>(m@),
            },
    {
        if self.errored {
            let mut m = "PulseAudio enumeration error while querying ".to_owned();
            m.append(target.label());
            return Err(m);
        }
        match self.mute {
            Some(muted) => Ok(muted),
            None => {
                let mut m = target.label().to_owned();
                m.append(" not found");
                Err(m)
            },
        }
    }
}

/// An error anywhere in an enumeration makes the query fail, wherever it comes
/// among the other messages; without one, the last device counts.
pub proof fn law_enumeration_errors_are_not_lost(messages: Seq<Listed>, target: Target)
    ensures
        messages.contains(Listed::Error) ==> MuteQuery::after(messages).result(target) is Err,
        !messages.contains(Listed::Error) ==> (MuteQuery::after(messages).result(target) is Ok
            <==> exists|i: int| 0 <= i < messages.len() && #[trigger] messages[i] is Item),
{
    lemma_query_after(messages);
}

/// Without an error, the mute state is that of the last device that was listed.
pub proof fn law_the_last_device_tells(messages: Seq<Listed>, target: Target, last: int, muted: bool)
    requires
        0 <= last < messages.len(),
        messages[last] == Listed::Item(muted),
        forall|i: int| 0 <= i < messages.len() ==> #[trigger] messages[i] != Listed::Error,
        forall|i: int| last < i < messages.len() ==> #[trigger] messages[i] == Listed::End,
    ensures
        MuteQuery::after(messages).result(target) == Ok::<bool, Seq<char>>(muted),
    decreases messages.len(),
{
    lemma_query_after(messages);
    let rest = messages.drop_last();
    assert forall|i: int| 0 <= i < rest.len() implies #[trigger] rest[i] != Listed::Error by {
        assert(messages[i] != Listed::Error);
    }
    if last < messages.len() - 1 {
        assert forall|i: int| last < i < rest.len() implies #[trigger] rest[i] == Listed::End by {
            assert(messages[i] == Listed::End);
        }
        assert(rest[last] == messages[last]);
        assert(messages[messages.len() - 1] == Listed::End);
        law_the_last_device_tells(rest, target, last, muted);
        lemma_query_after(rest);
    }
}

proof fn lemma_query_after(messages: Seq<Listed>)
    ensures
        MuteQuery::after(messages).errored <==> messages.contains(Listed::Error),
        MuteQuery::after(messages).mute is Some <==> exists|i: int|
            0 <= i < messages.len() && #[trigger] messages[i] is Item,
    decreases messages.len(),
{
    if messages.len() > 0 {
        let rest = messages.drop_last();
        lemma_query_after(rest);
        assert(messages =~= rest.push(messages.last()));
        let n = messages.len() - 1;
        assert(messages[n] == messages.last());
        if rest.contains(Listed::Error) {
            let i = choose|i: int| 0 <= i < rest.len() && rest[i] == Listed::Error;
            assert(messages[i] == Listed::Error);
        }
        if messages.contains(Listed::Error) && messages.last() != Listed::Error {
            let i = choose|i: int| 0 <= i < messages.len() && messages[i] == Listed::Error;
            assert(rest[i] == Listed::Error);
        }
        if exists|i: int| 0 <= i < rest.len() && #[trigger] rest[i] is Item {
            let i = choose|i: int| 0 <= i < rest.len() && #[trigger] rest[i] is Item;
            assert(messages[i] is Item);
        }
        if (exists|i: int| 0 <= i < messages.len() && #[trigger] messages[i] is Item) && !(
        messages.last() is Item) {
            let i = choose|i: int| 0 <= i < messages.len() && #[trigger] messages[i] is Item;
            assert(rest[i] is Item);
        }
    }
}

/// What to do after the request to mute or unmute a default device.
#[derive(Debug, Clone, Copy, PartialEq, Eq, Structural)]
pub enum MuteSettled {
    /// The device is in this state.
    Confirmed(bool),
    /// The request was not confirmed, but may have taken effect: ask for the
    /// state of the device.
    AskAgain,
}

/// What to do after a device in the state `muted` was asked to change it, and
/// PulseAudio said whether it did, or nothing.
pub fn toggle_default_mute(muted: bool, acknowledged: Option<bool>) -> (r: MuteSettled)
    ensures
        r == if acknowledged == Some(true) {
            MuteSettled::Confirmed(!muted)
        } else {
            MuteSettled::AskAgain
        },
{
    match acknowledged {
        Some(true) => MuteSettled::Confirmed(!muted),
        _ => MuteSettled::AskAgain,
    }
}

// ---------------------------------------------------------------------------
// Streams
// ---------------------------------------------------------------------------

/// A stream of an app.
#[derive(Debug)]
pub struct SinkInputEntry {
    pub index: u32,
    pub name: String,
    pub name_lower: String,
    pub binary: Option<String>,
    pub binary_lower: Option<String>,
    pub pid: Option<String>,
    /// The largest number where there is no client.
    pub client_index: u32,
    pub channels: u8,
    pub muted: bool,
}

/// An optional text in lower case.
pub open spec fn opt_lower(s: Option<Seq<char>>) -> Option<Seq<char>> {
    match s {
        Some(s) => Some(lowercase(s)),
        None => None,
    }
}

/// The name of a stream: that of the app, or its own, or "unknown".
pub open spec fn stream_name(app: Option<Seq<char>>, own: Option<Seq<char>>) -> Seq<char> {
    match app {
        Some(name) => name,
        None => match own {
            Some(name) => name,
            None => "unknown"@,
        },
    }
}

fn lower_opt(s: &Option<String>) -> (r: Option<String>)
    ensures
        opt_text(r) == opt_lower(opt_text(*s)),
        *s matches Some(t) ==> is_ascii_chars(t@) ==> opt_text(r) == Some(ascii_lowered(t@)),
{
    match s {
        Some(s) => Some(to_lowercase(s.as_str())),
        None => None,
    }
}

impl SinkInputEntry {
    /// Whether the fields in lower case belong to the others.
    pub open spec fn is_consistent(self) -> bool {
        &&& self.name_lower@ == lowercase(self.name@)
        &&& opt_text(self.binary_lower) == opt_lower(opt_text(self.binary))
    }

    /// A stream from what PulseAudio tells of it.
    pub fn new(
        index: u32,
        app_name: Option<String>,
        own_name: Option<String>,
        binary: Option<String>,
        pid: Option<String>,
        client: Option<u32>,
        channels: u8,
        muted: bool,
    ) -> (r: SinkInputEntry)
        ensures
            r.index == index,
            r.name@ == stream_name(opt_text(app_name), opt_text(own_name)),
            r.binary == binary,
            r.pid == pid,
            r.client_index == match client {
                Some(c) => c,
                None => u32::MAX,
            },
            r.channels == channels,
            r.muted == muted,
            r.is_consistent(),
            is_ascii_chars(r.name@) ==> r.name_lower@ == ascii_lowered(r.name@),
            r.binary matches Some(b) ==> is_ascii_chars(b@) ==> opt_text(r.binary_lower) == Some(
                ascii_lowered(b@),
            ),
    {
        let name = match app_name {
            Some(name) => name,
            None => match own_name {
                Some(name) => name,
                None => "unknown".to_owned(),
            },
        };
        let name_lower = to_lowercase(name.as_str());
        let binary_lower = lower_opt(&binary);
        let client_index = match client {
            Some(c) => c,
            None => u32::MAX,
        };
        SinkInputEntry {
            index,
            name,
            name_lower,
            binary,
            binary_lower,
            pid,
            client_index,
            channels,
            muted,
        }
    }
}

/// Whether an optional text contains another.
pub open spec fn opt_contains(text: Option<Seq<char>>, part: Seq<char>) -> bool {
    match text {
        Some(text) => is_substring(part, text),
        None => false,
    }
}

/// Whether the name or the binary of a stream matches a target in lower case.
pub open spec fn matches_cheaply(entry: SinkInputEntry, target: Seq<char>) -> bool {
    is_substring(target, entry.name_lower@) || opt_contains(opt_text(entry.binary_lower), target)
}

/// Whether a stream matches a target in lower case, by its name, its binary
/// or the command of its process.
pub open spec fn matches_target(
    entry: SinkInputEntry,
    target: Seq<char>,
    comm: Option<Seq<char>>,
) -> bool {
    matches_cheaply(entry, target) || opt_contains(comm, target)
}

/// The text of an optional slice.
pub open spec fn opt_slice(s: Option<&str>) -> Option<Seq<char>> {
    match s {
        Some(s) => Some(s@),
        None => None,
    }
}

/// Whether a stream matches a target in lower case. Without a `comm`, only
/// the name and the binary count.
pub fn entry_matches_target(entry: &SinkInputEntry, target: &str, comm: Option<&str>) -> (r: bool)
    ensures
        r == matches_target(*entry, target@, opt_slice(comm)),
        r == (found_in(target@, entry.name_lower@) || (entry.binary_lower is Some && found_in(
            target@,
            entry.binary_lower->Some_0@,
        )) || (comm is Some && found_in(target@, comm->Some_0@))),
{
    if contains(entry.name_lower.as_str(), target) {
        return true;
    }
    if let Some(binary) = &entry.binary_lower {
        if contains(binary.as_str(), target) {
            return true;
        }
    }
    match comm {
        Some(comm) => contains(comm, target),
        None => false,
    }
}

/// Where the number of the process of a stream comes from.
#[derive(Debug)]
pub enum PidSource {
    Known(String),
    /// The client of this index has to be asked.
    Client(u32),
    Unknown,
}

/// Where the number of the process of a stream comes from: from the stream,
/// or else from its client.
pub fn resolve_pid(entry: &SinkInputEntry) -> (r: PidSource)
    ensures
        match r {
            PidSource::Known(pid) => opt_text(entry.pid) == Some(pid@),
            PidSource::Client(index) => entry.pid is None && index == entry.client_index && index
                != u32::MAX,
            PidSource::Unknown => entry.pid is None && entry.client_index == u32::MAX,
        },
{
    match &entry.pid {
        Some(pid) => PidSource::Known(pid.clone()),
        None => if entry.client_index != u32::MAX {
            PidSource::Client(entry.client_index)
        } else {
            PidSource::Unknown
        },
    }
}

/// The process of a client: the one that PipeWire vouches for, or else the one
/// that the client claims.
pub fn get_client_pid(secure: Option<String>, claimed: Option<String>) -> (r: Option<String>)
    ensures
        r == match secure {
            Some(_) => secure,
            None => claimed,
        },
{
    match secure {
        Some(pid) => Some(pid),
        None => claimed,
    }
}

/// Whether all characters are decimal digits.
pub open spec fn only_digits(s: Seq<char>) -> bool {
    forall|i: int| 0 <= i < s.len() ==> '0' <= #[trigger] s[i] && s[i] <= '9'
}

/// The path of the command of a process.
pub open spec fn comm_path_of(pid: Seq<char>) -> Option<Seq<char>> {
    if only_digits(pid) {
        Some("/proc/"@ + pid + "/comm"@)
    } else {
        None
    }
}

/// The path of the command of a process, where its number is one.
pub fn comm_path(pid: &str) -> (r: Option<String>)
    ensures
        opt_text(r) == comm_path_of(pid@),
{
    let v = chars_of(pid);
    let mut i: usize = 0;
    while i < v.len()
        invariant
            v@ == pid@,
            i <= v@.len(),
            forall|j: int| 0 <= j < i ==> '0' <= #[trigger] pid@[j] && pid@[j] <= '9',
        decreases v@.len() - i,
    {
        if v[i] < '0' || v[i] > '9' {
            assert(!('0' <= pid@[i as int] && pid@[i as int] <= '9'));
            return None;
        }
        i = i + 1;
    }
    let mut path = "/proc/".to_owned();
    path.append(pid);
    path.append("/comm");
    Some(path)
}

/// The command of a process as streams are matched by it, from what the file
/// of the command holds.
pub fn comm_of(raw: Option<String>) -> (r: Option<String>)
    ensures
        opt_text(r) == match opt_text(raw) {
            Some(raw) => Some(lowercase(trimmed(raw))),
            None => None,
        },
        raw matches Some(t) ==> is_ascii_chars(trimmed(t@)) ==> opt_text(r) == Some(
            ascii_lowered(trimmed(t@)),
        ),
{
    match raw {
        Some(raw) => Some(to_lowercase(trim(raw.as_str()))),
        None => None,
    }
}

/// The texts of a row of optional strings.
pub open spec fn opt_texts(v: Seq<Option<String>>) -> Seq<Option<Seq<char>>> {
    Seq::new(v.len(), |i: int| opt_text(v[i]))
}

/// The app names in lower case.
pub open spec fn lowered(names: Seq<Seq<char>>) -> Seq<Seq<char>> {
    Seq::new(names.len(), |i: int| lowercase(names[i]))
}

/// The app names in lower case, as streams are matched with them.
pub fn match_targets(app_names: &Vec<String>) -> (r: Vec<String>)
    ensures
        texts(r@) == lowered(texts(app_names@)),
        forall|i: int|
            0 <= i < app_names@.len() && is_ascii_chars((#[trigger] app_names@[i])@) ==> r@[i]@
                == ascii_lowered(app_names@[i]@),
{
    let mut out: Vec<String> = Vec::new();
    let mut i: usize = 0;
    while i < app_names.len()
        invariant
            i <= app_names@.len(),
            out@.len() == i,
            forall|j: int| 0 <= j < i ==> (#[trigger] out@[j])@ == lowercase(app_names@[j]@),
            forall|j: int|
                0 <= j < i && is_ascii_chars((#[trigger] app_names@[j])@) ==> out@[j]@
                    == ascii_lowered(app_names@[j]@),
        decreases app_names@.len() - i,
    {
        out.push(to_lowercase(app_names[i].as_str()));
        i = i + 1;
    }
    assert(texts(out@) =~= lowered(texts(app_names@)));
    out
}

/// Whether the command of a stream's process has a say: whether some target
/// matches neither its name nor its binary.
pub open spec fn comm_counts(entry: SinkInputEntry, targets: Seq<Seq<char>>) -> bool {
    exists|i: int| 0 <= i < targets.len() && !matches_cheaply(entry, #[trigger] targets[i])
}

/// Whether the command of a stream's process is needed to match it. It is
/// worth knowing: to find it out may take a round trip to PulseAudio and the
/// reading of a file.
pub fn needs_comm(entry: &SinkInputEntry, targets: &Vec<String>) -> (r: bool)
    ensures
        r == comm_counts(*entry, texts(targets@)),
{
    let ghost ts = texts(targets@);
    let mut i: usize = 0;
    while i < targets.len()
        invariant
            i <= targets@.len(),
            ts == texts(targets@),
            forall|j: int| 0 <= j < i ==> matches_cheaply(*entry, #[trigger] ts[j]),
        decreases targets@.len() - i,
    {
        assert(ts[i as int] == targets@[i as int]@);
        if !entry_matches_target(entry, targets[i].as_str(), None) {
            return true;
        }
        i = i + 1;
    }
    false
}

/// Whether some stream of the first `n` matches a target.
pub open spec fn found_among(
    entries: Seq<SinkInputEntry>,
    comms: Seq<Option<Seq<char>>>,
    target: Seq<char>,
    n: int,
) -> bool {
    exists|e: int| 0 <= e < n && matches_target(#[trigger] entries[e], target, comms[e])
}

/// Whether a stream matches some target.
pub open spec fn wanted(
    entry: SinkInputEntry,
    comm: Option<Seq<char>>,
    targets: Seq<Seq<char>>,
) -> bool {
    exists|i: int| 0 <= i < targets.len() && matches_target(entry, #[trigger] targets[i], comm)
}

/// The streams among the first `n` that match some target, with their numbers
/// of channels.
pub open spec fn streams_among(
    entries: Seq<SinkInputEntry>,
    comms: Seq<Option<Seq<char>>>,
    targets: Seq<Seq<char>>,
    n: int,
) -> Seq<(u32, u8)>
    decreases n,
{
    if n <= 0 {
        Seq::empty()
    } else {
        let before = streams_among(entries, comms, targets, n - 1);
        if wanted(entries[n - 1], comms[n - 1], targets) {
            before.push((entries[n - 1].index, entries[n - 1].channels))
        } else {
            before
        }
    }
}

/// Which targets have a stream, and which streams belong to a target.
#[derive(Debug)]
pub struct StreamMatches {
    /// For each target, whether it has a stream.
    pub matched: Vec<bool>,
    /// The index and the number of channels of each stream of a target.
    pub to_set: Vec<(u32, u8)>,
}

/// Matches every stream with every target. `comms` holds the commands of the
/// streams' processes, as far as they are known.
pub fn match_streams(
    entries: &Vec<SinkInputEntry>,
    comms: &Vec<Option<String>>,
    targets: &Vec<String>,
) -> (r: StreamMatches)
    requires
        comms@.len() == entries@.len(),
    ensures
        r.matched@.len() == targets@.len(),
        forall|i: int|
            0 <= i < targets@.len() ==> #[trigger] r.matched@[i] == found_among(
                entries@,
                opt_texts(comms@),
                targets@[i]@,
                entries@.len() as int,
            ),
        r.to_set@ == streams_among(
            entries@,
            opt_texts(comms@),
            texts(targets@),
            entries@.len() as int,
        ),
{
    let ghost cs = opt_texts(comms@);
    let ghost ts = texts(targets@);
    let count = targets.len();
    let mut matched: Vec<bool> = Vec::new();
    let mut k: usize = 0;
    while k < count
        invariant
            k <= count,
            count == targets@.len(),
            matched@.len() == k,
            forall|j: int| 0 <= j < k ==> !(#[trigger] matched@[j]),
        decreases count - k,
    {
        matched.push(false);
        k = k + 1;
    }
    let mut to_set: Vec<(u32, u8)> = Vec::new();
    let mut e: usize = 0;
    while e < entries.len()
        invariant
            e <= entries@.len(),
            comms@.len() == entries@.len(),
            count == targets@.len(),
            cs == opt_texts(comms@),
            ts == texts(targets@),
            matched@.len() == count,
            forall|j: int|
                0 <= j < count ==> #[trigger] matched@[j] == found_among(
                    entries@,
                    cs,
                    ts[j],
                    e as int,
                ),
            to_set@ == streams_among(entries@, cs, ts, e as int),
        decreases entries@.len() - e,
    {
        let entry = &entries[e];
        let comm = match &comms[e] {
            Some(c) => Some(c.as_str()),
            None => None,
        };
        assert(opt_slice(comm) == cs[e as int]);
        let ghost before = matched@;
        let mut hit = false;
        let mut i: usize = 0;
        while i < count
            invariant
                i <= count,
                e < entries@.len(),
                comms@.len() == entries@.len(),
                count == targets@.len(),
                ts == texts(targets@),
                cs == opt_texts(comms@),
                *entry == entries@[e as int],
                opt_slice(comm) == cs[e as int],
                before.len() == count,
                matched@.len() == count,
                forall|j: int|
                    0 <= j < i ==> #[trigger] matched@[j] == (before[j] || matches_target(
                        *entry,
                        ts[j],
                        cs[e as int],
                    )),
                forall|j: int| i <= j < count ==> #[trigger] matched@[j] == before[j],
                hit == exists|j: int|
                    0 <= j < i && matches_target(*entry, #[trigger] ts[j], cs[e as int]),
            decreases count - i,
        {
            assert(ts[i as int] == targets@[i as int]@);
            if entry_matches_target(entry, targets[i].as_str(), comm) {
                matched.set(i, true);
                hit = true;
            }
            i = i + 1;
        }
        if hit {
            to_set.push((entry.index, entry.channels));
        }
        assert(hit == wanted(*entry, cs[e as int], ts));
        assert forall|j: int| 0 <= j < count implies #[trigger] matched@[j] == found_among(
            entries@,
            cs,
            ts[j],
            e + 1,
        ) by {
            if before[j] {
                let x = choose|x: int|
                    0 <= x < e && matches_target(#[trigger] entries@[x], ts[j], cs[x]);
                assert(matches_target(entries@[x], ts[j], cs[x]));
            }
            if matches_target(*entry, ts[j], cs[e as int]) {
                assert(matches_target(entries@[e as int], ts[j], cs[e as int]));
            }
        }
        e = e + 1;
    }
    assert forall|i: int| 0 <= i < targets@.len() implies #[trigger] matched@[i] == found_among(
        entries@,
        cs,
        targets@[i]@,
        entries@.len() as int,
    ) by {
        assert(ts[i] == targets@[i]@);
    }
    StreamMatches { matched, to_set }
}

/// The command of a process that is not needed makes no difference.
pub proof fn law_unneeded_command_changes_nothing(
    entry: SinkInputEntry,
    targets: Seq<Seq<char>>,
    comm: Option<Seq<char>>,
    i: int,
)
    requires
        !comm_counts(entry, targets),
        0 <= i < targets.len(),
    ensures
        matches_target(entry, targets[i], comm) == matches_target(entry, targets[i], None),
        wanted(entry, comm, targets) == wanted(entry, None, targets),
{
    assert(matches_cheaply(entry, targets[i]));
    assert(matches_target(entry, targets[i], comm));
    assert(matches_target(entry, targets[i], None));
}

/// A target is reported as found exactly where one of the streams that are set
/// belongs to it.
pub proof fn law_found_targets_are_driven(
    entries: Seq<SinkInputEntry>,
    comms: Seq<Option<Seq<char>>>,
    targets: Seq<Seq<char>>,
    n: int,
)
    requires
        0 <= n <= entries.len(),
    ensures
        (exists|i: int|
            0 <= i < targets.len() && found_among(entries, comms, #[trigger] targets[i], n)) <==> (
        streams_among(entries, comms, targets, n).len() > 0),
    decreases n,
{
    if n > 0 {
        law_found_targets_are_driven(entries, comms, targets, n - 1);
        if wanted(entries[n - 1], comms[n - 1], targets) {
            let i = choose|i: int|
                0 <= i < targets.len() && matches_target(
                    entries[n - 1],
                    #[trigger] targets[i],
                    comms[n - 1],
                );
            assert(found_among(entries, comms, targets[i], n));
        }
        if exists|i: int|
            0 <= i < targets.len() && found_among(entries, comms, #[trigger] targets[i], n) {
            let i = choose|i: int|
                0 <= i < targets.len() && found_among(entries, comms, #[trigger] targets[i], n);
            let e = choose|e: int|
                0 <= e < n && matches_target(#[trigger] entries[e], targets[i], comms[e]);
            if e == n - 1 {
                assert(wanted(entries[n - 1], comms[n - 1], targets));
            } else {
                assert(found_among(entries, comms, targets[i], n - 1));
            }
        }
        if exists|i: int|
            0 <= i < targets.len() && found_among(entries, comms, #[trigger] targets[i], n - 1) {
            let i = choose|i: int|
                0 <= i < targets.len() && found_among(entries, comms, #[trigger] targets[i], n - 1);
            let e = choose|e: int|
                0 <= e < n - 1 && matches_target(#[trigger] entries[e], targets[i], comms[e]);
            assert(found_among(entries, comms, targets[i], n));
        }
    }
}

// ---------------------------------------------------------------------------
// Muting an app
// ---------------------------------------------------------------------------

/// The indices of the streams among the first `n` that match a target.
pub open spec fn indices_among(
    entries: Seq<SinkInputEntry>,
    comms: Seq<Option<Seq<char>>>,
    target: Seq<char>,
    n: int,
) -> Seq<u32>
    decreases n,
{
    if n <= 0 {
        Seq::empty()
    } else {
        let before = indices_among(entries, comms, target, n - 1);
        if matches_target(entries[n - 1], target, comms[n - 1]) {
            before.push(entries[n - 1].index)
        } else {
            before
        }
    }
}

/// Whether one of the first `n` streams matches a target and can be heard.
pub open spec fn heard_among(
    entries: Seq<SinkInputEntry>,
    comms: Seq<Option<Seq<char>>>,
    target: Seq<char>,
    n: int,
) -> bool {
    exists|e: int|
        0 <= e < n && matches_target(#[trigger] entries[e], target, comms[e]) && !entries[e].muted
}

/// Which streams to mute or unmute.
#[derive(Debug)]
pub struct MutePlan {
    pub indices: Vec<u32>,
    pub mute: bool,
}

/// The streams of an app to be muted, or unmuted where all of them are muted.
/// The name of the app counts in any case, as for its volume. `comms` holds
/// the commands of the streams' processes, as far as they are known.
pub fn toggle_app_mute(
    entries: &Vec<SinkInputEntry>,
    comms: &Vec<Option<String>>,
    app_name: &str,
) -> (r: Option<MutePlan>)
    requires
        comms@.len() == entries@.len(),
    ensures
        ({
            let target = lowercase(app_name@);
            let indices = indices_among(
                entries@,
                opt_texts(comms@),
                target,
                entries@.len() as int,
            );
            match r {
                Some(plan) => {
                    &&& indices.len() > 0
                    &&& plan.indices@ == indices
                    &&& plan.mute == heard_among(
                        entries@,
                        opt_texts(comms@),
                        target,
                        entries@.len() as int,
                    )
                },
                None => indices.len() == 0,
            }
        }),
{
    let target = to_lowercase(app_name);
    let ghost cs = opt_texts(comms@);
    let mut indices: Vec<u32> = Vec::new();
    let mut heard = false;
    let mut e: usize = 0;
    while e < entries.len()
        invariant
            e <= entries@.len(),
            comms@.len() == entries@.len(),
            cs == opt_texts(comms@),
            indices@ == indices_among(entries@, cs, target@, e as int),
            heard == heard_among(entries@, cs, target@, e as int),
        decreases entries@.len() - e,
    {
        let entry = &entries[e];
        let comm = match &comms[e] {
            Some(c) => Some(c.as_str()),
            None => None,
        };
        assert(opt_slice(comm) == cs[e as int]);
        let ghost before = heard;
        if entry_matches_target(entry, target.as_str(), comm) {
            indices.push(entry.index);
            if !entry.muted {
                heard = true;
            }
        }
        assert(heard == heard_among(entries@, cs, target@, e + 1)) by {
            if before {
                let x = choose|x: int|
                    0 <= x < e && matches_target(#[trigger] entries@[x], target@, cs[x])
                        && !entries@[x].muted;
                assert(matches_target(entries@[x], target@, cs[x]));
            }
            if heard && !before {
                assert(matches_target(entries@[e as int], target@, cs[e as int]));
            }
        }
        e = e + 1;
    }
    if indices.len() == 0 {
        None
    } else {
        Some(MutePlan { indices, mute: heard })
    }
}

/// A stream of the plan.
pub open spec fn in_plan(
    entries: Seq<SinkInputEntry>,
    comms: Seq<Option<Seq<char>>>,
    target: Seq<char>,
    e: int,
) -> bool {
    0 <= e < entries.len() && matches_target(entries[e], target, comms[e])
}

/// The streams after a plan was carried out.
pub open spec fn after_mute(
    entries: Seq<SinkInputEntry>,
    comms: Seq<Option<Seq<char>>>,
    target: Seq<char>,
    mute: bool,
) -> Seq<SinkInputEntry> {
    Seq::new(
        entries.len(),
        |e: int|
            if in_plan(entries, comms, target, e) {
                SinkInputEntry { muted: mute, ..entries[e] }
            } else {
                entries[e]
            },
    )
}

/// Toggling brings all streams of an app into the same state, and toggling
/// again brings them all into the other.
pub proof fn law_app_mute_toggles(
    entries: Seq<SinkInputEntry>,
    comms: Seq<Option<Seq<char>>>,
    target: Seq<char>,
)
    requires
        comms.len() == entries.len(),
        exists|e: int| in_plan(entries, comms, target, e),
    ensures
        ({
            let n = entries.len() as int;
            let mute = heard_among(entries, comms, target, n);
            let once = after_mute(entries, comms, target, mute);
            &&& forall|e: int|
                in_plan(entries, comms, target, e) ==> (#[trigger] once[e]).muted == mute
            &&& forall|e: int|
                0 <= e < n && !in_plan(entries, comms, target, e) ==> #[trigger] once[e]
                    == entries[e]
            &&& heard_among(once, comms, target, n) == !mute
        }),
{
    let n = entries.len() as int;
    let mute = heard_among(entries, comms, target, n);
    let once = after_mute(entries, comms, target, mute);
    assert forall|e: int| 0 <= e < n implies #[trigger] matches_target(once[e], target, comms[e])
        == matches_target(entries[e], target, comms[e]) by {}
    let w = choose|e: int| in_plan(entries, comms, target, e);
    if !mute {
        assert(matches_target(once[w], target, comms[w]));
        assert(!once[w].muted);
    }
}

// ---------------------------------------------------------------------------
// The listing of apps
// ---------------------------------------------------------------------------

/// An app that plays audio.
#[derive(Debug)]
pub struct AppInfo {
    pub name: String,
    pub binary: Option<String>,
    pub pid: Option<String>,
}

/// The listing of an app from its stream, and from the process of its client
/// where the stream does not name one.
pub fn app_info(entry: SinkInputEntry, client_pid: Option<String>) -> (r: AppInfo)
    ensures
        r.name == entry.name,
        r.binary == entry.binary,
        r.pid == if entry.pid is None && entry.client_index != u32::MAX {
            client_pid
        } else {
            entry.pid
        },
{
    let pid = match entry.pid {
        Some(pid) => Some(pid),
        None => if entry.client_index != u32::MAX {
            client_pid
        } else {
            None
        },
    };
    AppInfo { name: entry.name, binary: entry.binary, pid }
}

/// Whether the binary of an app tells more than its name.
pub open spec fn binary_tells_more(app: AppInfo) -> bool {
    match app.binary {
        Some(binary) => !same_ignoring_ascii_case(binary@, app.name@),
        None => false,
    }
}

/// The path of the command to be read for the listing of an app.
pub open spec fn listing_comm_path(app: AppInfo) -> Option<Seq<char>> {
    if binary_tells_more(app) {
        None
    } else {
        match app.pid {
            Some(pid) => comm_path_of(pid@),
            None => None,
        }
    }
}

/// The path of the command to be read for the listing of an app, where it is
/// of use.
pub fn list_comm_path(app: &AppInfo) -> (r: Option<String>)
    ensures
        opt_text(r) == listing_comm_path(*app),
{
    if let Some(binary) = &app.binary {
        if !eq_ignore_ascii_case(binary.as_str(), app.name.as_str()) {
            return None;
        }
    }
    match &app.pid {
        Some(pid) => comm_path(pid.as_str()),
        None => None,
    }
}

/// What the listing of an app adds to its name: the binary or the command,
/// whichever first is another word.
pub open spec fn listing_extra(app: AppInfo, comm: Option<Seq<char>>) -> Option<Seq<char>> {
    if binary_tells_more(app) {
        opt_text(app.binary)
    } else if listing_comm_path(app) is None {
        None
    } else {
        match comm {
            Some(comm) => if same_ignoring_ascii_case(trimmed(comm), app.name@) {
                None
            } else {
                Some(trimmed(comm))
            },
            None => None,
        }
    }
}

/// A text with spaces behind it, up to a width.
pub open spec fn padded(s: Seq<char>, width: int) -> Seq<char>
    decreases width - s.len(),
{
    if s.len() >= width {
        s
    } else {
        padded(s.push(' '), width)
    }
}

/// The line of an app in the listing.
pub open spec fn listing_line(app: AppInfo, comm: Option<Seq<char>>) -> Seq<char> {
    let pid = match app.pid {
        Some(pid) => pid@,
        None => "?"@,
    };
    let start = "  "@ + padded(app.name@, 24) + " (PID: "@ + pid;
    match listing_extra(app, comm) {
        Some(extra) => start + ", binary: "@ + extra + ")"@,
        None => start + ")"@,
    }
}

fn pad(s: &mut String, width: usize)
    ensures
        final(s)@ == padded(old(s)@, width as int),
{
    let mut n: usize = s.as_str().unicode_len();
    proof {
        reveal_strlit(" ");
    }
    assert(" "@ =~= seq![' ']);
    while n < width
        invariant
            n == s@.len(),
            " "@ == seq![' '],
            padded(s@, width as int) == padded(old(s)@, width as int),
        decreases width - n,
    {
        let ghost before = s@;
        s.append(" ");
        assert(s@ =~= before.push(' '));
        n = n + 1;
    }
}

/// The line of an app in the listing. `comm` is what the file at
/// [`list_comm_path`] holds.
pub fn list_line(app: &AppInfo, comm: Option<String>) -> (r: String)
    ensures
        r@ == listing_line(*app, opt_text(comm)),
{
    let path = list_comm_path(app);
    let mut extra: Option<String> = None;
    if let Some(binary) = &app.binary {
        if !eq_ignore_ascii_case(binary.as_str(), app.name.as_str()) {
            extra = Some(binary.clone());
        }
    }
    if extra.is_none() && path.is_some() {
        if let Some(comm) = comm {
            let word = trim(comm.as_str());
            if !eq_ignore_ascii_case(word, app.name.as_str()) {
                extra = Some(word.to_owned());
            }
        }
    }
    let mut name = app.name.clone();
    pad(&mut name, 24);
    let mut line = "  ".to_owned();
    line.append(name.as_str());
    line.append(" (PID: ");
    match &app.pid {
        Some(pid) => line.append(pid.as_str()),
        None => line.append("?"),
    }
    if let Some(extra) = extra {
        line.append(", binary: ");
        line.append(extra.as_str());
    }
    line.append(")");
    line
}

// ---------------------------------------------------------------------------
// What a control drives
// ---------------------------------------------------------------------------

/// Whether a stream answers to a name in lower case: the name is part of the
/// name of the stream, of its binary or of the command of its process.
pub open spec fn answers_to(
    entry: SinkInputEntry,
    target: Seq<char>,
    comm: Option<Seq<char>>,
) -> bool {
    ||| found_in(target, entry.name_lower@)
    ||| entry.binary_lower is Some && found_in(target, entry.binary_lower->Some_0@)
    ||| comm is Some && found_in(target, comm->Some_0)
}

/// A stream matches a target exactly where it answers to it.
pub proof fn law_streams_match_by_their_names(
    entry: SinkInputEntry,
    target: Seq<char>,
    comm: Option<Seq<char>>,
)
    ensures
        matches_target(entry, target, comm) <==> answers_to(entry, target, comm),
        matches_cheaply(entry, target) <==> answers_to(entry, target, None),
{
    law_substrings_are_cut_out(target, entry.name_lower@);
    if let Some(binary) = entry.binary_lower {
        law_substrings_are_cut_out(target, binary@);
    }
    if let Some(comm) = comm {
        law_substrings_are_cut_out(target, comm);
    }
}

/// The numbers from zero up to `n`.
pub open spec fn up_to(n: int) -> Seq<int> {
    Seq::new(n as nat, |e: int| e)
}

/// Whether a stream answers to one of several names.
pub open spec fn answers_to_one(
    entry: SinkInputEntry,
    targets: Seq<Seq<char>>,
    comm: Option<Seq<char>>,
) -> bool {
    exists|i: int| 0 <= i < targets.len() && answers_to(entry, #[trigger] targets[i], comm)
}

/// The volume of several apps is set on exactly the streams that answer to one
/// of them, each once, in their order; an app is found exactly where a stream
/// answers to it.
pub proof fn law_volumes_reach_the_streams_of_the_apps(
    entries: Seq<SinkInputEntry>,
    comms: Seq<Option<Seq<char>>>,
    targets: Seq<Seq<char>>,
    n: int,
)
    requires
        0 <= n <= entries.len(),
    ensures
        streams_among(entries, comms, targets, n) == up_to(n).filter(
            |e: int| answers_to_one(entries[e], targets, comms[e]),
        ).map_values(|e: int| (entries[e].index, entries[e].channels)),
        forall|target: Seq<char>|
            #[trigger] found_among(entries, comms, target, n) <==> exists|e: int|
                0 <= e < n && answers_to(#[trigger] entries[e], target, comms[e]),
    decreases n,
{
    let p = |e: int| answers_to_one(entries[e], targets, comms[e]);
    let f = |e: int| (entries[e].index, entries[e].channels);
    reveal(Seq::filter);
    assert forall|target: Seq<char>|
        #[trigger] found_among(entries, comms, target, n) <==> exists|e: int|
            0 <= e < n && answers_to(#[trigger] entries[e], target, comms[e]) by {
        assert forall|e: int| 0 <= e < n implies matches_target(#[trigger] entries[e], target, comms[e])
            == answers_to(entries[e], target, comms[e]) by {
            law_streams_match_by_their_names(entries[e], target, comms[e]);
        }
    }
    if n > 0 {
        law_volumes_reach_the_streams_of_the_apps(entries, comms, targets, n - 1);
        assert(up_to(n).drop_last() =~= up_to(n - 1));
        let front = up_to(n - 1).filter(p);
        assert forall|i: int| 0 <= i < targets.len() implies matches_target(
            entries[n - 1],
            #[trigger] targets[i],
            comms[n - 1],
        ) == answers_to(entries[n - 1], targets[i], comms[n - 1]) by {
            law_streams_match_by_their_names(entries[n - 1], targets[i], comms[n - 1]);
        }
        assert(wanted(entries[n - 1], comms[n - 1], targets) == p(n - 1));
        assert(up_to(n).last() == n - 1);
        assert(front.push(n - 1).map_values(f) =~= front.map_values(f).push(f(n - 1)));
    } else {
        assert(up_to(n).filter(p).map_values(f) =~= Seq::<(u32, u8)>::empty());
    }
}

/// To mute an app is to mute exactly the streams that answer to it, in their
/// order; they are muted where one of them can be heard, else unmuted.
pub proof fn law_muting_reaches_the_streams_of_the_app(
    entries: Seq<SinkInputEntry>,
    comms: Seq<Option<Seq<char>>>,
    target: Seq<char>,
    n: int,
)
    requires
        0 <= n <= entries.len(),
    ensures
        indices_among(entries, comms, target, n) == up_to(n).filter(
            |e: int| answers_to(entries[e], target, comms[e]),
        ).map_values(|e: int| entries[e].index),
        heard_among(entries, comms, target, n) <==> exists|e: int|
            0 <= e < n && answers_to(#[trigger] entries[e], target, comms[e]) && !entries[e].muted,
    decreases n,
{
    let p = |e: int| answers_to(entries[e], target, comms[e]);
    let f = |e: int| entries[e].index;
    reveal(Seq::filter);
    assert forall|e: int| 0 <= e < n implies matches_target(#[trigger] entries[e], target, comms[e])
        == answers_to(entries[e], target, comms[e]) by {
        law_streams_match_by_their_names(entries[e], target, comms[e]);
    }
    if n > 0 {
        law_muting_reaches_the_streams_of_the_app(entries, comms, target, n - 1);
        assert(up_to(n).drop_last() =~= up_to(n - 1));
        let front = up_to(n - 1).filter(p);
        assert(up_to(n).last() == n - 1);
        assert(matches_target(entries[n - 1], target, comms[n - 1]) == p(n - 1));
        assert(front.push(n - 1).map_values(f) =~= front.map_values(f).push(f(n - 1)));
    } else {
        assert(up_to(n).filter(p).map_values(f) =~= Seq::<u32>::empty());
    }
}

/// The command of a process is asked for exactly where some app is not found
/// by the name or the binary of the stream.
pub proof fn law_commands_are_read_where_they_matter(
    entry: SinkInputEntry,
    targets: Seq<Seq<char>>,
)
    ensures
        comm_counts(entry, targets) <==> exists|i: int|
            0 <= i < targets.len() && !answers_to(entry, #[trigger] targets[i], None),
{
    assert forall|i: int| 0 <= i < targets.len() implies matches_cheaply(
        entry,
        #[trigger] targets[i],
    ) == answers_to(entry, targets[i], None) by {
        law_streams_match_by_their_names(entry, targets[i], None);
    }
}

/// Only a number of decimal digits leads to a file, and to that of its process.
pub proof fn law_process_files_have_a_number(pid: Seq<char>)
    ensures
        comm_path_of(pid) matches Some(path) ==> path == "/proc/"@ + pid + "/comm"@,
        comm_path_of(pid) is Some <==> forall|i: int|
            0 <= i < pid.len() ==> '0' <= #[trigger] pid[i] && pid[i] <= '9',
{
}

/// An app is listed with its name, its process where that is known, and its
/// binary where that is another word; else with its command where that is.
pub proof fn law_listing_tells_the_app(app: AppInfo, comm: Option<Seq<char>>)
    ensures
        ({
            let pid = match app.pid {
                Some(pid) => pid@,
                None => "?"@,
            };
            let line = listing_line(app, comm);
            let known = "  "@ + padded(app.name@, 24) + " (PID: "@ + pid;
            let read = opt_text(app.pid) is Some && comm_path_of(pid) is Some && comm is Some;
            &&& padded(app.name@, 24).len() >= 24
            &&& padded(app.name@, 24).take(app.name@.len() as int) == app.name@
            &&& app.name@.len() >= 24 ==> padded(app.name@, 24) == app.name@
            &&& app.binary is Some && !same_ignoring_ascii_case(app.binary->Some_0@, app.name@)
                ==> line == known + ", binary: "@ + app.binary->Some_0@ + ")"@
            &&& (app.binary is None || same_ignoring_ascii_case(
                app.binary->Some_0@,
                app.name@,
            )) && read && !same_ignoring_ascii_case(trimmed(comm->Some_0), app.name@) ==> line
                == known + ", binary: "@ + trimmed(comm->Some_0) + ")"@
            &&& (app.binary is None || same_ignoring_ascii_case(
                app.binary->Some_0@,
                app.name@,
            )) && (!read || same_ignoring_ascii_case(trimmed(comm->Some_0), app.name@)) ==> line
                == known + ")"@
        }),
{
    lemma_padded(app.name@, 24);
}

proof fn lemma_padded(s: Seq<char>, width: int)
    ensures
        padded(s, width).len() >= width,
        padded(s, width).len() >= s.len(),
        padded(s, width).take(s.len() as int) == s,
        forall|i: int| s.len() <= i < padded(s, width).len() ==> padded(s, width)[i] == ' ',
        s.len() >= width ==> padded(s, width) == s,
    decreases width - s.len(),
{
    if s.len() < width {
        let longer = s.push(' ');
        lemma_padded(longer, width);
        let p = padded(s, width);
        assert(p.take(s.len() as int) =~= p.take(longer.len() as int).take(s.len() as int));
        assert(longer.take(s.len() as int) =~= s);
        assert(p[s.len() as int] == p.take(longer.len() as int)[s.len() as int]);
    } else {
        assert(s.take(s.len() as int) =~= s);
    }
}

/// A stream goes by the name of its app, else by its own, else it is unknown.
pub proof fn law_streams_have_a_name(app: Seq<char>, own: Seq<char>, other: Option<Seq<char>>)
    ensures
        stream_name(Some(app), other) == app,
        stream_name(None, Some(own)) == own,
        stream_name(None, None) == "unknown"@,
{
}

/// A query that fails names the device, and says whether the enumeration failed
/// or the device was not listed.
pub proof fn law_failed_queries_name_the_device(mute: Option<bool>)
    ensures
        (MuteQuery { mute, errored: true }).result(Target::DefaultSink) == Err::<bool, Seq<char>>(
            "PulseAudio enumeration error while querying "@ + "system"@,
        ),
        (MuteQuery { mute, errored: true }).result(Target::DefaultSource) == Err::<bool, Seq<char>>(
            "PulseAudio enumeration error while querying "@ + "mic"@,
        ),
        MuteQuery::after(Seq::empty()).result(Target::DefaultSink) == Err::<bool, Seq<char>>(
            "system"@ + " not found"@,
        ),
        MuteQuery::after(Seq::empty()).result(Target::DefaultSource) == Err::<bool, Seq<char>>(
            "mic"@ + " not found"@,
        ),
{
}

/// The command of an app is looked up for the listing where its process is
/// known and its binary says no more than its name.
pub proof fn law_commands_are_looked_up_where_they_tell_more(app: AppInfo)
    ensures
        app.binary is Some && !same_ignoring_ascii_case(app.binary->Some_0@, app.name@)
            ==> listing_comm_path(app) is None,
        app.pid is None ==> listing_comm_path(app) is None,
        app.pid is Some && (app.binary is None || same_ignoring_ascii_case(
            app.binary->Some_0@,
            app.name@,
        )) ==> listing_comm_path(app) == comm_path_of(app.pid->Some_0@),
{
}

} // verus!
