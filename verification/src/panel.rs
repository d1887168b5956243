//! What an event of the panel leads to: volumes, mutes, popups and commands.
use vstd::prelude::*;
use vstd::string::*;

use crate::audio::{percent_at, value_to_percent, Target};
use crate::config::{
    join, joined, opt_text, target_of, texts, Action, ActionView, AppTarget, AppTargetView, Config,
    ControlId,
};
use crate::device::{Control, Event};
use crate::icons::{resolve, resolve_mute};
use crate::obs::ObsCommand;
use crate::osd::{
    describe_mute, media_player_volume_changed, mic_icon, microphone_volume_changed, mute_icon,
    mute_text, show_mic_mute, show_mute, show_text, volume_changed, OsdCall, OsdCallView,
};
use crate::text::{append_decimal, decimal};

verus! {

/// What a task asks for.
#[derive(Debug)]
pub enum Work {
    /// Set the volume of several apps at once.
    SetAppVolumes { names: Vec<String>, value: u8 },
    SetVolume { device: Target, value: u8 },
    ToggleMute { device: Target },
    ToggleAppMute { name: String },
    /// Find the icon of the apps.
    FindIcon { icon: Option<String>, names: Vec<String> },
    /// Nothing: the task is done.
    Finished,
}

/// The content of a [`Work`].
pub enum WorkView {
    SetAppVolumes { names: Seq<Seq<char>>, value: u8 },
    SetVolume { device: Target, value: u8 },
    ToggleMute { device: Target },
    ToggleAppMute { name: Seq<char> },
    FindIcon { icon: Option<Seq<char>>, names: Seq<Seq<char>> },
    Finished,
}

impl View for Work {
    type V = WorkView;

    open spec fn view(&self) -> WorkView {
        match *self {
            Work::SetAppVolumes { names, value } => WorkView::SetAppVolumes {
                names: texts(names@),
                value,
            },
            Work::SetVolume { device, value } => WorkView::SetVolume { device, value },
            Work::ToggleMute { device } => WorkView::ToggleMute { device },
            Work::ToggleAppMute { name } => WorkView::ToggleAppMute { name: name@ },
            Work::FindIcon { icon, names } => WorkView::FindIcon {
                icon: opt_text(icon),
                names: texts(names@),
            },
            Work::Finished => WorkView::Finished,
        }
    }
}

/// The reply to a [`Work`].
#[derive(Debug)]
pub enum Outcome {
    /// For each app, whether it has a stream; nothing where it failed.
    AppVolumes(Option<Vec<bool>>),
    /// Whether the volume was set.
    Volume(bool),
    /// The new mute state; nothing where it failed or the app does not run.
    Mute(Option<bool>),
    Icon(Option<String>),
}

/// What a task does along the way.
#[derive(Debug)]
pub enum Effect {
    /// A line for a user who wants to see what happens.
    Trace(String),
    Popup(OsdCall),
    /// The microphone is known to be in this state.
    MicMuted(bool),
    Dispatch(ObsCommand),
}

/// The content of an [`Effect`].
pub enum EffectView {
    Trace(Seq<char>),
    Popup(OsdCallView),
    MicMuted(bool),
    Dispatch(ObsCommand),
}

impl View for Effect {
    type V = EffectView;

    open spec fn view(&self) -> EffectView {
        match *self {
            Effect::Trace(line) => EffectView::Trace(line@),
            Effect::Popup(call) => EffectView::Popup(call@),
            Effect::MicMuted(muted) => EffectView::MicMuted(muted),
            Effect::Dispatch(command) => EffectView::Dispatch(command),
        }
    }
}

/// The contents of a row of effects.
pub open spec fn effects(v: Seq<Effect>) -> Seq<EffectView> {
    Seq::new(v.len(), |i: int| v[i]@)
}

/// The targets that a row of app names refers to.
pub open spec fn targets_of(apps: Seq<Seq<char>>) -> Seq<AppTargetView> {
    Seq::new(apps.len(), |i: int| target_of(apps[i]))
}

/// The contents of a row of targets.
pub open spec fn target_views(v: Seq<AppTarget>) -> Seq<AppTargetView> {
    Seq::new(v.len(), |i: int| v[i]@)
}

/// The names among the first `n` targets.
pub open spec fn names_among(targets: Seq<AppTargetView>, n: int) -> Seq<Seq<char>>
    decreases n,
{
    if n <= 0 {
        Seq::empty()
    } else {
        let before = names_among(targets, n - 1);
        match targets[n - 1] {
            AppTargetView::Named(name) => before.push(name),
            _ => before,
        }
    }
}

/// The names among the first `n` targets that were hit.
pub open spec fn hit_names(targets: Seq<AppTargetView>, hits: Seq<bool>, n: int) -> Seq<Seq<char>>
    decreases n,
{
    if n <= 0 {
        Seq::empty()
    } else {
        let before = hit_names(targets, hits, n - 1);
        match targets[n - 1] {
            AppTargetView::Named(name) => if hits[n - 1] {
                before.push(name)
            } else {
                before
            },
            _ => before,
        }
    }
}

/// Whether a target of the given kind was hit.
pub open spec fn hit_kind(
    targets: Seq<AppTargetView>,
    hits: Seq<bool>,
    kind: AppTargetView,
    n: int,
) -> bool {
    exists|i: int| 0 <= i < n && #[trigger] hits[i] && targets[i] == kind
}

/// Whether the `k`-th name has a stream.
pub open spec fn named_hit(named: Seq<bool>, k: int) -> bool {
    0 <= k < named.len() && named[k]
}

/// The hits, with those of the names that follow: up to the next device.
pub open spec fn walked(
    targets: Seq<AppTargetView>,
    named: Seq<bool>,
    hits: Seq<bool>,
) -> Seq<bool>
    decreases targets.len() - hits.len(),
{
    if hits.len() < targets.len() && targets[hits.len() as int] is Named {
        let k = names_among(targets, hits.len() as int).len() as int;
        walked(targets, named, hits.push(named_hit(named, k)))
    } else {
        hits
    }
}

/// The line for a volume that was set.
pub open spec fn volume_line(label: Seq<char>, value: u8) -> Seq<char> {
    label + " volume: "@ + decimal(percent_at(value) as nat) + "%"@
}

/// The line for a mute state that was set.
pub open spec fn mute_line(label: Seq<char>, muted: bool) -> Seq<char> {
    if muted {
        label + " mute: on"@
    } else {
        label + " mute: off"@
    }
}

/// The lines for the hits from `from` to `to`.
pub open spec fn hit_lines(
    targets: Seq<AppTargetView>,
    hits: Seq<bool>,
    value: u8,
    from: int,
    to: int,
) -> Seq<EffectView>
    decreases to - from,
{
    if to <= from {
        Seq::empty()
    } else {
        let before = hit_lines(targets, hits, value, from, to - 1);
        if hits[to - 1] {
            before.push(EffectView::Trace(volume_line(targets[to - 1].label(), value)))
        } else {
            before
        }
    }
}

/// What a task waits for.
#[derive(Debug, Clone, Copy, PartialEq, Eq, Structural)]
pub enum TaskStage {
    /// The volumes of the apps.
    Batch,
    /// The volume of the device that comes after the hits so far.
    Device,
    /// The icon of the apps that were hit.
    Icon,
    /// The mute state of the target at this index.
    Mute(usize),
    /// The icon of the app at this index, which is now muted or not.
    MuteIcon(usize, bool),
    Done,
}

/// The content of a [`PanelTask`].
#[verifier::ext_equal]
pub struct TaskView {
    pub targets: Seq<AppTargetView>,
    /// The configured icon.
    pub icon: Option<Seq<char>>,
    /// The position of the control.
    pub value: u8,
    pub verbose: bool,
    pub stage: TaskStage,
    /// For each target so far, whether its volume was set.
    pub hits: Seq<bool>,
    /// For each name, whether it has a stream.
    pub named: Seq<bool>,
}

/// A task after a reply, and what it does.
pub struct TaskTurn {
    pub task: TaskView,
    pub effects: Seq<EffectView>,
}

impl TaskView {
    /// Goes on to a stage.
    pub open spec fn goes_to(self, stage: TaskStage, effects: Seq<EffectView>) -> TaskTurn {
        TaskTurn { task: TaskView { stage, ..self }, effects }
    }

    /// The volumes are set: one popup for all of them, that of the system
    /// before that of the microphone before that of the apps, and none where
    /// nothing was hit.
    pub open spec fn settles(self, so_far: Seq<EffectView>) -> TaskTurn {
        let n = self.targets.len() as int;
        let percent = percent_at(self.value) as i32;
        if hit_kind(self.targets, self.hits, AppTargetView::System, n) {
            self.goes_to(
                TaskStage::Done,
                so_far.push(EffectView::Popup(OsdCallView::VolumeChanged { percent })),
            )
        } else if hit_kind(self.targets, self.hits, AppTargetView::Mic, n) {
            self.goes_to(
                TaskStage::Done,
                so_far.push(EffectView::Popup(OsdCallView::MicrophoneVolumeChanged { percent })),
            )
        } else if hit_names(self.targets, self.hits, n).len() > 0 {
            self.goes_to(TaskStage::Icon, so_far)
        } else {
            self.goes_to(TaskStage::Done, so_far)
        }
    }

    /// The volumes are set up to the next device. The hits from `from` on are
    /// new.
    pub open spec fn proceeds(self, from: int) -> TaskTurn {
        let hits = walked(self.targets, self.named, self.hits);
        let task = TaskView { hits, ..self };
        let lines = if self.verbose {
            hit_lines(self.targets, hits, self.value, from, hits.len() as int)
        } else {
            Seq::empty()
        };
        if hits.len() < self.targets.len() {
            task.goes_to(TaskStage::Device, lines)
        } else {
            task.settles(lines)
        }
    }

    /// The next target is to be muted or unmuted.
    pub open spec fn mutes(self, i: int, so_far: Seq<EffectView>) -> TaskTurn {
        self.goes_to(
            if i < self.targets.len() {
                TaskStage::Mute(i as usize)
            } else {
                TaskStage::Done
            },
            so_far,
        )
    }

    /// The target at `i` is now muted or not.
    pub open spec fn muted(self, i: int, muted: bool) -> TaskTurn {
        let lines = if self.verbose {
            seq![EffectView::Trace(mute_line(self.targets[i].label(), muted))]
        } else {
            Seq::empty()
        };
        match self.targets[i] {
            AppTargetView::System => self.mutes(
                i + 1,
                lines.push(
                    EffectView::Popup(
                        OsdCallView::ShowText {
                            icon: mute_icon(muted),
                            text: mute_text("System"@, muted),
                        },
                    ),
                ),
            ),
            AppTargetView::Mic => self.mutes(
                i + 1,
                lines.push(EffectView::MicMuted(muted)).push(
                    EffectView::Popup(
                        OsdCallView::ShowText {
                            icon: mic_icon(muted),
                            text: mute_text("Microphone"@, muted),
                        },
                    ),
                ),
            ),
            AppTargetView::Named(_) => self.goes_to(TaskStage::MuteIcon(i as usize, muted), lines),
        }
    }

    /// What the task asks for.
    pub open spec fn work(self) -> WorkView {
        match self.stage {
            TaskStage::Batch => WorkView::SetAppVolumes {
                names: names_among(self.targets, self.targets.len() as int),
                value: self.value,
            },
            TaskStage::Device => WorkView::SetVolume {
                device: match self.targets[self.hits.len() as int] {
                    AppTargetView::System => Target::DefaultSink,
                    _ => Target::DefaultSource,
                },
                value: self.value,
            },
            TaskStage::Icon => WorkView::FindIcon {
                icon: self.icon,
                names: hit_names(self.targets, self.hits, self.targets.len() as int),
            },
            TaskStage::Mute(i) => match self.targets[i as int] {
                AppTargetView::System => WorkView::ToggleMute { device: Target::DefaultSink },
                AppTargetView::Mic => WorkView::ToggleMute { device: Target::DefaultSource },
                AppTargetView::Named(name) => WorkView::ToggleAppMute { name },
            },
            TaskStage::MuteIcon(i, _) => WorkView::FindIcon {
                icon: self.icon,
                names: seq![self.targets[i as int].label()],
            },
            TaskStage::Done => WorkView::Finished,
        }
    }

    /// The task after a reply.
    pub open spec fn after(self, outcome: Outcome) -> TaskTurn {
        match (self.stage, outcome) {
            (TaskStage::Batch, Outcome::AppVolumes(named)) => TaskView {
                named: match named {
                    Some(named) => named@,
                    None => Seq::empty(),
                },
                ..self
            }.proceeds(0),
            (TaskStage::Device, Outcome::Volume(hit)) => TaskView {
                hits: self.hits.push(hit),
                ..self
            }.proceeds(self.hits.len() as int),
            (TaskStage::Icon, Outcome::Icon(found)) => self.goes_to(
                TaskStage::Done,
                seq![
                    EffectView::Popup(
                        OsdCallView::MediaPlayerVolumeChanged {
                            percent: percent_at(self.value) as i32,
                            player_name: joined(
                                hit_names(self.targets, self.hits, self.targets.len() as int),
                                "\n"@,
                            ),
                            icon: match opt_text(found) {
                                Some(icon) => icon,
                                None => Seq::empty(),
                            },
                        },
                    ),
                ],
            ),
            (TaskStage::Mute(i), Outcome::Mute(muted)) => match muted {
                Some(muted) => self.muted(i as int, muted),
                None => self.mutes(i + 1, Seq::empty()),
            },
            (TaskStage::MuteIcon(i, muted), Outcome::Icon(found)) => self.mutes(
                i + 1,
                seq![
                    EffectView::Popup(
                        OsdCallView::ShowText {
                            icon: match opt_text(found) {
                                Some(icon) => icon,
                                None => mute_icon(muted),
                            },
                            text: mute_text(self.targets[i as int].label(), muted),
                        },
                    ),
                ],
            ),
            _ => self.goes_to(self.stage, Seq::empty()),
        }
    }

    /// Nothing to do.
    pub open spec fn idle() -> TaskView {
        TaskView {
            targets: Seq::empty(),
            icon: None,
            value: 0,
            verbose: false,
            stage: TaskStage::Done,
            hits: Seq::empty(),
            named: Seq::empty(),
        }
    }

    /// A command for OBS.
    pub open spec fn commands(command: ObsCommand, verbose: bool) -> TaskTurn {
        TaskTurn {
            task: TaskView::idle(),
            effects: if verbose {
                seq![EffectView::Trace("OBS: "@ + command.words()), EffectView::Dispatch(command)]
            } else {
                seq![EffectView::Dispatch(command)]
            },
        }
    }

    /// What an event leads to.
    pub open spec fn begin(
        event: Event,
        mappings: Map<ControlId, ActionView>,
        verbose: bool,
    ) -> TaskTurn {
        let nothing = TaskTurn { task: TaskView::idle(), effects: Seq::empty() };
        match event {
            Event::AnalogChange { control, value } => {
                let id = match control {
                    Control::Knob(i) => ControlId::Knob(i),
                    Control::Slider(i) => ControlId::Slider(i),
                };
                if mappings.dom().contains(id) {
                    match mappings[id] {
                        ActionView::Volume { apps, icon } => {
                            let task = TaskView {
                                targets: targets_of(apps),
                                icon,
                                value,
                                verbose,
                                stage: TaskStage::Batch,
                                hits: Seq::empty(),
                                named: Seq::empty(),
                            };
                            if names_among(task.targets, task.targets.len() as int).len() > 0 {
                                task.goes_to(TaskStage::Batch, Seq::empty())
                            } else {
                                task.proceeds(0)
                            }
                        },
                        _ => nothing,
                    }
                } else {
                    nothing
                }
            },
            Event::ButtonPress { index } => {
                let id = ControlId::Button(index);
                if mappings.dom().contains(id) {
                    match mappings[id] {
                        ActionView::ToggleMute { apps, icon } => TaskView {
                            targets: targets_of(apps),
                            icon,
                            value: 0,
                            verbose,
                            stage: TaskStage::Done,
                            hits: Seq::empty(),
                            named: Seq::empty(),
                        }.mutes(0, Seq::empty()),
                        ActionView::ObsSaveReplay => TaskView::commands(
                            ObsCommand::SaveReplay,
                            verbose,
                        ),
                        ActionView::ObsToggleRecording => TaskView::commands(
                            ObsCommand::ToggleRecording,
                            verbose,
                        ),
                        ActionView::ObsPauseRecording => TaskView::commands(
                            ObsCommand::PauseRecording,
                            verbose,
                        ),
                        ActionView::ObsSplitRecording => TaskView::commands(
                            ObsCommand::SplitRecording,
                            verbose,
                        ),
                        ActionView::Volume { .. } => nothing,
                    }
                } else {
                    nothing
                }
            },
            Event::ButtonRelease { .. } => nothing,
        }
    }

    /// Whether the task can be in this state.
    pub open spec fn is_valid(self) -> bool {
        match self.stage {
            TaskStage::Batch => self.hits.len() == 0,
            TaskStage::Device => self.hits.len() < self.targets.len()
                && !(self.targets[self.hits.len() as int] is Named),
            TaskStage::Icon => self.hits.len() == self.targets.len(),
            TaskStage::Mute(i) => i < self.targets.len(),
            TaskStage::MuteIcon(i, _) => i < self.targets.len()
                && self.targets[i as int] is Named,
            TaskStage::Done => true,
        }
    }

    /// How many replies the task may still wait for.
    pub open spec fn distance(self) -> int {
        match self.stage {
            TaskStage::Batch => self.targets.len() as int + 2,
            TaskStage::Device => self.targets.len() - self.hits.len() + 1,
            TaskStage::Icon => 1,
            TaskStage::Mute(i) => 2 * (self.targets.len() - i),
            TaskStage::MuteIcon(i, _) => 2 * (self.targets.len() - i) - 1,
            TaskStage::Done => 0,
        }
    }
}

/// Whether a reply is one that a stage waits for.
pub open spec fn fits(outcome: Outcome, stage: TaskStage) -> bool {
    match stage {
        TaskStage::Batch => outcome is AppVolumes,
        TaskStage::Device => outcome is Volume,
        TaskStage::Icon => outcome is Icon,
        TaskStage::Mute(_) => outcome is Mute,
        TaskStage::MuteIcon(_, _) => outcome is Icon,
        TaskStage::Done => false,
    }
}

/// What an event of the panel leads to, step by step.
#[derive(Debug)]
pub struct PanelTask {
    targets: Vec<AppTarget>,
    icon: Option<String>,
    value: u8,
    verbose: bool,
    stage: TaskStage,
    hits: Vec<bool>,
    named: Vec<bool>,
}

impl View for PanelTask {
    type V = TaskView;

    closed spec fn view(&self) -> TaskView {
        TaskView {
            targets: target_views(self.targets@),
            icon: opt_text(self.icon),
            value: self.value,
            verbose: self.verbose,
            stage: self.stage,
            hits: self.hits@,
            named: self.named@,
        }
    }
}

/// The names among targets.
pub fn named_target_names(targets: &Vec<AppTarget>) -> (r: Vec<String>)
    ensures
        texts(r@) == names_among(target_views(targets@), targets@.len() as int),
{
    let ghost ts = target_views(targets@);
    let mut out: Vec<String> = Vec::new();
    let mut i: usize = 0;
    assert(texts(out@) =~= Seq::<Seq<char>>::empty());
    while i < targets.len()
        invariant
            i <= targets@.len(),
            ts == target_views(targets@),
            texts(out@) == names_among(ts, i as int),
        decreases targets@.len() - i,
    {
        let ghost before = out@;
        if let AppTarget::Named(name) = &targets[i] {
            out.push(name.clone());
            assert(texts(out@) =~= texts(before).push(name@));
        }
        i = i + 1;
    }
    out
}

/// The names among the targets that were hit.
fn hit_target_names(targets: &Vec<AppTarget>, hits: &Vec<bool>) -> (r: Vec<String>)
    requires
        hits@.len() == targets@.len(),
    ensures
        texts(r@) == hit_names(target_views(targets@), hits@, targets@.len() as int),
{
    let ghost ts = target_views(targets@);
    let mut out: Vec<String> = Vec::new();
    let mut i: usize = 0;
    assert(texts(out@) =~= Seq::<Seq<char>>::empty());
    while i < targets.len()
        invariant
            i <= targets@.len(),
            hits@.len() == targets@.len(),
            ts == target_views(targets@),
            texts(out@) == hit_names(ts, hits@, i as int),
        decreases targets@.len() - i,
    {
        let ghost before = out@;
        if let AppTarget::Named(name) = &targets[i] {
            if hits[i] {
                out.push(name.clone());
                assert(texts(out@) =~= texts(before).push(name@));
            }
        }
        i = i + 1;
    }
    out
}

fn resolve_targets(apps: &Vec<String>) -> (r: Vec<AppTarget>)
    ensures
        target_views(r@) == targets_of(texts(apps@)),
{
    let mut out: Vec<AppTarget> = Vec::new();
    let mut i: usize = 0;
    while i < apps.len()
        invariant
            i <= apps@.len(),
            out@.len() == i,
            forall|j: int| 0 <= j < i ==> (#[trigger] out@[j])@ == target_of(apps@[j]@),
        decreases apps@.len() - i,
    {
        out.push(AppTarget::from_app(apps[i].as_str()));
        i = i + 1;
    }
    assert(target_views(out@) =~= targets_of(texts(apps@)));
    out
}

fn is_named(target: &AppTarget) -> (r: bool)
    ensures
        r == (target@ is Named),
{
    match target {
        AppTarget::Named(_) => true,
        _ => false,
    }
}

fn clone_icon(icon: &Option<String>) -> (r: Option<String>)
    ensures
        opt_text(r) == opt_text(*icon),
{
    match icon {
        Some(icon) => Some(icon.clone()),
        None => None,
    }
}

fn nothing() -> (r: Vec<Effect>)
    ensures
        effects(r@) == Seq::<EffectView>::empty(),
{
    let out: Vec<Effect> = Vec::new();
    assert(effects(out@) =~= Seq::<EffectView>::empty());
    out
}

fn put(out: &mut Vec<Effect>, effect: Effect)
    ensures
        effects(final(out)@) == effects(old(out)@).push(effect@),
{
    out.push(effect);
    assert(effects(out@) =~= effects(old(out)@).push(effect@));
}

fn describe_volume(target: &AppTarget, value: u8) -> (r: String)
    ensures
        r@ == volume_line(target@.label(), value),
{
    let mut line = target.label().to_owned();
    line.append(" volume: ");
    append_decimal(&mut line, value_to_percent(value) as u64);
    line.append("%");
    line
}

fn describe_toggle(target: &AppTarget, muted: bool) -> (r: String)
    ensures
        r@ == mute_line(target@.label(), muted),
{
    let mut line = target.label().to_owned();
    if muted {
        line.append(" mute: on");
    } else {
        line.append(" mute: off");
    }
    line
}

proof fn lemma_walked_keeps(targets: Seq<AppTargetView>, named: Seq<bool>, hits: Seq<bool>)
    requires
        hits.len() <= targets.len(),
    ensures
        hits.len() <= walked(targets, named, hits).len() <= targets.len(),
        walked(targets, named, hits).take(hits.len() as int) == hits,
        walked(targets, named, hits).len() < targets.len() ==> !(targets[walked(
            targets,
            named,
            hits,
        ).len() as int] is Named),
    decreases targets.len() - hits.len(),
{
    if hits.len() < targets.len() && targets[hits.len() as int] is Named {
        let k = names_among(targets, hits.len() as int).len() as int;
        let more = hits.push(named_hit(named, k));
        lemma_walked_keeps(targets, named, more);
        let w = walked(targets, named, hits);
        assert(w.take(hits.len() as int) =~= w.take(more.len() as int).take(hits.len() as int));
        assert(more.take(hits.len() as int) =~= hits);
    } else {
        assert(hits.take(hits.len() as int) =~= hits);
    }
}

impl PanelTask {
    #[verifier::type_invariant]
    spec fn well_formed(self) -> bool {
        self@.is_valid()
    }

    /// Nothing to do.
    pub fn idle() -> (r: PanelTask)
        ensures
            r@ == TaskView::idle(),
    {
        let r = PanelTask {
            targets: Vec::new(),
            icon: None,
            value: 0,
            verbose: false,
            stage: TaskStage::Done,
            hits: Vec::new(),
            named: Vec::new(),
        };
        assert(r@ =~= TaskView::idle());
        r
    }

    fn command(command: ObsCommand, verbose: bool) -> (r: (PanelTask, Vec<Effect>))
        ensures
            (TaskTurn { task: r.0@, effects: effects(r.1@) }) == TaskView::commands(
                command,
                verbose,
            ),
    {
        let mut out = nothing();
        if verbose {
            let mut line = "OBS: ".to_owned();
            line.append(command.label());
            put(&mut out, Effect::Trace(line));
        }
        put(&mut out, Effect::Dispatch(command));
        assert(effects(out@) =~= TaskView::commands(command, verbose).effects);
        (PanelTask::idle(), out)
    }

    /// Sets the hits of the names up to the next device and goes on from
    /// there. The hits from `from` on are new.
    fn proceed(
        targets: Vec<AppTarget>,
        icon: Option<String>,
        value: u8,
        verbose: bool,
        named: Vec<bool>,
        hits: Vec<bool>,
        from: usize,
    ) -> (r: (PanelTask, Vec<Effect>))
        requires
            from <= hits@.len() <= targets@.len(),
        ensures
            (TaskTurn { task: r.0@, effects: effects(r.1@) }) == (TaskView {
                targets: target_views(targets@),
                icon: opt_text(icon),
                value,
                verbose,
                stage: TaskStage::Done,
                hits: hits@,
                named: named@,
            }).proceeds(from as int),
    {
        let ghost ts = target_views(targets@);
        let ghost start = hits@;
        let mut hits = hits;
        let count = targets.len();
        let mut names: usize = 0;
        let mut k: usize = 0;
        while k < hits.len()
            invariant
                k <= hits@.len() <= count,
                count == targets@.len(),
                ts == target_views(targets@),
                names <= k,
                names == names_among(ts, k as int).len(),
            decreases hits@.len() - k,
        {
            if is_named(&targets[k]) {
                names = names + 1;
            }
            k = k + 1;
        }
        let mut at: usize = hits.len();
        while at < count && is_named(&targets[at])
            invariant
                at == hits@.len(),
                at <= count,
                count == targets@.len(),
                ts == target_views(targets@),
                names <= at,
                names == names_among(ts, at as int).len(),
                walked(ts, named@, start) == walked(ts, named@, hits@),
            decreases count - at,
        {
            let hit = names < named.len() && named[names];
            hits.push(hit);
            names = names + 1;
            at = at + 1;
        }
        assert(hits@ == walked(ts, named@, start));
        proof {
            lemma_walked_keeps(ts, named@, start);
        }
        let mut out = nothing();
        if verbose {
            let mut i: usize = from;
            while i < hits.len()
                invariant
                    from <= i <= hits@.len() <= targets@.len(),
                    ts == target_views(targets@),
                    effects(out@) == hit_lines(ts, hits@, value, from as int, i as int),
                decreases hits@.len() - i,
            {
                if hits[i] {
                    put(&mut out, Effect::Trace(describe_volume(&targets[i], value)));
                }
                i = i + 1;
            }
        }
        if at < count {
            return (
                PanelTask { targets, icon, value, verbose, stage: TaskStage::Device, hits, named },
                out,
            );
        }
        let mut system = false;
        let mut mic = false;
        let mut i: usize = 0;
        while i < count
            invariant
                i <= count,
                count == targets@.len(),
                hits@.len() == count,
                ts == target_views(targets@),
                system == hit_kind(ts, hits@, AppTargetView::System, i as int),
                mic == hit_kind(ts, hits@, AppTargetView::Mic, i as int),
            decreases count - i,
        {
            if hits[i] {
                match &targets[i] {
                    AppTarget::System => {
                        system = true;
                    },
                    AppTarget::Mic => {
                        mic = true;
                    },
                    AppTarget::Named(_) => {},
                }
            }
            proof {
                lemma_hit_kind_step(ts, hits@, AppTargetView::System, i as int);
                lemma_hit_kind_step(ts, hits@, AppTargetView::Mic, i as int);
            }
            i = i + 1;
        }
        let percent = value_to_percent(value) as i32;
        let stage = if system {
            put(&mut out, Effect::Popup(volume_changed(percent)));
            TaskStage::Done
        } else if mic {
            put(&mut out, Effect::Popup(microphone_volume_changed(percent)));
            TaskStage::Done
        } else {
            let names = hit_target_names(&targets, &hits);
            assert(names@.len() == texts(names@).len());
            if names.len() > 0 {
                TaskStage::Icon
            } else {
                TaskStage::Done
            }
        };
        (PanelTask { targets, icon, value, verbose, stage, hits, named }, out)
    }

    /// What an event leads to: the task, and what it does at once.
    pub fn handle_panel_event(event: Event, config: &Config, verbose: bool) -> (r: (
        PanelTask,
        Vec<Effect>,
    ))
        ensures
            (TaskTurn { task: r.0@, effects: effects(r.1@) }) == TaskView::begin(
                event,
                config@.mappings,
                verbose,
            ),
    {
        match event {
            Event::AnalogChange { control, value } => {
                let id = match control {
                    Control::Knob(i) => ControlId::Knob(i),
                    Control::Slider(i) => ControlId::Slider(i),
                };
                match config.mappings.get(&id) {
                    Some(Action::Volume { apps, icon }) => {
                        let targets = resolve_targets(apps);
                        let names = named_target_names(&targets);
                        assert(names@.len() == texts(names@).len());
                        let icon = clone_icon(icon);
                        if names.len() > 0 {
                            let hits: Vec<bool> = Vec::new();
                            let named: Vec<bool> = Vec::new();
                            assert(hits@ =~= Seq::<bool>::empty());
                            (
                                PanelTask {
                                    targets,
                                    icon,
                                    value,
                                    verbose,
                                    stage: TaskStage::Batch,
                                    hits,
                                    named,
                                },
                                nothing(),
                            )
                        } else {
                            let hits: Vec<bool> = Vec::new();
                            let named: Vec<bool> = Vec::new();
                            assert(hits@ =~= Seq::<bool>::empty());
                            PanelTask::proceed(targets, icon, value, verbose, named, hits, 0)
                        }
                    },
                    _ => (PanelTask::idle(), nothing()),
                }
            },
            Event::ButtonPress { index } => match config.mappings.get(&ControlId::Button(index)) {
                Some(Action::ToggleMute { apps, icon }) => {
                    let targets = resolve_targets(apps);
                    let icon = clone_icon(icon);
                    let stage = if targets.len() > 0 {
                        TaskStage::Mute(0)
                    } else {
                        TaskStage::Done
                    };
                    let hits: Vec<bool> = Vec::new();
                    let named: Vec<bool> = Vec::new();
                    assert(hits@ =~= Seq::<bool>::empty());
                    (
                        PanelTask { targets, icon, value: 0, verbose, stage, hits, named },
                        nothing(),
                    )
                },
                Some(Action::ObsSaveReplay) => PanelTask::command(ObsCommand::SaveReplay, verbose),
                Some(Action::ObsToggleRecording) => PanelTask::command(
                    ObsCommand::ToggleRecording,
                    verbose,
                ),
                Some(Action::ObsPauseRecording) => PanelTask::command(
                    ObsCommand::PauseRecording,
                    verbose,
                ),
                Some(Action::ObsSplitRecording) => PanelTask::command(
                    ObsCommand::SplitRecording,
                    verbose,
                ),
                _ => (PanelTask::idle(), nothing()),
            },
            Event::ButtonRelease { .. } => (PanelTask::idle(), nothing()),
        }
    }

    /// What the task asks for.
    pub fn work(&self) -> (r: Work)
        ensures
            r@ == self@.work(),
    {
        proof {
            use_type_invariant(self);
        }
        match self.stage {
            TaskStage::Batch => Work::SetAppVolumes {
                names: named_target_names(&self.targets),
                value: self.value,
            },
            TaskStage::Device => {
                let device = match &self.targets[self.hits.len()] {
                    AppTarget::System => Target::DefaultSink,
                    _ => Target::DefaultSource,
                };
                Work::SetVolume { device, value: self.value }
            },
            TaskStage::Icon => Work::FindIcon {
                icon: clone_icon(&self.icon),
                names: hit_target_names(&self.targets, &self.hits),
            },
            TaskStage::Mute(i) => match &self.targets[i] {
                AppTarget::System => Work::ToggleMute { device: Target::DefaultSink },
                AppTarget::Mic => Work::ToggleMute { device: Target::DefaultSource },
                AppTarget::Named(name) => Work::ToggleAppMute { name: name.clone() },
            },
            TaskStage::MuteIcon(i, _) => {
                let mut names: Vec<String> = Vec::new();
                names.push(self.targets[i].label().to_owned());
                assert(texts(names@) =~= seq![self@.targets[i as int].label()]);
                Work::FindIcon { icon: clone_icon(&self.icon), names }
            },
            TaskStage::Done => Work::Finished,
        }
    }

    /// Whether a reply is one that the task waits for.
    pub fn expects(&self, outcome: &Outcome) -> (r: bool)
        ensures
            r == fits(*outcome, self@.stage),
    {
        match self.stage {
            TaskStage::Batch => matches!(outcome, Outcome::AppVolumes(_)),
            TaskStage::Device => matches!(outcome, Outcome::Volume(_)),
            TaskStage::Icon | TaskStage::MuteIcon(_, _) => matches!(outcome, Outcome::Icon(_)),
            TaskStage::Mute(_) => matches!(outcome, Outcome::Mute(_)),
            TaskStage::Done => false,
        }
    }

    fn next_mute(&mut self, i: usize)
        requires
            i < old(self)@.targets.len(),
        ensures
            final(self)@ == old(self)@.mutes(i + 1, Seq::empty()).task,
    {
        let count = self.targets.len();
        assert(i < count);
        if i + 1 < count {
            self.stage = TaskStage::Mute(i + 1);
        } else {
            self.stage = TaskStage::Done;
        }
    }

    fn toggled(&mut self, i: usize, muted: bool) -> (out: Vec<Effect>)
        requires
            i < old(self)@.targets.len(),
        ensures
            (TaskTurn { task: final(self)@, effects: effects(out@) }) == old(self)@.muted(
                i as int,
                muted,
            ),
    {
        let mut out = nothing();
        if self.verbose {
            put(&mut out, Effect::Trace(describe_toggle(&self.targets[i], muted)));
            assert(effects(out@) =~= seq![
                EffectView::Trace(mute_line(self@.targets[i as int].label(), muted)),
            ]);
        }
        let is_named = match &self.targets[i] {
            AppTarget::System => {
                put(&mut out, Effect::Popup(show_mute("System", muted)));
                false
            },
            AppTarget::Mic => {
                put(&mut out, Effect::MicMuted(muted));
                put(&mut out, Effect::Popup(show_mic_mute(muted)));
                false
            },
            AppTarget::Named(_) => true,
        };
        if is_named {
            self.stage = TaskStage::MuteIcon(i, muted);
        } else {
            self.next_mute(i);
        }
        out
    }

    /// Takes the reply to the present work. The result is what the task does,
    /// in order.
    pub fn advance(&mut self, outcome: Outcome) -> (out: Vec<Effect>)
        requires
            fits(outcome, old(self)@.stage),
        ensures
            (TaskTurn { task: final(self)@, effects: effects(out@) }) == old(self)@.after(outcome),
    {
        proof {
            use_type_invariant(&*self);
        }
        match (self.stage, outcome) {
            (TaskStage::Batch, Outcome::AppVolumes(named)) => {
                let named = match named {
                    Some(named) => named,
                    None => {
                        let v: Vec<bool> = Vec::new();
                        assert(v@ =~= Seq::<bool>::empty());
                        v
                    },
                };
                self.resume(named, None)
            },
            (TaskStage::Device, Outcome::Volume(hit)) => {
                let mut named: Vec<bool> = Vec::new();
                let mut i: usize = 0;
                while i < self.named.len()
                    invariant
                        i <= self.named@.len(),
                        named@ == self.named@.take(i as int),
                    decreases self.named@.len() - i,
                {
                    named.push(self.named[i]);
                    i = i + 1;
                }
                assert(named@ =~= self.named@);
                self.resume(named, Some(hit))
            },
            (TaskStage::Icon, Outcome::Icon(found)) => {
                let names = hit_target_names(&self.targets, &self.hits);
                let label = join(&names, "\n");
                let icon = resolve(found);
                let percent = value_to_percent(self.value) as i32;
                self.stage = TaskStage::Done;
                let mut out = nothing();
                put(
                    &mut out,
                    Effect::Popup(
                        media_player_volume_changed(percent, label.as_str(), icon.as_str()),
                    ),
                );
                assert(effects(out@) =~= old(self)@.after(outcome).effects);
                out
            },
            (TaskStage::Mute(i), Outcome::Mute(muted)) => match muted {
                Some(muted) => self.toggled(i, muted),
                None => {
                    self.next_mute(i);
                    nothing()
                },
            },
            (TaskStage::MuteIcon(i, muted), Outcome::Icon(found)) => {
                let icon = resolve_mute(found, muted);
                let text = describe_mute(self.targets[i].label(), muted);
                self.next_mute(i);
                let mut out = nothing();
                put(&mut out, Effect::Popup(show_text(icon.as_str(), text.as_str())));
                assert(effects(out@) =~= old(self)@.after(outcome).effects);
                out
            },
            _ => nothing(),
        }
    }

    /// Goes on with the answers for the names, and with one more hit where a
    /// device has answered.
    fn resume(&mut self, named: Vec<bool>, hit: Option<bool>) -> (out: Vec<Effect>)
        requires
            match hit {
                Some(_) => old(self)@.stage == TaskStage::Device && named@ == old(self)@.named,
                None => old(self)@.stage == TaskStage::Batch,
            },
        ensures
            (TaskTurn { task: final(self)@, effects: effects(out@) }) == match hit {
                Some(hit) => (TaskView {
                    hits: old(self)@.hits.push(hit),
                    ..old(self)@
                }).proceeds(old(self)@.hits.len() as int),
                None => (TaskView { named: named@, ..old(self)@ }).proceeds(0),
            },
    {
        proof {
            use_type_invariant(&*self);
        }
        let mut done = PanelTask::idle();
        std::mem::swap(&mut done, self);
        let PanelTask { targets, icon, value, verbose, stage: _, hits, named: _ } = done;
        let mut hits = hits;
        let from = match hit {
            Some(hit) => {
                let from = hits.len();
                hits.push(hit);
                from
            },
            None => 0,
        };
        let (mut task, out) = PanelTask::proceed(targets, icon, value, verbose, named, hits, from);
        std::mem::swap(&mut task, self);
        out
    }
}

proof fn lemma_hit_kind_step(
    targets: Seq<AppTargetView>,
    hits: Seq<bool>,
    kind: AppTargetView,
    n: int,
)
    requires
        0 <= n < hits.len(),
    ensures
        hit_kind(targets, hits, kind, n + 1) == (hit_kind(targets, hits, kind, n) || (hits[n]
            && targets[n] == kind)),
{
    if hit_kind(targets, hits, kind, n) {
        let i = choose|i: int| 0 <= i < n && #[trigger] hits[i] && targets[i] == kind;
        assert(hits[i]);
    }
    if hits[n] && targets[n] == kind {
        assert(hits[n]);
    }
}

// ---------------------------------------------------------------------------
// Laws
// ---------------------------------------------------------------------------

/// A control without an action, a button that is released and an action that
/// does not belong to the control lead to nothing.
pub proof fn law_unmapped_controls_do_nothing(
    event: Event,
    mappings: Map<ControlId, ActionView>,
    verbose: bool,
)
    requires
        match event {
            Event::AnalogChange { control, .. } => {
                let id = match control {
                    Control::Knob(i) => ControlId::Knob(i),
                    Control::Slider(i) => ControlId::Slider(i),
                };
                mappings.dom().contains(id) ==> !(mappings[id] is Volume)
            },
            Event::ButtonPress { index } => mappings.dom().contains(ControlId::Button(index))
                ==> mappings[ControlId::Button(index)] is Volume,
            Event::ButtonRelease { .. } => true,
        },
    ensures
        TaskView::begin(event, mappings, verbose).task.work() is Finished,
        TaskView::begin(event, mappings, verbose).effects.len() == 0,
{
}

/// A task begins in a valid state.
pub proof fn lemma_begin_is_valid(
    event: Event,
    mappings: Map<ControlId, ActionView>,
    verbose: bool,
)
    ensures
        TaskView::begin(event, mappings, verbose).task.is_valid(),
{
    match event {
        Event::AnalogChange { control, .. } => {
            let id = match control {
                Control::Knob(i) => ControlId::Knob(i),
                Control::Slider(i) => ControlId::Slider(i),
            };
            if let ActionView::Volume { apps, .. } = mappings[id] {
                lemma_walked_keeps(targets_of(apps), Seq::empty(), Seq::empty());
            }
        },
        _ => {},
    }
}

/// Every reply brings a task nearer to its end.
pub proof fn law_panel_tasks_end(task: TaskView, outcome: Outcome)
    requires
        task.is_valid(),
        task.targets.len() <= usize::MAX,
        fits(outcome, task.stage),
    ensures
        task.after(outcome).task.is_valid(),
        0 <= task.after(outcome).task.distance() < task.distance(),
{
    match (task.stage, outcome) {
        (TaskStage::Batch, Outcome::AppVolumes(named)) => {
            let n = match named {
                Some(named) => named@,
                None => Seq::empty(),
            };
            lemma_walked_keeps(task.targets, n, task.hits);
        },
        (TaskStage::Device, Outcome::Volume(hit)) => {
            lemma_walked_keeps(task.targets, task.named, task.hits.push(hit));
        },
        _ => {},
    }
}

/// Whether an effect is a popup.
pub open spec fn is_popup(e: EffectView) -> bool {
    e is Popup
}

/// A change of volumes shows at most one popup, at its end: none comes before
/// it, and nothing comes after it.
pub proof fn law_one_popup_for_a_change_of_volumes(task: TaskView, outcome: Outcome)
    requires
        task.is_valid(),
        task.stage is Batch || task.stage is Device || task.stage is Icon,
        fits(outcome, task.stage),
    ensures
        ({
            let turn = task.after(outcome);
            let n = turn.effects.len() as int;
            &&& forall|i: int| 0 <= i < n - 1 ==> !is_popup(#[trigger] turn.effects[i])
            &&& n > 0 && is_popup(turn.effects[n - 1]) ==> turn.task.stage == TaskStage::Done
        }),
{
    match (task.stage, outcome) {
        (TaskStage::Batch, Outcome::AppVolumes(named)) => {
            let n = match named {
                Some(named) => named@,
                None => Seq::empty(),
            };
            let hits = walked(task.targets, n, task.hits);
            lemma_lines_are_traces(task.targets, hits, task.value, 0, hits.len() as int);
        },
        (TaskStage::Device, Outcome::Volume(hit)) => {
            let hits = walked(task.targets, task.named, task.hits.push(hit));
            lemma_lines_are_traces(
                task.targets,
                hits,
                task.value,
                task.hits.len() as int,
                hits.len() as int,
            );
        },
        _ => {},
    }
}

proof fn lemma_lines_are_traces(
    targets: Seq<AppTargetView>,
    hits: Seq<bool>,
    value: u8,
    from: int,
    to: int,
)
    ensures
        forall|i: int|
            0 <= i < hit_lines(targets, hits, value, from, to).len() ==> (#[trigger] hit_lines(
                targets,
                hits,
                value,
                from,
                to,
            )[i]) is Trace,
    decreases to - from,
{
    if to > from {
        lemma_lines_are_traces(targets, hits, value, from, to - 1);
    }
}

/// Where no target is hit, nothing is shown and nothing is traced.
pub proof fn law_no_hit_shows_nothing(task: TaskView)
    requires
        task.hits.len() == task.targets.len(),
        forall|i: int| 0 <= i < task.hits.len() ==> !(#[trigger] task.hits[i]),
    ensures
        task.proceeds(0).effects.len() == 0,
        task.proceeds(0).task.stage == TaskStage::Done,
{
    lemma_no_hit(task.targets, task.hits, task.value, task.targets.len() as int);
}

proof fn lemma_no_hit(targets: Seq<AppTargetView>, hits: Seq<bool>, value: u8, n: int)
    requires
        0 <= n <= hits.len(),
        forall|i: int| 0 <= i < hits.len() ==> !(#[trigger] hits[i]),
    ensures
        hit_lines(targets, hits, value, 0, n).len() == 0,
        hit_names(targets, hits, n).len() == 0,
    decreases n,
{
    if n > 0 {
        lemma_no_hit(targets, hits, value, n - 1);
    }
}

/// What each target comes to, given the answers for the names and the answer
/// of the device at each index.
pub open spec fn true_hits(
    targets: Seq<AppTargetView>,
    named: Seq<bool>,
    device: spec_fn(int) -> bool,
) -> Seq<bool> {
    Seq::new(
        targets.len(),
        |i: int|
            if targets[i] is Named {
                named_hit(named, names_among(targets, i).len() as int)
            } else {
                device(i)
            },
    )
}

proof fn lemma_walked_is_true(
    targets: Seq<AppTargetView>,
    named: Seq<bool>,
    device: spec_fn(int) -> bool,
    hits: Seq<bool>,
)
    requires
        hits.len() <= targets.len(),
        hits == true_hits(targets, named, device).take(hits.len() as int),
    ensures
        ({
            let w = walked(targets, named, hits);
            &&& w.len() <= targets.len()
            &&& w == true_hits(targets, named, device).take(w.len() as int)
        }),
    decreases targets.len() - hits.len(),
{
    let all = true_hits(targets, named, device);
    if hits.len() < targets.len() && targets[hits.len() as int] is Named {
        let k = names_among(targets, hits.len() as int).len() as int;
        let more = hits.push(named_hit(named, k));
        assert(more =~= all.take(more.len() as int));
        lemma_walked_is_true(targets, named, device, more);
    }
}

/// Targets are taken in the order of the configuration, and each gets its own
/// answer, though the names are asked for all at once and the devices one by
/// one.
pub proof fn law_every_target_gets_its_answer(
    task: TaskView,
    named: Vec<bool>,
    device: spec_fn(int) -> bool,
)
    requires
        task.is_valid(),
    ensures
        task.stage == TaskStage::Batch ==> {
            let t = task.after(Outcome::AppVolumes(Some(named))).task;
            t.hits == true_hits(task.targets, named@, device).take(t.hits.len() as int)
        },
        task.stage == TaskStage::Device && task.hits == true_hits(
            task.targets,
            task.named,
            device,
        ).take(task.hits.len() as int) ==> {
            let t = task.after(Outcome::Volume(device(task.hits.len() as int))).task;
            t.hits == true_hits(task.targets, task.named, device).take(t.hits.len() as int)
        },
{
    if task.stage == TaskStage::Batch {
        let all = true_hits(task.targets, named@, device);
        assert(task.hits =~= all.take(0));
        lemma_walked_is_true(task.targets, named@, device, task.hits);
    }
    if task.stage == TaskStage::Device {
        let all = true_hits(task.targets, task.named, device);
        if task.hits == all.take(task.hits.len() as int) {
            let more = task.hits.push(device(task.hits.len() as int));
            assert(more =~= all.take(more.len() as int));
            lemma_walked_is_true(task.targets, task.named, device, more);
        }
    }
}

/// The names among targets, in their order.
pub open spec fn names_in(targets: Seq<AppTargetView>) -> Seq<Seq<char>> {
    targets.filter(|t: AppTargetView| t is Named).map_values(|t: AppTargetView| t->Named_0)
}

/// The names among targets that were hit, in their order.
pub open spec fn names_hit_in(targets: Seq<AppTargetView>, hits: Seq<bool>) -> Seq<Seq<char>> {
    targets.zip_with(hits).filter(|p: (AppTargetView, bool)| p.0 is Named && p.1).map_values(
        |p: (AppTargetView, bool)| p.0->Named_0,
    )
}

proof fn lemma_names_in(targets: Seq<AppTargetView>, n: int)
    requires
        0 <= n <= targets.len(),
    ensures
        names_among(targets, n) == names_in(targets.take(n)),
    decreases n,
{
    reveal(Seq::filter);
    let now = targets.take(n);
    if n > 0 {
        lemma_names_in(targets, n - 1);
        let before = targets.take(n - 1);
        assert(now.drop_last() =~= before);
        let kept = before.filter(|t: AppTargetView| t is Named);
        if now.last() is Named {
            assert(kept.push(now.last()).map_values(|t: AppTargetView| t->Named_0)
                =~= kept.map_values(|t: AppTargetView| t->Named_0).push(now.last()->Named_0));
        }
    } else {
        assert(names_in(now) =~= Seq::<Seq<char>>::empty());
    }
}

proof fn lemma_names_hit_in(targets: Seq<AppTargetView>, hits: Seq<bool>, n: int)
    requires
        0 <= n <= targets.len(),
        hits.len() == targets.len(),
    ensures
        hit_names(targets, hits, n) == names_hit_in(targets.take(n), hits.take(n)),
    decreases n,
{
    reveal(Seq::filter);
    let now = targets.take(n).zip_with(hits.take(n));
    if n > 0 {
        lemma_names_hit_in(targets, hits, n - 1);
        let before = targets.take(n - 1).zip_with(hits.take(n - 1));
        assert(now.drop_last() =~= before);
        assert(now.last() == (targets[n - 1], hits[n - 1]));
        let kept = before.filter(|p: (AppTargetView, bool)| p.0 is Named && p.1);
        if now.last().0 is Named && now.last().1 {
            assert(kept.push(now.last()).map_values(|p: (AppTargetView, bool)| p.0->Named_0)
                =~= kept.map_values(|p: (AppTargetView, bool)| p.0->Named_0).push(
                now.last().0->Named_0,
            ));
        }
    } else {
        assert(names_hit_in(targets.take(n), hits.take(n)) =~= Seq::<Seq<char>>::empty());
    }
}

proof fn lemma_some_name(targets: Seq<AppTargetView>, n: int)
    requires
        0 <= n <= targets.len(),
    ensures
        names_among(targets, n).len() > 0 <==> exists|i: int|
            0 <= i < n && (#[trigger] targets[i]) is Named,
    decreases n,
{
    if n > 0 {
        lemma_some_name(targets, n - 1);
        if targets[n - 1] is Named {
            assert(targets[n - 1] is Named);
        } else if exists|i: int| 0 <= i < n - 1 && (#[trigger] targets[i]) is Named {
            let i = choose|i: int| 0 <= i < n - 1 && (#[trigger] targets[i]) is Named;
            assert(targets[i] is Named);
        }
    }
}

/// A knob or a slider that is moved sets the volumes of the apps in its
/// section, all of them and with its own position: those with a name at once,
/// before any device; where none has a name, the devices one by one from the
/// first.
pub proof fn law_moved_controls_set_volumes(
    control: Control,
    id: ControlId,
    value: u8,
    mappings: Map<ControlId, ActionView>,
    verbose: bool,
    apps: Seq<Seq<char>>,
    icon: Option<Seq<char>>,
)
    requires
        control is Knob ==> id == ControlId::Knob(control->Knob_0),
        control is Slider ==> id == ControlId::Slider(control->Slider_0),
        mappings.dom().contains(id),
        mappings[id] == (ActionView::Volume { apps, icon }),
        apps.len() > 0,
    ensures
        ({
            let turn = TaskView::begin(Event::AnalogChange { control, value }, mappings, verbose);
            let task = turn.task;
            &&& task.value == value && task.icon == icon && task.verbose == verbose
            &&& task.targets.len() == apps.len()
            &&& forall|i: int|
                0 <= i < apps.len() ==> #[trigger] task.targets[i] == target_of(apps[i])
            &&& task.hits.len() == 0 && turn.effects.len() == 0
            &&& !(task.work() is Finished)
            &&& if exists|i: int| 0 <= i < apps.len() && (#[trigger] task.targets[i]) is Named {
                task.work() == (WorkView::SetAppVolumes { names: names_in(task.targets), value })
            } else if task.targets[0] is System {
                task.work() == (WorkView::SetVolume { device: Target::DefaultSink, value })
            } else {
                task.work() == (WorkView::SetVolume { device: Target::DefaultSource, value })
            }
        }),
{
    let targets = targets_of(apps);
    let n = apps.len() as int;
    lemma_names_in(targets, n);
    assert(targets.take(n) =~= targets);
    lemma_some_name(targets, n);
    if names_among(targets, n).len() == 0 {
        assert(!(targets[0] is Named));
        assert(walked(targets, Seq::empty(), Seq::empty()) == Seq::<bool>::empty());
    }
}

/// Whether a work is to mute or unmute a target.
pub open spec fn toggles(work: WorkView, target: AppTargetView) -> bool {
    match target {
        AppTargetView::System => work == (WorkView::ToggleMute { device: Target::DefaultSink }),
        AppTargetView::Mic => work == (WorkView::ToggleMute { device: Target::DefaultSource }),
        AppTargetView::Named(name) => work == (WorkView::ToggleAppMute { name }),
    }
}

/// Whether the target behind the one at `i` comes next, if there is one.
pub open spec fn goes_on_behind(before: TaskView, i: int, after: TaskView) -> bool {
    &&& after.targets == before.targets && after.icon == before.icon
    &&& after.verbose == before.verbose
    &&& if i + 1 < before.targets.len() {
        after.stage == TaskStage::Mute((i + 1) as usize) && toggles(
            after.work(),
            before.targets[i + 1],
        )
    } else {
        after.work() is Finished
    }
}

/// A button that is pressed mutes or unmutes the first app of its section
/// first, or hands over the command of OBS that its section names, and no
/// other; a button that is released does nothing.
pub proof fn law_pressed_buttons_do_as_configured(
    index: u8,
    mappings: Map<ControlId, ActionView>,
    verbose: bool,
)
    requires
        mappings.dom().contains(ControlId::Button(index)),
    ensures
        ({
            let turn = TaskView::begin(Event::ButtonPress { index }, mappings, verbose);
            let action = mappings[ControlId::Button(index)];
            let last = turn.effects.len() - 1;
            let sends = |command: ObsCommand|
                turn.task.work() is Finished && turn.effects[last] == EffectView::Dispatch(command)
                    && (if verbose {
                    last == 1 && turn.effects[0] == EffectView::Trace("OBS: "@ + command.words())
                } else {
                    last == 0
                });
            &&& action matches ActionView::ToggleMute { apps, icon } ==> {
                &&& turn.effects.len() == 0
                &&& turn.task.icon == icon && turn.task.verbose == verbose
                &&& turn.task.targets.len() == apps.len()
                &&& forall|i: int|
                    0 <= i < apps.len() ==> #[trigger] turn.task.targets[i] == target_of(apps[i])
                &&& apps.len() > 0 ==> turn.task.stage == TaskStage::Mute(0) && toggles(
                    turn.task.work(),
                    target_of(apps[0]),
                )
                &&& apps.len() == 0 ==> turn.task.work() is Finished
            }
            &&& action is ObsSaveReplay ==> sends(ObsCommand::SaveReplay)
            &&& action is ObsToggleRecording ==> sends(ObsCommand::ToggleRecording)
            &&& action is ObsPauseRecording ==> sends(ObsCommand::PauseRecording)
            &&& action is ObsSplitRecording ==> sends(ObsCommand::SplitRecording)
        }),
        TaskView::begin(Event::ButtonRelease { index }, mappings, verbose).effects.len() == 0,
        TaskView::begin(
            Event::ButtonRelease { index },
            mappings,
            verbose,
        ).task.work() is Finished,
        ObsCommand::SaveReplay.words() == "save replay buffer"@,
        ObsCommand::ToggleRecording.words() == "toggle recording"@,
        ObsCommand::PauseRecording.words() == "pause/resume recording"@,
        ObsCommand::SplitRecording.words() == "split recording file"@,
{
}

/// Whether an effect is a popup with this icon and text.
pub open spec fn shows(e: EffectView, icon: Seq<char>, text: Seq<char>) -> bool {
    e == EffectView::Popup(OsdCallView::ShowText { icon, text })
}

/// The targets of a button are muted or unmuted one after the other. One that
/// cannot be, or does not run, is passed over without a word; one that was is
/// shown with its new state, the microphone's is recorded before that, and an
/// app's icon is looked up first.
pub proof fn law_every_target_is_toggled(task: TaskView, i: usize, muted: bool, found: Option<String>)
    requires
        task.targets.len() <= usize::MAX,
        i < task.targets.len(),
    ensures
        task.stage == TaskStage::Mute(i) ==> {
            let passed = task.after(Outcome::Mute(None));
            let turn = task.after(Outcome::Mute(Some(muted)));
            let last = turn.effects.len() - 1;
            let lines: int = if task.verbose {
                1
            } else {
                0
            };
            let target = task.targets[i as int];
            let name = match target {
                AppTargetView::System => "system"@,
                AppTargetView::Mic => "mic"@,
                AppTargetView::Named(name) => name,
            };
            &&& passed.effects.len() == 0 && goes_on_behind(task, i as int, passed.task)
            &&& task.verbose ==> turn.effects[0] == EffectView::Trace(
                name + if muted {
                    " mute: on"@
                } else {
                    " mute: off"@
                },
            )
            &&& target is System ==> last == lines && goes_on_behind(task, i as int, turn.task)
                && if muted {
                shows(turn.effects[last], "audio-volume-muted"@, "System"@ + ": "@ + "Muted"@)
            } else {
                shows(turn.effects[last], "audio-volume-high"@, "System"@ + ": "@ + "Unmuted"@)
            }
            &&& target is Mic ==> last == lines + 1 && goes_on_behind(task, i as int, turn.task)
                && turn.effects[lines] == EffectView::MicMuted(muted) && if muted {
                shows(
                    turn.effects[last],
                    "microphone-sensitivity-muted"@,
                    "Microphone"@ + ": "@ + "Muted"@,
                )
            } else {
                shows(
                    turn.effects[last],
                    "microphone-sensitivity-high"@,
                    "Microphone"@ + ": "@ + "Unmuted"@,
                )
            }
            &&& target is Named ==> {
                &&& last == lines - 1
                &&& turn.task.stage == TaskStage::MuteIcon(i, muted)
                &&& turn.task.targets == task.targets && turn.task.icon == task.icon
                &&& turn.task.work() == (WorkView::FindIcon { icon: task.icon, names: seq![name] })
            }
        },
        task.stage == TaskStage::MuteIcon(i, muted) && task.targets[i as int] is Named ==> {
            let turn = task.after(Outcome::Icon(found));
            let name = task.targets[i as int]->Named_0;
            &&& goes_on_behind(task, i as int, turn.task)
            &&& turn.effects.len() == 1
            &&& shows(
                turn.effects[0],
                match found {
                    Some(icon) => icon@,
                    None => if muted {
                        "audio-volume-muted"@
                    } else {
                        "audio-volume-high"@
                    },
                },
                name + ": "@ + (if muted {
                    "Muted"@
                } else {
                    "Unmuted"@
                }),
            )
        },
{
}

/// Whether a target of this kind is among those whose volume was set.
pub open spec fn was_set(task: TaskView, target: AppTargetView) -> bool {
    exists|i: int| 0 <= i < task.hits.len() && #[trigger] task.hits[i] && task.targets[i] == target
}

proof fn lemma_every_hit_has_a_line(
    targets: Seq<AppTargetView>,
    hits: Seq<bool>,
    value: u8,
    from: int,
    to: int,
    i: int,
)
    requires
        from <= i < to,
        hits[i],
    ensures
        hit_lines(targets, hits, value, from, to).contains(
            EffectView::Trace(volume_line(targets[i].label(), value)),
        ),
    decreases to - from,
{
    let lines = hit_lines(targets, hits, value, from, to);
    let before = hit_lines(targets, hits, value, from, to - 1);
    let line = EffectView::Trace(volume_line(targets[i].label(), value));
    if i == to - 1 {
        assert(lines[before.len() as int] == line);
    } else {
        lemma_every_hit_has_a_line(targets, hits, value, from, to - 1, i);
        let k = choose|k: int| 0 <= k < before.len() && before[k] == line;
        assert(lines[k] == line);
    }
}

/// While there is a device left, its volume comes next, with the position of
/// the control. When all volumes are set, the popup is that of the system
/// where the system's volume was set, else that of the microphone where the
/// microphone's was, else that of the apps whose volumes were, once their icon
/// is found; where none was, there is no popup. Each volume that was set has a
/// line where the user wants to see what happens, and there is none otherwise.
pub proof fn law_volumes_are_shown_when_set(task: TaskView, outcome: Outcome)
    requires
        task.is_valid(),
        task.stage is Batch || task.stage is Device,
        fits(outcome, task.stage),
    ensures
        ({
            let turn = task.after(outcome);
            let t = turn.task;
            let last = turn.effects.len() - 1;
            let percent = percent_at(task.value) as i32;
            &&& t.targets == task.targets && t.value == task.value && t.icon == task.icon
            &&& t.hits.len() < t.targets.len() ==> {
                let target = t.targets[t.hits.len() as int];
                &&& target is System || target is Mic
                &&& t.work() == (WorkView::SetVolume {
                    device: if target is System {
                        Target::DefaultSink
                    } else {
                        Target::DefaultSource
                    },
                    value: task.value,
                })
                &&& forall|k: int| 0 <= k <= last ==> (#[trigger] turn.effects[k]) is Trace
            }
            &&& t.hits.len() >= t.targets.len() ==> {
                &&& t.hits.len() == t.targets.len()
                &&& if was_set(t, AppTargetView::System) {
                    t.work() is Finished && last >= 0 && turn.effects[last] == EffectView::Popup(
                        OsdCallView::VolumeChanged { percent },
                    )
                } else if was_set(t, AppTargetView::Mic) {
                    t.work() is Finished && last >= 0 && turn.effects[last] == EffectView::Popup(
                        OsdCallView::MicrophoneVolumeChanged { percent },
                    )
                } else {
                    let names = names_hit_in(t.targets, t.hits);
                    &&& names.len() > 0 ==> t.work() == (WorkView::FindIcon {
                        icon: task.icon,
                        names,
                    })
                    &&& names.len() == 0 ==> t.work() is Finished
                    &&& forall|k: int| 0 <= k <= last ==> (#[trigger] turn.effects[k]) is Trace
                }
            }
            &&& !task.verbose ==> forall|k: int|
                0 <= k <= last ==> !((#[trigger] turn.effects[k]) is Trace)
            &&& task.verbose ==> forall|i: int|
                task.hits.len() <= i < t.hits.len() && #[trigger] t.hits[i] ==> {
                    let name = match t.targets[i] {
                        AppTargetView::System => "system"@,
                        AppTargetView::Mic => "mic"@,
                        AppTargetView::Named(name) => name,
                    };
                    turn.effects.contains(
                        EffectView::Trace(
                            name + " volume: "@ + decimal(percent_at(task.value) as nat) + "%"@,
                        ),
                    )
                }
        }),
{
    let turn = task.after(outcome);
    let t = turn.task;
    let start = match outcome {
        Outcome::Volume(hit) => task.hits.push(hit),
        _ => task.hits,
    };
    let n = t.targets.len() as int;
    let h = t.hits.len() as int;
    lemma_walked_keeps(task.targets, t.named, start);
    assert(t.hits == walked(task.targets, t.named, start));
    let from = task.hits.len() as int;
    let lines = hit_lines(t.targets, t.hits, t.value, from, h);
    lemma_lines_are_traces(t.targets, t.hits, t.value, from, h);
    if h == n {
        lemma_names_hit_in(t.targets, t.hits, n);
        assert(t.targets.take(n) =~= t.targets);
        assert(t.hits.take(n) =~= t.hits);
        assert(was_set(t, AppTargetView::System) == hit_kind(
            t.targets,
            t.hits,
            AppTargetView::System,
            n,
        ));
        assert(was_set(t, AppTargetView::Mic) == hit_kind(t.targets, t.hits, AppTargetView::Mic, n));
    }
    if task.verbose {
        assert forall|i: int| from <= i < h && #[trigger] t.hits[i] implies turn.effects.contains(
            EffectView::Trace(volume_line(t.targets[i].label(), task.value)),
        ) by {
            let line = EffectView::Trace(volume_line(t.targets[i].label(), task.value));
            lemma_every_hit_has_a_line(t.targets, t.hits, t.value, from, h, i);
            let k = choose|k: int| 0 <= k < lines.len() && lines[k] == line;
            assert(turn.effects[k] == line);
        }
    }
}

/// Once the icon of the apps is found, their popup shows their names, one on
/// each line and in their order, with their volume and the icon, if any.
pub proof fn law_apps_are_shown_by_name(task: TaskView, found: Option<String>)
    requires
        task.is_valid(),
        task.stage == TaskStage::Icon,
    ensures
        ({
            let turn = task.after(Outcome::Icon(found));
            &&& turn.task.work() is Finished
            &&& turn.effects.len() == 1
            &&& turn.effects[0] == EffectView::Popup(
                OsdCallView::MediaPlayerVolumeChanged {
                    percent: percent_at(task.value) as i32,
                    player_name: joined(names_hit_in(task.targets, task.hits), "\n"@),
                    icon: match found {
                        Some(icon) => icon@,
                        None => Seq::empty(),
                    },
                },
            )
        }),
{
    let n = task.targets.len() as int;
    lemma_names_hit_in(task.targets, task.hits, n);
    assert(task.targets.take(n) =~= task.targets);
    assert(task.hits.take(n) =~= task.hits);
}

proof fn lemma_walked_adds(targets: Seq<AppTargetView>, named: Seq<bool>, hits: Seq<bool>, i: int)
    requires
        hits.len() <= i < walked(targets, named, hits).len(),
        hits.len() <= targets.len(),
    ensures
        targets[i] is Named,
        walked(targets, named, hits)[i] == named_hit(named, names_among(targets, i).len() as int),
    decreases targets.len() - hits.len(),
{
    let k = names_among(targets, hits.len() as int).len() as int;
    let more = hits.push(named_hit(named, k));
    if i == hits.len() {
        lemma_walked_keeps(targets, named, more);
        let w = walked(targets, named, hits);
        assert(w.take(more.len() as int)[i] == w[i]);
    } else {
        lemma_walked_adds(targets, named, more, i);
    }
}

/// The answers for the names are those to the names of the work, in the same
/// order: the target with as many names before it takes the answer with as
/// many before it, and a name without an answer was not found. A device takes
/// the answer to its own work. What was answered before stays.
pub proof fn law_answers_are_in_the_order_of_the_names(
    task: TaskView,
    answers: Option<Vec<bool>>,
    hit: bool,
    i: int,
)
    requires
        task.is_valid(),
    ensures
        task.stage == TaskStage::Batch ==> {
            let t = task.after(Outcome::AppVolumes(answers)).task;
            0 <= i < t.hits.len() ==> {
                let before = names_in(task.targets.take(i)).len();
                &&& task.targets[i] is Named
                &&& t.hits[i] <==> answers is Some && before < answers->Some_0@.len()
                    && answers->Some_0@[before as int]
            }
        },
        task.stage == TaskStage::Device ==> {
            let t = task.after(Outcome::Volume(hit)).task;
            let at = task.hits.len() as int;
            &&& at < t.hits.len()
            &&& 0 <= i < at ==> t.hits[i] == task.hits[i]
            &&& i == at ==> t.hits[i] == hit
            &&& at < i < t.hits.len() ==> {
                let before = names_in(task.targets.take(i)).len();
                &&& task.targets[i] is Named
                &&& t.hits[i] <==> before < task.named.len() && task.named[before as int]
            }
        },
{
    let answered = match answers {
        Some(v) => v@,
        None => Seq::empty(),
    };
    if task.stage == TaskStage::Batch {
        lemma_walked_keeps(task.targets, answered, task.hits);
        if 0 <= i < walked(task.targets, answered, task.hits).len() {
            lemma_walked_adds(task.targets, answered, task.hits, i);
            lemma_names_in(task.targets, i);
        }
    }
    if task.stage == TaskStage::Device {
        let more = task.hits.push(hit);
        lemma_walked_keeps(task.targets, task.named, more);
        let w = walked(task.targets, task.named, more);
        if 0 <= i < more.len() {
            assert(w.take(more.len() as int)[i] == w[i]);
        } else if more.len() <= i < w.len() {
            lemma_walked_adds(task.targets, task.named, more, i);
            lemma_names_in(task.targets, i);
        }
    }
}

/// Each work is answered by its own kind of reply, and a task that is finished
/// by none.
pub proof fn law_replies_suit_their_work(task: TaskView, outcome: Outcome)
    ensures
        task.work() is SetAppVolumes ==> (fits(outcome, task.stage) <==> outcome is AppVolumes),
        task.work() is SetVolume ==> (fits(outcome, task.stage) <==> outcome is Volume),
        task.work() is ToggleMute || task.work() is ToggleAppMute ==> (fits(outcome, task.stage)
            <==> outcome is Mute),
        task.work() is FindIcon ==> (fits(outcome, task.stage) <==> outcome is Icon),
        task.work() is Finished ==> !fits(outcome, task.stage),
{
}

/// A row of effects, and a row of targets, is read one by one, in its order.
pub proof fn law_rows_keep_their_order(v: Seq<Effect>, t: Seq<AppTarget>)
    ensures
        effects(v).len() == v.len() && target_views(t).len() == t.len(),
        forall|i: int| 0 <= i < v.len() ==> #[trigger] effects(v)[i] == v[i]@,
        forall|i: int| 0 <= i < t.len() ==> #[trigger] target_views(t)[i] == t[i]@,
{
}

} // verus!
