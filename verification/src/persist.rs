//! Volumes that outlive a stream: when they are written to the stream-restore
//! database of PulseAudio, and into which entries.
use vstd::prelude::*;
use vstd::string::*;

use crate::audio::{
    found_among, lowered, match_streams, match_targets, opt_texts, streams_among, volume_at,
    volume_from_u8, SinkInputEntry, StreamMatches, Volume,
};
use crate::clock::Instant;
use crate::config::{opt_text, texts};
use crate::table::{holds, lemma_holds, map_of, no_repeats, Table};
use crate::text::{
    contains, found_in, is_substring, law_substrings_are_cut_out, lowercase, to_lowercase,
};

verus! {

/// How long the volume of an app has to be left alone before it is written,
/// in milliseconds.
pub const PERSIST_IDLE_MS: u64 = 200;

/// A volume that is still to be written.
#[derive(Debug, Clone, Copy, PartialEq, Eq, Structural)]
pub struct PendingPersist {
    pub volume: Volume,
    pub last_update: Instant,
}

impl PendingPersist {
    /// Whether the volume has been left alone for long enough.
    pub open spec fn is_idle(self, now: Instant) -> bool {
        now.at_least_after(self.last_update, PERSIST_IDLE_MS as int)
    }
}

/// The volumes that are ready to be written.
pub open spec fn ready(m: Map<Seq<char>, PendingPersist>, now: Instant) -> Map<Seq<char>, Volume> {
    Map::new(
        |k: Seq<char>| m.dom().contains(k) && m[k].is_idle(now),
        |k: Seq<char>| m[k].volume,
    )
}

/// The volumes that are not ready yet.
pub open spec fn waiting(m: Map<Seq<char>, PendingPersist>, now: Instant) -> Map<
    Seq<char>,
    PendingPersist,
> {
    Map::new(|k: Seq<char>| m.dom().contains(k) && !m[k].is_idle(now), |k: Seq<char>| m[k])
}

/// The volumes that are still to be written, after those of the first `n`
/// targets that have a stream are added.
pub open spec fn stashed(
    m: Map<Seq<char>, PendingPersist>,
    targets: Seq<Seq<char>>,
    matched: Seq<bool>,
    pending: PendingPersist,
    n: int,
) -> Map<Seq<char>, PendingPersist>
    decreases n,
{
    if n <= 0 {
        m
    } else {
        let before = stashed(m, targets, matched, pending, n - 1);
        if matched[n - 1] {
            before.insert(targets[n - 1], pending)
        } else {
            before
        }
    }
}

/// What a change of the volume of several apps comes to.
#[derive(Debug)]
pub struct VolumePlan {
    /// For each app, whether it has a stream.
    pub matched: Vec<bool>,
    /// The index and the number of channels of each stream to be set.
    pub to_set: Vec<(u32, u8)>,
    pub volume: Volume,
}

/// What a change of the volume of one app comes to.
#[derive(Debug)]
pub struct AppVolumePlan {
    /// Whether the app has a stream.
    pub found: bool,
    /// The index and the number of channels of each stream to be set.
    pub to_set: Vec<(u32, u8)>,
    pub volume: Volume,
}

/// Whether a volume that is handed out is that of the entry at `j`.
spec fn comes_from(
    all: Seq<(String, PendingPersist)>,
    j: int,
    given: (String, Volume),
    now: Instant,
) -> bool {
    holds(all, j, given.0@) && all[j].1.is_idle(now) && given.1 == all[j].1.volume
}

/// Whether a volume that is handed out is that of one of the first `n`
/// entries.
spec fn comes_from_first(
    all: Seq<(String, PendingPersist)>,
    n: int,
    given: (String, Volume),
    now: Instant,
) -> bool {
    exists|j: int| j < n && comes_from(all, j, given, now)
}

/// The volumes that are still to be written, by the names of the apps in
/// lower case.
#[derive(Debug)]
pub struct PersistQueue {
    pending: Table<PendingPersist>,
}

impl View for PersistQueue {
    type V = Map<Seq<char>, PendingPersist>;

    closed spec fn view(&self) -> Map<Seq<char>, PendingPersist> {
        self.pending@
    }
}

impl PersistQueue {
    /// Nothing is to be written.
    pub fn new() -> (r: PersistQueue)
        ensures
            r@ == Map::<Seq<char>, PendingPersist>::empty(),
    {
        PersistQueue { pending: Table::new() }
    }

    /// Notes the volume of each target that has a stream.
    pub fn stash(&mut self, targets: &Vec<String>, matched: &Vec<bool>, volume: Volume, now: Instant)
        requires
            matched@.len() == targets@.len(),
        ensures
            final(self)@ == stashed(
                old(self)@,
                texts(targets@),
                matched@,
                (PendingPersist { volume, last_update: now }),
                targets@.len() as int,
            ),
    {
        let pending = PendingPersist { volume, last_update: now };
        let mut i: usize = 0;
        while i < targets.len()
            invariant
                i <= targets@.len(),
                matched@.len() == targets@.len(),
                self@ == stashed(old(self)@, texts(targets@), matched@, pending, i as int),
            decreases targets@.len() - i,
        {
            if matched[i] {
                self.pending.insert(targets[i].clone(), pending);
            }
            i = i + 1;
        }
    }

    /// Which streams get a volume when the control of several apps is moved,
    /// and notes it for each app that has a stream. `comms` holds the commands
    /// of the streams' processes, as far as they are known.
    pub fn set_app_volumes(
        &mut self,
        app_names: &Vec<String>,
        entries: &Vec<SinkInputEntry>,
        comms: &Vec<Option<String>>,
        value: u8,
        now: Instant,
    ) -> (r: VolumePlan)
        requires
            comms@.len() == entries@.len(),
        ensures
            ({
                let targets = lowered(texts(app_names@));
                let n = entries@.len() as int;
                &&& r.volume == volume_at(value)
                &&& r.matched@ == Seq::new(
                    targets.len(),
                    |i: int| found_among(entries@, opt_texts(comms@), targets[i], n),
                )
                &&& r.to_set@ == streams_among(entries@, opt_texts(comms@), targets, n)
                &&& final(self)@ == stashed(
                    old(self)@,
                    targets,
                    r.matched@,
                    (PendingPersist { volume: r.volume, last_update: now }),
                    targets.len() as int,
                )
            }),
    {
        let targets = match_targets(app_names);
        let volume = volume_from_u8(value);
        let StreamMatches { matched, to_set } = match_streams(entries, comms, &targets);
        assert(targets@.len() == texts(targets@).len());
        assert forall|i: int| 0 <= i < targets@.len() implies #[trigger] matched@[i] == found_among(
            entries@,
            opt_texts(comms@),
            texts(targets@)[i],
            entries@.len() as int,
        ) by {}
        assert(matched@ =~= Seq::new(
            texts(targets@).len(),
            |i: int|
                found_among(
                    entries@,
                    opt_texts(comms@),
                    texts(targets@)[i],
                    entries@.len() as int,
                ),
        ));
        self.stash(&targets, &matched, volume, now);
        VolumePlan { matched, to_set, volume }
    }

    /// [`PersistQueue::set_app_volumes`] for one app.
    pub fn set_app_volume(
        &mut self,
        app_name: &str,
        entries: &Vec<SinkInputEntry>,
        comms: &Vec<Option<String>>,
        value: u8,
        now: Instant,
    ) -> (r: AppVolumePlan)
        requires
            comms@.len() == entries@.len(),
        ensures
            ({
                let target = lowercase(app_name@);
                let n = entries@.len() as int;
                &&& r.volume == volume_at(value)
                &&& r.found == found_among(entries@, opt_texts(comms@), target, n)
                &&& r.to_set@ == streams_among(entries@, opt_texts(comms@), seq![target], n)
                &&& final(self)@ == if r.found {
                    old(self)@.insert(
                        target,
                        PendingPersist { volume: r.volume, last_update: now },
                    )
                } else {
                    old(self)@
                }
            }),
    {
        let mut names: Vec<String> = Vec::new();
        names.push(app_name.to_owned());
        let plan = self.set_app_volumes(&names, entries, comms, value, now);
        proof {
            let targets = lowered(texts(names@));
            assert(targets =~= seq![lowercase(app_name@)]);
            reveal_with_fuel(stashed, 2);
        }
        let found = plan.matched[0];
        AppVolumePlan { found, to_set: plan.to_set, volume: plan.volume }
    }

    /// Takes out the volumes that have been left alone for long enough, in no
    /// particular order.
    pub fn flush_persist_writes(&mut self, now: Instant) -> (r: Vec<(String, Volume)>)
        ensures
            no_repeats(r@),
            map_of(r@) == ready(old(self)@, now),
            final(self)@ == waiting(old(self)@, now),
    {
        let ghost before = self@;
        let all = self.pending.take_all();
        let mut out: Vec<(String, Volume)> = Vec::new();
        let mut i: usize = 0;
        assert(map_of(all@) == before);
        while i < all.len()
            invariant
                i <= all@.len(),
                no_repeats(all@),
                map_of(all@) == before,
                no_repeats(out@),
                forall|k: int|
                    0 <= k < out@.len() ==> comes_from_first(
                        all@,
                        i as int,
                        #[trigger] out@[k],
                        now,
                    ),
                forall|j: int|
                    0 <= j < i && (#[trigger] all@[j]).1.is_idle(now) ==> exists|k: int|
                        holds(out@, k, all@[j].0@),
                forall|x: Seq<char>|
                    self@.dom().contains(x) <==> exists|j: int|
                        0 <= j < i && #[trigger] holds(all@, j, x) && !all@[j].1.is_idle(now),
                forall|j: int|
                    0 <= j < i && !(#[trigger] all@[j]).1.is_idle(now) ==> self@[all@[j].0@]
                        == all@[j].1,
            decreases all@.len() - i,
        {
            let pending = all[i].1;
            let ghost held = self@;
            let ghost given = out@;
            let ghost name = all@[i as int].0@;
            assert(holds(all@, i as int, name));
            if now.reached(pending.last_update, PERSIST_IDLE_MS) {
                out.push((all[i].0.clone(), pending.volume));
                assert forall|k: int| 0 <= k < given.len() implies (#[trigger] given[k]).0@ != name by {
                    let j = choose|j: int| j < i && comes_from(all@, j, given[k], now);
                    assert(all@[j].0@ != all@[i as int].0@);
                }
                assert(no_repeats(out@));
                assert forall|k: int| 0 <= k < out@.len() implies comes_from_first(
                    all@,
                    i + 1,
                    #[trigger] out@[k],
                    now,
                ) by {
                    if k < given.len() {
                        let j = choose|j: int| j < i && comes_from(all@, j, given[k], now);
                        assert(comes_from(all@, j, out@[k], now));
                    } else {
                        assert(comes_from(all@, i as int, out@[k], now));
                    }
                }
                assert forall|j: int|
                    0 <= j < i + 1 && (#[trigger] all@[j]).1.is_idle(now) implies exists|k: int|
                    holds(out@, k, all@[j].0@) by {
                    if j < i {
                        let k = choose|k: int| holds(given, k, all@[j].0@);
                        assert(holds(out@, k, all@[j].0@));
                    } else {
                        assert(holds(out@, given.len() as int, all@[j].0@));
                    }
                }
            } else {
                self.pending.insert(all[i].0.clone(), pending);
                assert(self@ == held.insert(name, pending));
                assert forall|k: int| 0 <= k < out@.len() implies comes_from_first(
                    all@,
                    i + 1,
                    #[trigger] out@[k],
                    now,
                ) by {
                    let j = choose|j: int| j < i && comes_from(all@, j, given[k], now);
                    assert(comes_from(all@, j, out@[k], now));
                }
                assert forall|x: Seq<char>| self@.dom().contains(x) implies exists|j: int|
                    0 <= j < i + 1 && #[trigger] holds(all@, j, x) && !all@[j].1.is_idle(now) by {
                    if x != name {
                        let j = choose|j: int|
                            0 <= j < i && #[trigger] holds(all@, j, x) && !all@[j].1.is_idle(now);
                        assert(holds(all@, j, x));
                    }
                }
                assert forall|j: int|
                    0 <= j < i + 1 && !(#[trigger] all@[j]).1.is_idle(now) implies self@[all@[j].0@]
                    == all@[j].1 by {
                    if j < i {
                        assert(all@[j].0@ != all@[i as int].0@);
                    }
                }
            }
            i = i + 1;
        }
        proof {
            assert forall|x: Seq<char>| map_of(out@).dom().contains(x) implies ready(
                before,
                now,
            ).dom().contains(x) && map_of(out@)[x] == ready(before, now)[x] by {
                let k = choose|k: int| holds(out@, k, x);
                assert(holds(out@, k, x));
                lemma_holds(out@, k);
                let j = choose|j: int| j < i && comes_from(all@, j, out@[k], now);
                lemma_holds(all@, j);
            }
            assert forall|x: Seq<char>| ready(before, now).dom().contains(x) implies map_of(
                out@,
            ).dom().contains(x) by {
                let j = choose|j: int| holds(all@, j, x);
                assert(holds(all@, j, x));
                lemma_holds(all@, j);
                assert(all@[j].1.is_idle(now));
            }
            assert(map_of(out@) =~= ready(before, now));
            assert forall|x: Seq<char>| self@.dom().contains(x) implies waiting(
                before,
                now,
            ).dom().contains(x) && self@[x] == waiting(before, now)[x] by {
                let j = choose|j: int|
                    0 <= j < i && #[trigger] holds(all@, j, x) && !all@[j].1.is_idle(now);
                lemma_holds(all@, j);
            }
            assert forall|x: Seq<char>| waiting(before, now).dom().contains(x) implies self@.dom().contains(
                x,
            ) by {
                let j = choose|j: int| holds(all@, j, x);
                assert(holds(all@, j, x));
                lemma_holds(all@, j);
            }
            assert(self@ =~= waiting(before, now));
        }
        out
    }
}

/// However often the volume of an app changes in a row, it is written once,
/// with its last value, and not before it has been left alone for long
/// enough.
pub proof fn law_burst_is_one_write(
    m: Map<Seq<char>, PendingPersist>,
    app: Seq<char>,
    earlier: PendingPersist,
    last: PendingPersist,
    now: Instant,
)
    ensures
        ({
            let queue = m.insert(app, earlier).insert(app, last);
            &&& ready(queue, now).dom().contains(app) <==> last.is_idle(now)
            &&& last.is_idle(now) ==> ready(queue, now)[app] == last.volume && !waiting(
                queue,
                now,
            ).dom().contains(app)
            &&& !last.is_idle(now) ==> waiting(queue, now)[app] == last
        }),
{
}

/// Nothing is lost and nothing is written twice: every pending volume is
/// either ready or still waiting.
pub proof fn law_every_volume_is_ready_or_waiting(
    m: Map<Seq<char>, PendingPersist>,
    now: Instant,
    app: Seq<char>,
)
    ensures
        m.dom().contains(app) <==> ready(m, now).dom().contains(app) || waiting(
            m,
            now,
        ).dom().contains(app),
        !(ready(m, now).dom().contains(app) && waiting(m, now).dom().contains(app)),
{
}

// ---------------------------------------------------------------------------
// The database
// ---------------------------------------------------------------------------

/// An entry of the database, as far as it concerns the volume.
#[derive(Debug)]
pub struct RestoreEntry {
    pub name: Option<String>,
    /// The volume of each channel.
    pub volumes: Vec<u32>,
    pub mute: bool,
}

/// A change to entries of the database.
#[derive(Debug, Clone, Copy, PartialEq, Eq, Structural)]
pub enum RestoreUpdate {
    SetVolume(Volume),
    SetMute(bool),
}

/// What is to be written for the entry at an index.
#[derive(Debug)]
pub struct RestoreWrite {
    pub index: usize,
    pub volumes: Vec<u32>,
    pub mute: bool,
}

/// The content of a [`RestoreWrite`].
pub struct RestoreWriteView {
    pub index: int,
    pub volumes: Seq<u32>,
    pub mute: bool,
}

impl View for RestoreWrite {
    type V = RestoreWriteView;

    open spec fn view(&self) -> RestoreWriteView {
        RestoreWriteView { index: self.index as int, volumes: self.volumes@, mute: self.mute }
    }
}

/// Whether the name of an entry contains a target in lower case.
pub open spec fn belongs_to(name: Option<Seq<char>>, target: Seq<char>) -> bool {
    match name {
        Some(name) => is_substring(target, lowercase(name)),
        None => false,
    }
}

/// What is to be written for an entry. A volume goes to all of its channels.
pub open spec fn write_for(index: int, entry: RestoreEntry, update: RestoreUpdate) -> RestoreWriteView {
    match update {
        RestoreUpdate::SetVolume(volume) => RestoreWriteView {
            index,
            volumes: Seq::new(entry.volumes@.len(), |i: int| volume.0),
            mute: entry.mute,
        },
        RestoreUpdate::SetMute(mute) => RestoreWriteView { index, volumes: entry.volumes@, mute },
    }
}

/// What is to be written for the first `n` entries.
pub open spec fn writes_among(
    entries: Seq<RestoreEntry>,
    target: Seq<char>,
    update: RestoreUpdate,
    n: int,
) -> Seq<RestoreWriteView>
    decreases n,
{
    if n <= 0 {
        Seq::empty()
    } else {
        let before = writes_among(entries, target, update, n - 1);
        if belongs_to(opt_text(entries[n - 1].name), target) {
            before.push(write_for(n - 1, entries[n - 1], update))
        } else {
            before
        }
    }
}

/// The contents of a row of writes.
pub open spec fn writes(v: Seq<RestoreWrite>) -> Seq<RestoreWriteView> {
    Seq::new(v.len(), |i: int| v[i]@)
}

fn written(index: usize, entry: &RestoreEntry, update: RestoreUpdate) -> (r: RestoreWrite)
    ensures
        r@ == write_for(index as int, *entry, update),
{
    let mut volumes: Vec<u32> = Vec::new();
    let mut i: usize = 0;
    while i < entry.volumes.len()
        invariant
            i <= entry.volumes@.len(),
            volumes@.len() == i,
            forall|j: int|
                0 <= j < i ==> #[trigger] volumes@[j] == match update {
                    RestoreUpdate::SetVolume(volume) => volume.0,
                    RestoreUpdate::SetMute(_) => entry.volumes@[j],
                },
        decreases entry.volumes@.len() - i,
    {
        match update {
            RestoreUpdate::SetVolume(volume) => volumes.push(volume.0),
            RestoreUpdate::SetMute(_) => volumes.push(entry.volumes[i]),
        }
        i = i + 1;
    }
    match update {
        RestoreUpdate::SetVolume(volume) => {
            assert(volumes@ =~= Seq::new(entry.volumes@.len(), |i: int| volume.0));
            RestoreWrite { index, volumes, mute: entry.mute }
        },
        RestoreUpdate::SetMute(mute) => {
            assert(volumes@ =~= entry.volumes@);
            RestoreWrite { index, volumes, mute }
        },
    }
}

/// What is to be written so that all entries of an app follow a change.
/// `target` is in lower case. Where the result is empty, there is nothing to
/// write.
pub fn update_stream_restore(
    entries: &Vec<RestoreEntry>,
    target: &str,
    update: RestoreUpdate,
) -> (r: Vec<RestoreWrite>)
    ensures
        writes(r@) == writes_among(entries@, target@, update, entries@.len() as int),
{
    let mut out: Vec<RestoreWrite> = Vec::new();
    let mut i: usize = 0;
    assert(writes(out@) =~= Seq::<RestoreWriteView>::empty());
    while i < entries.len()
        invariant
            i <= entries@.len(),
            writes(out@) == writes_among(entries@, target@, update, i as int),
        decreases entries@.len() - i,
    {
        let ghost before = out@;
        let hit = match &entries[i].name {
            Some(name) => contains(to_lowercase(name.as_str()).as_str(), target),
            None => false,
        };
        if hit {
            let w = written(i, &entries[i], update);
            out.push(w);
            assert(writes(out@) =~= writes(before).push(w@));
        }
        i = i + 1;
    }
    out
}

/// The outcome of a write to the database, from what the server said of it.
pub fn restore_outcome(accepted: bool) -> (r: Result<(), String>)
    ensures
        match r {
            Ok(_) => accepted,
            Err(m) => !accepted && m@ == "stream-restore write rejected by server"@,
        },
{
    if accepted {
        Ok(())
    } else {
        Err("stream-restore write rejected by server".to_owned())
    }
}

/// A write never changes the number of channels of an entry, and a change of
/// the volume leaves the mute state alone, as a change of the mute state does
/// the volume.
pub proof fn law_writes_change_only_what_they_should(
    entries: Seq<RestoreEntry>,
    target: Seq<char>,
    update: RestoreUpdate,
    n: int,
    k: int,
)
    requires
        0 <= n <= entries.len(),
        0 <= k < writes_among(entries, target, update, n).len(),
    ensures
        ({
            let w = writes_among(entries, target, update, n)[k];
            &&& 0 <= w.index < n
            &&& belongs_to(opt_text(entries[w.index].name), target)
            &&& w.volumes.len() == entries[w.index].volumes@.len()
            &&& update is SetVolume ==> w.mute == entries[w.index].mute
            &&& update is SetMute ==> w.volumes == entries[w.index].volumes@
        }),
    decreases n,
{
    if n > 0 {
        let before = writes_among(entries, target, update, n - 1);
        if k < before.len() {
            law_writes_change_only_what_they_should(entries, target, update, n - 1, k);
        }
    }
}

/// A change of volumes is noted for every app that has a stream, under its
/// name in lower case, and leaves all other notes alone.
pub proof fn law_volumes_of_found_apps_are_noted(
    m: Map<Seq<char>, PendingPersist>,
    targets: Seq<Seq<char>>,
    matched: Seq<bool>,
    pending: PendingPersist,
    n: int,
    app: Seq<char>,
)
    requires
        0 <= n <= targets.len(),
    ensures
        ({
            let noted = stashed(m, targets, matched, pending, n);
            let found = exists|i: int| 0 <= i < n && #[trigger] matched[i] && targets[i] == app;
            &&& found ==> noted.dom().contains(app) && noted[app] == pending
            &&& !found ==> noted.dom().contains(app) == m.dom().contains(app) && (
            m.dom().contains(app) ==> noted[app] == m[app])
        }),
    decreases n,
{
    if n > 0 {
        law_volumes_of_found_apps_are_noted(m, targets, matched, pending, n - 1, app);
        if exists|i: int| 0 <= i < n && #[trigger] matched[i] && targets[i] == app {
            let i = choose|i: int| 0 <= i < n && #[trigger] matched[i] && targets[i] == app;
            if i < n - 1 {
                assert(matched[i]);
            }
        }
        if exists|i: int| 0 <= i < n - 1 && #[trigger] matched[i] && targets[i] == app {
            let i = choose|i: int| 0 <= i < n - 1 && #[trigger] matched[i] && targets[i] == app;
            assert(matched[i]);
        }
        if matched[n - 1] && targets[n - 1] == app {
            assert(matched[n - 1]);
        }
    }
}

/// A noted volume is written once 200 milliseconds have passed since its last
/// change, as it was noted; until then it stays noted.
pub proof fn law_noted_volumes_are_written_when_left_alone(
    m: Map<Seq<char>, PendingPersist>,
    app: Seq<char>,
    now: Instant,
)
    requires
        m.dom().contains(app),
    ensures
        now.nanos >= m[app].last_update.nanos + 200_000_000 ==> ready(m, now).dom().contains(app)
            && ready(m, now)[app] == m[app].volume && !waiting(m, now).dom().contains(app),
        now.nanos < m[app].last_update.nanos + 200_000_000 ==> !ready(m, now).dom().contains(app)
            && waiting(m, now).dom().contains(app) && waiting(m, now)[app] == m[app],
{
}

/// Every entry of the database whose name has the app in it is written, and no
/// other: a volume goes to each of its channels, and a mute state is taken
/// over.
pub proof fn law_entries_of_the_app_are_written(
    entries: Seq<RestoreEntry>,
    target: Seq<char>,
    update: RestoreUpdate,
    n: int,
    e: int,
)
    requires
        0 <= e < n <= entries.len(),
    ensures
        ({
            let all = writes_among(entries, target, update, n);
            let named = entries[e].name is Some && found_in(
                target,
                lowercase(entries[e].name->Some_0@),
            );
            &&& named <==> exists|k: int| 0 <= k < all.len() && (#[trigger] all[k]).index == e
            &&& forall|k: int|
                0 <= k < all.len() && (#[trigger] all[k]).index == e ==> match update {
                    RestoreUpdate::SetVolume(volume) => {
                        &&& all[k].volumes.len() == entries[e].volumes@.len()
                        &&& forall|c: int|
                            0 <= c < all[k].volumes.len() ==> #[trigger] all[k].volumes[c]
                                == volume.0
                        &&& all[k].mute == entries[e].mute
                    },
                    RestoreUpdate::SetMute(mute) => all[k].volumes == entries[e].volumes@
                        && all[k].mute == mute,
                }
        }),
    decreases n,
{
    let all = writes_among(entries, target, update, n);
    let before = writes_among(entries, target, update, n - 1);
    if let Some(name) = entries[e].name {
        law_substrings_are_cut_out(target, lowercase(name@));
    }
    assert forall|k: int| 0 <= k < before.len() implies (#[trigger] before[k]).index < n - 1 by {
        law_writes_change_only_what_they_should(entries, target, update, n - 1, k);
    }
    if e < n - 1 {
        law_entries_of_the_app_are_written(entries, target, update, n - 1, e);
        if exists|k: int| 0 <= k < before.len() && (#[trigger] before[k]).index == e {
            let k = choose|k: int| 0 <= k < before.len() && (#[trigger] before[k]).index == e;
            assert(all[k] == before[k]);
        }
        assert forall|k: int| 0 <= k < all.len() && (#[trigger] all[k]).index == e implies k
            < before.len() && all[k] == before[k] by {}
    } else {
        if all.len() > before.len() {
            assert(all[before.len() as int].index == e);
        }
        assert forall|k: int| 0 <= k < all.len() && (#[trigger] all[k]).index == e implies k
            == before.len() by {
            if k < before.len() {
                assert(all[k] == before[k]);
            }
        }
    }
}

} // verus!
