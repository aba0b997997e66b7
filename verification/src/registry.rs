//! The printer registry: the shared map from printer id to actor handle,
//! capability profile and lifecycle metadata.
//!
//! Every mutation is specified as a transition on `RegistryModel`, and each
//! emits (or deliberately does not emit) a registry event.  The standing
//! invariant ties the two together: the ids present in the registry are
//! exactly those for which an `Added` event has been emitted with no later
//! `Removed` event.  Time is handed in by the caller as a milliseconds-style
//! counter; a reading older than an entry's history never lowers its
//! timestamps.
use vstd::prelude::*;

use crate::printer::{Printer, PrinterModel};
use crate::profile::{Profile, ProfileModel};
use crate::text::str_eq;

verus! {

/// Lifecycle metadata of one registry entry.
#[derive(Debug, PartialEq, Eq, Structural, Clone, Copy)]
pub struct PrinterMetadata {
    /// When the printer was first sighted (or manually configured).
    pub first_seen: u64,
    /// When the printer was last sighted.
    pub last_seen: u64,
    /// Manually configured entries are never evicted for staleness.
    pub is_manual: bool,
}

impl PrinterMetadata {
    /// Metadata for a freshly discovered printer.
    pub fn new(now: u64) -> (r: PrinterMetadata)
        ensures
            r == (PrinterMetadata { first_seen: now, last_seen: now, is_manual: false }),
    {
        PrinterMetadata { first_seen: now, last_seen: now, is_manual: false }
    }

    /// Metadata for a manually configured printer.
    pub fn new_manual(now: u64) -> (r: PrinterMetadata)
        ensures
            r == (PrinterMetadata { first_seen: now, last_seen: now, is_manual: true }),
    {
        PrinterMetadata { first_seen: now, last_seen: now, is_manual: true }
    }

    /// Record a sighting.  `last_seen` never moves backwards, so
    /// `first_seen <= last_seen` keeps holding whatever the clock reads.
    pub fn update_last_seen(&mut self, now: u64)
        ensures
            *final(self) == (PrinterMetadata {
                last_seen: touched_last_seen(old(self).last_seen, now),
                ..*old(self)
            }),
    {
        if now > self.last_seen {
            self.last_seen = now;
        }
    }
}

/// The later of an entry's current `last_seen` and a new clock reading.
pub open spec fn touched_last_seen(last_seen: u64, now: u64) -> u64 {
    if now > last_seen {
        now
    } else {
        last_seen
    }
}

/// One registry entry: the actor handle, the capability profile and the
/// lifecycle metadata.
#[derive(Debug, PartialEq, Clone)]
pub struct PrinterEntry {
    pub printer: Printer,
    pub profile: Profile,
    pub metadata: PrinterMetadata,
}

/// Mathematical model of a registry entry.
pub struct EntryModel {
    pub printer: PrinterModel,
    pub profile: ProfileModel,
    pub metadata: PrinterMetadata,
}

impl View for PrinterEntry {
    type V = EntryModel;

    open spec fn view(&self) -> EntryModel {
        EntryModel { printer: self.printer@, profile: self.profile@, metadata: self.metadata }
    }
}

/// Emitted when a printer enters the registry.
#[derive(Debug, PartialEq, Clone)]
pub struct PrinterAddedEvent {
    pub printer_id: String,
    pub printer_name: String,
    pub printer_description: String,
    pub model_name: String,
}

/// Emitted when a printer leaves the registry.
#[derive(Debug, PartialEq, Clone)]
pub struct PrinterRemovedEvent {
    pub printer_id: String,
}

/// A registry change notification.
#[derive(Debug, PartialEq, Clone)]
pub enum RegistryEvent {
    Added(PrinterAddedEvent),
    Removed(PrinterRemovedEvent),
}

/// Mathematical model of a registry event.
pub enum EventModel {
    Added { id: Seq<char>, name: Seq<char>, description: Seq<char>, model: Seq<char> },
    Removed { id: Seq<char> },
}

impl View for RegistryEvent {
    type V = EventModel;

    open spec fn view(&self) -> EventModel {
        match self {
            RegistryEvent::Added(e) => EventModel::Added {
                id: e.printer_id@,
                name: e.printer_name@,
                description: e.printer_description@,
                model: e.model_name@,
            },
            RegistryEvent::Removed(e) => EventModel::Removed { id: e.printer_id@ },
        }
    }
}

/// Mathematical model of the whole registry: the entries in insertion
/// order, and every event emitted so far, oldest first.
pub struct RegistryModel {
    pub entries: Seq<(Seq<char>, EntryModel)>,
    pub events: Seq<EventModel>,
}

/// Index of the first entry at or after `i` whose id is `id`.
pub open spec fn find_entry(entries: Seq<(Seq<char>, EntryModel)>, id: Seq<char>, i: int) -> Option<
    int,
>
    decreases entries.len() - i,
{
    if i < 0 || i >= entries.len() {
        None
    } else if entries[i].0 == id {
        Some(i)
    } else {
        find_entry(entries, id, i + 1)
    }
}

/// The ids that are live after `events`: added and not since removed.
pub open spec fn live_set(events: Seq<EventModel>) -> Set<Seq<char>>
    decreases events.len(),
{
    if events.len() == 0 {
        Set::empty()
    } else {
        match events.last() {
            EventModel::Added { id, .. } => live_set(events.drop_last()).insert(id),
            EventModel::Removed { id } => live_set(events.drop_last()).remove(id),
        }
    }
}

impl RegistryModel {
    /// The registered ids, in insertion order.
    pub open spec fn ids(self) -> Seq<Seq<char>> {
        self.entries.map_values(|p: (Seq<char>, EntryModel)| p.0)
    }

    pub open spec fn find(self, id: Seq<char>) -> Option<int> {
        find_entry(self.entries, id, 0)
    }

    pub open spec fn contains(self, id: Seq<char>) -> bool {
        self.find(id) is Some
    }

    /// The entry registered under `id` (meaningful only when present).
    pub open spec fn entry_of(self, id: Seq<char>) -> EntryModel {
        self.entries[self.find(id)->Some_0].1
    }

    /// No id occurs twice.
    pub open spec fn unique_ids(self) -> bool {
        forall|k: int, l: int|
            0 <= k < l < self.entries.len() ==> self.entries[k].0 != self.entries[l].0
    }

    /// The standing invariant: ids are unique, every entry's timestamps are
    /// ordered, and the id set is exactly what the event history says is
    /// live.
    pub open spec fn wf(self) -> bool {
        &&& self.unique_ids()
        &&& (forall|k: int|
            0 <= k < self.entries.len() ==> (#[trigger] self.entries[k]).1.metadata.first_seen
                <= self.entries[k].1.metadata.last_seen)
        &&& self.ids().to_set() == live_set(self.events)
    }

    /// Adding a printer: a new id is appended with fresh metadata and an
    /// `Added` event; a present id only has its `last_seen` refreshed, with
    /// no event.
    pub open spec fn add(
        self,
        id: Seq<char>,
        printer: PrinterModel,
        profile: ProfileModel,
        is_manual: bool,
        now: u64,
    ) -> RegistryModel {
        match self.find(id) {
            Some(k) => RegistryModel {
                entries: self.entries.update(
                    k,
                    (
                        id,
                        EntryModel {
                            metadata: PrinterMetadata {
                                last_seen: touched_last_seen(
                                    self.entries[k].1.metadata.last_seen,
                                    now,
                                ),
                                ..self.entries[k].1.metadata
                            },
                            ..self.entries[k].1
                        },
                    ),
                ),
                events: self.events,
            },
            None => RegistryModel {
                entries: self.entries.push(
                    (
                        id,
                        EntryModel {
                            printer: printer,
                            profile: profile,
                            metadata: PrinterMetadata {
                                first_seen: now,
                                last_seen: now,
                                is_manual: is_manual,
                            },
                        },
                    ),
                ),
                events: self.events.push(
                    EventModel::Added {
                        id: id,
                        name: printer.name,
                        description: printer.description,
                        model: profile.name,
                    },
                ),
            },
        }
    }

    /// Touching a printer refreshes `last_seen` when present and does
    /// nothing otherwise; no event either way.
    pub open spec fn touch(self, id: Seq<char>, now: u64) -> RegistryModel {
        match self.find(id) {
            Some(k) => RegistryModel {
                entries: self.entries.update(
                    k,
                    (
                        id,
                        EntryModel {
                            metadata: PrinterMetadata {
                                last_seen: touched_last_seen(
                                    self.entries[k].1.metadata.last_seen,
                                    now,
                                ),
                                ..self.entries[k].1.metadata
                            },
                            ..self.entries[k].1
                        },
                    ),
                ),
                events: self.events,
            },
            None => self,
        }
    }

    /// Removing a printer deletes its entry and emits a `Removed` event;
    /// removing an absent id does nothing.
    pub open spec fn remove(self, id: Seq<char>) -> RegistryModel {
        match self.find(id) {
            Some(k) => RegistryModel {
                entries: self.entries.remove(k),
                events: self.events.push(EventModel::Removed { id: id }),
            },
            None => self,
        }
    }
}

/// The stale ids among `entries`, in entry order: non-manual entries last
/// seen more than `timeout` before `now`.  An entry whose `last_seen` lies
/// in the future is never stale.
pub open spec fn stale_ids(
    entries: Seq<(Seq<char>, EntryModel)>,
    timeout: u64,
    now: u64,
    i: int,
) -> Seq<Seq<char>>
    decreases entries.len() - i,
{
    if i < 0 || i >= entries.len() {
        Seq::empty()
    } else {
        let rest = stale_ids(entries, timeout, now, i + 1);
        if is_stale(entries[i].1.metadata, timeout, now) {
            seq![entries[i].0] + rest
        } else {
            rest
        }
    }
}

/// A non-manual entry unseen for longer than the timeout.
pub open spec fn is_stale(m: PrinterMetadata, timeout: u64, now: u64) -> bool {
    !m.is_manual && now >= m.last_seen && now - m.last_seen > timeout
}

/// The ids of `disc` at or after `i` that are absent from `m`, in order.
pub open spec fn diff_new_ids(m: RegistryModel, disc: Seq<Seq<char>>, i: int) -> Seq<Seq<char>>
    decreases disc.len() - i,
{
    if i < 0 || i >= disc.len() {
        Seq::empty()
    } else {
        let rest = diff_new_ids(m, disc, i + 1);
        if !m.contains(disc[i]) {
            seq![disc[i]] + rest
        } else {
            rest
        }
    }
}

/// The ids of `disc` at or after `i` that are present in `m`, in order.
pub open spec fn diff_present_ids(m: RegistryModel, disc: Seq<Seq<char>>, i: int) -> Seq<Seq<char>>
    decreases disc.len() - i,
{
    if i < 0 || i >= disc.len() {
        Seq::empty()
    } else {
        let rest = diff_present_ids(m, disc, i + 1);
        if m.contains(disc[i]) {
            seq![disc[i]] + rest
        } else {
            rest
        }
    }
}

/// What `find_entry` returns: the first match, or a guarantee that no
/// entry at or after `i` carries the id.
pub proof fn lemma_find_entry(entries: Seq<(Seq<char>, EntryModel)>, id: Seq<char>, i: int)
    requires
        0 <= i <= entries.len(),
    ensures
        match find_entry(entries, id, i) {
            Some(k) => i <= k < entries.len() && entries[k].0 == id && (forall|j: int|
                i <= j < k ==> entries[j].0 != id),
            None => forall|j: int| i <= j < entries.len() ==> entries[j].0 != id,
        },
    decreases entries.len() - i,
{
    if i < entries.len() && entries[i].0 != id {
        lemma_find_entry(entries, id, i + 1);
    }
}

/// Appending an event updates the live set one step.
pub proof fn lemma_live_set_push(events: Seq<EventModel>, ev: EventModel)
    ensures
        live_set(events.push(ev)) == match ev {
            EventModel::Added { id, .. } => live_set(events).insert(id),
            EventModel::Removed { id } => live_set(events).remove(id),
        },
{
    assert(events.push(ev).drop_last() =~= events);
    assert(events.push(ev).last() == ev);
}

/// The thread-safe registry of known printers.  The caller serializes
/// access (the runtime wraps it in a lock); each operation here is one
/// atomic transition of the model.
pub struct PrinterRegistry {
    entries: Vec<(String, PrinterEntry)>,
    events: Vec<RegistryEvent>,
}

/// The model of the registry's entry vector.
pub open spec fn entries_view(v: Seq<(String, PrinterEntry)>) -> Seq<(Seq<char>, EntryModel)> {
    v.map_values(|p: (String, PrinterEntry)| (p.0@, p.1@))
}

/// The model of the registry's event log.
pub open spec fn events_view(v: Seq<RegistryEvent>) -> Seq<EventModel> {
    v.map_values(|e: RegistryEvent| e@)
}

impl View for PrinterRegistry {
    type V = RegistryModel;

    closed spec fn view(&self) -> RegistryModel {
        RegistryModel { entries: entries_view(self.entries@), events: events_view(self.events@) }
    }
}

impl PrinterRegistry {
    pub fn new() -> (r: PrinterRegistry)
        ensures
            r@.entries == Seq::<(Seq<char>, EntryModel)>::empty(),
            r@.events == Seq::<EventModel>::empty(),
            r@.wf(),
    {
        let r = PrinterRegistry { entries: Vec::new(), events: Vec::new() };
        proof {
            assert(r@.entries =~= Seq::<(Seq<char>, EntryModel)>::empty());
            assert(r@.events =~= Seq::<EventModel>::empty());
            assert(r@.ids().to_set() =~= live_set(r@.events));
        }
        r
    }

    /// Where in the entry vector `id` sits, if anywhere.
    fn find_index(&self, id: &str) -> (r: Option<usize>)
        ensures
            r is None ==> self@.find(id@) is None,
            r matches Some(k) ==> self@.find(id@) == Some(k as int) && k < self@.entries.len(),
    {
        let n = self.entries.len();
        let mut k: usize = 0;
        while k < n
            invariant
                k <= n,
                n == self@.entries.len(),
                n == self.entries@.len(),
                find_entry(self@.entries, id@, 0) == find_entry(self@.entries, id@, k as int),
            decreases n - k,
        {
            if str_eq(self.entries[k].0.as_str(), id) {
                return Some(k);
            }
            k += 1;
        }
        None
    }

    /// A subscription begins here: the subscriber sees exactly the events
    /// emitted after this point, and nothing earlier.
    pub fn subscribe(&self) -> (cursor: usize)
        ensures
            cursor == self@.events.len(),
    {
        self.events.len()
    }

    /// The events emitted since `cursor`, oldest first.
    pub fn events_since(&self, cursor: usize) -> (r: Vec<RegistryEvent>)
        ensures
            cursor <= self@.events.len() ==> events_view(r@) == self@.events.skip(cursor as int),
            cursor > self@.events.len() ==> events_view(r@) == Seq::<EventModel>::empty(),
    {
        let mut r: Vec<RegistryEvent> = Vec::new();
        let n = self.events.len();
        if cursor > n {
            proof {
                assert(events_view(r@) =~= Seq::<EventModel>::empty());
            }
            return r;
        }
        let mut k = cursor;
        while k < n
            invariant
                cursor <= k <= n,
                n == self.events@.len(),
                events_view(r@) == self@.events.subrange(cursor as int, k as int),
            decreases n - k,
        {
            let ev = self.events[k].clone_event();
            let ghost prevs = r@;
            r.push(ev);
            proof {
                assert(events_view(prevs).len() == prevs.len());
                assert(self@.events.subrange(cursor as int, k as int).len() == k - cursor);
                assert(r@ =~= prevs.push(ev));
                assert(events_view(r@) =~= self@.events.subrange(cursor as int, k + 1 as int));
            }
            k += 1;
        }
        proof {
            assert(self@.events.subrange(cursor as int, n as int) =~= self@.events.skip(
                cursor as int,
            ));
        }
        r
    }

    /// How many printers are registered.
    pub fn count(&self) -> (n: usize)
        ensures
            n == self@.entries.len(),
    {
        self.entries.len()
    }
}

/// Staleness eviction: every id the staleness check returns belongs to an
/// entry that is not manually configured and was last seen more than the
/// timeout before `now` — in particular, a manual entry never appears,
/// however stale it is.
/// There is an entry at or after `i` that carries the `k`-th stale id and
/// is genuinely stale.
pub open spec fn stale_id_witnessed(
    entries: Seq<(Seq<char>, EntryModel)>,
    timeout: u64,
    now: u64,
    i: int,
    k: int,
) -> bool {
    exists|j: int|
        #![trigger entries[j]]
        i <= j < entries.len() && entries[j].0 == stale_ids(entries, timeout, now, i)[k]
            && is_stale(entries[j].1.metadata, timeout, now)
}

/// Staleness eviction: every id the staleness check returns comes from an
/// entry that satisfies `is_stale` — non-manual and last seen more than
/// the timeout before `now`.  With unique ids this means a manually
/// configured entry never appears among the stale ids, however long it
/// has gone unseen.
pub proof fn lemma_stale_are_non_manual(
    entries: Seq<(Seq<char>, EntryModel)>,
    timeout: u64,
    now: u64,
    i: int,
)
    requires
        0 <= i <= entries.len(),
    ensures
        forall|k: int|
            0 <= k < stale_ids(entries, timeout, now, i).len() ==> #[trigger] stale_id_witnessed(
                entries,
                timeout,
                now,
                i,
                k,
            ),
    decreases entries.len() - i,
{
    if i < entries.len() {
        lemma_stale_are_non_manual(entries, timeout, now, i + 1);
        assert forall|k: int|
            0 <= k < stale_ids(entries, timeout, now, i).len() implies #[trigger] stale_id_witnessed(
            entries,
            timeout,
            now,
            i,
            k,
        ) by {
            let rest = stale_ids(entries, timeout, now, i + 1);
            if is_stale(entries[i].1.metadata, timeout, now) {
                if k == 0 {
                    assert(entries[i].0 == stale_ids(entries, timeout, now, i)[0]);
                } else {
                    assert(stale_ids(entries, timeout, now, i)[k] == rest[k - 1]);
                    assert(stale_id_witnessed(entries, timeout, now, i + 1, k - 1));
                    let j = choose|j: int|
                        #![trigger entries[j]]
                        i + 1 <= j < entries.len() && entries[j].0 == rest[k - 1] && is_stale(
                            entries[j].1.metadata,
                            timeout,
                            now,
                        );
                    assert(entries[j].0 == stale_ids(entries, timeout, now, i)[k]);
                }
            } else {
                assert(stale_ids(entries, timeout, now, i)[k] == rest[k]);
                assert(stale_id_witnessed(entries, timeout, now, i + 1, k));
                let j = choose|j: int|
                    #![trigger entries[j]]
                    i + 1 <= j < entries.len() && entries[j].0 == rest[k] && is_stale(
                        entries[j].1.metadata,
                        timeout,
                        now,
                    );
                assert(entries[j].0 == stale_ids(entries, timeout, now, i)[k]);
            }
        }
    }
}

/// Diff correctness: every discovered id from position `i` on lands in
/// exactly one of the two lists — absent ids among the newly added,
/// present ids among the still-present — so nothing is double-counted and
/// nothing is dropped.
pub proof fn lemma_diff_partitions(m: RegistryModel, disc: Seq<Seq<char>>, i: int)
    requires
        0 <= i <= disc.len(),
    ensures
        diff_new_ids(m, disc, i).len() + diff_present_ids(m, disc, i).len() == disc.len() - i,
        forall|k: int|
            0 <= k < diff_new_ids(m, disc, i).len() ==> !m.contains(
                #[trigger] diff_new_ids(m, disc, i)[k],
            ),
        forall|k: int|
            0 <= k < diff_present_ids(m, disc, i).len() ==> m.contains(
                #[trigger] diff_present_ids(m, disc, i)[k],
            ),
    decreases disc.len() - i,
{
    if i < disc.len() {
        lemma_diff_partitions(m, disc, i + 1);
        let new_rest = diff_new_ids(m, disc, i + 1);
        let present_rest = diff_present_ids(m, disc, i + 1);
        if !m.contains(disc[i]) {
            assert(diff_new_ids(m, disc, i) =~= seq![disc[i]] + new_rest);
            assert forall|k: int| 0 <= k < diff_new_ids(m, disc, i).len() implies !m.contains(
                #[trigger] diff_new_ids(m, disc, i)[k],
            ) by {
                if k > 0 {
                    assert(diff_new_ids(m, disc, i)[k] == new_rest[k - 1]);
                }
            }
        } else {
            assert(diff_present_ids(m, disc, i) =~= seq![disc[i]] + present_rest);
            assert forall|k: int| 0 <= k < diff_present_ids(m, disc, i).len() implies m.contains(
                #[trigger] diff_present_ids(m, disc, i)[k],
            ) by {
                if k > 0 {
                    assert(diff_present_ids(m, disc, i)[k] == present_rest[k - 1]);
                }
            }
        }
    }
}

/// Adding preserves the registry invariant.
pub proof fn lemma_add_wf(
    m: RegistryModel,
    id: Seq<char>,
    printer: PrinterModel,
    profile: ProfileModel,
    is_manual: bool,
    now: u64,
)
    requires
        m.wf(),
    ensures
        m.add(id, printer, profile, is_manual, now).wf(),
{
    lemma_find_entry(m.entries, id, 0);
    let m2 = m.add(id, printer, profile, is_manual, now);
    match m.find(id) {
        Some(k) => {
            assert(m.entries[k].0 == id);
            assert(m2.ids() =~= m.ids());
        },
        None => {
            let ev = EventModel::Added {
                id: id,
                name: printer.name,
                description: printer.description,
                model: profile.name,
            };
            lemma_live_set_push(m.events, ev);
            assert(m2.ids() =~= m.ids().push(id));
            let n = m.ids().len() as int;
            assert forall|x: Seq<char>| #[trigger] m2.ids().to_set().contains(x) implies live_set(
                m2.events,
            ).contains(x) by {
                let i = choose|i: int| 0 <= i < m2.ids().len() && m2.ids()[i] == x;
                if i < n {
                    assert(m.ids()[i] == x);
                    assert(m.ids().contains(x));
                    assert(m.ids().to_set().contains(x));
                } else {
                    assert(x == id);
                }
            }
            assert forall|x: Seq<char>| #[trigger] live_set(m2.events).contains(x) implies
                m2.ids().to_set().contains(x) by {
                if x == id {
                    assert(m2.ids()[n] == x);
                    assert(m2.ids().contains(x));
                } else {
                    assert(live_set(m.events).contains(x));
                    assert(m.ids().to_set().contains(x));
                    let i = choose|i: int| 0 <= i < m.ids().len() && m.ids()[i] == x;
                    assert(m2.ids()[i] == x);
                    assert(m2.ids().contains(x));
                }
            }
            assert(m2.ids().to_set() =~= live_set(m2.events));
        },
    }
}

/// Touching preserves the registry invariant.
pub proof fn lemma_touch_wf(m: RegistryModel, id: Seq<char>, now: u64)
    requires
        m.wf(),
    ensures
        m.touch(id, now).wf(),
{
    lemma_find_entry(m.entries, id, 0);
    let m2 = m.touch(id, now);
    match m.find(id) {
        Some(k) => {
            assert(m.entries[k].0 == id);
            assert(m2.ids() =~= m.ids());
        },
        None => {},
    }
}

/// Removing preserves the registry invariant.
pub proof fn lemma_remove_wf(m: RegistryModel, id: Seq<char>)
    requires
        m.wf(),
    ensures
        m.remove(id).wf(),
{
    lemma_find_entry(m.entries, id, 0);
    let m2 = m.remove(id);
    match m.find(id) {
        Some(k) => {
            assert(m.entries[k].0 == id);
            lemma_live_set_push(m.events, EventModel::Removed { id: id });
            let n = m.entries.len() as int;
            assert forall|x: Seq<char>| #[trigger] m2.ids().to_set().contains(x) implies live_set(
                m2.events,
            ).contains(x) by {
                let i = choose|i: int| 0 <= i < m2.ids().len() && m2.ids()[i] == x;
                if i < k {
                    assert(m.ids()[i] == x);
                    assert(m.ids().contains(x));
                    assert(x != id);
                } else {
                    assert(m.ids()[i + 1] == x);
                    assert(m.ids().contains(x));
                    assert(x != id);
                }
            }
            assert forall|x: Seq<char>| #[trigger] live_set(m2.events).contains(x) implies
                m2.ids().to_set().contains(x) by {
                assert(x != id);
                assert(m.ids().to_set().contains(x));
                let i = choose|i: int| 0 <= i < m.ids().len() && m.ids()[i] == x;
                assert(i != k);
                if i < k {
                    assert(m2.ids()[i] == x);
                } else {
                    assert(m2.ids()[i - 1] == x);
                }
                assert(m2.ids().contains(x));
            }
            assert(m2.ids().to_set() =~= live_set(m2.events));
        },
        None => {},
    }
}

/// Registry idempotence: adding the same id twice with no removal in
/// between emits exactly one `Added` event, keeps `first_seen` from the
/// first add, refreshes `last_seen`, and does not replace the actor
/// handle or profile.
pub proof fn lemma_add_idempotent(
    m: RegistryModel,
    id: Seq<char>,
    printer: PrinterModel,
    profile: ProfileModel,
    is_manual: bool,
    now1: u64,
    printer2: PrinterModel,
    profile2: ProfileModel,
    is_manual2: bool,
    now2: u64,
)
    requires
        m.wf(),
        !m.contains(id),
        now1 <= now2,
    ensures
        ({
            let m1 = m.add(id, printer, profile, is_manual, now1);
            let m2 = m1.add(id, printer2, profile2, is_manual2, now2);
            &&& m1.events == m.events.push(
                EventModel::Added {
                    id: id,
                    name: printer.name,
                    description: printer.description,
                    model: profile.name,
                },
            )
            &&& m2.events == m1.events
            &&& m2.contains(id)
            &&& m2.entry_of(id).metadata.first_seen == now1
            &&& m2.entry_of(id).metadata.last_seen == now2
            &&& m2.entry_of(id).metadata.is_manual == is_manual
            &&& m2.entry_of(id).printer == printer
            &&& m2.entry_of(id).profile == profile
        }),
{
    lemma_find_entry(m.entries, id, 0);
    let m1 = m.add(id, printer, profile, is_manual, now1);
    let n = m.entries.len() as int;
    lemma_find_entry(m1.entries, id, 0);
    assert(m1.entries[n].0 == id);
    assert(m1.find(id) == Some(n));
    let m2 = m1.add(id, printer2, profile2, is_manual2, now2);
    lemma_find_entry(m2.entries, id, 0);
    assert(m2.entries[n].0 == id);
    assert(m2.find(id) == Some(n));
}

/// Event ordering: a subscriber whose cursor predates an add of a new id
/// sees, once that id is later removed, exactly `Added` then `Removed`
/// for it, in that order.
pub proof fn lemma_event_order(
    m: RegistryModel,
    id: Seq<char>,
    printer: PrinterModel,
    profile: ProfileModel,
    is_manual: bool,
    now: u64,
    cursor: int,
)
    requires
        m.wf(),
        !m.contains(id),
        cursor == m.events.len(),
    ensures
        ({
            let m1 = m.add(id, printer, profile, is_manual, now);
            let m2 = m1.remove(id);
            m2.events.skip(cursor) =~= seq![
                EventModel::Added {
                    id: id,
                    name: printer.name,
                    description: printer.description,
                    model: profile.name,
                },
                EventModel::Removed { id: id },
            ]
        }),
{
    lemma_find_entry(m.entries, id, 0);
    let m1 = m.add(id, printer, profile, is_manual, now);
    let n = m.entries.len() as int;
    lemma_find_entry(m1.entries, id, 0);
    assert(m1.entries[n].0 == id);
    assert(m1.find(id) == Some(n));
}

impl PrinterRegistry {
    /// Add or refresh a network-discovered printer.
    pub fn add_printer(&mut self, id: String, printer: Printer, profile: Profile, now: u64)
        requires
            old(self)@.wf(),
        ensures
            final(self)@ == old(self)@.add(id@, printer@, profile@, false, now),
            final(self)@.wf(),
    {
        self.add_internal(id, printer, profile, false, now);
    }

    /// Add or refresh a manually configured printer; manual entries never
    /// time out.
    pub fn add_manual_printer(&mut self, id: String, printer: Printer, profile: Profile, now: u64)
        requires
            old(self)@.wf(),
        ensures
            final(self)@ == old(self)@.add(id@, printer@, profile@, true, now),
            final(self)@.wf(),
    {
        self.add_internal(id, printer, profile, true, now);
    }

    fn add_internal(&mut self, id: String, printer: Printer, profile: Profile, is_manual: bool, now: u64)
        requires
            old(self)@.wf(),
        ensures
            final(self)@ == old(self)@.add(id@, printer@, profile@, is_manual, now),
            final(self)@.wf(),
    {
        proof {
            lemma_add_wf(old(self)@, id@, printer@, profile@, is_manual, now);
        }
        match self.find_index(id.as_str()) {
            Some(k) => {
                let entry = &self.entries[k];
                let mut metadata = entry.1.metadata;
                metadata.update_last_seen(now);
                let refreshed = PrinterEntry {
                    printer: entry.1.printer.duplicate(),
                    profile: entry.1.profile.duplicate(),
                    metadata,
                };
                self.entries.set(k, (id, refreshed));
                proof {
                    assert(self@.entries =~= old(self)@.add(
                        id@,
                        printer@,
                        profile@,
                        is_manual,
                        now,
                    ).entries);
                    assert(self@.events =~= old(self)@.add(
                        id@,
                        printer@,
                        profile@,
                        is_manual,
                        now,
                    ).events);
                }
            },
            None => {
                let event = PrinterAddedEvent {
                    printer_id: id.clone(),
                    printer_name: printer.name.clone(),
                    printer_description: printer.description.clone(),
                    model_name: profile.name.clone(),
                };
                let metadata = if is_manual {
                    PrinterMetadata::new_manual(now)
                } else {
                    PrinterMetadata::new(now)
                };
                self.entries.push((id, PrinterEntry { printer, profile, metadata }));
                self.events.push(RegistryEvent::Added(event));
                proof {
                    assert(self@.entries =~= old(self)@.add(
                        id@,
                        printer@,
                        profile@,
                        is_manual,
                        now,
                    ).entries);
                    assert(self@.events =~= old(self)@.add(
                        id@,
                        printer@,
                        profile@,
                        is_manual,
                        now,
                    ).events);
                }
            },
        }
    }

    /// Refresh `last_seen` for an existing printer; absent ids are left
    /// alone and no event is emitted either way.
    pub fn touch_printer(&mut self, id: &str, now: u64)
        requires
            old(self)@.wf(),
        ensures
            final(self)@ == old(self)@.touch(id@, now),
            final(self)@.wf(),
    {
        proof {
            lemma_touch_wf(old(self)@, id@, now);
        }
        match self.find_index(id) {
            Some(k) => {
                let entry = &self.entries[k];
                let key = entry.0.clone();
                let mut metadata = entry.1.metadata;
                metadata.update_last_seen(now);
                let refreshed = PrinterEntry {
                    printer: entry.1.printer.duplicate(),
                    profile: entry.1.profile.duplicate(),
                    metadata,
                };
                self.entries.set(k, (key, refreshed));
                proof {
                    lemma_find_entry(old(self)@.entries, id@, 0);
                    assert(old(self)@.entries[k as int].0 == id@);
                    assert(self@.entries =~= old(self)@.touch(id@, now).entries);
                    assert(self@.events =~= old(self)@.touch(id@, now).events);
                }
            },
            None => {
                proof {
                    assert(self@.entries =~= old(self)@.touch(id@, now).entries);
                    assert(self@.events =~= old(self)@.touch(id@, now).events);
                }
            },
        }
    }

    /// Remove a printer, returning its entry; emits `Removed` exactly when
    /// the id was present.
    pub fn remove_printer(&mut self, id: &str) -> (removed: Option<PrinterEntry>)
        requires
            old(self)@.wf(),
        ensures
            final(self)@ == old(self)@.remove(id@),
            final(self)@.wf(),
            removed is Some <==> old(self)@.contains(id@),
            removed matches Some(e) ==> e@ == old(self)@.entry_of(id@),
    {
        proof {
            lemma_remove_wf(old(self)@, id@);
        }
        match self.find_index(id) {
            Some(k) => {
                let (_key, entry) = self.entries.remove(k);
                self.events.push(
                    RegistryEvent::Removed(PrinterRemovedEvent { printer_id: id.to_owned() }),
                );
                proof {
                    assert(self@.entries =~= old(self)@.remove(id@).entries);
                    assert(self@.events =~= old(self)@.remove(id@).events);
                }
                Some(entry)
            },
            None => {
                proof {
                    assert(self@.entries =~= old(self)@.remove(id@).entries);
                    assert(self@.events =~= old(self)@.remove(id@).events);
                }
                None
            },
        }
    }

    /// A handle for the printer registered under `id`, for submitting work;
    /// the clone points at the same actor.
    pub fn get_printer_mut(&self, id: &str) -> (r: Option<Printer>)
        ensures
            r is Some <==> self@.contains(id@),
            r matches Some(p) ==> p@ == self@.entry_of(id@).printer,
    {
        match self.find_index(id) {
            Some(k) => Some(self.entries[k].1.printer.duplicate()),
            None => None,
        }
    }

    /// A printer handle together with its capability profile.
    pub fn get_printer_with_profile(&self, id: &str) -> (r: Option<(Printer, Profile)>)
        ensures
            r is Some <==> self@.contains(id@),
            r matches Some(p) ==> p.0@ == self@.entry_of(id@).printer && p.1@ == self@.entry_of(
                id@,
            ).profile,
    {
        match self.find_index(id) {
            Some(k) => Some(
                (self.entries[k].1.printer.duplicate(), self.entries[k].1.profile.duplicate()),
            ),
            None => None,
        }
    }
}

/// The models of a vector of id strings.
pub open spec fn ids_view(v: Seq<String>) -> Seq<Seq<char>> {
    v.map_values(|s: String| s@)
}

impl PrinterRegistry {
    /// Every registered id with its printer's display name, in entry order.
    #[verifier::loop_isolation(false)]
    pub fn list_printers(&self) -> (r: Vec<(String, String)>)
        ensures
            r@.map_values(|p: (String, String)| (p.0@, p.1@)) == self@.entries.map_values(
                |p: (Seq<char>, EntryModel)| (p.0, p.1.printer.name),
            ),
    {
        let mut r: Vec<(String, String)> = Vec::new();
        let n = self.entries.len();
        let mut k: usize = 0;
        while k < n
            invariant
                k <= n,
                n == self.entries@.len(),
                r@.map_values(|p: (String, String)| (p.0@, p.1@)) == self@.entries.map_values(
                    |p: (Seq<char>, EntryModel)| (p.0, p.1.printer.name),
                ).take(k as int),
            decreases n - k,
        {
            let item = (self.entries[k].0.clone(), self.entries[k].1.printer.name.clone());
            let ghost prevs = r@;
            r.push(item);
            proof {
                assert(r@ =~= prevs.push(item));
                assert(prevs.map_values(|p: (String, String)| (p.0@, p.1@)).len() == prevs.len());
                assert(r@.map_values(|p: (String, String)| (p.0@, p.1@)) =~= self@.entries
                    .map_values(|p: (Seq<char>, EntryModel)| (p.0, p.1.printer.name)).take(
                    k + 1 as int,
                ));
            }
            k += 1;
        }
        proof {
            assert(self@.entries.map_values(|p: (Seq<char>, EntryModel)| (p.0, p.1.printer.name))
                .take(n as int) =~= self@.entries.map_values(
                |p: (Seq<char>, EntryModel)| (p.0, p.1.printer.name),
            ));
        }
        r
    }

    /// Every registered printer with its id and profile, in entry order.
    #[verifier::loop_isolation(false)]
    pub fn get_all_printers(&self) -> (r: Vec<(String, Printer, Profile)>)
        ensures
            r@.map_values(|p: (String, Printer, Profile)| (p.0@, p.1@, p.2@)) == self@.entries
                .map_values(|p: (Seq<char>, EntryModel)| (p.0, p.1.printer, p.1.profile)),
    {
        let mut r: Vec<(String, Printer, Profile)> = Vec::new();
        let n = self.entries.len();
        let mut k: usize = 0;
        while k < n
            invariant
                k <= n,
                n == self.entries@.len(),
                r@.map_values(|p: (String, Printer, Profile)| (p.0@, p.1@, p.2@)) == self@.entries
                    .map_values(|p: (Seq<char>, EntryModel)| (p.0, p.1.printer, p.1.profile)).take(
                    k as int,
                ),
            decreases n - k,
        {
            let item = (
                self.entries[k].0.clone(),
                self.entries[k].1.printer.duplicate(),
                self.entries[k].1.profile.duplicate(),
            );
            let ghost prevs = r@;
            r.push(item);
            proof {
                assert(r@ =~= prevs.push(item));
                assert(prevs.map_values(|p: (String, Printer, Profile)| (p.0@, p.1@, p.2@)).len()
                    == prevs.len());
                assert(r@.map_values(|p: (String, Printer, Profile)| (p.0@, p.1@, p.2@))
                    =~= self@.entries.map_values(
                    |p: (Seq<char>, EntryModel)| (p.0, p.1.printer, p.1.profile),
                ).take(k + 1 as int));
            }
            k += 1;
        }
        proof {
            assert(self@.entries.map_values(
                |p: (Seq<char>, EntryModel)| (p.0, p.1.printer, p.1.profile),
            ).take(n as int) =~= self@.entries.map_values(
                |p: (Seq<char>, EntryModel)| (p.0, p.1.printer, p.1.profile),
            ));
        }
        r
    }

    /// Split freshly discovered ids into those new to the registry and
    /// those already present, both in discovery order.  The two lists are
    /// computed against one consistent snapshot and never overlap.
    #[verifier::loop_isolation(false)]
    pub fn diff(&self, discovered: &Vec<String>) -> (r: (Vec<String>, Vec<String>))
        ensures
            ids_view(r.0@) == diff_new_ids(self@, ids_view(discovered@), 0),
            ids_view(r.1@) == diff_present_ids(self@, ids_view(discovered@), 0),
    {
        let mut newly: Vec<String> = Vec::new();
        let mut present: Vec<String> = Vec::new();
        let n = discovered.len();
        let ghost disc = ids_view(discovered@);
        let mut k: usize = 0;
        while k < n
            invariant
                k <= n,
                n == discovered@.len(),
                disc == ids_view(discovered@),
                diff_new_ids(self@, disc, 0) == ids_view(newly@) + diff_new_ids(
                    self@,
                    disc,
                    k as int,
                ),
                diff_present_ids(self@, disc, 0) == ids_view(present@) + diff_present_ids(
                    self@,
                    disc,
                    k as int,
                ),
            decreases n - k,
        {
            let id = discovered[k].clone();
            proof {
                assert(disc[k as int] == id@);
            }
            if self.find_index(id.as_str()).is_some() {
                let ghost prevs = present@;
                present.push(id);
                proof {
                    assert(present@ =~= prevs.push(id));
                    assert(ids_view(prevs).len() == prevs.len());
                    assert(ids_view(present@) =~= ids_view(prevs).push(id@));
                    assert(ids_view(prevs).push(id@) + diff_present_ids(self@, disc, k + 1 as int)
                        =~= ids_view(prevs) + (seq![disc[k as int]] + diff_present_ids(
                        self@,
                        disc,
                        k + 1 as int,
                    )));
                }
            } else {
                let ghost prevs = newly@;
                newly.push(id);
                proof {
                    assert(newly@ =~= prevs.push(id));
                    assert(ids_view(prevs).len() == prevs.len());
                    assert(ids_view(newly@) =~= ids_view(prevs).push(id@));
                    assert(ids_view(prevs).push(id@) + diff_new_ids(self@, disc, k + 1 as int)
                        =~= ids_view(prevs) + (seq![disc[k as int]] + diff_new_ids(
                        self@,
                        disc,
                        k + 1 as int,
                    )));
                }
            }
            k += 1;
        }
        proof {
            assert(ids_view(newly@) + Seq::<Seq<char>>::empty() =~= ids_view(newly@));
            assert(ids_view(present@) + Seq::<Seq<char>>::empty() =~= ids_view(present@));
        }
        (newly, present)
    }

    /// The ids of non-manual printers unseen for longer than `timeout`, in
    /// entry order.  Manual printers never appear here.
    #[verifier::loop_isolation(false)]
    pub fn get_stale_printers(&self, timeout: u64, now: u64) -> (r: Vec<String>)
        ensures
            ids_view(r@) == stale_ids(self@.entries, timeout, now, 0),
    {
        let mut r: Vec<String> = Vec::new();
        let n = self.entries.len();
        let mut k: usize = 0;
        while k < n
            invariant
                k <= n,
                n == self.entries@.len(),
                stale_ids(self@.entries, timeout, now, 0) == ids_view(r@) + stale_ids(
                    self@.entries,
                    timeout,
                    now,
                    k as int,
                ),
            decreases n - k,
        {
            let m = self.entries[k].1.metadata;
            proof {
                assert(self@.entries[k as int].1.metadata == m);
            }
            if !m.is_manual && now >= m.last_seen && now - m.last_seen > timeout {
                let id = self.entries[k].0.clone();
                let ghost prevs = r@;
                r.push(id);
                proof {
                    assert(r@ =~= prevs.push(id));
                    assert(ids_view(prevs).len() == prevs.len());
                    assert(ids_view(r@) =~= ids_view(prevs).push(id@));
                    assert(ids_view(prevs).push(id@) + stale_ids(
                        self@.entries,
                        timeout,
                        now,
                        k + 1 as int,
                    ) =~= ids_view(prevs) + (seq![self@.entries[k as int].0] + stale_ids(
                        self@.entries,
                        timeout,
                        now,
                        k + 1 as int,
                    )));
                }
            }
            k += 1;
        }
        proof {
            assert(ids_view(r@) + Seq::<Seq<char>>::empty() =~= ids_view(r@));
        }
        r
    }
}

impl RegistryEvent {
    /// A field-for-field copy of this event.
    pub fn clone_event(&self) -> (r: RegistryEvent)
        ensures
            r@ == self@,
    {
        match self {
            RegistryEvent::Added(e) => RegistryEvent::Added(
                PrinterAddedEvent {
                    printer_id: e.printer_id.clone(),
                    printer_name: e.printer_name.clone(),
                    printer_description: e.printer_description.clone(),
                    model_name: e.model_name.clone(),
                },
            ),
            RegistryEvent::Removed(e) => RegistryEvent::Removed(
                PrinterRemovedEvent { printer_id: e.printer_id.clone() },
            ),
        }
    }
}

} // verus!
