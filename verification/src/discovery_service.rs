//! The periodic discovery cycle.
//!
//! The runtime runs one cycle per timer tick: it scans the network,
//! resolves each responder into a descriptor, and hands the batch to
//! `run_cycle`, which updates the registry in one pass — new printers are
//! added, re-sighted ones touched, and entries unseen beyond the timeout
//! evicted.  A printer missing from one scan is never removed outright;
//! only the staleness timeout evicts it, so transient scan misses are
//! harmless.
use vstd::prelude::*;

use crate::printer::{Printer, PrinterModel};
use crate::profile::{lookup_profile, profile_record, Profile, ProfileModel};
use crate::registry::{
    diff_new_ids, diff_present_ids, ids_view, stale_ids, PrinterRegistry, RegistryModel,
};

verus! {

/// Startup-time discovery settings; times are in milliseconds.
#[derive(Debug, PartialEq, Clone)]
pub struct DiscoveryConfig {
    /// The profile used for printers that do not report a model.
    pub default_printer_model: String,
    /// How long the service waits between cycles.
    pub discovery_interval: u64,
    /// How long a non-manual printer may go unseen before eviction.
    pub printer_timeout: u64,
}

/// The discovery control loop's configuration and per-cycle logic.
pub struct DiscoveryService {
    pub config: DiscoveryConfig,
}

/// One resolved printer from a scan: its registry id, a handle and the
/// capability profile for its model.
#[derive(Debug, PartialEq, Clone)]
pub struct DiscoveredPrinter {
    pub id: String,
    pub printer: Printer,
    pub profile: Profile,
}

/// Mathematical model of a resolved printer.
pub struct DiscoveredModel {
    pub id: Seq<char>,
    pub printer: PrinterModel,
    pub profile: ProfileModel,
}

impl View for DiscoveredPrinter {
    type V = DiscoveredModel;

    open spec fn view(&self) -> DiscoveredModel {
        DiscoveredModel { id: self.id@, printer: self.printer@, profile: self.profile@ }
    }
}

impl DiscoveredPrinter {
    /// A field-for-field copy of this descriptor.
    pub fn duplicate(&self) -> (r: DiscoveredPrinter)
        ensures
            r@ == self@,
    {
        DiscoveredPrinter {
            id: self.id.clone(),
            printer: self.printer.duplicate(),
            profile: self.profile.duplicate(),
        }
    }
}

/// The models of a batch of resolved printers.
pub open spec fn discovered_view(v: Seq<DiscoveredPrinter>) -> Seq<DiscoveredModel> {
    v.map_values(|d: DiscoveredPrinter| d@)
}

/// The registry ids of a batch, in batch order.
pub open spec fn discovered_ids(ds: Seq<DiscoveredModel>) -> Seq<Seq<char>> {
    ds.map_values(|d: DiscoveredModel| d.id)
}

/// What a discovered name becomes as a registry id: its lower-case form.
pub uninterp spec fn lower_of(s: Seq<char>) -> Seq<char>;

/// Relies on str::to_lowercase: the result depends on the characters
/// alone.
#[verifier::external_body]
fn lowercase(s: &str) -> (r: String)
    ensures
        r@ == lower_of(s@),
{
    s.to_lowercase()
}

/// Resolve one responder into a registry descriptor.  The id is the
/// lower-cased discovered name; the model is the one the device reported,
/// or the configured default when the identity query failed; a model
/// absent from the profile table leaves the responder unresolved.
pub fn resolve_discovered(
    name: &str,
    description: &str,
    actor: u64,
    queried_model: Option<String>,
    default_model: &str,
) -> (r: Option<DiscoveredPrinter>)
    ensures
        ({
            let chosen = match queried_model {
                Some(m) => m@,
                None => default_model@,
            };
            &&& (r is Some <==> profile_record(chosen) is Some)
            &&& (r matches Some(d) ==> {
                &&& d@.id == lower_of(name@)
                &&& d@.printer.name == name@
                &&& d@.printer.description == description@
                &&& d@.printer.actor == actor
                &&& profile_record(chosen) == Some(d@.profile)
            })
        }),
{
    let model = match queried_model {
        Some(m) => m,
        None => default_model.to_owned(),
    };
    match lookup_profile(model.as_str()) {
        Some(profile) => Some(
            DiscoveredPrinter {
                id: lowercase(name),
                printer: Printer {
                    name: name.to_owned(),
                    description: description.to_owned(),
                    actor,
                },
                profile,
            },
        ),
        None => None,
    }
}

/// The registry after one batch is applied: each descriptor added in batch
/// order (which refreshes `last_seen` for ids already present).
pub open spec fn apply_discovered(
    m: RegistryModel,
    ds: Seq<DiscoveredModel>,
    now: u64,
    i: int,
) -> RegistryModel
    decreases ds.len() - i,
{
    if i < 0 || i >= ds.len() {
        m
    } else {
        apply_discovered(m.add(ds[i].id, ds[i].printer, ds[i].profile, false, now), ds, now, i + 1)
    }
}

/// The registry after the listed ids are removed, in order.
pub open spec fn remove_all(m: RegistryModel, ids: Seq<Seq<char>>, i: int) -> RegistryModel
    decreases ids.len() - i,
{
    if i < 0 || i >= ids.len() {
        m
    } else {
        remove_all(m.remove(ids[i]), ids, i + 1)
    }
}

/// The registry after a full cycle: the batch applied, then every entry
/// stale at `now` evicted.
pub open spec fn cycle_result(
    m: RegistryModel,
    ds: Seq<DiscoveredModel>,
    timeout: u64,
    now: u64,
) -> RegistryModel {
    let mid = apply_discovered(m, ds, now, 0);
    remove_all(mid, stale_ids(mid.entries, timeout, now, 0), 0)
}

/// What one cycle did, for reporting: the ids newly added, the ids seen
/// again, and the ids evicted for staleness.
#[derive(Debug, PartialEq, Clone)]
pub struct CycleReport {
    pub newly_added: Vec<String>,
    pub still_present: Vec<String>,
    pub removed: Vec<String>,
}

impl DiscoveryService {
    pub fn new(config: DiscoveryConfig) -> (r: DiscoveryService)
        ensures
            r.config == config,
    {
        DiscoveryService { config }
    }

    /// Apply one discovery cycle to the registry: add or touch every
    /// descriptor in the batch, then evict what the timeout says is stale.
    /// The report lists, against the registry as it stood before the
    /// cycle, which batch ids were new and which were re-sightings, and
    /// which ids were evicted.
    #[verifier::loop_isolation(false)]
    pub fn run_cycle(
        &self,
        registry: &mut PrinterRegistry,
        discovered: &Vec<DiscoveredPrinter>,
        now: u64,
    ) -> (report: CycleReport)
        requires
            old(registry)@.wf(),
        ensures
            final(registry)@ == cycle_result(
                old(registry)@,
                discovered_view(discovered@),
                self.config.printer_timeout,
                now,
            ),
            final(registry)@.wf(),
            ids_view(report.newly_added@) == diff_new_ids(
                old(registry)@,
                discovered_ids(discovered_view(discovered@)),
                0,
            ),
            ids_view(report.still_present@) == diff_present_ids(
                old(registry)@,
                discovered_ids(discovered_view(discovered@)),
                0,
            ),
            ids_view(report.removed@) == stale_ids(
                apply_discovered(old(registry)@, discovered_view(discovered@), now, 0).entries,
                self.config.printer_timeout,
                now,
                0,
            ),
    {
        let ghost ds = discovered_view(discovered@);
        proof {
            assert(ds.len() == discovered@.len());
        }
        let mut batch_ids: Vec<String> = Vec::new();
        let n = discovered.len();
        let mut i: usize = 0;
        while i < n
            invariant
                i <= n,
                n == discovered@.len(),
                ds == discovered_view(discovered@),
                ids_view(batch_ids@) == discovered_ids(ds).take(i as int),
            decreases n - i,
        {
            let id = discovered[i].id.clone();
            let ghost prevs = batch_ids@;
            batch_ids.push(id);
            proof {
                assert(ids_view(prevs).len() == prevs.len());
                assert(ds[i as int] == discovered@[i as int]@);
                assert(ids_view(batch_ids@) =~= discovered_ids(ds).take(i + 1 as int));
            }
            i += 1;
        }
        proof {
            assert(discovered_ids(ds).take(n as int) =~= discovered_ids(ds));
        }
        let (newly_added, still_present) = registry.diff(&batch_ids);
        let mut i: usize = 0;
        while i < n
            invariant
                i <= n,
                n == discovered@.len(),
                ds == discovered_view(discovered@),
                registry@.wf(),
                apply_discovered(old(registry)@, ds, now, 0) == apply_discovered(
                    registry@,
                    ds,
                    now,
                    i as int,
                ),
            decreases n - i,
        {
            let d = discovered[i].duplicate();
            proof {
                assert(ds[i as int] == discovered@[i as int]@);
            }
            registry.add_printer(d.id, d.printer, d.profile, now);
            i += 1;
        }
        let ghost mid = apply_discovered(old(registry)@, ds, now, 0);
        proof {
            assert(mid == registry@);
        }
        let removed = registry.get_stale_printers(self.config.printer_timeout, now);
        let ghost stale = stale_ids(mid.entries, self.config.printer_timeout, now, 0);
        proof {
            assert(ids_view(removed@).len() == removed@.len());
        }
        let m = removed.len();
        let mut k: usize = 0;
        while k < m
            invariant
                k <= m,
                m == removed@.len(),
                ids_view(removed@) == stale,
                registry@.wf(),
                remove_all(mid, stale, 0) == remove_all(registry@, stale, k as int),
            decreases m - k,
        {
            proof {
                assert(stale[k as int] == removed@[k as int]@);
            }
            registry.remove_printer(removed[k].as_str());
            k += 1;
        }
        CycleReport { newly_added, still_present, removed }
    }
}

} // verus!
