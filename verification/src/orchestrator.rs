//! The orchestrator: the in-memory registry of live guests, hydrated on
//! demand from the configuration store.
//!
//! Waiting on locks, spawning and awaiting children are the runtime's
//! work; the registry's decisions — when to hydrate, when an id is
//! unknown, when an operation is refused — live here, verified.  One
//! entry exists per id; operations on distinct ids touch distinct
//! entries.

use vstd::prelude::*;
use vstd::string::*;
use crate::config::{config_eqv, lemma_eqv_renders_alike, CommandPlan, GuestConfig};
use crate::error::{Error, ErrorKind};
use crate::guest::{spec_status, Guest, Status};
use crate::qmp::Command;
use crate::render::{spec_dec, u64_to_string};
use crate::storage::{spec_contains_name, spec_get, spec_inserted, spec_remove, ConfigStorage};

verus! {

/// The in-memory registry: the store it hydrates from, the root under
/// which each guest caches remote files, and one guest per started id.
pub struct Orchestrator {
    storage: ConfigStorage,
    local_storage: String,
    guests: Vec<(usize, Guest)>,
}

/// Whether the registry holds an entry for the id.
pub open spec fn spec_has_entry(s: Seq<(usize, Guest)>, id: usize) -> bool {
    exists|i: int| 0 <= i < s.len() && s[i].0 == id
}

/// The guest registered under an id, scanning from a position.
pub open spec fn spec_guest_from(s: Seq<(usize, Guest)>, id: usize, i: int) -> Option<Guest>
    decreases s.len() - i,
{
    if i < 0 || i >= s.len() {
        None
    } else if s[i].0 == id {
        Some(s[i].1)
    } else {
        spec_guest_from(s, id, i + 1)
    }
}

/// The guest registered under an id, if any.
pub open spec fn spec_guest(s: Seq<(usize, Guest)>, id: usize) -> Option<Guest> {
    spec_guest_from(s, id, 0)
}

impl Orchestrator {
    pub closed spec fn spec_storage(&self) -> ConfigStorage {
        self.storage
    }

    pub closed spec fn spec_local_storage(&self) -> Seq<char> {
        self.local_storage@
    }

    pub closed spec fn spec_guests(&self) -> Seq<(usize, Guest)> {
        self.guests@
    }

    /// Well-formed: the store sound, one entry per id.
    pub open spec fn wf(&self) -> bool {
        &&& self.spec_storage().wf()
        &&& forall|i: int, j: int|
            0 <= i < j < self.spec_guests().len() ==> (#[trigger] self.spec_guests()[i].0) != (
            #[trigger] self.spec_guests()[j].0)
    }

    /// A fresh registry over a store; no guest is live.
    pub fn new(storage: ConfigStorage, local_storage: &str) -> (r: Self)
        requires
            storage.wf(),
        ensures
            r.wf(),
            r.spec_storage() == storage,
            r.spec_local_storage() == local_storage@,
            r.spec_guests().len() == 0,
    {
        Self { storage, local_storage: String::from_str(local_storage), guests: Vec::new() }
    }

    /// The store the registry hydrates from.
    pub fn storage(&self) -> (r: &ConfigStorage)
        ensures
            *r == self.spec_storage(),
    {
        &self.storage
    }

    /// Looks a live guest up.
    fn find(&self, id: usize) -> (r: Option<usize>)
        ensures
            match r {
                Some(i) => i < self.spec_guests().len() && self.spec_guests()[i as int].0 == id
                    && spec_guest(self.spec_guests(), id) == Some(
                    self.spec_guests()[i as int].1,
                ),
                None => !spec_has_entry(self.spec_guests(), id) && spec_guest(
                    self.spec_guests(),
                    id,
                ) is None,
            },
    {
        let n = self.guests.len();
        let mut i: usize = 0;
        while i < n
            invariant
                n == self.spec_guests().len(),
                i <= n,
                spec_guest(self.spec_guests(), id) == spec_guest_from(
                    self.spec_guests(),
                    id,
                    i as int,
                ),
                forall|k: int| 0 <= k < i ==> (#[trigger] self.spec_guests()[k].0) != id,
            decreases n - i,
        {
            if self.guests[i].0 == id {
                return Some(i);
            }
            i = i + 1;
        }
        None
    }

    /// Files a document in the store the registry runs over; the live
    /// guests are untouched.  The store's contract carries over: a
    /// fresh name is appended under the next id, a taken name refused.
    pub fn insert(&mut self, name: &str, config: GuestConfig) -> (r: Result<(), Error>)
        requires
            old(self).wf(),
        ensures
            final(self).wf(),
            final(self).spec_guests() == old(self).spec_guests(),
            final(self).spec_local_storage() == old(self).spec_local_storage(),
            spec_contains_name(old(self).spec_storage().spec_entries(), name@) ==> (r matches Err(
                e,
            ) && e.spec_kind() == ErrorKind::AlreadyExists && final(self).spec_storage() == old(
                self,
            ).spec_storage()),
            !spec_contains_name(old(self).spec_storage().spec_entries(), name@) && old(
                self,
            ).spec_storage().spec_next_id() < isize::MAX as int ==> (r is Ok && spec_inserted(
                old(self).spec_storage().spec_entries(),
                old(self).spec_storage().spec_next_id(),
                name@,
                config,
                final(self).spec_storage().spec_entries(),
            )),
    {
        let r = self.storage.insert(name, config);
        proof {
            assert(self.spec_guests() == old(self).spec_guests());
            assert(self.wf());
        }
        r
    }

    /// Refiles a persisted row in the store the registry runs over,
    /// keeping its id; the live guests are untouched.
    pub fn restore(&mut self, id: usize, name: &str, config: GuestConfig) -> (r: Result<(), Error>)
        requires
            old(self).wf(),
            old(self).spec_storage().spec_next_id() <= id < isize::MAX as int,
            !spec_contains_name(old(self).spec_storage().spec_entries(), name@),
        ensures
            r is Ok,
            final(self).wf(),
            final(self).spec_guests() == old(self).spec_guests(),
            final(self).spec_local_storage() == old(self).spec_local_storage(),
            spec_inserted(
                old(self).spec_storage().spec_entries(),
                id as int,
                name@,
                config,
                final(self).spec_storage().spec_entries(),
            ),
    {
        let r = self.storage.restore(id, name, config);
        proof {
            assert(self.spec_guests() == old(self).spec_guests());
            assert(self.wf());
        }
        r
    }

    /// Drops a document from the store the registry runs over; the live
    /// guests are untouched, and an absent id is not an error.
    pub fn remove(&mut self, id: isize) -> (r: Result<(), Error>)
        requires
            old(self).wf(),
        ensures
            r is Ok,
            final(self).wf(),
            final(self).spec_guests() == old(self).spec_guests(),
            final(self).spec_local_storage() == old(self).spec_local_storage(),
            final(self).spec_storage().spec_entries() == spec_remove(
                old(self).spec_storage().spec_entries(),
                id as int,
            ),
    {
        let r = self.storage.remove(id);
        proof {
            assert(self.spec_guests() == old(self).spec_guests());
            assert(self.wf());
        }
        r
    }

    /// The cache directory a guest hydrated under an id receives.
    pub open spec fn spec_guest_dir(&self, id: usize) -> Seq<char> {
        self.spec_local_storage() + "/"@ + spec_dec(id as nat)
    }

    /// Begins a run: hydrates the guest from the store if the id is not
    /// yet live (`NoSuchEntity` if the store does not know it either),
    /// then asks the guest for its spawn plan.  A guest already running
    /// is refused with `AlreadyRunning`; an id whose document is at hand
    /// and needs no remote file is owed a plan.  Refused lookups leave
    /// the registry as it was; hydration appends exactly one entry,
    /// carrying the stored document and the per-id cache directory.
    pub fn run_begin(&mut self, id: usize, child_exited: bool) -> (r: Result<CommandPlan, Error>)
        requires
            old(self).wf(),
        ensures
            final(self).wf(),
            final(self).spec_storage() == old(self).spec_storage(),
            final(self).spec_local_storage() == old(self).spec_local_storage(),
            spec_has_entry(old(self).spec_guests(), id) ==> final(self).spec_guests()
                == old(self).spec_guests(),
            !spec_has_entry(old(self).spec_guests(), id) && spec_get(
                old(self).spec_storage().spec_entries(),
                id as int,
            ) is None ==> (r matches Err(e) && e.spec_kind() == ErrorKind::NoSuchEntity
                && final(self).spec_guests() == old(self).spec_guests()),
            !spec_has_entry(old(self).spec_guests(), id) ==> (spec_get(
                old(self).spec_storage().spec_entries(),
                id as int,
            ) matches Some(c) ==> spec_hydrated(old(self).spec_guests(), final(self).spec_guests(),
                id, c, old(self).spec_guest_dir(id))),
            !spec_has_entry(old(self).spec_guests(), id) ==> (spec_get(
                old(self).spec_storage().spec_entries(),
                id as int,
            ) matches Some(c) ==> spec_plan_for(r, c, old(self).spec_guest_dir(id))),
            spec_guest(old(self).spec_guests(), id) matches Some(g) && spec_status(g, child_exited)
                == Status::Running ==> (r matches Err(e) && e.spec_kind()
                == ErrorKind::AlreadyRunning),
            spec_guest(old(self).spec_guests(), id) matches Some(g) ==> (spec_status(
                g,
                child_exited,
            ) == Status::Stopped ==> spec_plan_for(r, g.spec_config(), g.spec_local_storage())),
            spec_has_entry(final(self).spec_guests(), id) || r is Err,
    {
        let existing = self.find(id);
        let index: usize = match existing {
            Some(i) => i,
            None => {
                let config = self.storage.get(id)?;
                let ghost stored = spec_get(self.storage.spec_entries(), id as int).unwrap();
                let mut guest_storage = self.local_storage.clone();
                guest_storage.append("/");
                let rendered = u64_to_string(id as u64);
                guest_storage.append(rendered.as_str());
                let guest = Guest::new(config, guest_storage.as_str());
                let at = self.guests.len();
                self.guests.push((id, guest));
                proof {
                    assert(self.guests@[at as int].0 == id);
                    assert(self.guests@.drop_last() =~= old(self).spec_guests());
                    lemma_eqv_renders_alike(guest.spec_config(), stored, guest_storage@);
                }
                at
            },
        };
        let guest = &self.guests[index].1;
        let r = guest.run_plan(child_exited);
        proof {
            if existing is None {
                let stored = spec_get(old(self).spec_storage().spec_entries(), id as int).unwrap();
                lemma_eqv_renders_alike(guest.spec_config(), stored, guest.spec_local_storage());
            }
        }
        r
    }

    /// Marks the guest under an id as running, once its child spawned
    /// and the handshake completed.  Every entry keeps its key, its
    /// document and its cache directory; entries under other ids are
    /// untouched; an id without an entry changes nothing.
    pub fn run_commit(&mut self, id: usize)
        requires
            old(self).wf(),
        ensures
            final(self).wf(),
            final(self).spec_storage() == old(self).spec_storage(),
            final(self).spec_local_storage() == old(self).spec_local_storage(),
            final(self).spec_guests().len() == old(self).spec_guests().len(),
            forall|k: int|
                0 <= k < old(self).spec_guests().len() ==> {
                    let before = old(self).spec_guests()[k];
                    let after = #[trigger] final(self).spec_guests()[k];
                    after.0 == before.0 && after.1.spec_config() == before.1.spec_config()
                        && after.1.spec_local_storage() == before.1.spec_local_storage() && (
                    before.0 != id ==> after == before)
                },
            spec_has_entry(old(self).spec_guests(), id) ==> (spec_guest(
                final(self).spec_guests(),
                id,
            ) matches Some(g) && g.spec_has_child()),
            !spec_has_entry(old(self).spec_guests(), id) ==> final(self).spec_guests()
                == old(self).spec_guests(),
    {
        let found = self.find(id);
        if let Some(index) = found {
            let ghost before = self.guests@;
            let (entry_id, mut guest) = self.guests.remove(index);
            guest.run_commit();
            self.guests.insert(index, (entry_id, guest));
            proof {
                assert(self.guests@.len() == before.len());
                assert forall|k: int| 0 <= k < before.len() implies self.guests@[k] == (if k
                    == index as int {
                    (entry_id, guest)
                } else {
                    before[k]
                }) by {}
                assert forall|k: int| 0 <= k < before.len() implies (#[trigger] self.guests@[k].0)
                    == before[k].0 by {}
                lemma_guest_at_index(self.guests@, id, index as int);
            }
        } else {
            proof {
                assert(self.guests@ == old(self).spec_guests());
            }
        }
    }

    /// The shutdown command for a live guest: `NoSuchEntity` when the id
    /// has no live entry, `AlreadyStopped` when its child is gone.
    pub fn shutdown_plan(&self, id: usize, child_exited: bool) -> (r: Result<Command, Error>)
        requires
            self.wf(),
        ensures
            !spec_has_entry(self.spec_guests(), id) ==> (r matches Err(e) && e.spec_kind()
                == ErrorKind::NoSuchEntity),
            spec_guest(self.spec_guests(), id) matches Some(g) ==> match spec_status(
                g,
                child_exited,
            ) {
                Status::Running => r matches Ok(c) && c.execute
                    == crate::qmp::Execute::SystemPowerDown,
                Status::Stopped => r matches Err(e) && e.spec_kind() == ErrorKind::AlreadyStopped,
            },
    {
        match self.find(id) {
            Some(index) => self.guests[index].1.shutdown_plan(child_exited),
            None => Err(Error::new(ErrorKind::NoSuchEntity, "Guest not found")),
        }
    }

    /// The per-guest cache directory: the root with the id under it.
    pub fn guest_storage_dir(&self, id: usize) -> (r: String)
        ensures
            r@ == self.spec_local_storage() + "/"@ + spec_dec(id as nat),
    {
        let mut out = self.local_storage.clone();
        out.append("/");
        let rendered = u64_to_string(id as u64);
        out.append(rendered.as_str());
        out
    }
}

/// What hydration does to the registry: exactly one entry appended,
/// keyed by the id, holding the stored document and the per-id cache
/// directory, with no child yet.
pub open spec fn spec_hydrated(
    pre: Seq<(usize, Guest)>,
    post: Seq<(usize, Guest)>,
    id: usize,
    stored: GuestConfig,
    dir: Seq<char>,
) -> bool {
    &&& post.len() == pre.len() + 1
    &&& post.drop_last() == pre
    &&& post.last().0 == id
    &&& config_eqv(post.last().1.spec_config(), stored)
    &&& post.last().1.spec_local_storage() == dir
    &&& !post.last().1.spec_has_child()
}

/// What a run answers for a stopped guest holding document `c` cached
/// under `dir`: its spawn command — the document's rendering with the
/// monitor channel appended — owed whenever no remote file must be
/// resolved; a failure only out of that resolution.
pub open spec fn spec_plan_for(r: Result<CommandPlan, Error>, c: GuestConfig, dir: Seq<char>) -> bool {
    &&& (match r {
        Ok(plan) => plan.program@ == c.spec_program() && plan.args.deep_view() == c.spec_cmd_args(
            dir,
        ) + crate::guest::spec_monitor_args(),
        Err(e) => e.spec_kind() != ErrorKind::AlreadyRunning,
    })
    &&& (!(c.bios matches Some(crate::file::File::Remote(_))) ==> r is Ok)
}

/// In a registry with unique ids, the guest found under an id is the
/// entry at its index.
proof fn lemma_guest_at_index(s: Seq<(usize, Guest)>, id: usize, index: int)
    requires
        forall|i: int, j: int| 0 <= i < j < s.len() ==> (#[trigger] s[i].0) != (#[trigger] s[j].0),
        0 <= index < s.len(),
        s[index].0 == id,
    ensures
        spec_guest(s, id) == Some(s[index].1),
{
    lemma_guest_scan(s, id, index, 0);
}

/// Scanning for an id held only at `index` finds that entry.
proof fn lemma_guest_scan(s: Seq<(usize, Guest)>, id: usize, index: int, i: int)
    requires
        forall|p: int, q: int| 0 <= p < q < s.len() ==> (#[trigger] s[p].0) != (#[trigger] s[q].0),
        0 <= index < s.len(),
        s[index].0 == id,
        0 <= i <= index,
    ensures
        spec_guest_from(s, id, i) == Some(s[index].1),
    decreases s.len() - i,
{
    if i < index {
        assert(s[i].0 != s[index].0);
        lemma_guest_scan(s, id, index, i + 1);
    }
}

/// The orchestration exclusion law: after a run completes for an id its
/// guest holds a live child, so until that child exits a second
/// `run_begin` of the same id is refused as `AlreadyRunning` by its
/// contract; and once the child has exited, a second `shutdown_plan` of
/// the id is refused as `AlreadyStopped` by its contract.
pub proof fn lemma_orchestrator_exclusion(o: Orchestrator, id: usize)
    requires
        o.wf(),
        spec_guest(o.spec_guests(), id) matches Some(g) && g.spec_has_child(),
    ensures
        spec_guest(o.spec_guests(), id) matches Some(g) && spec_status(g, false)
            == Status::Running,
        spec_guest(o.spec_guests(), id) matches Some(g) && spec_status(g, true)
            == Status::Stopped,
{
}

} // verus!
