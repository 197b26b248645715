//! The configuration store: a labeled, name-indexed collection of guest
//! documents with unique-name enforcement and id-based retrieval.
//!
//! This is the store's semantics, verified: ids assigned monotonically,
//! names unique, listings in id order.  The database file that persists
//! it lives outside the library, which mirrors it operation for
//! operation.

use vstd::prelude::*;
use vstd::string::*;
use crate::config::{config_eqv, GuestConfig};
use crate::error::{Error, ErrorKind};
use crate::props::string_eq;

verus! {

/// A pair of a string label and an item, written on the wire as a
/// single-entry map `{label: item}`.
#[derive(Debug)]
pub struct Labeled<T> {
    label: String,
    item: T,
}

impl<T> Labeled<T> {
    pub closed spec fn spec_label(&self) -> Seq<char> {
        self.label@
    }

    pub closed spec fn spec_item(&self) -> T {
        self.item
    }

    pub fn new(label: &str, item: T) -> (r: Self)
        ensures
            r.spec_label() == label@,
            r.spec_item() == item,
    {
        Self { label: String::from_str(label), item }
    }

    pub fn label(&self) -> (r: &str)
        ensures
            r@ == self.spec_label(),
    {
        self.label.as_str()
    }

    pub fn item(&self) -> (r: &T)
        ensures
            *r == self.spec_item(),
    {
        &self.item
    }
}

/// One stored guest: its id, its unique name, and its document.
pub struct StoredGuest {
    pub id: usize,
    pub name: String,
    pub config: GuestConfig,
}

/// Whether some entry carries the name.
pub open spec fn spec_contains_name(s: Seq<StoredGuest>, name: Seq<char>) -> bool {
    exists|i: int| 0 <= i < s.len() && s[i].name@ == name
}

/// The id filed under a name, scanning from a position; the store's
/// names are unique, so at most one entry matches.
pub open spec fn spec_lookup_from(s: Seq<StoredGuest>, name: Seq<char>, i: int) -> Option<int>
    decreases s.len() - i,
{
    if i < 0 || i >= s.len() {
        None
    } else if s[i].name@ == name {
        Some(s[i].id as int)
    } else {
        spec_lookup_from(s, name, i + 1)
    }
}

/// The id filed under a name, if any.
pub open spec fn spec_lookup(s: Seq<StoredGuest>, name: Seq<char>) -> Option<int> {
    spec_lookup_from(s, name, 0)
}

/// The document filed under an id, scanning from a position.
pub open spec fn spec_get_from(s: Seq<StoredGuest>, id: int, i: int) -> Option<GuestConfig>
    decreases s.len() - i,
{
    if i < 0 || i >= s.len() {
        None
    } else if s[i].id == id {
        Some(s[i].config)
    } else {
        spec_get_from(s, id, i + 1)
    }
}

/// The document filed under an id, if any.
pub open spec fn spec_get(s: Seq<StoredGuest>, id: int) -> Option<GuestConfig> {
    spec_get_from(s, id, 0)
}

/// The entries left after removing an id.
pub open spec fn spec_remove(s: Seq<StoredGuest>, id: int) -> Seq<StoredGuest>
    decreases s.len(),
{
    if s.len() == 0 {
        Seq::empty()
    } else if s.last().id == id {
        spec_remove(s.drop_last(), id)
    } else {
        spec_remove(s.drop_last(), id).push(s.last())
    }
}

/// The store's invariant over its entries: every id below the next one,
/// ids strictly ascending (so listings come out id-ordered and ids never
/// repeat), names unique.
pub open spec fn entries_wf(s: Seq<StoredGuest>, next: int) -> bool {
    &&& forall|i: int| 0 <= i < s.len() ==> (#[trigger] s[i].id) < next
    &&& forall|i: int, j: int| 0 <= i < j < s.len() ==> (#[trigger] s[i].id) < (#[trigger] s[j].id)
    &&& forall|i: int, j: int|
        0 <= i < j < s.len() ==> (#[trigger] s[i].name@) != (#[trigger] s[j].name@)
}

/// Removing an id that no entry carries leaves the entries alone.
proof fn lemma_remove_absent(s: Seq<StoredGuest>, id: int)
    requires
        forall|k: int| 0 <= k < s.len() ==> (#[trigger] s[k].id) != id,
    ensures
        spec_remove(s, id) == s,
    decreases s.len(),
{
    if s.len() > 0 {
        lemma_remove_absent(s.drop_last(), id);
        assert(spec_remove(s, id) =~= s);
    }
}

/// With unique ids, removing the id of the entry at `i` removes exactly
/// that entry.
proof fn lemma_remove_found(s: Seq<StoredGuest>, id: int, i: int)
    requires
        forall|p: int, q: int|
            0 <= p < q < s.len() ==> (#[trigger] s[p].id) < (#[trigger] s[q].id),
        0 <= i < s.len(),
        s[i].id == id,
    ensures
        spec_remove(s, id) == s.subrange(0, i) + s.subrange(i + 1, s.len() as int),
    decreases s.len(),
{
    if i == s.len() - 1 {
        assert forall|k: int| 0 <= k < s.drop_last().len() implies (#[trigger] s.drop_last()[k].id)
            != id by {
            assert(s[k].id < s[i].id);
        }
        lemma_remove_absent(s.drop_last(), id);
        assert(spec_remove(s, id) =~= s.subrange(0, i) + s.subrange(i + 1, s.len() as int));
    } else {
        assert(s[i].id < s.last().id);
        lemma_remove_found(s.drop_last(), id, i);
        assert(spec_remove(s, id) =~= s.subrange(0, i) + s.subrange(i + 1, s.len() as int));
    }
}

/// What a successful insert does to the entries: appends exactly one,
/// carrying the assigned id, the given name and the given document.
pub open spec fn spec_inserted(
    pre: Seq<StoredGuest>,
    assigned: int,
    name: Seq<char>,
    config: GuestConfig,
    post: Seq<StoredGuest>,
) -> bool {
    &&& post.len() == pre.len() + 1
    &&& post.drop_last() == pre
    &&& post.last().id == assigned
    &&& post.last().name@ == name
    &&& post.last().config == config
}

/// The name-indexed store of guest documents.
pub struct ConfigStorage {
    /// The address the store was opened under.
    uri: String,
    /// The guests, in ascending id order.
    entries: Vec<StoredGuest>,
    /// The id the next insert assigns.
    next_id: usize,
}

impl ConfigStorage {
    /// The stored guests, in order.
    pub closed spec fn spec_entries(&self) -> Seq<StoredGuest> {
        self.entries@
    }

    /// The id the next insert assigns.
    pub closed spec fn spec_next_id(&self) -> int {
        self.next_id as int
    }

    /// The address the store was opened under.
    pub closed spec fn spec_uri(&self) -> Seq<char> {
        self.uri@
    }

    /// Well-formed: entries sound, and ids representable to the callers
    /// that take them signed.
    pub open spec fn wf(&self) -> bool {
        &&& 1 <= self.spec_next_id() <= isize::MAX as int
        &&& entries_wf(self.spec_entries(), self.spec_next_id())
    }

    /// Create storage backed by path.  The model starts empty; ids start
    /// at one, as the database's row ids do.
    pub fn new(path: &str) -> (r: Result<Self, Error>)
        ensures
            r matches Ok(s) && s.wf() && s.spec_entries().len() == 0 && s.spec_next_id() == 1
                && s.spec_uri() == path@,
    {
        Ok(Self { uri: String::from_str(path), entries: Vec::new(), next_id: 1 })
    }

    /// The address the store was opened under.
    pub fn uri(&self) -> (r: &str)
        ensures
            r@ == self.spec_uri(),
    {
        self.uri.as_str()
    }

    /// Files a document under a fresh name, assigning the next id.  A
    /// name already present is refused with `AlreadyExists` and the
    /// store is unchanged; a store that has run out of ids refuses with
    /// `StorageError`.
    pub fn insert(&mut self, name: &str, config: GuestConfig) -> (r: Result<(), Error>)
        requires
            old(self).wf(),
        ensures
            final(self).wf(),
            final(self).spec_uri() == old(self).spec_uri(),
            spec_contains_name(old(self).spec_entries(), name@) ==> (r matches Err(e)
                && e.spec_kind() == ErrorKind::AlreadyExists && *final(self) == *old(self)),
            !spec_contains_name(old(self).spec_entries(), name@) && old(self).spec_next_id()
                < isize::MAX as int ==> (r is Ok && final(self).spec_next_id()
                == old(self).spec_next_id() + 1 && spec_inserted(
                old(self).spec_entries(),
                old(self).spec_next_id(),
                name@,
                config,
                final(self).spec_entries(),
            )),
            !spec_contains_name(old(self).spec_entries(), name@) && old(self).spec_next_id()
                == isize::MAX as int ==> (r matches Err(e) && e.spec_kind()
                == ErrorKind::StorageError && *final(self) == *old(self)),
    {
        let n = self.entries.len();
        let mut i: usize = 0;
        while i < n
            invariant
                *self == *old(self),
                old(self).wf(),
                n == self.spec_entries().len(),
                i <= n,
                forall|k: int| 0 <= k < i ==> (#[trigger] self.spec_entries()[k].name@) != name@,
            decreases n - i,
        {
            if string_eq(self.entries[i].name.as_str(), name) {
                return Err(Error::new(ErrorKind::AlreadyExists, "a guest of this name exists"));
            }
            i = i + 1;
        }
        if self.next_id >= (isize::MAX as usize) {
            return Err(Error::new(ErrorKind::StorageError, "the store has run out of ids"));
        }
        let ghost before = self.entries@;
        let id = self.next_id;
        self.entries.push(StoredGuest { id, name: String::from_str(name), config });
        self.next_id = id + 1;
        proof {
            assert(self.entries@.drop_last() =~= before);
        }
        Ok(())
    }

    /// Refiles a guest under the id it already held, when the store is
    /// reloaded from its persisted rows: ids are stable across restarts,
    /// so entries come back in ascending id order with their ids kept.
    /// The id must be fresh and no lower than the next unassigned one,
    /// and the name fresh; assignment continues after it.
    pub fn restore(&mut self, id: usize, name: &str, config: GuestConfig) -> (r: Result<(), Error>)
        requires
            old(self).wf(),
            old(self).spec_next_id() <= id < isize::MAX as int,
            !spec_contains_name(old(self).spec_entries(), name@),
        ensures
            r is Ok,
            final(self).wf(),
            final(self).spec_uri() == old(self).spec_uri(),
            final(self).spec_next_id() == id + 1,
            spec_inserted(old(self).spec_entries(), id as int, name@, config,
                final(self).spec_entries()),
    {
        let ghost before = self.entries@;
        self.entries.push(StoredGuest { id, name: String::from_str(name), config });
        self.next_id = id + 1;
        proof {
            assert(self.entries@.drop_last() =~= before);
        }
        Ok(())
    }

    /// Lookup the id filed under a guest name; `NoSuchEntity` when the
    /// name is not taken.
    pub fn lookup_id(&self, name: &str) -> (r: Result<isize, Error>)
        requires
            self.wf(),
        ensures
            match r {
                Ok(id) => spec_lookup(self.spec_entries(), name@) == Some(id as int),
                Err(e) => e.spec_kind() == ErrorKind::NoSuchEntity && spec_lookup(
                    self.spec_entries(),
                    name@,
                ) is None,
            },
    {
        let n = self.entries.len();
        let mut i: usize = 0;
        while i < n
            invariant
                self.wf(),
                n == self.spec_entries().len(),
                i <= n,
                spec_lookup(self.spec_entries(), name@) == spec_lookup_from(
                    self.spec_entries(),
                    name@,
                    i as int,
                ),
            decreases n - i,
        {
            if string_eq(self.entries[i].name.as_str(), name) {
                return Ok(self.entries[i].id as isize);
            }
            i = i + 1;
        }
        Err(Error::new(ErrorKind::NoSuchEntity, "no guest of this name"))
    }

    /// Retrieve the document filed under an id; `NoSuchEntity` when the
    /// id is not in use.
    pub fn get(&self, id: usize) -> (r: Result<GuestConfig, Error>)
        requires
            self.wf(),
        ensures
            match r {
                Ok(c) => spec_get(self.spec_entries(), id as int) matches Some(stored)
                    && config_eqv(c, stored),
                Err(e) => e.spec_kind() == ErrorKind::NoSuchEntity && spec_get(
                    self.spec_entries(),
                    id as int,
                ) is None,
            },
    {
        let n = self.entries.len();
        let mut i: usize = 0;
        while i < n
            invariant
                self.wf(),
                n == self.spec_entries().len(),
                i <= n,
                spec_get(self.spec_entries(), id as int) == spec_get_from(
                    self.spec_entries(),
                    id as int,
                    i as int,
                ),
            decreases n - i,
        {
            if self.entries[i].id == id {
                return Ok(self.entries[i].config.duplicate());
            }
            i = i + 1;
        }
        Err(Error::new(ErrorKind::NoSuchEntity, "no guest under this id"))
    }

    /// The `(name, id)` listing, in ascending id order: `limit` entries
    /// from `offset` on.  A negative or absent limit means unbounded;
    /// the offset defaults to zero.
    pub fn list(&self, offset: Option<isize>, limit: Option<isize>) -> (r: Result<
        Vec<Labeled<isize>>,
        Error,
    >)
        requires
            self.wf(),
        ensures
            r is Ok,
            r matches Ok(v) ==> {
                let shown = spec_listing(self.spec_entries(), spec_offset(offset), spec_limit(limit));
                v@.len() == shown.len() && forall|i: int|
                    0 <= i < v@.len() ==> (#[trigger] v@[i]).spec_label() == shown[i].name@
                        && v@[i].spec_item() == shown[i].id as isize
            },
    {
        let n = self.entries.len();
        let start_signed: isize = match offset {
            Some(o) => if o > 0 {
                o
            } else {
                0
            },
            None => 0,
        };
        let start_wide: usize = start_signed as usize;
        let start: usize = if start_wide > n {
            n
        } else {
            start_wide
        };
        let stop: usize = match limit {
            Some(l) => if l >= 0 && (l as usize) < n - start {
                start + (l as usize)
            } else {
                n
            },
            None => n,
        };
        let ghost shown = spec_listing(
            self.spec_entries(),
            spec_offset(offset),
            spec_limit(limit),
        );
        proof {
            assert(shown =~= self.spec_entries().subrange(start as int, stop as int));
        }
        let mut out: Vec<Labeled<isize>> = Vec::new();
        let mut i: usize = start;
        while i < stop
            invariant
                self.wf(),
                n == self.spec_entries().len(),
                start <= i <= stop <= n,
                shown == self.spec_entries().subrange(start as int, stop as int),
                out@.len() == i - start,
                forall|k: int|
                    0 <= k < out@.len() ==> (#[trigger] out@[k]).spec_label() == shown[k].name@
                        && out@[k].spec_item() == shown[k].id as isize,
            decreases stop - i,
        {
            let entry = &self.entries[i];
            proof {
                assert(entry.id < isize::MAX as usize);
            }
            out.push(Labeled::new(entry.name.as_str(), entry.id as isize));
            i = i + 1;
        }
        Ok(out)
    }

    /// Deletes the entry under an id; an id not in use is not an error.
    pub fn remove(&mut self, id: isize) -> (r: Result<(), Error>)
        requires
            old(self).wf(),
        ensures
            r is Ok,
            final(self).wf(),
            final(self).spec_uri() == old(self).spec_uri(),
            final(self).spec_entries() == spec_remove(old(self).spec_entries(), id as int),
            final(self).spec_next_id() == old(self).spec_next_id(),
    {
        let n = self.entries.len();
        let mut i: usize = 0;
        while i < n
            invariant
                *self == *old(self),
                old(self).wf(),
                n == self.spec_entries().len(),
                i <= n,
                forall|k: int| 0 <= k < i ==> (#[trigger] self.spec_entries()[k].id) as isize != id,
            decreases n - i,
        {
            if self.entries[i].id as isize == id {
                let ghost before = self.spec_entries();
                self.entries.remove(i);
                proof {
                    lemma_remove_found(before, id as int, i as int);
                    assert(self.entries@ =~= before.subrange(0, i as int) + before.subrange(
                        i + 1,
                        before.len() as int,
                    ));
                }
                return Ok(());
            }
            i = i + 1;
        }
        proof {
            assert forall|k: int| 0 <= k < self.spec_entries().len() implies (
            #[trigger] self.spec_entries()[k].id) != id as int by {
                assert(self.spec_entries()[k].id as isize != id);
            }
            lemma_remove_absent(self.spec_entries(), id as int);
        }
        Ok(())
    }
}

/// The offset a listing starts at: the given one, clamped below at zero.
pub open spec fn spec_offset(offset: Option<isize>) -> int {
    match offset {
        Some(o) => if o > 0 {
            o as int
        } else {
            0
        },
        None => 0,
    }
}

/// The count a listing is capped at; `None` is unbounded, as a negative
/// limit is.
pub open spec fn spec_limit(limit: Option<isize>) -> Option<int> {
    match limit {
        Some(l) => if l >= 0 {
            Some(l as int)
        } else {
            None
        },
        None => None,
    }
}

/// The slice of the entries a listing shows.
pub open spec fn spec_listing(s: Seq<StoredGuest>, offset: int, limit: Option<int>) -> Seq<
    StoredGuest,
> {
    let from = if offset > s.len() {
        s.len() as int
    } else {
        offset
    };
    let until = match limit {
        Some(l) => if from + l > s.len() {
            s.len() as int
        } else {
            from + l
        },
        None => s.len() as int,
    };
    s.subrange(from, until)
}

/// Filing a document and looking its name up yields the assigned id,
/// and retrieving that id yields the document: what one observes after
/// a successful insert.
pub proof fn lemma_insert_lookup_get(s: Seq<StoredGuest>, next: int, entry: StoredGuest)
    requires
        entries_wf(s, next),
        !spec_contains_name(s, entry.name@),
        entry.id == next,
    ensures
        spec_lookup(s.push(entry), entry.name@) == Some(entry.id as int),
        spec_get(s.push(entry), entry.id as int) == Some(entry.config),
{
    lemma_lookup_scan(s.push(entry), entry.name@, 0);
    lemma_get_scan(s.push(entry), entry.id as int, 0);
}

/// Scanning for a name that only the last entry carries finds it.
proof fn lemma_lookup_scan(s: Seq<StoredGuest>, name: Seq<char>, i: int)
    requires
        0 <= i < s.len(),
        s.last().name@ == name,
        forall|k: int| 0 <= k < s.len() - 1 ==> (#[trigger] s[k].name@) != name,
    ensures
        spec_lookup_from(s, name, i) == Some(s.last().id as int),
    decreases s.len() - i,
{
    if i < s.len() - 1 {
        lemma_lookup_scan(s, name, i + 1);
    }
}

/// Scanning for an id that only the last entry carries finds it.
proof fn lemma_get_scan(s: Seq<StoredGuest>, id: int, i: int)
    requires
        0 <= i < s.len(),
        s.last().id == id,
        forall|k: int| 0 <= k < s.len() - 1 ==> (#[trigger] s[k].id) != id,
    ensures
        spec_get_from(s, id, i) == Some(s.last().config),
    decreases s.len() - i,
{
    if i < s.len() - 1 {
        lemma_get_scan(s, id, i + 1);
    }
}

/// Filing the same name twice fails: after a successful insert the name
/// is present, and insert refuses a present name with `AlreadyExists`.
pub proof fn lemma_duplicate_name_refused(s: Seq<StoredGuest>, entry: StoredGuest)
    ensures
        spec_contains_name(s.push(entry), entry.name@),
{
    assert(s.push(entry)[s.len() as int].name@ == entry.name@);
}

/// The full listing shows exactly the stored entries: one per
/// successful insert not yet removed, since insert appends exactly one
/// entry and remove deletes exactly the entries carrying its id.
pub proof fn lemma_full_listing(s: Seq<StoredGuest>)
    ensures
        spec_listing(s, 0, None) == s,
{
    assert(spec_listing(s, 0, None) =~= s);
}

/// Removing the id just assigned undoes the insert: the listing shrinks
/// back to exactly the prior entries.
pub proof fn lemma_insert_then_remove(s: Seq<StoredGuest>, next: int, entry: StoredGuest)
    requires
        entries_wf(s, next),
        entry.id == next,
    ensures
        spec_remove(s.push(entry), entry.id as int) == s,
{
    let t = s.push(entry);
    assert(t.drop_last() =~= s);
    assert forall|k: int| 0 <= k < s.len() implies (#[trigger] s[k].id) != entry.id by {
        assert(s[k].id < next);
    }
    lemma_remove_absent(s, entry.id as int);
}

} // verus!
