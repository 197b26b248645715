//! The document tree the wire formats share: unsigned numbers, text,
//! arrays and key-ordered objects — everything a guest document
//! serializes into.  The text layers (JSON bytes on the wire, TOML in
//! files) parse into and print from this tree outside the library.

use vstd::prelude::*;
use vstd::string::*;
use crate::config::{opt_prop_eqv, opt_string_eqv, BootConfig, DriveConfig, GuestConfig,
    MachineConfig, NetworkDeviceConfig, SmpConfig};
use crate::error::{Error, ErrorKind};
use crate::props::{lemma_map_of_domain, lemma_prop_map_canonical, map_of, string_eq, PropMap};

verus! {

broadcast use vstd::std_specs::vec::group_vec_axioms;

/// A document value.
#[derive(Debug)]
pub enum JsonValue {
    UInt(u64),
    Text(String),
    Arr(Vec<JsonValue>),
    Obj(Vec<(String, JsonValue)>),
}

/// The mathematical shape of a document value.  `Other` stands for
/// values outside the document model — null, booleans, fractions,
/// numbers beyond the unsigned range — which only arrive from outside
/// parsers, never from the library's own values.
#[verifier::ext_equal]
pub enum JsonView {
    UInt(int),
    Text(Seq<char>),
    Arr(Seq<JsonView>),
    Obj(Seq<(Seq<char>, JsonView)>),
    Other,
}

impl JsonValue {
    /// The view of a value: numbers as integers, text as characters,
    /// containers elementwise.
    pub open spec fn view(&self) -> JsonView
        decreases self,
    {
        match self {
            JsonValue::UInt(n) => JsonView::UInt(*n as int),
            JsonValue::Text(s) => JsonView::Text(s@),
            JsonValue::Arr(items) => JsonView::Arr(arr_view(*items)),
            JsonValue::Obj(entries) => JsonView::Obj(entries_view(*entries)),
        }
    }
}

/// The views of an array's elements.
pub open spec fn arr_view(items: Vec<JsonValue>) -> Seq<JsonView>
    decreases items,
{
    Seq::new(
        items.len() as nat,
        |i: int|
            if 0 <= i < items.len() {
                items[i].view()
            } else {
                JsonView::UInt(0)
            },
    )
}

/// The views of an object's entries, in stored order.
pub open spec fn entries_view(entries: Vec<(String, JsonValue)>) -> Seq<(Seq<char>, JsonView)>
    decreases entries,
{
    Seq::new(
        entries.len() as nat,
        |i: int|
            if 0 <= i < entries.len() {
                (entries[i].0@, entries[i].1.view())
            } else {
                (Seq::empty(), JsonView::UInt(0))
            },
    )
}

/// The first value an object holds under a key, scanning from a
/// position.
pub open spec fn spec_obj_get_from(
    s: Seq<(Seq<char>, JsonView)>,
    key: Seq<char>,
    i: int,
) -> Option<JsonView>
    decreases s.len() - i,
{
    if i < 0 || i >= s.len() {
        None
    } else if s[i].0 == key {
        Some(s[i].1)
    } else {
        spec_obj_get_from(s, key, i + 1)
    }
}

/// The first value an object holds under a key, if any.
pub open spec fn spec_obj_get(s: Seq<(Seq<char>, JsonView)>, key: Seq<char>) -> Option<JsonView> {
    spec_obj_get_from(s, key, 0)
}

/// Keys held by an entry sequence.
pub open spec fn spec_obj_has(s: Seq<(Seq<char>, JsonView)>, key: Seq<char>) -> bool {
    spec_obj_get(s, key) is Some
}

/// First-match lookup distributes over concatenation: the front is
/// consulted first.
pub proof fn lemma_obj_get_concat(
    a: Seq<(Seq<char>, JsonView)>,
    b: Seq<(Seq<char>, JsonView)>,
    key: Seq<char>,
)
    ensures
        spec_obj_get(a + b, key) == if spec_obj_has(a, key) {
            spec_obj_get(a, key)
        } else {
            spec_obj_get(b, key)
        },
{
    lemma_obj_get_concat_from(a, b, key, 0);
    if !spec_obj_has(a, key) {
        lemma_obj_get_shift(a, b, key);
    }
}

proof fn lemma_obj_get_concat_from(
    a: Seq<(Seq<char>, JsonView)>,
    b: Seq<(Seq<char>, JsonView)>,
    key: Seq<char>,
    i: int,
)
    requires
        0 <= i <= a.len(),
    ensures
        spec_obj_get_from(a, key, i) matches Some(v) ==> spec_obj_get_from(a + b, key, i) == Some(
            v,
        ),
        spec_obj_get_from(a, key, i) is None ==> spec_obj_get_from(a + b, key, i)
            == spec_obj_get_from(a + b, key, a.len() as int),
    decreases a.len() - i,
{
    if i < a.len() {
        assert((a + b)[i] == a[i]);
        lemma_obj_get_concat_from(a, b, key, i + 1);
    }
}

proof fn lemma_obj_get_shift(
    a: Seq<(Seq<char>, JsonView)>,
    b: Seq<(Seq<char>, JsonView)>,
    key: Seq<char>,
)
    ensures
        spec_obj_get_from(a + b, key, a.len() as int) == spec_obj_get(b, key),
{
    lemma_obj_get_shift_from(a, b, key, 0);
}

proof fn lemma_obj_get_shift_from(
    a: Seq<(Seq<char>, JsonView)>,
    b: Seq<(Seq<char>, JsonView)>,
    key: Seq<char>,
    j: int,
)
    requires
        0 <= j <= b.len(),
    ensures
        spec_obj_get_from(a + b, key, a.len() + j) == spec_obj_get_from(b, key, j),
    decreases b.len() - j,
{
    if j < b.len() {
        assert((a + b)[a.len() + j] == b[j]);
        lemma_obj_get_shift_from(a, b, key, j + 1);
    }
}

/// Finds the first value under a key in an object's entries.
pub fn obj_get<'a>(entries: &'a Vec<(String, JsonValue)>, key: &str) -> (r: Option<&'a JsonValue>)
    ensures
        match r {
            Some(v) => spec_obj_get(entries_view(*entries), key@) == Some(v.view()),
            None => spec_obj_get(entries_view(*entries), key@) is None,
        },
{
    let ghost ev = entries_view(*entries);
    let n = entries.len();
    let mut i: usize = 0;
    while i < n
        invariant
            n == entries@.len(),
            i <= n,
            ev == entries_view(*entries),
            spec_obj_get(ev, key@) == spec_obj_get_from(ev, key@, i as int),
        decreases n - i,
    {
        if string_eq(entries[i].0.as_str(), key) {
            proof {
                assert(ev[i as int] == (entries@[i as int].0@, entries@[i as int].1.view()));
            }
            return Some(&entries[i].1);
        }
        i = i + 1;
    }
    None
}

/// Appends one entry to an object under construction.
fn push_entry(entries: &mut Vec<(String, JsonValue)>, key: &str, value: JsonValue)
    ensures
        entries_view(*final(entries)) == entries_view(*old(entries)) + seq![(key@, value.view())],
{
    let ghost before = entries_view(*entries);
    let ghost v_view = value.view();
    entries.push((String::from_str(key), value));
    proof {
        assert(entries_view(*entries) =~= before + seq![(key@, v_view)]);
    }
}

/// The entries a property map flattens into: each pair as a text field.
pub open spec fn spec_props_entries(p: Seq<(Seq<char>, Seq<char>)>) -> Seq<(Seq<char>, JsonView)> {
    Seq::new(
        p.len(),
        |i: int|
            if 0 <= i < p.len() {
                (p[i].0, JsonView::Text(p[i].1))
            } else {
                (Seq::empty(), JsonView::UInt(0))
            },
    )
}

/// Flattens a property map into an object under construction.
fn push_props(entries: &mut Vec<(String, JsonValue)>, props: &PropMap)
    ensures
        entries_view(*final(entries)) == entries_view(*old(entries)) + spec_props_entries(
            props@,
        ),
{
    let ghost base = entries_view(*entries);
    let n = props.len();
    let mut i: usize = 0;
    proof {
        assert(base + spec_props_entries(props@.subrange(0, 0)) =~= base);
    }
    while i < n
        invariant
            n == props@.len(),
            i <= n,
            entries_view(*entries) == base + spec_props_entries(props@.subrange(0, i as int)),
        decreases n - i,
    {
        let ghost before = entries_view(*entries);
        let (k, v) = props.entry_at(i);
        entries.push((k.clone(), JsonValue::Text(v.clone())));
        proof {
            assert(entries_view(*entries) =~= before + seq![
                (props@[i as int].0, JsonView::Text(props@[i as int].1)),
            ]);
            assert(base + spec_props_entries(props@.subrange(0, i + 1)) =~= before + seq![
                (props@[i as int].0, JsonView::Text(props@[i as int].1)),
            ]);
        }
        i = i + 1;
    }
    proof {
        assert(props@.subrange(0, n as int) =~= props@);
    }
}

/// The key-to-value map folded out of an object's text entries, later
/// entries winning; entries under the `type` key are left out when the
/// record owns that key itself.
pub open spec fn folded_props(s: Seq<(Seq<char>, JsonView)>, skip_type: bool) -> Map<
    Seq<char>,
    Seq<char>,
>
    decreases s.len(),
{
    if s.len() == 0 {
        Map::empty()
    } else {
        let m = folded_props(s.drop_last(), skip_type);
        if skip_type && s.last().0 == "type"@ {
            m
        } else {
            match s.last().1 {
                JsonView::Text(t) => m.insert(s.last().0, t),
                _ => m,
            }
        }
    }
}

/// Whether every entry a fold would take is text.
pub open spec fn spec_all_text(s: Seq<(Seq<char>, JsonView)>, skip_type: bool) -> bool {
    forall|i: int|
        0 <= i < s.len() && !(skip_type && (#[trigger] s[i]).0 == "type"@) ==> s[i].1 is Text
}

/// Folding the flattened entries of a property map recovers exactly the
/// map it denotes.
proof fn lemma_folded_props_encoding(
    front: Seq<(Seq<char>, JsonView)>,
    p: Seq<(Seq<char>, Seq<char>)>,
    skip_type: bool,
)
    requires
        folded_props(front, skip_type) == Map::<Seq<char>, Seq<char>>::empty(),
        skip_type ==> forall|k: int| 0 <= k < p.len() ==> (#[trigger] p[k].0) != "type"@,
    ensures
        folded_props(front + spec_props_entries(p), skip_type) == map_of(p),
    decreases p.len(),
{
    if p.len() == 0 {
        assert(front + spec_props_entries(p) =~= front);
    } else {
        lemma_folded_props_encoding(front, p.drop_last(), skip_type);
        let whole = front + spec_props_entries(p);
        assert(whole.drop_last() =~= front + spec_props_entries(p.drop_last()));
        assert(whole.last() == (p.last().0, JsonView::Text(p.last().1)));
    }
}

/// Reads the flattened property entries of an object back into a map,
/// skipping the record's own `type` key where it has one; refuses
/// entries that are not text.
fn decode_props_entries(entries: &Vec<(String, JsonValue)>, skip_type: bool) -> (r: Result<
    PropMap,
    Error,
>)
    ensures
        r matches Ok(p) ==> p.wf() && p.as_map() == folded_props(
            entries_view(*entries),
            skip_type,
        ),
        spec_all_text(entries_view(*entries), skip_type) ==> r is Ok,
{
    let ghost ev = entries_view(*entries);
    let mut out = PropMap::new();
    let n = entries.len();
    let mut i: usize = 0;
    proof {
        assert(out.as_map() =~= folded_props(ev.subrange(0, 0), skip_type));
    }
    while i < n
        invariant
            n == entries@.len(),
            i <= n,
            ev == entries_view(*entries),
            out.wf(),
            out.as_map() == folded_props(ev.subrange(0, i as int), skip_type),
        decreases n - i,
    {
        let ghost prefix = ev.subrange(0, i as int);
        let ghost now = ev.subrange(0, i + 1);
        proof {
            assert(now.drop_last() =~= prefix);
            assert(now.last() == ev[i as int]);
        }
        if skip_type && string_eq(entries[i].0.as_str(), "type") {
        } else {
            match &entries[i].1 {
                JsonValue::Text(t) => {
                    out.insert(entries[i].0.clone(), t.clone());
                },
                _ => {
                    return Err(
                        Error::new(ErrorKind::EncodingError, "properties must be text"),
                    );
                },
            }
        }
        i = i + 1;
    }
    proof {
        assert(ev.subrange(0, n as int) =~= ev);
    }
    Ok(out)
}

/// The document a record of a type key plus flattened properties
/// serializes into.
pub open spec fn spec_type_props_json(t: Seq<char>, p: Option<PropMap>) -> JsonView {
    JsonView::Obj(
        seq![("type"@, JsonView::Text(t))] + (match p {
            Some(q) => spec_props_entries(q@),
            None => Seq::empty(),
        }),
    )
}

/// The document a machine fragment serializes into: its type, with the
/// property map flattened beside it.
pub open spec fn spec_machine_json(m: MachineConfig) -> JsonView {
    spec_type_props_json(m.machine_type@, m.props)
}

/// A machine fragment the wire format can represent faithfully: its
/// property map, if any, is well formed, not empty (an empty one is
/// indistinguishable from an absent one once flattened) and does not
/// itself claim the `type` key.
pub open spec fn spec_machine_clean(m: MachineConfig) -> bool {
    spec_type_props_clean(m.props)
}

/// The document a network device serializes into.
pub open spec fn spec_netdev_json(n: NetworkDeviceConfig) -> JsonView {
    spec_type_props_json(n.device_type@, n.props)
}

/// A network device the wire format can represent faithfully.
pub open spec fn spec_netdev_clean(n: NetworkDeviceConfig) -> bool {
    spec_type_props_clean(n.props)
}

/// The document a drive record serializes into: nothing but its
/// flattened options.
pub open spec fn spec_drive_json(d: DriveConfig) -> JsonView {
    JsonView::Obj(spec_props_entries(d.options@))
}

/// A drive record the wire format can represent faithfully.
pub open spec fn spec_drive_clean(d: DriveConfig) -> bool {
    d.options.wf()
}

/// Serializes and reads back a record of a type key plus flattened
/// properties; shared by the machine and network device fragments.
fn type_props_to_json(device_type: &String, props: &Option<PropMap>) -> (r: JsonValue)
    ensures
        r.view() == spec_type_props_json(device_type@, *props),
{
    let mut entries: Vec<(String, JsonValue)> = Vec::new();
    push_entry(&mut entries, "type", JsonValue::Text(device_type.clone()));
    let ghost front = seq![("type"@, JsonView::Text(device_type@))];
    if let Some(props) = props {
        push_props(&mut entries, props);
    }
    proof {
        assert(entries_view(entries) =~= front + (match props {
            Some(p) => spec_props_entries(p@),
            None => Seq::empty(),
        }));
    }
    JsonValue::Obj(entries)
}

/// Reads a type-plus-properties object back: the type text, and the
/// properties as a map (`None` when there were none).
fn type_props_from_json(v: &JsonValue) -> (r: Result<(String, Option<PropMap>), Error>)
    ensures
        forall|t: Seq<char>, p: Option<PropMap>|
            spec_type_props_clean(p) && v.view() == #[trigger] spec_type_props_json(t, p) ==> (
            r matches Ok(o) && o.0@ == t && opt_prop_eqv(o.1, p)),
{
    let entries = match v {
        JsonValue::Obj(entries) => entries,
        _ => {
            return Err(Error::new(ErrorKind::EncodingError, "expected an object"));
        },
    };
    let ghost ev = entries_view(*entries);
    let device_type = match obj_get(entries, "type") {
        Some(JsonValue::Text(t)) => t.clone(),
        Some(_) => {
            return Err(Error::new(ErrorKind::EncodingError, "the type must be text"));
        },
        None => {
            return Err(Error::new(ErrorKind::EncodingError, "the type is required"));
        },
    };
    let props = decode_props_entries(entries, true)?;
    let packed = if props.is_empty() {
        None
    } else {
        Some(props)
    };
    proof {
        assert forall|t: Seq<char>, p: Option<PropMap>|
            spec_type_props_clean(p) && v.view() == #[trigger] spec_type_props_json(t, p)
            implies device_type@ == t && opt_prop_eqv(packed, p) by {
            let front = seq![("type"@, JsonView::Text(t))];
            let rest: Seq<(Seq<char>, JsonView)> = match p {
                Some(q) => spec_props_entries(q@),
                None => Seq::empty(),
            };
            assert(ev == front + rest);
            lemma_obj_get_concat(front, rest, "type"@);
            assert(spec_obj_get(front, "type"@) == Some(JsonView::Text(t)));
            assert(front.drop_last() =~= Seq::<(Seq<char>, JsonView)>::empty());
            assert(folded_props(Seq::<(Seq<char>, JsonView)>::empty(), true) == Map::<
                Seq<char>,
                Seq<char>,
            >::empty());
            assert(front.last() == ("type"@, JsonView::Text(t)));
            assert(folded_props(front, true) == Map::<Seq<char>, Seq<char>>::empty());
            match p {
                None => {
                    assert(ev =~= front);
                    assert(folded_props(ev, true) == Map::<Seq<char>, Seq<char>>::empty());
                    if packed is Some {
                        let q2 = packed.unwrap();
                        assert(q2.as_map() == folded_props(ev, true));
                        assert(q2@.len() > 0);
                        lemma_map_of_domain(q2@, q2@.last().0);
                        assert(q2.as_map().contains_key(q2@.last().0));
                    }
                },
                Some(q) => {
                    assert forall|k: int| 0 <= k < q@.len() implies (#[trigger] q@[k].0)
                        != "type"@ by {
                        lemma_map_of_domain(q@, q@[k].0);
                        assert(q.as_map().contains_key(q@[k].0));
                    }
                    lemma_folded_props_encoding(front, q@, true);
                    let q2 = packed.unwrap();
                    if packed is None {
                        assert(props.as_map() == map_of(q@));
                        lemma_map_of_domain(q@, q@.last().0);
                        assert(props.as_map().contains_key(q@.last().0));
                        assert(props@.len() == 0);
                        assert(props.as_map() =~= Map::<Seq<char>, Seq<char>>::empty());
                    }
                    assert(q2.as_map() == map_of(q@));
                    lemma_prop_map_canonical(q2, q);
                },
            }
        }
    }
    Ok((device_type, packed))
}

/// Properties a flattened record can carry faithfully.
pub open spec fn spec_type_props_clean(p: Option<PropMap>) -> bool {
    match p {
        None => true,
        Some(q) => q.wf() && q@.len() > 0 && !q.as_map().contains_key("type"@),
    }
}

impl MachineConfig {
    /// Serializes the fragment.
    pub fn to_json(&self) -> (r: JsonValue)
        ensures
            r.view() == spec_machine_json(*self),
    {
        let r = type_props_to_json(&self.machine_type, &self.props);
        proof {
            assert(r.view() =~~= spec_machine_json(*self));
        }
        r
    }

    /// Reads the fragment back; the inverse of `to_json` on the image
    /// of clean fragments.
    pub fn from_json(v: &JsonValue) -> (r: Result<MachineConfig, Error>)
        ensures
            forall|m: MachineConfig|
                spec_machine_clean(m) && v.view() == spec_machine_json(m) ==> (r matches Ok(o)
                    && o.machine_type@ == m.machine_type@ && opt_prop_eqv(o.props, m.props)),
    {
        let (machine_type, props) = type_props_from_json(v)?;
        Ok(MachineConfig { machine_type, props })
    }
}

impl NetworkDeviceConfig {
    /// Serializes the fragment.
    pub fn to_json(&self) -> (r: JsonValue)
        ensures
            r.view() == spec_netdev_json(*self),
    {
        let r = type_props_to_json(&self.device_type, &self.props);
        proof {
            assert(r.view() =~~= spec_netdev_json(*self));
        }
        r
    }

    /// Reads the fragment back; the inverse of `to_json` on the image
    /// of clean fragments.
    pub fn from_json(v: &JsonValue) -> (r: Result<NetworkDeviceConfig, Error>)
        ensures
            forall|n: NetworkDeviceConfig|
                spec_netdev_clean(n) && v.view() == spec_netdev_json(n) ==> (r matches Ok(o)
                    && o.device_type@ == n.device_type@ && opt_prop_eqv(o.props, n.props)),
    {
        let (device_type, props) = type_props_from_json(v)?;
        Ok(NetworkDeviceConfig { device_type, props })
    }
}

impl DriveConfig {
    /// Serializes the record.
    pub fn to_json(&self) -> (r: JsonValue)
        ensures
            r.view() == spec_drive_json(*self),
    {
        let mut entries: Vec<(String, JsonValue)> = Vec::new();
        push_props(&mut entries, &self.options);
        proof {
            assert(entries_view(entries) =~= spec_props_entries(self.options@));
            assert(JsonValue::Obj(entries).view() =~~= spec_drive_json(*self));
        }
        JsonValue::Obj(entries)
    }

    /// Reads the record back; the inverse of `to_json` on the image of
    /// records with a well-formed option map.
    pub fn from_json(v: &JsonValue) -> (r: Result<DriveConfig, Error>)
        ensures
            forall|d: DriveConfig|
                spec_drive_clean(d) && v.view() == spec_drive_json(d) ==> (r matches Ok(o)
                    && o.options@ == d.options@),
    {
        let entries = match v {
            JsonValue::Obj(entries) => entries,
            _ => {
                return Err(Error::new(ErrorKind::EncodingError, "expected a drive object"));
            },
        };
        let ghost ev = entries_view(*entries);
        let options = decode_props_entries(entries, false)?;
        proof {
            assert forall|d: DriveConfig|
                spec_drive_clean(d) && v.view() == spec_drive_json(d) implies options@
                == d.options@ by {
                assert(ev == spec_props_entries(d.options@));
                lemma_folded_props_encoding(Seq::empty(), d.options@, false);
                assert(Seq::<(Seq<char>, JsonView)>::empty() + spec_props_entries(d.options@)
                    =~= ev);
                assert(options.as_map() == map_of(d.options@));
                lemma_prop_map_canonical(options, d.options);
            }
        }
        Ok(DriveConfig { options })
    }
}

/// The document a boot fragment serializes into: an object carrying the
/// order when one is set.
pub open spec fn spec_boot_json(b: BootConfig) -> JsonView {
    JsonView::Obj(
        match b.order {
            Some(o) => seq![("order"@, JsonView::Text(o@))],
            None => Seq::empty(),
        },
    )
}

/// The document an SMP fragment serializes into.
pub open spec fn spec_smp_json(s: SmpConfig) -> JsonView {
    JsonView::Obj(
        match s.cores {
            Some(c) => seq![("cores"@, JsonView::UInt(c as int))],
            None => Seq::empty(),
        },
    )
}

impl BootConfig {
    /// Serializes the fragment.
    pub fn to_json(&self) -> (r: JsonValue)
        ensures
            r.view() == spec_boot_json(*self),
    {
        let mut entries: Vec<(String, JsonValue)> = Vec::new();
        if let Some(order) = &self.order {
            push_entry(&mut entries, "order", JsonValue::Text(order.clone()));
        }
        proof {
            assert(entries_view(entries) =~= (match self.order {
                Some(o) => seq![("order"@, JsonView::Text(o@))],
                None => Seq::empty(),
            }));
        }
        let r = JsonValue::Obj(entries);
        proof {
            assert(r.view() =~~= spec_boot_json(*self));
        }
        r
    }

    /// Reads the fragment back; the inverse of `to_json` on its image.
    pub fn from_json(v: &JsonValue) -> (r: Result<BootConfig, Error>)
        ensures
            forall|b: BootConfig|
                v.view() == spec_boot_json(b) ==> (r matches Ok(o) && opt_string_eqv(
                    o.order,
                    b.order,
                )),
    {
        let entries = match v {
            JsonValue::Obj(entries) => entries,
            _ => {
                return Err(Error::new(ErrorKind::EncodingError, "expected a boot object"));
            },
        };
        match obj_get(entries, "order") {
            Some(JsonValue::Text(order)) => Ok(BootConfig { order: Some(order.clone()) }),
            Some(_) => Err(Error::new(ErrorKind::EncodingError, "boot order must be text")),
            None => Ok(BootConfig { order: None }),
        }
    }
}

impl SmpConfig {
    /// Serializes the fragment.
    pub fn to_json(&self) -> (r: JsonValue)
        ensures
            r.view() == spec_smp_json(*self),
    {
        let mut entries: Vec<(String, JsonValue)> = Vec::new();
        if let Some(cores) = self.cores {
            push_entry(&mut entries, "cores", JsonValue::UInt(cores));
        }
        proof {
            assert(entries_view(entries) =~= (match self.cores {
                Some(c) => seq![("cores"@, JsonView::UInt(c as int))],
                None => Seq::empty(),
            }));
        }
        let r = JsonValue::Obj(entries);
        proof {
            assert(r.view() =~~= spec_smp_json(*self));
        }
        r
    }

    /// Reads the fragment back; the inverse of `to_json` on its image.
    pub fn from_json(v: &JsonValue) -> (r: Result<SmpConfig, Error>)
        ensures
            forall|s: SmpConfig| v.view() == spec_smp_json(s) ==> r == Ok::<SmpConfig, Error>(s),
    {
        let entries = match v {
            JsonValue::Obj(entries) => entries,
            _ => {
                return Err(Error::new(ErrorKind::EncodingError, "expected an smp object"));
            },
        };
        match obj_get(entries, "cores") {
            Some(JsonValue::UInt(cores)) => Ok(SmpConfig { cores: Some(*cores) }),
            Some(_) => Err(Error::new(ErrorKind::EncodingError, "core count must be a number")),
            None => Ok(SmpConfig { cores: None }),
        }
    }
}

/// The string a file reference serializes into.
pub open spec fn spec_file_text(f: crate::file::File) -> Seq<char> {
    match f {
        crate::file::File::Local(p) => p@,
        crate::file::File::Remote(u) => u@,
    }
}

/// The documents a drive list serializes into, in order.
pub open spec fn spec_drives_json(ds: Seq<DriveConfig>) -> Seq<JsonView> {
    Seq::new(
        ds.len(),
        |i: int|
            if 0 <= i < ds.len() {
                spec_drive_json(ds[i])
            } else {
                JsonView::UInt(0)
            },
    )
}

/// The documents a network device list serializes into, in order.
pub open spec fn spec_netdevs_json(ds: Seq<NetworkDeviceConfig>) -> Seq<JsonView> {
    Seq::new(
        ds.len(),
        |i: int|
            if 0 <= i < ds.len() {
                spec_netdev_json(ds[i])
            } else {
                JsonView::UInt(0)
            },
    )
}

/// One optional entry: present exactly when the field is.
pub open spec fn seg_text(key: Seq<char>, o: Option<String>) -> Seq<(Seq<char>, JsonView)> {
    match o {
        Some(s) => seq![(key, JsonView::Text(s@))],
        None => Seq::empty(),
    }
}

/// The optional boot entry.
pub open spec fn seg_boot(o: Option<BootConfig>) -> Seq<(Seq<char>, JsonView)> {
    match o {
        Some(b) => seq![("boot"@, spec_boot_json(b))],
        None => Seq::empty(),
    }
}

/// The optional SMP entry.
pub open spec fn seg_smp(o: Option<SmpConfig>) -> Seq<(Seq<char>, JsonView)> {
    match o {
        Some(s) => seq![("smp"@, spec_smp_json(s))],
        None => Seq::empty(),
    }
}

/// The optional bios entry.
pub open spec fn seg_bios(o: Option<crate::file::File>) -> Seq<(Seq<char>, JsonView)> {
    match o {
        Some(f) => seq![("bios"@, JsonView::Text(spec_file_text(f)))],
        None => Seq::empty(),
    }
}

/// The optional machine entry.
pub open spec fn seg_machine(o: Option<MachineConfig>) -> Seq<(Seq<char>, JsonView)> {
    match o {
        Some(m) => seq![("machine"@, spec_machine_json(m))],
        None => Seq::empty(),
    }
}

/// The optional drive-list entry.
pub open spec fn seg_drive(o: Option<Vec<DriveConfig>>) -> Seq<(Seq<char>, JsonView)> {
    match o {
        Some(ds) => seq![("drive"@, JsonView::Arr(spec_drives_json(ds@)))],
        None => Seq::empty(),
    }
}

/// The optional network-device-list entry.
pub open spec fn seg_netdev(o: Option<Vec<NetworkDeviceConfig>>) -> Seq<(Seq<char>, JsonView)> {
    match o {
        Some(ds) => seq![("netdev"@, JsonView::Arr(spec_netdevs_json(ds@)))],
        None => Seq::empty(),
    }
}

/// The entries of a serialized guest document, in declaration order:
/// the required fields, each optional field when present, the display
/// always.
pub open spec fn spec_config_entries(c: GuestConfig) -> Seq<(Seq<char>, JsonView)> {
    seq![("arch"@, JsonView::Text(c.arch@)), ("memory"@, JsonView::UInt(c.memory as int))]
        + seg_boot(c.boot) + seg_text("cpu"@, c.cpu) + seg_smp(c.smp) + seg_bios(c.bios)
        + seg_text("accel"@, c.accel) + seg_machine(c.machine) + seq![
        ("display"@, JsonView::Text(c.display@)),
    ] + seg_drive(c.drive) + seg_netdev(c.netdev)
}

/// The document a guest configuration serializes into.
pub open spec fn spec_config_json(c: GuestConfig) -> JsonView {
    JsonView::Obj(spec_config_entries(c))
}

/// A document the wire format represents faithfully: flattened records
/// clean, and file references on the right side of the URL test.
pub open spec fn spec_config_clean(c: GuestConfig) -> bool {
    &&& match c.machine {
        Some(m) => spec_machine_clean(m),
        None => true,
    }
    &&& match c.bios {
        Some(crate::file::File::Remote(u)) => crate::file::parsed_url(u@) == Some(u@),
        Some(crate::file::File::Local(p)) => !crate::file::is_url_string(p@),
        None => true,
    }
    &&& match c.drive {
        Some(ds) => forall|i: int| 0 <= i < ds@.len() ==> spec_drive_clean(#[trigger] ds@[i]),
        None => true,
    }
    &&& match c.netdev {
        Some(ds) => forall|i: int| 0 <= i < ds@.len() ==> spec_netdev_clean(#[trigger] ds@[i]),
        None => true,
    }
}

/// The field lookups a serialized clean document answers: the bundle
/// `lemma_config_fields` establishes, kept in one place so the decoder
/// derives every branch from it.
pub open spec fn spec_config_fields_hold(ev: Seq<(Seq<char>, JsonView)>, c: GuestConfig) -> bool {
    &&& spec_obj_get(ev, "arch"@) == Some(JsonView::Text(c.arch@))
    &&& spec_obj_get(ev, "memory"@) == Some(JsonView::UInt(c.memory as int))
    &&& spec_obj_get(ev, "boot"@) == (match c.boot {
        Some(b) => Some(spec_boot_json(b)),
        None => None,
    })
    &&& spec_obj_get(ev, "cpu"@) == (match c.cpu {
        Some(s) => Some(JsonView::Text(s@)),
        None => None,
    })
    &&& spec_obj_get(ev, "smp"@) == (match c.smp {
        Some(s) => Some(spec_smp_json(s)),
        None => None,
    })
    &&& spec_obj_get(ev, "bios"@) == (match c.bios {
        Some(f) => Some(JsonView::Text(spec_file_text(f))),
        None => None,
    })
    &&& spec_obj_get(ev, "accel"@) == (match c.accel {
        Some(s) => Some(JsonView::Text(s@)),
        None => None,
    })
    &&& spec_obj_get(ev, "machine"@) == (match c.machine {
        Some(m) => Some(spec_machine_json(m)),
        None => None,
    })
    &&& spec_obj_get(ev, "display"@) == Some(JsonView::Text(c.display@))
    &&& spec_obj_get(ev, "drive"@) == (match c.drive {
        Some(ds) => Some(JsonView::Arr(spec_drives_json(ds@))),
        None => None,
    })
    &&& spec_obj_get(ev, "netdev"@) == (match c.netdev {
        Some(ds) => Some(JsonView::Arr(spec_netdevs_json(ds@))),
        None => None,
    })
}

/// The serialized entries, grouped for segmentwise lookup.
#[verifier::rlimit(100)]
#[verifier::spinoff_prover]
proof fn lemma_config_entries_reassoc(c: GuestConfig)
    ensures
        spec_config_entries(c) == seq![
            ("arch"@, JsonView::Text(c.arch@)),
            ("memory"@, JsonView::UInt(c.memory as int)),
        ] + (seg_boot(c.boot) + (seg_text("cpu"@, c.cpu) + (seg_smp(c.smp) + (seg_bios(c.bios)
            + (seg_text("accel"@, c.accel) + (seg_machine(c.machine) + (seq![
            ("display"@, JsonView::Text(c.display@)),
        ] + (seg_drive(c.drive) + seg_netdev(c.netdev))))))))),
{
    assert(spec_config_entries(c) =~= seq![
        ("arch"@, JsonView::Text(c.arch@)),
        ("memory"@, JsonView::UInt(c.memory as int)),
    ] + (seg_boot(c.boot) + (seg_text("cpu"@, c.cpu) + (seg_smp(c.smp) + (seg_bios(c.bios)
        + (seg_text("accel"@, c.accel) + (seg_machine(c.machine) + (seq![
        ("display"@, JsonView::Text(c.display@)),
    ] + (seg_drive(c.drive) + seg_netdev(c.netdev))))))))));
}

/// What each field lookup finds in a serialized document.
#[verifier::rlimit(100)]
#[verifier::spinoff_prover]
proof fn lemma_config_fields(c: GuestConfig)
    ensures
        spec_config_fields_hold(spec_config_entries(c), c),
{
    lemma_config_fields_pieces(c);
}

/// The eleven lookups, one clause each.
#[verifier::rlimit(100)]
#[verifier::spinoff_prover]
proof fn lemma_config_fields_pieces(c: GuestConfig)
    ensures
        spec_obj_get(spec_config_entries(c), "arch"@) == Some(JsonView::Text(c.arch@)),
        spec_obj_get(spec_config_entries(c), "memory"@) == Some(JsonView::UInt(c.memory as int)),
        spec_obj_get(spec_config_entries(c), "boot"@) == (match c.boot {
            Some(b) => Some(spec_boot_json(b)),
            None => None,
        }),
        spec_obj_get(spec_config_entries(c), "cpu"@) == (match c.cpu {
            Some(s) => Some(JsonView::Text(s@)),
            None => None,
        }),
        spec_obj_get(spec_config_entries(c), "smp"@) == (match c.smp {
            Some(s) => Some(spec_smp_json(s)),
            None => None,
        }),
        spec_obj_get(spec_config_entries(c), "bios"@) == (match c.bios {
            Some(f) => Some(JsonView::Text(spec_file_text(f))),
            None => None,
        }),
        spec_obj_get(spec_config_entries(c), "accel"@) == (match c.accel {
            Some(s) => Some(JsonView::Text(s@)),
            None => None,
        }),
        spec_obj_get(spec_config_entries(c), "machine"@) == (match c.machine {
            Some(m) => Some(spec_machine_json(m)),
            None => None,
        }),
        spec_obj_get(spec_config_entries(c), "display"@) == Some(JsonView::Text(c.display@)),
        spec_obj_get(spec_config_entries(c), "drive"@) == (match c.drive {
            Some(ds) => Some(JsonView::Arr(spec_drives_json(ds@))),
            None => None,
        }),
        spec_obj_get(spec_config_entries(c), "netdev"@) == (match c.netdev {
            Some(ds) => Some(JsonView::Arr(spec_netdevs_json(ds@))),
            None => None,
        }),
{
    reveal_strlit("arch");
    reveal_strlit("memory");
    reveal_strlit("boot");
    reveal_strlit("cpu");
    reveal_strlit("smp");
    reveal_strlit("bios");
    reveal_strlit("accel");
    reveal_strlit("machine");
    reveal_strlit("display");
    reveal_strlit("drive");
    reveal_strlit("netdev");
    reveal_with_fuel(spec_obj_get_from, 4);
    assert("arch"@.len() == 4 && "arch"@[0] == 'a');
    assert("memory"@.len() == 6 && "memory"@[0] == 'm');
    assert("boot"@.len() == 4 && "boot"@[0] == 'b' && "boot"@[1] == 'o');
    assert("cpu"@.len() == 3 && "cpu"@[0] == 'c');
    assert("smp"@.len() == 3 && "smp"@[0] == 's');
    assert("bios"@.len() == 4 && "bios"@[0] == 'b' && "bios"@[1] == 'i');
    assert("accel"@.len() == 5 && "accel"@[0] == 'a');
    assert("machine"@.len() == 7 && "machine"@[0] == 'm');
    assert("display"@.len() == 7 && "display"@[0] == 'd');
    assert("drive"@.len() == 5 && "drive"@[0] == 'd');
    assert("netdev"@.len() == 6 && "netdev"@[0] == 'n');
    let s0 = seq![
        ("arch"@, JsonView::Text(c.arch@)),
        ("memory"@, JsonView::UInt(c.memory as int)),
    ];
    let g_boot = seg_boot(c.boot);
    let g_cpu = seg_text("cpu"@, c.cpu);
    let g_smp = seg_smp(c.smp);
    let g_bios = seg_bios(c.bios);
    let g_accel = seg_text("accel"@, c.accel);
    let g_machine = seg_machine(c.machine);
    let g_display = seq![("display"@, JsonView::Text(c.display@))];
    let g_drive = seg_drive(c.drive);
    let g_netdev = seg_netdev(c.netdev);
    let t9 = g_drive + g_netdev;
    let t8 = g_display + t9;
    let t7 = g_machine + t8;
    let t6 = g_accel + t7;
    let t5 = g_bios + t6;
    let t4 = g_smp + t5;
    let t3 = g_cpu + t4;
    let t2 = g_boot + t3;
    lemma_config_entries_reassoc(c);
    assert(spec_config_entries(c) == s0 + t2);
    assert forall|key: Seq<char>| true implies #[trigger] spec_obj_get(spec_config_entries(c), key)
        == spec_obj_get_chain(s0, g_boot, g_cpu, g_smp, g_bios, g_accel, g_machine, g_display,
        g_drive, g_netdev, key) by {
        lemma_obj_get_concat(s0, t2, key);
        lemma_obj_get_concat(g_boot, t3, key);
        lemma_obj_get_concat(g_cpu, t4, key);
        lemma_obj_get_concat(g_smp, t5, key);
        lemma_obj_get_concat(g_bios, t6, key);
        lemma_obj_get_concat(g_accel, t7, key);
        lemma_obj_get_concat(g_machine, t8, key);
        lemma_obj_get_concat(g_display, t9, key);
        lemma_obj_get_concat(g_drive, g_netdev, key);
    }
}

/// Appends one value to an array under construction.
fn push_json(items: &mut Vec<JsonValue>, value: JsonValue)
    ensures
        arr_view(*final(items)) == arr_view(*old(items)) + seq![value.view()],
{
    let ghost before = arr_view(*items);
    let ghost before_seq = items@;
    let ghost v_view = value.view();
    items.push(value);
    proof {
        assert forall|k: int| 0 <= k < items@.len() implies #[trigger] arr_view(*items)[k] == (
        before + seq![v_view])[k] by {
            if k < before_seq.len() {
                assert(items@[k] == before_seq[k]);
            }
        }
        assert(arr_view(*items) =~= before + seq![v_view]);
    }
}

/// Serializes a drive list.
fn drives_to_json(ds: &Vec<DriveConfig>) -> (r: Vec<JsonValue>)
    ensures
        arr_view(r) == spec_drives_json(ds@),
{
    let n = ds.len();
    let mut out: Vec<JsonValue> = Vec::new();
    proof {
        assert(arr_view(out) =~= spec_drives_json(ds@.subrange(0, 0)));
    }
    let mut i: usize = 0;
    while i < n
        invariant
            n == ds@.len(),
            i <= n,
            arr_view(out) == spec_drives_json(ds@.subrange(0, i as int)),
        decreases n - i,
    {
        push_json(&mut out, (&ds[i]).to_json());
        proof {
            assert(arr_view(out) =~= spec_drives_json(ds@.subrange(0, i + 1)));
        }
        i = i + 1;
    }
    proof {
        assert(ds@.subrange(0, n as int) =~= ds@);
    }
    out
}

/// Serializes a network device list.
fn netdevs_to_json(ds: &Vec<NetworkDeviceConfig>) -> (r: Vec<JsonValue>)
    ensures
        arr_view(r) == spec_netdevs_json(ds@),
{
    let n = ds.len();
    let mut out: Vec<JsonValue> = Vec::new();
    proof {
        assert(arr_view(out) =~= spec_netdevs_json(ds@.subrange(0, 0)));
    }
    let mut i: usize = 0;
    while i < n
        invariant
            n == ds@.len(),
            i <= n,
            arr_view(out) == spec_netdevs_json(ds@.subrange(0, i as int)),
        decreases n - i,
    {
        push_json(&mut out, (&ds[i]).to_json());
        proof {
            assert(arr_view(out) =~= spec_netdevs_json(ds@.subrange(0, i + 1)));
        }
        i = i + 1;
    }
    proof {
        assert(ds@.subrange(0, n as int) =~= ds@);
    }
    out
}

/// Reads a drive list back; elementwise inverse on clean records.
fn drives_from_json(items: &Vec<JsonValue>) -> (r: Result<Vec<DriveConfig>, Error>)
    ensures
        forall|ds: Seq<DriveConfig>|
            (forall|i: int| 0 <= i < ds.len() ==> spec_drive_clean(#[trigger] ds[i])) && arr_view(
                *items,
            ) == #[trigger] spec_drives_json(ds) ==> (r matches Ok(o) && o@.len() == ds.len() && (forall|
                i: int,
            |
                0 <= i < ds.len() ==> (#[trigger] o@[i]).options@ == ds[i].options@)),
{
    let ghost items_n = items@.len();
    proof {
        assert(arr_view(*items).len() == items_n);
    }
    let n = items.len();
    let mut out: Vec<DriveConfig> = Vec::new();
    let mut i: usize = 0;
    while i < n
        invariant
            n == items@.len(),
            items_n == n,
            arr_view(*items).len() == items_n,
            i <= n,
            out@.len() == i,
            forall|ds: Seq<DriveConfig>|
                (forall|k: int| 0 <= k < ds.len() ==> spec_drive_clean(#[trigger] ds[k]))
                    && arr_view(*items) == #[trigger] spec_drives_json(ds) ==> (forall|k: int|
                    0 <= k < i ==> (#[trigger] out@[k]).options@ == ds[k].options@),
        decreases n - i,
    {
        let sub = DriveConfig::from_json(&items[i]);
        let item = match sub {
            Ok(item) => item,
            Err(e) => {
                proof {
                    assert forall|ds: Seq<DriveConfig>|
                        (forall|k: int| 0 <= k < ds.len() ==> spec_drive_clean(#[trigger] ds[k]))
                            && arr_view(*items) == #[trigger] spec_drives_json(ds)
                        implies false by {
                        assert(spec_drives_json(ds).len() == ds.len());
                        assert(arr_view(*items)[i as int] == items@[i as int].view());
                        assert(spec_drives_json(ds)[i as int] == spec_drive_json(ds[i as int]));
                        assert(spec_drive_clean(ds[i as int]));
                    }
                }
                return Err(e);
            },
        };
        out.push(item);
        proof {
            assert forall|ds: Seq<DriveConfig>|
                (forall|k: int| 0 <= k < ds.len() ==> spec_drive_clean(#[trigger] ds[k]))
                    && arr_view(*items) == #[trigger] spec_drives_json(ds) implies (forall|k: int|
                0 <= k < i + 1 ==> (#[trigger] out@[k]).options@ == ds[k].options@) by {
                assert(spec_drives_json(ds).len() == ds.len());
                assert(ds.len() == items_n);
                assert(arr_view(*items)[i as int] == items@[i as int].view());
                assert(spec_drives_json(ds)[i as int] == spec_drive_json(ds[i as int]));
                assert(spec_drive_clean(ds[i as int]));
            }
        }
        i = i + 1;
    }
    proof {
        assert forall|ds: Seq<DriveConfig>|
            (forall|k: int| 0 <= k < ds.len() ==> spec_drive_clean(#[trigger] ds[k])) && arr_view(
                *items,
            ) == #[trigger] spec_drives_json(ds) implies (out@.len() == ds.len() && (forall|k: int|
            0 <= k < ds.len() ==> (#[trigger] out@[k]).options@ == ds[k].options@)) by {
            assert(arr_view(*items).len() == items@.len());
            assert(spec_drives_json(ds).len() == ds.len());
        }
    }
    Ok(out)
}

/// Reads a network device list back; elementwise inverse on clean
/// records.
fn netdevs_from_json(items: &Vec<JsonValue>) -> (r: Result<Vec<NetworkDeviceConfig>, Error>)
    ensures
        forall|ds: Seq<NetworkDeviceConfig>|
            (forall|i: int| 0 <= i < ds.len() ==> spec_netdev_clean(#[trigger] ds[i])) && arr_view(
                *items,
            ) == #[trigger] spec_netdevs_json(ds) ==> (r matches Ok(o) && o@.len() == ds.len() && (forall|
                i: int,
            |
                0 <= i < ds.len() ==> ((#[trigger] o@[i]).device_type@ == ds[i].device_type@
                    && opt_prop_eqv(o@[i].props, ds[i].props)))),
{
    let ghost items_n = items@.len();
    proof {
        assert(arr_view(*items).len() == items_n);
    }
    let n = items.len();
    let mut out: Vec<NetworkDeviceConfig> = Vec::new();
    let mut i: usize = 0;
    while i < n
        invariant
            n == items@.len(),
            items_n == n,
            arr_view(*items).len() == items_n,
            i <= n,
            out@.len() == i,
            forall|ds: Seq<NetworkDeviceConfig>|
                (forall|k: int| 0 <= k < ds.len() ==> spec_netdev_clean(#[trigger] ds[k]))
                    && arr_view(*items) == #[trigger] spec_netdevs_json(ds) ==> (forall|k: int|
                    0 <= k < i ==> ((#[trigger] out@[k]).device_type@ == ds[k].device_type@
                        && opt_prop_eqv(out@[k].props, ds[k].props))),
        decreases n - i,
    {
        let sub = NetworkDeviceConfig::from_json(&items[i]);
        let item = match sub {
            Ok(item) => item,
            Err(e) => {
                proof {
                    assert forall|ds: Seq<NetworkDeviceConfig>|
                        (forall|k: int| 0 <= k < ds.len() ==> spec_netdev_clean(#[trigger] ds[k]))
                            && arr_view(*items) == #[trigger] spec_netdevs_json(ds)
                        implies false by {
                        assert(spec_netdevs_json(ds).len() == ds.len());
                        assert(arr_view(*items)[i as int] == items@[i as int].view());
                        assert(spec_netdevs_json(ds)[i as int] == spec_netdev_json(ds[i as int]));
                        assert(spec_netdev_clean(ds[i as int]));
                    }
                }
                return Err(e);
            },
        };
        out.push(item);
        proof {
            assert forall|ds: Seq<NetworkDeviceConfig>|
                (forall|k: int| 0 <= k < ds.len() ==> spec_netdev_clean(#[trigger] ds[k]))
                    && arr_view(*items) == #[trigger] spec_netdevs_json(ds) implies (forall|k: int|
                0 <= k < i + 1 ==> ((#[trigger] out@[k]).device_type@ == ds[k].device_type@
                    && opt_prop_eqv(out@[k].props, ds[k].props))) by {
                assert(spec_netdevs_json(ds).len() == ds.len());
                assert(ds.len() == items_n);
                assert(arr_view(*items)[i as int] == items@[i as int].view());
                assert(spec_netdevs_json(ds)[i as int] == spec_netdev_json(ds[i as int]));
                assert(spec_netdev_clean(ds[i as int]));
            }
        }
        i = i + 1;
    }
    proof {
        assert forall|ds: Seq<NetworkDeviceConfig>|
            (forall|k: int| 0 <= k < ds.len() ==> spec_netdev_clean(#[trigger] ds[k]))
                && arr_view(*items) == #[trigger] spec_netdevs_json(ds) implies (out@.len() == ds.len() && (
        forall|k: int|
            0 <= k < ds.len() ==> ((#[trigger] out@[k]).device_type@ == ds[k].device_type@
                && opt_prop_eqv(out@[k].props, ds[k].props)))) by {
            assert(arr_view(*items).len() == items@.len());
            assert(spec_netdevs_json(ds).len() == ds.len());
        }
    }
    Ok(out)
}

impl GuestConfig {
    /// The leading entries of the document: the required fields and the
    /// optional scalar fields through the acceleration flag.
    fn front_entries(&self) -> (r: Vec<(String, JsonValue)>)
        ensures
            entries_view(r) == seq![
                ("arch"@, JsonView::Text(self.arch@)),
                ("memory"@, JsonView::UInt(self.memory as int)),
            ] + seg_boot(self.boot) + seg_text("cpu"@, self.cpu) + seg_smp(self.smp) + seg_bios(
                self.bios,
            ) + seg_text("accel"@, self.accel),
    {
        let mut entries: Vec<(String, JsonValue)> = Vec::new();
        push_entry(&mut entries, "arch", JsonValue::Text(self.arch.clone()));
        push_entry(&mut entries, "memory", JsonValue::UInt(self.memory));
        let ghost s0 = seq![
            ("arch"@, JsonView::Text(self.arch@)),
            ("memory"@, JsonView::UInt(self.memory as int)),
        ];
        proof {
            assert(entries_view(entries) =~= s0);
        }
        if let Some(boot) = &self.boot {
            push_entry(&mut entries, "boot", boot.to_json());
        }
        let ghost g1 = s0 + seg_boot(self.boot);
        proof {
            assert(entries_view(entries) =~= g1);
        }
        if let Some(cpu) = &self.cpu {
            push_entry(&mut entries, "cpu", JsonValue::Text(cpu.clone()));
        }
        let ghost g2 = g1 + seg_text("cpu"@, self.cpu);
        proof {
            assert(entries_view(entries) =~= g2);
        }
        if let Some(smp) = &self.smp {
            push_entry(&mut entries, "smp", smp.to_json());
        }
        let ghost g3 = g2 + seg_smp(self.smp);
        proof {
            assert(entries_view(entries) =~= g3);
        }
        if let Some(bios) = &self.bios {
            push_entry(&mut entries, "bios", JsonValue::Text(bios.to_text()));
        }
        let ghost g4 = g3 + seg_bios(self.bios);
        proof {
            assert(entries_view(entries) =~= g4);
        }
        if let Some(accel) = &self.accel {
            push_entry(&mut entries, "accel", JsonValue::Text(accel.clone()));
        }
        proof {
            assert(entries_view(entries) =~= g4 + seg_text("accel"@, self.accel));
        }
        entries
    }

    /// Serializes the document: required fields first, optional fields
    /// when present, the display always, in declaration order.
    #[verifier::rlimit(100)]
    #[verifier::spinoff_prover]
    pub fn to_json(&self) -> (r: JsonValue)
        ensures
            r.view() == spec_config_json(*self),
    {
        let mut entries: Vec<(String, JsonValue)> = self.front_entries();
        let ghost g5 = entries_view(entries);
        if let Some(machine) = &self.machine {
            push_entry(&mut entries, "machine", machine.to_json());
        }
        let ghost g6 = g5 + seg_machine(self.machine);
        proof {
            assert(entries_view(entries) =~= g6);
        }
        push_entry(&mut entries, "display", JsonValue::Text(self.display.clone()));
        let ghost g7 = g6 + seq![("display"@, JsonView::Text(self.display@))];
        proof {
            assert(entries_view(entries) =~= g7);
        }
        if let Some(drives) = &self.drive {
            push_entry(&mut entries, "drive", JsonValue::Arr(drives_to_json(drives)));
        }
        let ghost g8 = g7 + seg_drive(self.drive);
        proof {
            assert(entries_view(entries) =~= g8);
        }
        if let Some(netdevs) = &self.netdev {
            push_entry(&mut entries, "netdev", JsonValue::Arr(netdevs_to_json(netdevs)));
        }
        proof {
            assert(entries_view(entries) =~= spec_config_entries(*self));
        }
        JsonValue::Obj(entries)
    }

    /// Reads a document back.  On the image of a clean document this is
    /// the inverse of `to_json`: decoding an encoded document succeeds
    /// and yields an equal document — the round-trip law of the wire
    /// format.
    #[verifier::rlimit(100)]
    #[verifier::spinoff_prover]
    pub fn from_json(v: &JsonValue) -> (r: Result<GuestConfig, Error>)
        ensures
            forall|c: GuestConfig|
                spec_config_clean(c) && v.view() == spec_config_json(c) ==> (r matches Ok(o)
                    && crate::config::config_eqv(o, c)),
    {
        let entries = match v {
            JsonValue::Obj(entries) => entries,
            _ => {
                return Err(Error::new(ErrorKind::EncodingError, "expected a guest object"));
            },
        };
        let ghost ev = entries_view(*entries);
        proof {
            assert forall|c: GuestConfig|
                spec_config_clean(c) && v.view() == spec_config_json(c) implies ev
                == spec_config_entries(c) && spec_config_fields_hold(ev, c) by {
                lemma_config_fields(c);
            }
        }
        let got_arch = obj_get(entries, "arch");
        let arch = match got_arch {
            Some(JsonValue::Text(arch)) => arch.clone(),
            _ => {
                    return Err(Error::new(ErrorKind::EncodingError, "the arch is required"));
            },
        };
        let got_memory = obj_get(entries, "memory");
        let memory = match got_memory {
            Some(JsonValue::UInt(memory)) => *memory,
            _ => {
                    return Err(Error::new(ErrorKind::EncodingError, "the memory size is required"));
            },
        };
        let got_boot = obj_get(entries, "boot");
        let boot = match got_boot {
            Some(value) => {
                let sub = BootConfig::from_json(value);
                match sub {
                    Ok(b) => Some(b),
                    Err(e) => {
                                    return Err(e);
                    },
                }
            },
            None => None,
        };
        let got_cpu = obj_get(entries, "cpu");
        let cpu = match got_cpu {
            Some(JsonValue::Text(cpu)) => Some(cpu.clone()),
            Some(_) => {
                    return Err(Error::new(ErrorKind::EncodingError, "the cpu must be text"));
            },
            None => None,
        };
        let got_smp = obj_get(entries, "smp");
        let smp = match got_smp {
            Some(value) => {
                let sub = SmpConfig::from_json(value);
                match sub {
                    Ok(t) => Some(t),
                    Err(e) => {
                                    return Err(e);
                    },
                }
            },
            None => None,
        };
        let got_bios = obj_get(entries, "bios");
        let bios = match got_bios {
            Some(JsonValue::Text(text)) => Some(crate::file::File::from_string(text.as_str())),
            Some(_) => {
                    return Err(Error::new(ErrorKind::EncodingError, "the bios must be text"));
            },
            None => None,
        };
        let got_accel = obj_get(entries, "accel");
        let accel = match got_accel {
            Some(JsonValue::Text(accel)) => Some(accel.clone()),
            Some(_) => {
                    return Err(Error::new(ErrorKind::EncodingError, "the accel must be text"));
            },
            None => None,
        };
        let got_machine = obj_get(entries, "machine");
        let machine = match got_machine {
            Some(value) => {
                let sub = MachineConfig::from_json(value);
                match sub {
                    Ok(m) => Some(m),
                    Err(e) => {
                                    return Err(e);
                    },
                }
            },
            None => None,
        };
        let got_display = obj_get(entries, "display");
        let display = match got_display {
            Some(JsonValue::Text(display)) => display.clone(),
            Some(_) => {
                    return Err(Error::new(ErrorKind::EncodingError, "the display must be text"));
            },
            None => crate::config::default_display(),
        };
        let got_drive = obj_get(entries, "drive");
        let drive = match got_drive {
            Some(JsonValue::Arr(items)) => {
                let sub = drives_from_json(items);
                match sub {
                    Ok(ds) => Some(ds),
                    Err(e) => {
                                    return Err(e);
                    },
                }
            },
            Some(_) => {
                    return Err(Error::new(ErrorKind::EncodingError, "the drives must be a list"));
            },
            None => None,
        };
        let got_netdev = obj_get(entries, "netdev");
        let netdev = match got_netdev {
            Some(JsonValue::Arr(items)) => {
                let sub = netdevs_from_json(items);
                match sub {
                    Ok(ds) => Some(ds),
                    Err(e) => {
                                    return Err(e);
                    },
                }
            },
            Some(_) => {
                    return Err(
                    Error::new(ErrorKind::EncodingError, "the network devices must be a list"),
                );
            },
            None => None,
        };
        let out = GuestConfig { arch, memory, boot, cpu, smp, bios, accel, machine, display, drive, netdev };
        proof {
            assert forall|c: GuestConfig|
                spec_config_clean(c) && v.view() == spec_config_json(c) implies
                crate::config::config_eqv(out, c) by {
                lemma_config_fields(c);
                assert(ev == spec_config_entries(c));
            }
        }
        Ok(out)
    }
}

/// The document a labeled id serializes into: a single-entry object
/// `{label: id}` — never a `{label, item}` record.
pub open spec fn spec_labeled_json(label: Seq<char>, id: int) -> JsonView {
    JsonView::Obj(seq![(label, JsonView::UInt(id))])
}

/// Serializes a labeled id.
pub fn labeled_to_json(l: &crate::storage::Labeled<isize>) -> (r: JsonValue)
    requires
        l.spec_item() >= 0,
    ensures
        r.view() == spec_labeled_json(l.spec_label(), l.spec_item() as int),
{
    let mut entries: Vec<(String, JsonValue)> = Vec::new();
    push_entry(&mut entries, l.label(), JsonValue::UInt(*l.item() as u64));
    proof {
        assert(entries_view(entries) =~= seq![
            (l.spec_label(), JsonView::UInt(l.spec_item() as int)),
        ]);
    }
    JsonValue::Obj(entries)
}

/// Reads a labeled id back: exactly one entry whose value is an id in
/// range, anything else refused as an encoding error; the inverse of
/// `labeled_to_json` on its image.
pub fn labeled_from_json(v: &JsonValue) -> (r: Result<crate::storage::Labeled<isize>, Error>)
    ensures
        !(v.view() is Obj) ==> (r matches Err(e) && e.spec_kind() == ErrorKind::EncodingError),
        v.view() matches JsonView::Obj(s) ==> match r {
            Ok(o) => s.len() == 1 && s[0].1 == JsonView::UInt(o.spec_item() as int)
                && o.spec_label() == s[0].0 && 0 <= o.spec_item(),
            Err(e) => e.spec_kind() == ErrorKind::EncodingError && (s.len() != 1 || !(match s[0].1 {
                JsonView::UInt(n) => 0 <= n <= isize::MAX as int,
                _ => false,
            })),
        },
{
    let entries = match v {
        JsonValue::Obj(entries) => entries,
        _ => {
            return Err(Error::new(ErrorKind::EncodingError, "expected a labeled value"));
        },
    };
    let ghost ev = entries_view(*entries);
    proof {
        assert(ev.len() == entries@.len());
    }
    if entries.len() == 0 {
        return Err(Error::new(ErrorKind::EncodingError, "Missing labeled value"));
    }
    if entries.len() > 1 {
        return Err(Error::new(ErrorKind::EncodingError, "Too many labels"));
    }
    proof {
        assert(ev[0] == (entries@[0].0@, entries@[0].1.view()));
    }
    let id = match &entries[0].1 {
        JsonValue::UInt(id) => *id,
        _ => {
            return Err(
                Error::new(ErrorKind::EncodingError, "the labeled item must be a number"),
            );
        },
    };
    if id > (isize::MAX as u64) {
        return Err(
            Error::new(ErrorKind::EncodingError, "the labeled id is out of range"),
        );
    }
    let out = crate::storage::Labeled::new(entries[0].0.as_str(), id as isize);
    Ok(out)
}

/// Serializes a listing as an array of single-entry objects.
pub fn listing_to_json(listing: &Vec<crate::storage::Labeled<isize>>) -> (r: JsonValue)
    requires
        forall|i: int| 0 <= i < listing@.len() ==> (#[trigger] listing@[i]).spec_item() >= 0,
    ensures
        r.view() matches JsonView::Arr(items) && items.len() == listing@.len() && (forall|i: int|
            0 <= i < listing@.len() ==> items[i] == spec_labeled_json(
                (#[trigger] listing@[i]).spec_label(),
                listing@[i].spec_item() as int,
            )),
{
    let n = listing.len();
    let mut out: Vec<JsonValue> = Vec::new();
    let mut i: usize = 0;
    while i < n
        invariant
            n == listing@.len(),
            forall|k: int| 0 <= k < n ==> (#[trigger] listing@[k]).spec_item() >= 0,
            i <= n,
            arr_view(out).len() == i,
            forall|k: int|
                0 <= k < i ==> arr_view(out)[k] == spec_labeled_json(
                    (#[trigger] listing@[k]).spec_label(),
                    listing@[k].spec_item() as int,
                ),
        decreases n - i,
    {
        push_json(&mut out, labeled_to_json(&listing[i]));
        i = i + 1;
    }
    JsonValue::Arr(out)
}

/// First-match lookup through the ten segments in order.
spec fn spec_obj_get_chain(
    s0: Seq<(Seq<char>, JsonView)>,
    g1: Seq<(Seq<char>, JsonView)>,
    g2: Seq<(Seq<char>, JsonView)>,
    g3: Seq<(Seq<char>, JsonView)>,
    g4: Seq<(Seq<char>, JsonView)>,
    g5: Seq<(Seq<char>, JsonView)>,
    g6: Seq<(Seq<char>, JsonView)>,
    g7: Seq<(Seq<char>, JsonView)>,
    g8: Seq<(Seq<char>, JsonView)>,
    g9: Seq<(Seq<char>, JsonView)>,
    key: Seq<char>,
) -> Option<JsonView> {
    if spec_obj_has(s0, key) {
        spec_obj_get(s0, key)
    } else if spec_obj_has(g1, key) {
        spec_obj_get(g1, key)
    } else if spec_obj_has(g2, key) {
        spec_obj_get(g2, key)
    } else if spec_obj_has(g3, key) {
        spec_obj_get(g3, key)
    } else if spec_obj_has(g4, key) {
        spec_obj_get(g4, key)
    } else if spec_obj_has(g5, key) {
        spec_obj_get(g5, key)
    } else if spec_obj_has(g6, key) {
        spec_obj_get(g6, key)
    } else if spec_obj_has(g7, key) {
        spec_obj_get(g7, key)
    } else if spec_obj_has(g8, key) {
        spec_obj_get(g8, key)
    } else {
        spec_obj_get(g9, key)
    }
}

} // verus!
