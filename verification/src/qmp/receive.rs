//! Receiving monitor responses: one JSON object per line, delimited by
//! `\n` (0x0A).
//!
//! Framing is the library's own logic: the first delimiter closes the
//! frame, and nothing past it is looked at.  Turning the frame's bytes
//! into a JSON object is the JSON library's work, behind trusted
//! wrappers; every decision over the parsed data is verified.

use vstd::prelude::*;
use vstd::string::*;
use crate::error::{Error, ErrorKind};
use crate::json::{folded_props, spec_all_text, spec_obj_get, JsonView};
use crate::props::{string_eq, PropMap};
use crate::qmp::{Greeting, QemuVersion, Response, Version};

verus! {

/// A JSON value of the JSON library, carried opaquely between its
/// wrappers.
#[verifier::external_type_specification]
#[verifier::external_body]
pub struct ExValue(serde_json::Value);

/// What an opaque JSON value holds, as the document model sees it: the
/// content name the accessor wrappers below all speak of.  Numbers the
/// JSON library reports as unsigned read as `UInt`; strings, arrays and
/// objects read as their shapes; everything else reads as `Other`.
pub uninterp spec fn value_view(v: serde_json::Value) -> JsonView;

/// The views of raw object entries.
pub open spec fn raw_entries_view(s: Seq<(String, serde_json::Value)>) -> Seq<(Seq<char>, JsonView)> {
    Seq::new(
        s.len(),
        |i: int|
            if 0 <= i < s.len() {
                (s[i].0@, value_view(s[i].1))
            } else {
                (Seq::empty(), JsonView::Other)
            },
    )
}

/// The views of raw array elements.
pub open spec fn raw_items_view(s: Seq<serde_json::Value>) -> Seq<JsonView> {
    Seq::new(
        s.len(),
        |i: int|
            if 0 <= i < s.len() {
                value_view(s[i])
            } else {
                JsonView::Other
            },
    )
}

/// What parsing a frame's bytes as a JSON object yields: the entries'
/// shapes, or one of the two failure classes.
pub enum ObjParse {
    Object(Seq<(Seq<char>, JsonView)>),
    Truncated,
    Invalid,
}

/// The parse the JSON library assigns to a frame's bytes: a function of
/// the bytes alone.
pub uninterp spec fn frame_object(line: Seq<u8>) -> ObjParse;

/// How a frame failed to parse: more bytes needed, or bad input.
pub enum JsonFault {
    Incomplete,
    Malformed(String),
}

/// Relies on serde_json::from_slice: the frame's bytes as a JSON object,
/// its entries in key order; end-of-input reported apart from other
/// failures.  The outcome and the entries' shapes are `frame_object` of
/// the bytes; the failure message is not pinned.
#[verifier::external_body]
fn json_parse_object(line: &[u8]) -> (r: Result<Vec<(String, serde_json::Value)>, JsonFault>)
    ensures
        match r {
            Ok(entries) => frame_object(line@) == ObjParse::Object(raw_entries_view(entries@)),
            Err(JsonFault::Incomplete) => frame_object(line@) is Truncated,
            Err(JsonFault::Malformed(_)) => frame_object(line@) is Invalid,
        },
{
    match serde_json::from_slice::<serde_json::Map<String, serde_json::Value>>(line) {
        Ok(m) => Ok(m.into_iter().collect()),
        Err(e) if e.is_eof() => Err(JsonFault::Incomplete),
        Err(e) => Err(JsonFault::Malformed(e.to_string())),
    }
}

/// Relies on serde_json's `Value::as_object`: the entries exactly when
/// the value is an object.
#[verifier::external_body]
fn value_as_object(v: &serde_json::Value) -> (r: Option<Vec<(String, serde_json::Value)>>)
    ensures
        match r {
            Some(entries) => value_view(*v) == JsonView::Obj(raw_entries_view(entries@)),
            None => !(value_view(*v) is Obj),
        },
{
    v.as_object().map(|m| m.iter().map(|(k, x)| (k.clone(), x.clone())).collect())
}

/// Relies on serde_json's `Value::as_array`: the elements exactly when
/// the value is an array.
#[verifier::external_body]
fn value_as_array(v: &serde_json::Value) -> (r: Option<Vec<serde_json::Value>>)
    ensures
        match r {
            Some(items) => value_view(*v) == JsonView::Arr(raw_items_view(items@)),
            None => !(value_view(*v) is Arr),
        },
{
    v.as_array().map(|a| a.clone())
}

/// Relies on serde_json's `Value::as_str`: the text exactly when the
/// value is a string.
#[verifier::external_body]
fn value_as_string(v: &serde_json::Value) -> (r: Option<String>)
    ensures
        match r {
            Some(text) => value_view(*v) == JsonView::Text(text@),
            None => !(value_view(*v) is Text),
        },
{
    v.as_str().map(|s| s.to_string())
}

/// Relies on serde_json's `Value::as_u64`: the number exactly when the
/// value is one the library represents as unsigned.
#[verifier::external_body]
fn value_as_u64(v: &serde_json::Value) -> (r: Option<u64>)
    ensures
        match r {
            Some(n) => value_view(*v) == JsonView::UInt(n as int),
            None => !(value_view(*v) is UInt),
        },
{
    v.as_u64()
}

/// The position of the first frame delimiter, if any.
pub open spec fn spec_first_newline(s: Seq<u8>, j: int) -> bool {
    &&& 0 <= j < s.len()
    &&& s[j] == 10u8
    &&& forall|k: int| 0 <= k < j ==> s[k] != 10u8
}

/// The bytes of the first frame: everything before the first delimiter.
pub open spec fn spec_frame_line(s: Seq<u8>, j: int) -> Seq<u8> {
    s.subrange(0, j)
}

/// Finds the first frame delimiter.
pub fn find_newline(buf: &[u8]) -> (r: Option<usize>)
    ensures
        match r {
            Some(j) => spec_first_newline(buf@, j as int),
            None => forall|k: int| 0 <= k < buf@.len() ==> buf@[k] != 10u8,
        },
{
    let n = buf.len();
    let mut i: usize = 0;
    while i < n
        invariant
            n == buf@.len(),
            i <= n,
            forall|k: int| 0 <= k < i ==> buf@[k] != 10u8,
        decreases n - i,
    {
        if buf[i] == 10u8 {
            return Some(i);
        }
        i = i + 1;
    }
    None
}

/// Takes the first frame off the buffer: the line's bytes without the
/// delimiter, and the count to consume including it.  `None` when no
/// delimiter has arrived yet.
pub fn take_frame(buf: &[u8]) -> (r: Option<(Vec<u8>, usize)>)
    ensures
        match r {
            Some(p) => spec_first_newline(buf@, p.1 - 1) && p.0@ == spec_frame_line(
                buf@,
                p.1 - 1,
            ),
            None => forall|k: int| 0 <= k < buf@.len() ==> buf@[k] != 10u8,
        },
{
    match find_newline(buf) {
        None => None,
        Some(j) => {
            let total = buf.len();
            proof {
                assert(j < total);
            }
            let mut line: Vec<u8> = Vec::new();
            let mut i: usize = 0;
            while i < j
                invariant
                    j < buf@.len(),
                    i <= j,
                    line@ == buf@.subrange(0, i as int),
                decreases j - i,
            {
                line.push(buf[i]);
                proof {
                    assert(line@ =~= buf@.subrange(0, i + 1));
                }
                i = i + 1;
            }
            Some((line, j + 1))
        },
    }
}

/// Frames are decided by the bytes up to the first delimiter alone:
/// whatever arrives after it changes neither where the frame ends nor
/// what it holds.  Bytes of later frames are never blended into the
/// current one.
pub proof fn lemma_frame_stable(buf: Seq<u8>, extra: Seq<u8>, j: int)
    requires
        spec_first_newline(buf, j),
    ensures
        spec_first_newline(buf + extra, j),
        spec_frame_line(buf + extra, j) == spec_frame_line(buf, j),
{
    assert(spec_frame_line(buf + extra, j) =~= spec_frame_line(buf, j));
}

/// A buffer has at most one first delimiter: receiving yields exactly
/// one frame for it.
pub proof fn lemma_frame_unique(buf: Seq<u8>, j1: int, j2: int)
    requires
        spec_first_newline(buf, j1),
        spec_first_newline(buf, j2),
    ensures
        j1 == j2,
{
}

/// What became of one frame's bytes.
#[derive(Debug)]
pub enum FrameOutcome {
    /// The frame's JSON is truncated: wait for more bytes.
    Incomplete,
    /// The frame does not hold a well-formed response object.
    Malformed(String),
    /// A response.
    Frame(Response),
}

/// A JSON value read as a string-to-string map: its entries folded
/// into a map when it is an object of texts, nothing otherwise.
pub open spec fn spec_text_object(v: JsonView) -> Option<Map<Seq<char>, Seq<char>>> {
    match v {
        JsonView::Obj(b) => if spec_all_text(b, false) {
            Some(folded_props(b, false))
        } else {
            None
        },
        _ => None,
    }
}

/// Reads a string-to-string map out of a JSON value.
fn value_to_string_map(v: &serde_json::Value) -> (r: Option<PropMap>)
    ensures
        match r {
            Some(m) => m.wf() && spec_text_object(value_view(*v)) == Some(m.as_map()),
            None => spec_text_object(value_view(*v)) is None,
        },
{
    let entries = match value_as_object(v) {
        Some(entries) => entries,
        None => {
            return None;
        },
    };
    let ghost ev = raw_entries_view(entries@);
    let mut out = PropMap::new();
    let n = entries.len();
    let mut i: usize = 0;
    proof {
        assert(out.as_map() =~= folded_props(ev.subrange(0, 0), false));
    }
    while i < n
        invariant
            out.wf(),
            n == entries@.len(),
            i <= n,
            ev == raw_entries_view(entries@),
            value_view(*v) == JsonView::Obj(ev),
            out.as_map() == folded_props(ev.subrange(0, i as int), false),
            forall|k: int| 0 <= k < i ==> (#[trigger] ev[k]).1 is Text,
        decreases n - i,
    {
        let ghost prefix = ev.subrange(0, i as int);
        let ghost now = ev.subrange(0, i + 1);
        proof {
            assert(now.drop_last() =~= prefix);
            assert(now.last() == ev[i as int]);
            assert(ev[i as int] == (entries@[i as int].0@, value_view(entries@[i as int].1)));
        }
        match value_as_string(&entries[i].1) {
            Some(text) => {
                out.insert(entries[i].0.clone(), text);
            },
            None => {
                return None;
            },
        }
        i = i + 1;
    }
    proof {
        assert(ev.subrange(0, n as int) =~= ev);
    }
    Some(out)
}

/// Looks a key up in a parsed object's entries.
fn object_get<'a>(
    entries: &'a Vec<(String, serde_json::Value)>,
    key: &str,
) -> (r: Option<&'a serde_json::Value>)
    ensures
        match r {
            Some(v) => spec_obj_get(raw_entries_view(entries@), key@) == Some(value_view(*v)),
            None => spec_obj_get(raw_entries_view(entries@), key@) is None,
        },
{
    let ghost ev = raw_entries_view(entries@);
    let n = entries.len();
    let mut i: usize = 0;
    while i < n
        invariant
            n == entries@.len(),
            i <= n,
            ev == raw_entries_view(entries@),
            spec_obj_get(ev, key@) == crate::json::spec_obj_get_from(ev, key@, i as int),
        decreases n - i,
    {
        if string_eq(entries[i].0.as_str(), key) {
            proof {
                assert(ev[i as int] == (entries@[i as int].0@, value_view(entries@[i as int].1)));
            }
            return Some(&entries[i].1);
        }
        i = i + 1;
    }
    None
}

/// An unsigned field of an object's entries.
pub open spec fn spec_u64_field(s: Seq<(Seq<char>, JsonView)>, key: Seq<char>) -> Option<int> {
    match spec_obj_get(s, key) {
        Some(JsonView::UInt(n)) => Some(n),
        _ => None,
    }
}

/// Whether every element is text.
pub open spec fn spec_all_texts(items: Seq<JsonView>) -> bool {
    forall|i: int| 0 <= i < items.len() ==> (#[trigger] items[i]) is Text
}

/// Whether the version record of a greeting is well formed.
pub open spec fn spec_version_ok(o: Option<JsonView>) -> bool {
    match o {
        Some(JsonView::Obj(vs)) => (match spec_obj_get(vs, "qemu"@) {
            Some(JsonView::Obj(qs)) => spec_u64_field(qs, "major"@) is Some && spec_u64_field(
                qs,
                "minor"@,
            ) is Some && spec_u64_field(qs, "micro"@) is Some,
            _ => false,
        }) && (match spec_obj_get(vs, "package"@) {
            Some(JsonView::Text(_)) => true,
            _ => false,
        }),
        _ => false,
    }
}

/// Whether a greeting payload is well formed: a version record with the
/// three emulator numbers and the package text, and a string array of
/// capabilities; unknown keys beside them are tolerated.
pub open spec fn spec_greeting_ok(v: JsonView) -> bool {
    match v {
        JsonView::Obj(s) => spec_version_ok(spec_obj_get(s, "version"@)) && (match spec_obj_get(
            s,
            "capabilities"@,
        ) {
            Some(JsonView::Arr(items)) => spec_all_texts(items),
            _ => false,
        }),
        _ => false,
    }
}

/// The greeting a well-formed payload denotes.
pub open spec fn spec_greeting_matches(v: JsonView, g: Greeting) -> bool {
    match v {
        JsonView::Obj(s) => (match spec_obj_get(s, "version"@) {
            Some(JsonView::Obj(vs)) => (match spec_obj_get(vs, "qemu"@) {
                Some(JsonView::Obj(qs)) => spec_u64_field(qs, "major"@) == Some(
                    g.version.qemu.major as int,
                ) && spec_u64_field(qs, "minor"@) == Some(g.version.qemu.minor as int)
                    && spec_u64_field(qs, "micro"@) == Some(g.version.qemu.micro as int),
                _ => false,
            }) && (match spec_obj_get(vs, "package"@) {
                Some(JsonView::Text(p)) => p == g.version.package@,
                _ => false,
            }),
            _ => false,
        }) && (match spec_obj_get(s, "capabilities"@) {
            Some(JsonView::Arr(items)) => g.capabilities@.len() == items.len() && (forall|i: int|
                0 <= i < items.len() ==> items[i] == JsonView::Text(
                    (#[trigger] g.capabilities@[i])@,
                )),
            _ => false,
        }),
        _ => false,
    }
}

/// Reads a greeting's payload: a `version` record carrying the emulator
/// version numbers and package text, and a `capabilities` string array.
/// Unknown keys are tolerated; missing or ill-typed ones are not.
#[verifier::loop_isolation(false)]
fn parse_greeting(v: &serde_json::Value) -> (r: Option<Greeting>)
    ensures
        match r {
            Some(g) => spec_greeting_ok(value_view(*v)) && spec_greeting_matches(
                value_view(*v),
                g,
            ),
            None => !spec_greeting_ok(value_view(*v)),
        },
{
    let entries = value_as_object(v)?;
    let version = value_as_object(object_get(&entries, "version")?)?;
    let qemu = value_as_object(object_get(&version, "qemu")?)?;
    let major = value_as_u64(object_get(&qemu, "major")?)?;
    let minor = value_as_u64(object_get(&qemu, "minor")?)?;
    let micro = value_as_u64(object_get(&qemu, "micro")?)?;
    let package = value_as_string(object_get(&version, "package")?)?;
    let raw_capabilities = value_as_array(object_get(&entries, "capabilities")?)?;
    let ghost items = raw_items_view(raw_capabilities@);
    let mut capabilities: Vec<String> = Vec::new();
    let n = raw_capabilities.len();
    let mut i: usize = 0;
    while i < n
        invariant
            n == raw_capabilities@.len(),
            i <= n,
            items == raw_items_view(raw_capabilities@),
            capabilities@.len() == i,
            forall|k: int|
                0 <= k < i ==> items[k] == JsonView::Text((#[trigger] capabilities@[k])@),
        decreases n - i,
    {
        proof {
            assert(items[i as int] == value_view(raw_capabilities@[i as int]));
        }
        let text = match value_as_string(&raw_capabilities[i]) {
            Some(text) => text,
            None => {
                proof {
                    assert(!(items[i as int] is Text));
                    assert(!spec_all_texts(items));
                }
                return None;
            },
        };
        capabilities.push(text);
        i = i + 1;
    }
    proof {
        assert(items.len() == n);
        assert forall|k: int| 0 <= k < items.len() implies (#[trigger] items[k]) is Text by {
            assert(items[k] == JsonView::Text(capabilities@[k]@));
        }
        assert(spec_all_texts(items));
    }
    Some(
        Greeting {
            version: Version { qemu: QemuVersion { major, minor, micro }, package },
            capabilities,
        },
    )
}

/// What classifying an object's entries must yield: a greeting, return
/// or error response exactly on the three well-formed single-key
/// shapes, with the payload pinned, and a refusal on everything else.
pub open spec fn spec_object_outcome(s: Seq<(Seq<char>, JsonView)>, r: FrameOutcome) -> bool {
    if s.len() == 1 && s[0].0 == "QMP"@ {
        if spec_greeting_ok(s[0].1) {
            r matches FrameOutcome::Frame(resp) && (resp matches Response::Greeting(g)
                && spec_greeting_matches(s[0].1, g))
        } else {
            r matches FrameOutcome::Malformed(_)
        }
    } else if s.len() == 1 && s[0].0 == "return"@ {
        match spec_text_object(s[0].1) {
            Some(m) => r matches FrameOutcome::Frame(resp) && (resp matches Response::Return(pm)
                && pm.wf() && pm.as_map() == m),
            None => r matches FrameOutcome::Malformed(_),
        }
    } else if s.len() == 1 && s[0].0 == "error"@ {
        match spec_text_object(s[0].1) {
            Some(m) => r matches FrameOutcome::Frame(resp) && (resp matches Response::Error(pm)
                && pm.wf() && pm.as_map() == m),
            None => r matches FrameOutcome::Malformed(_),
        }
    } else {
        r matches FrameOutcome::Malformed(_)
    }
}

/// What decoding a frame's bytes must yield, by the named parse of
/// those bytes: pending on a truncated object, a refusal on an invalid
/// one, and the classified response on an object.
pub open spec fn spec_frame_resolution(line: Seq<u8>, r: FrameOutcome) -> bool {
    match frame_object(line) {
        ObjParse::Truncated => r is Incomplete,
        ObjParse::Invalid => r matches FrameOutcome::Malformed(_),
        ObjParse::Object(s) => spec_object_outcome(s, r),
    }
}

/// Classifies one frame's bytes into the three-case response: the
/// outcome the named parse of the bytes dictates.
pub fn decode_frame(line: &Vec<u8>) -> (r: FrameOutcome)
    ensures
        spec_frame_resolution(line@, r),
        r matches FrameOutcome::Frame(resp) ==> match resp {
            Response::Return(m) => m.wf(),
            Response::Error(m) => m.wf(),
            Response::Greeting(_) => true,
        },
{
    proof {
        reveal_strlit("QMP");
        reveal_strlit("return");
        reveal_strlit("error");
        assert("QMP"@.len() == 3 && "return"@.len() == 6 && "error"@.len() == 5);
    }
    let entries = match json_parse_object(line.as_slice()) {
        Ok(entries) => entries,
        Err(JsonFault::Incomplete) => {
            return FrameOutcome::Incomplete;
        },
        Err(JsonFault::Malformed(msg)) => {
            return FrameOutcome::Malformed(msg);
        },
    };
    let ghost s = raw_entries_view(entries@);
    proof {
        assert(s.len() == entries@.len());
    }
    if entries.len() != 1 {
        return FrameOutcome::Malformed(String::from_str("expected an object with one key"));
    }
    proof {
        assert(s[0] == (entries@[0].0@, value_view(entries@[0].1)));
    }
    let value = &entries[0].1;
    if string_eq(entries[0].0.as_str(), "QMP") {
        match parse_greeting(value) {
            Some(greeting) => FrameOutcome::Frame(Response::Greeting(greeting)),
            None => FrameOutcome::Malformed(String::from_str("malformed greeting")),
        }
    } else if string_eq(entries[0].0.as_str(), "return") {
        match value_to_string_map(value) {
            Some(m) => FrameOutcome::Frame(Response::Return(m)),
            None => FrameOutcome::Malformed(String::from_str("malformed return")),
        }
    } else if string_eq(entries[0].0.as_str(), "error") {
        match value_to_string_map(value) {
            Some(m) => FrameOutcome::Frame(Response::Error(m)),
            None => FrameOutcome::Malformed(String::from_str("malformed error")),
        }
    } else {
        FrameOutcome::Malformed(String::from_str("unknown response variant"))
    }
}

/// The message an error response surfaces as: `QMP <class>: <desc>`,
/// with the class defaulting to `Unknown` and the description to
/// `No description`.
pub open spec fn spec_qmp_error_message(m: Map<Seq<char>, Seq<char>>) -> Seq<char> {
    "QMP "@ + (if m.contains_key("class"@) {
        m["class"@]
    } else {
        "Unknown"@
    }) + ": "@ + (if m.contains_key("desc"@) {
        m["desc"@]
    } else {
        "No description"@
    })
}

/// Builds the error an `error` response resolves with.
pub fn qmp_error_of(map: &PropMap) -> (r: Error)
    requires
        map.wf(),
    ensures
        r.spec_kind() == ErrorKind::QMPError,
        r.spec_message() == spec_qmp_error_message(map.as_map()),
{
    let mut message = String::from_str("QMP ");
    match map.get("class") {
        Some(class) => message.append(class.as_str()),
        None => message.append("Unknown"),
    }
    message.append(": ");
    match map.get("desc") {
        Some(desc) => message.append(desc.as_str()),
        None => message.append("No description"),
    }
    Error::from_string(ErrorKind::QMPError, message)
}

/// What one receive poll does with the buffered bytes.
#[derive(Debug)]
pub enum ReceiveStep {
    /// No full frame yet, or a truncated one: suspend, consume nothing.
    Pending,
    /// The frame is unusable; nothing is consumed.
    Fail(Error),
    /// Consume `n` bytes — the first frame and its delimiter — and
    /// resolve with the outcome.
    Consume { n: usize, outcome: Result<Response, Error> },
}

/// What one receive poll must answer for an object the first frame
/// parses to: the error response resolves as a QMP error carrying the
/// canonical message, the other two resolve as themselves, every
/// ill-formed shape fails; a resolution consumes exactly the frame.
pub open spec fn spec_object_step(
    s: Seq<(Seq<char>, JsonView)>,
    consumed: int,
    r: ReceiveStep,
) -> bool {
    if s.len() == 1 && s[0].0 == "QMP"@ {
        if spec_greeting_ok(s[0].1) {
            r matches ReceiveStep::Consume { n, outcome } && n == consumed && (outcome matches Ok(
                resp,
            ) && (resp matches Response::Greeting(g) && spec_greeting_matches(s[0].1, g)))
        } else {
            r matches ReceiveStep::Fail(e) && e.spec_kind() == ErrorKind::IOError
        }
    } else if s.len() == 1 && s[0].0 == "return"@ {
        match spec_text_object(s[0].1) {
            Some(m) => r matches ReceiveStep::Consume { n, outcome } && n == consumed && (outcome
                matches Ok(resp) && (resp matches Response::Return(pm) && pm.wf() && pm.as_map()
                == m)),
            None => r matches ReceiveStep::Fail(e) && e.spec_kind() == ErrorKind::IOError,
        }
    } else if s.len() == 1 && s[0].0 == "error"@ {
        match spec_text_object(s[0].1) {
            Some(m) => r matches ReceiveStep::Consume { n, outcome } && n == consumed && (outcome
                matches Err(e) && e.spec_kind() == ErrorKind::QMPError && e.spec_message()
                == spec_qmp_error_message(m)),
            None => r matches ReceiveStep::Fail(e) && e.spec_kind() == ErrorKind::IOError,
        }
    } else {
        r matches ReceiveStep::Fail(e) && e.spec_kind() == ErrorKind::IOError
    }
}

/// What one receive poll must answer once a frame is closed, by the
/// named parse of the frame's bytes.
pub open spec fn spec_receive_resolution(line: Seq<u8>, consumed: int, r: ReceiveStep) -> bool {
    match frame_object(line) {
        ObjParse::Truncated => r is Pending,
        ObjParse::Invalid => r matches ReceiveStep::Fail(e) && e.spec_kind() == ErrorKind::IOError,
        ObjParse::Object(s) => spec_object_step(s, consumed, r),
    }
}

/// One receive poll over the buffered bytes: takes the first
/// `\n`-terminated frame, if any, and resolves it as the frame's bytes
/// dictate.  An `error` response resolves as a QMP error; a truncated
/// frame suspends; any other parse failure surfaces as an input error
/// without consuming.
pub fn receive_step(buf: &[u8]) -> (r: ReceiveStep)
    ensures
        (forall|k: int| 0 <= k < buf@.len() ==> buf@[k] != 10u8) ==> r is Pending,
        forall|j: int|
            spec_first_newline(buf@, j) ==> spec_receive_resolution(
                spec_frame_line(buf@, j),
                j + 1,
                r,
            ),
        r matches ReceiveStep::Consume { n, outcome } ==> spec_first_newline(buf@, n - 1),
        r matches ReceiveStep::Consume { n, outcome } ==> match outcome {
            Ok(resp) => !(resp is Error),
            Err(e) => e.spec_kind() == ErrorKind::QMPError,
        },
        r matches ReceiveStep::Fail(e) ==> e.spec_kind() == ErrorKind::IOError,
{
    let (line, n) = match take_frame(buf) {
        Some(p) => p,
        None => {
            return ReceiveStep::Pending;
        },
    };
    let r = match decode_frame(&line) {
        FrameOutcome::Incomplete => ReceiveStep::Pending,
        FrameOutcome::Malformed(msg) => ReceiveStep::Fail(
            Error::from_string(ErrorKind::IOError, msg),
        ),
        FrameOutcome::Frame(Response::Error(m)) => {
            let err = qmp_error_of(&m);
            ReceiveStep::Consume { n, outcome: Err(err) }
        },
        FrameOutcome::Frame(resp) => ReceiveStep::Consume { n, outcome: Ok(resp) },
    };
    proof {
        assert forall|j: int| spec_first_newline(buf@, j) implies spec_receive_resolution(
            spec_frame_line(buf@, j),
            j + 1,
            r,
        ) by {
            lemma_frame_unique(buf@, j, n - 1);
        }
    }
    r
}

} // verus!
