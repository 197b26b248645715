//! The control plane's decisions: which route a request selects, how
//! the daemon binds its listener, what the health probe answers, and
//! which configured values the environment overrides.
//!
//! The HTTP server, the sockets and the environment themselves live
//! outside; they hand these functions the method, the path and the
//! plain strings they read.

use vstd::prelude::*;
use vstd::string::*;
use crate::de::percent_decode;
use crate::error::{Error, ErrorKind};
use crate::props::string_eq;

verus! {

/// Whether a character is a decimal digit.
pub open spec fn spec_is_digit(c: char) -> bool {
    48 <= c as int <= 57
}

/// Whether a string is all digits.
pub open spec fn spec_all_digits(s: Seq<char>) -> bool {
    forall|i: int| 0 <= i < s.len() ==> spec_is_digit(#[trigger] s[i])
}

/// The value of a digit string, most significant first.
pub open spec fn spec_digits_val(s: Seq<char>) -> int
    decreases s.len(),
{
    if s.len() == 0 {
        0
    } else {
        spec_digits_val(s.drop_last()) * 10 + (s.last() as int - 48)
    }
}

/// Ten to a power.
pub open spec fn pow10(n: nat) -> int
    decreases n,
{
    if n == 0 {
        1
    } else {
        10 * pow10((n - 1) as nat)
    }
}

/// A digit string's value is bounded by ten to its length.
proof fn lemma_digits_bound(s: Seq<char>)
    requires
        spec_all_digits(s),
    ensures
        0 <= spec_digits_val(s) < pow10(s.len()),
    decreases s.len(),
{
    if s.len() > 0 {
        assert(spec_all_digits(s.drop_last())) by {
            assert(forall|i: int|
                0 <= i < s.len() - 1 ==> spec_is_digit(#[trigger] s.drop_last()[i])
                    == spec_is_digit(s[i]));
        }
        lemma_digits_bound(s.drop_last());
        assert(spec_is_digit(s[s.len() - 1]));
    }
}

/// Parses a decimal id: it parses exactly when the text is one to
/// nineteen digits, long enough for every id the store hands out.
pub fn parse_id(s: &str) -> (r: Option<u64>)
    ensures
        r matches Some(v) ==> s@.len() > 0 && spec_all_digits(s@) && v as int == spec_digits_val(
            s@,
        ),
        s@.len() > 0 && s@.len() <= 19 && spec_all_digits(s@) ==> r is Some,
        r is Some ==> s@.len() <= 19,
{
    let n = s.unicode_len();
    if n == 0 || n > 19 {
        return None;
    }
    let mut acc: u64 = 0;
    let mut i: usize = 0;
    proof {
        assert(s@.subrange(0, 0) =~= Seq::<char>::empty());
        assert(pow10(0) == 1);
        assert(pow10(1) == 10);
        assert(pow10(2) == 100);
        assert(pow10(3) == 1000);
        assert(pow10(4) == 10000);
        assert(pow10(5) == 100000);
        assert(pow10(6) == 1000000);
        assert(pow10(7) == 10000000);
        assert(pow10(8) == 100000000);
        assert(pow10(9) == 1000000000);
        assert(pow10(10) == 10000000000);
        assert(pow10(11) == 100000000000);
        assert(pow10(12) == 1000000000000);
        assert(pow10(13) == 10000000000000);
        assert(pow10(14) == 100000000000000);
        assert(pow10(15) == 1000000000000000);
        assert(pow10(16) == 10000000000000000);
        assert(pow10(17) == 100000000000000000);
        assert(pow10(18) == 1000000000000000000);
        assert(pow10(19) == 10000000000000000000);
    }
    while i < n
        invariant
            n == s@.len(),
            0 < n <= 19,
            i <= n,
            spec_all_digits(s@.subrange(0, i as int)),
            acc as int == spec_digits_val(s@.subrange(0, i as int)),
            (acc as int) < pow10(i as nat),
            pow10(18) == 1000000000000000000,
        decreases n - i,
    {
        let c = s.get_char(i);
        let code = c as u32;
        if code < 48 || code > 57 {
            proof {
                assert(!spec_is_digit(s@[i as int]));
            }
            return None;
        }
        let digit = (code - 48) as u64;
        proof {
            let prefix = s@.subrange(0, i as int);
            let now = s@.subrange(0, i + 1);
            assert(now.drop_last() =~= prefix);
            assert(now.last() == s@[i as int]);
            lemma_pow10_increases(i as nat, 18);
            assert((acc as int) <= pow10(18) - 1);
            assert(pow10((i + 1) as nat) == 10 * pow10(i as nat));
        }
        acc = acc * 10 + digit;
        i = i + 1;
    }
    proof {
        assert(s@.subrange(0, n as int) =~= s@);
    }
    Some(acc)
}

/// Ten to a power is positive.
proof fn lemma_pow10_pos(a: nat)
    ensures
        pow10(a) >= 1,
    decreases a,
{
    if a > 0 {
        lemma_pow10_pos((a - 1) as nat);
    }
}

/// Ten to a power grows with the power and stays positive.
proof fn lemma_pow10_increases(a: nat, b: nat)
    requires
        a <= b,
    ensures
        1 <= pow10(a) <= pow10(b),
    decreases b,
{
    lemma_pow10_pos(a);
    if a < b {
        lemma_pow10_increases(a, (b - 1) as nat);
    }
}

/// Whether a string begins with a prefix.
pub open spec fn spec_starts_with(s: Seq<char>, prefix: Seq<char>) -> bool {
    s.len() >= prefix.len() && s.subrange(0, prefix.len() as int) == prefix
}

/// Tests a prefix.
pub fn starts_with(s: &str, prefix: &str) -> (r: bool)
    ensures
        r == spec_starts_with(s@, prefix@),
{
    let n = s.unicode_len();
    let p = prefix.unicode_len();
    if n < p {
        return false;
    }
    let head = s.substring_char(0, p);
    string_eq(head, prefix)
}

/// A path segment: non-empty text without a separator.
pub open spec fn spec_is_segment(s: Seq<char>) -> bool {
    s.len() > 0 && forall|i: int| 0 <= i < s.len() ==> (#[trigger] s[i]) != '/'
}

/// Tests whether text is one path segment.
pub fn is_segment(s: &str) -> (r: bool)
    ensures
        r == spec_is_segment(s@),
{
    let n = s.unicode_len();
    if n == 0 {
        return false;
    }
    let mut i: usize = 0;
    while i < n
        invariant
            n == s@.len(),
            0 < n,
            i <= n,
            forall|k: int| 0 <= k < i ==> (#[trigger] s@[k]) != '/',
        decreases n - i,
    {
        if s.get_char(i) == '/' {
            return false;
        }
        i = i + 1;
    }
    true
}

/// A route of the control plane, with its captured parameter.
#[derive(Debug)]
pub enum Route {
    /// `GET /health`: the readiness probe.
    Health,
    /// `POST /guests/create/:name`: file a document.
    Create(String),
    /// `DELETE /guests/remove/:id`: drop a document.
    Remove(isize),
    /// `GET /guests/list`: the labeled listing.
    List,
    /// `GET /guests/lookup/:name`: the id under a name.
    Lookup(String),
    /// `POST /guests/start/:id`: run a guest.
    Start(usize),
    /// `POST /guests/shutdown/:id`: power a guest down.
    Shutdown(usize),
}

/// Matches a request onto the route table.  Parameterised routes
/// capture exactly one segment; id routes take a decimal id that fits
/// the parameter's type, and anything else finds no route.
pub fn match_route(method: &str, path: &str) -> (r: Option<Route>)
    ensures
        r matches Some(Route::Health) ==> method@ == "GET"@ && path@ == "/health"@,
        r matches Some(Route::List) ==> method@ == "GET"@ && path@ == "/guests/list"@,
        r matches Some(Route::Lookup(name)) ==> method@ == "GET"@ && path@ == "/guests/lookup/"@
            + name@ && spec_is_segment(name@),
        r matches Some(Route::Create(name)) ==> method@ == "POST"@ && path@ == "/guests/create/"@
            + name@ && spec_is_segment(name@),
        r matches Some(Route::Start(id)) ==> method@ == "POST"@ && spec_starts_with(
            path@,
            "/guests/start/"@,
        ) && id as int == spec_digits_val(path@.skip("/guests/start/"@.len() as int)),
        r matches Some(Route::Shutdown(id)) ==> method@ == "POST"@ && spec_starts_with(
            path@,
            "/guests/shutdown/"@,
        ) && id as int == spec_digits_val(path@.skip("/guests/shutdown/"@.len() as int)),
        r matches Some(Route::Remove(id)) ==> method@ == "DELETE"@ && spec_starts_with(
            path@,
            "/guests/remove/"@,
        ) && id as int == spec_digits_val(path@.skip("/guests/remove/"@.len() as int)),
        method@ == "GET"@ && path@ == "/health"@ ==> r matches Some(Route::Health),
        method@ == "GET"@ && path@ == "/guests/list"@ ==> r matches Some(Route::List),
        method@ == "GET"@ && spec_starts_with(path@, "/guests/lookup/"@) && spec_is_segment(
            path@.skip("/guests/lookup/"@.len() as int),
        ) ==> (r matches Some(Route::Lookup(n)) && n@ == path@.skip(
            "/guests/lookup/"@.len() as int,
        )),
        method@ == "POST"@ && spec_starts_with(path@, "/guests/create/"@) && spec_is_segment(
            path@.skip("/guests/create/"@.len() as int),
        ) ==> (r matches Some(Route::Create(n)) && n@ == path@.skip(
            "/guests/create/"@.len() as int,
        )),
        method@ == "POST"@ && spec_starts_with(path@, "/guests/start/"@) && spec_plain_id(
            path@.skip("/guests/start/"@.len() as int),
            usize::MAX as int,
        ) ==> (r matches Some(Route::Start(id)) && id as int == spec_digits_val(
            path@.skip("/guests/start/"@.len() as int),
        )),
        method@ == "POST"@ && spec_starts_with(path@, "/guests/shutdown/"@) && spec_plain_id(
            path@.skip("/guests/shutdown/"@.len() as int),
            usize::MAX as int,
        ) ==> (r matches Some(Route::Shutdown(id)) && id as int == spec_digits_val(
            path@.skip("/guests/shutdown/"@.len() as int),
        )),
        method@ == "DELETE"@ && spec_starts_with(path@, "/guests/remove/"@) && spec_plain_id(
            path@.skip("/guests/remove/"@.len() as int),
            isize::MAX as int,
        ) ==> (r matches Some(Route::Remove(id)) && id as int == spec_digits_val(
            path@.skip("/guests/remove/"@.len() as int),
        )),
{
    proof {
        reveal_strlit("GET");
        reveal_strlit("POST");
        reveal_strlit("DELETE");
        assert("GET"@.len() == 3 && "POST"@.len() == 4 && "DELETE"@.len() == 6);
        reveal_strlit("/health");
        reveal_strlit("/guests/list");
        reveal_strlit("/guests/lookup/");
        reveal_strlit("/guests/create/");
        reveal_strlit("/guests/start/");
        reveal_strlit("/guests/shutdown/");
        reveal_strlit("/guests/remove/");
        assert("/health"@.len() == 7);
        assert("/guests/list"@.len() == 12);
        assert("/guests/lookup/"@.len() == 15);
        assert("/guests/create/"@.len() == 15 && "/guests/create/"@[8] == 'c');
        assert("/guests/start/"@.len() == 14 && "/guests/start/"@[8] == 's'
            && "/guests/start/"@[9] == 't');
        assert("/guests/shutdown/"@.len() == 17 && "/guests/shutdown/"@[8] == 's'
            && "/guests/shutdown/"@[9] == 'h');
        assert("/guests/remove/"@.len() == 15);
        lemma_prefix_chars(path@, "/guests/create/"@);
        lemma_prefix_chars(path@, "/guests/start/"@);
        lemma_prefix_chars(path@, "/guests/shutdown/"@);
    }
    if string_eq(method, "GET") {
        if string_eq(path, "/health") {
            return Some(Route::Health);
        }
        if string_eq(path, "/guests/list") {
            return Some(Route::List);
        }
        if starts_with(path, "/guests/lookup/") {
            let rest = tail_after(path, "/guests/lookup/");
            if is_segment(rest) {
                return Some(Route::Lookup(String::from_str(rest)));
            }
        }
        None
    } else if string_eq(method, "POST") {
        if starts_with(path, "/guests/create/") {
            let rest = tail_after(path, "/guests/create/");
            if is_segment(rest) {
                return Some(Route::Create(String::from_str(rest)));
            }
            return None;
        }
        if starts_with(path, "/guests/start/") {
            let rest = tail_after(path, "/guests/start/");
            if let Some(id) = parse_id(rest) {
                if id <= (usize::MAX as u64) {
                    return Some(Route::Start(id as usize));
                }
            }
            return None;
        }
        if starts_with(path, "/guests/shutdown/") {
            let rest = tail_after(path, "/guests/shutdown/");
            if let Some(id) = parse_id(rest) {
                if id <= (usize::MAX as u64) {
                    return Some(Route::Shutdown(id as usize));
                }
            }
            return None;
        }
        None
    } else if string_eq(method, "DELETE") {
        if starts_with(path, "/guests/remove/") {
            let rest = tail_after(path, "/guests/remove/");
            if let Some(id) = parse_id(rest) {
                if id <= (isize::MAX as u64) {
                    return Some(Route::Remove(id as isize));
                }
            }
        }
        None
    } else {
        None
    }
}

/// An id parameter as the route table takes it: one to nineteen
/// digits, denoting a value within the bound.
pub open spec fn spec_plain_id(s: Seq<char>, bound: int) -> bool {
    1 <= s.len() <= 19 && spec_all_digits(s) && spec_digits_val(s) <= bound
}

/// A string beginning with a prefix carries the prefix's characters.
proof fn lemma_prefix_chars(s: Seq<char>, prefix: Seq<char>)
    ensures
        spec_starts_with(s, prefix) ==> forall|i: int|
            0 <= i < prefix.len() ==> s[i] == #[trigger] prefix[i],
{
    if spec_starts_with(s, prefix) {
        assert forall|i: int| 0 <= i < prefix.len() implies s[i] == #[trigger] prefix[i] by {
            assert(s.subrange(0, prefix.len() as int)[i] == s[i]);
        }
    }
}

/// The rest of a path after a prefix it is known to begin with.
pub(crate) fn tail_after<'a>(s: &'a str, prefix: &str) -> (r: &'a str)
    requires
        spec_starts_with(s@, prefix@),
    ensures
        r@ == s@.skip(prefix@.len() as int),
        s@ == prefix@ + r@,
{
    let n = s.unicode_len();
    let p = prefix.unicode_len();
    let r = s.substring_char(p, n);
    proof {
        assert(r@ =~= s@.skip(prefix@.len() as int));
        assert(s@ =~= prefix@ + r@);
    }
    r
}

/// Where the daemon listens.
#[derive(Debug)]
pub enum ListenPlan {
    /// Bind a TCP socket.
    Tcp { host: String, port: u16 },
    /// Bind a Unix-domain socket at the decoded path, removing any
    /// stale socket file first.
    Unix { path: String },
}

/// Decides the transport from the listen URL's parts: `tcp` binds host
/// and port, `unix` binds the percent-decoded path.  An unknown scheme,
/// a tcp URL without a port, or an undecodable path is refused.
pub fn listen_plan(scheme: &str, host: &str, port: Option<u16>, path: &str) -> (r: Result<
    ListenPlan,
    Error,
>)
    ensures
        scheme@ == "tcp"@ ==> (port matches Some(p) ==> (r matches Ok(plan) && plan matches
            ListenPlan::Tcp { host: h, port: q } && h@ == host@ && q == p)),
        scheme@ == "tcp"@ && port is None ==> (r matches Err(e) && e.spec_kind()
            == ErrorKind::DaemonError),
        scheme@ == "unix"@ ==> match crate::de::spec_percent_decode(path@) {
            Ok(t) => r matches Ok(plan) && plan matches ListenPlan::Unix { path: q } && q@ == t,
            Err(_) => r matches Err(e) && e.spec_kind() == ErrorKind::EncodingError,
        },
        scheme@ != "tcp"@ && scheme@ != "unix"@ ==> (r matches Err(e) && e.spec_kind()
            == ErrorKind::DaemonError),
{
    proof {
        reveal_strlit("tcp");
        reveal_strlit("unix");
        assert("tcp"@.len() == 3);
        assert("unix"@.len() == 4);
    }
    if string_eq(scheme, "tcp") {
        match port {
            Some(port) => Ok(ListenPlan::Tcp { host: String::from_str(host), port }),
            None => Err(Error::new(ErrorKind::DaemonError, "a tcp listen URL needs a port")),
        }
    } else if string_eq(scheme, "unix") {
        let decoded = percent_decode(path)?;
        Ok(ListenPlan::Unix { path: decoded })
    } else {
        Err(Error::new(ErrorKind::DaemonError, "unsupported listen scheme"))
    }
}

/// The readiness answer: `Ready` while the store answers a listing,
/// `Pending` otherwise.
pub fn health_text(list_ok: bool) -> (r: Result<String, Error>)
    ensures
        list_ok ==> (r matches Ok(v) && v@ == "Ready"@),
        !list_ok ==> (r matches Err(e) && e.spec_kind() == ErrorKind::Pending
            && e.spec_message() == "Unable to access database"@),
{
    if list_ok {
        Ok(String::from_str("Ready"))
    } else {
        Err(Error::new(ErrorKind::Pending, "Unable to access database"))
    }
}

/// An environment override: the variable's value when it is set, the
/// configured value otherwise.
pub fn env_override(env_value: Option<String>, configured: String) -> (r: String)
    ensures
        env_value matches Some(v) ==> r == v,
        env_value is None ==> r == configured,
{
    match env_value {
        Some(v) => v,
        None => configured,
    }
}

/// The default storage address under a runtime directory.
pub fn default_storage_uri(runtime_dir: &str) -> (r: String)
    ensures
        r@ == runtime_dir@ + "/storage.db"@,
{
    String::from_str(runtime_dir).concat("/storage.db")
}

} // verus!
