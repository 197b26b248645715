//! Decoding helpers for values read off the wire: the percent-decoding
//! the Unix-socket paths use.

use vstd::prelude::*;
use vstd::string::*;
use crate::error::{Error, ErrorKind};

verus! {

/// Why a percent-decoding failed.
pub enum PercentFault {
    /// A `%` stood without its two encoding characters.
    Truncated,
    /// An escape other than `%20` was met.
    Unsupported,
}

/// The percent-decoding of a string: `%20` becomes a space, every other
/// character stands for itself, and any other use of `%` is refused.
pub open spec fn spec_percent_decode(s: Seq<char>) -> Result<Seq<char>, PercentFault>
    decreases s.len(),
{
    if s.len() == 0 {
        Ok(Seq::empty())
    } else if s[0] == '%' {
        if s.len() < 3 {
            Err(PercentFault::Truncated)
        } else if s[1] == '2' && s[2] == '0' {
            match spec_percent_decode(s.skip(3)) {
                Ok(t) => Ok(seq![' '] + t),
                Err(e) => Err(e),
            }
        } else {
            Err(PercentFault::Unsupported)
        }
    } else {
        match spec_percent_decode(s.skip(1)) {
            Ok(t) => Ok(seq![s[0]] + t),
            Err(e) => Err(e),
        }
    }
}

/// Relies on String::push: appends one character.
#[verifier::external_body]
pub(crate) fn push_char(s: &mut String, c: char)
    ensures
        final(s)@ == old(s)@ + seq![c],
{
    s.push(c);
}

/// Joins a decoded prefix with the decoding of the remaining input.
pub open spec fn spec_decoded_with(prefix: Seq<char>, rest: Result<Seq<char>, PercentFault>) -> Result<
    Seq<char>,
    PercentFault,
> {
    match rest {
        Ok(t) => Ok(prefix + t),
        Err(e) => Err(e),
    }
}

/// Percent-decodes a path: `%20` becomes a space; any other escape is
/// refused as an encoding error, with the message telling a truncated
/// escape from an unsupported one.
pub fn percent_decode(path: &str) -> (r: Result<String, Error>)
    ensures
        match spec_percent_decode(path@) {
            Ok(t) => r matches Ok(v) && v@ == t,
            Err(PercentFault::Truncated) => r matches Err(e) && e.spec_kind()
                == ErrorKind::EncodingError && e.spec_message() == "Expect encoding chars"@,
            Err(PercentFault::Unsupported) => r matches Err(e) && e.spec_kind()
                == ErrorKind::EncodingError && e.spec_message() == "Unsupported encoding"@,
        },
{
    let n = path.unicode_len();
    let mut out = String::new();
    let mut i: usize = 0;
    proof {
        assert(path@.skip(0) =~= path@);
        assert(out@ + path@ =~= path@);
    }
    while i < n
        invariant
            n == path@.len(),
            i <= n,
            spec_percent_decode(path@) == spec_decoded_with(
                out@,
                spec_percent_decode(path@.skip(i as int)),
            ),
        decreases n - i,
    {
        let ghost rest = path@.skip(i as int);
        proof {
            assert(rest[0] == path@[i as int]);
        }
        let ghost out_before = out@;
        let c = path.get_char(i);
        if c == '%' {
            if n - i < 3 {
                proof {
                    assert(rest.len() < 3);
                }
                return Err(Error::new(ErrorKind::EncodingError, "Expect encoding chars"));
            }
            let first = path.get_char(i + 1);
            let second = path.get_char(i + 2);
            proof {
                assert(rest[1] == path@[i + 1]);
                assert(rest[2] == path@[i + 2]);
            }
            if first == '2' && second == '0' {
                push_char(&mut out, ' ');
                proof {
                    assert(rest.skip(3) =~= path@.skip(i + 3));
                    match spec_percent_decode(path@.skip(i + 3)) {
                        Ok(t) => {
                            assert(out_before + (seq![' '] + t) =~= (out_before + seq![' ']) + t);
                        },
                        Err(_) => {},
                    }
                }
                i = i + 3;
            } else {
                return Err(Error::new(ErrorKind::EncodingError, "Unsupported encoding"));
            }
        } else {
            push_char(&mut out, c);
            proof {
                assert(rest.skip(1) =~= path@.skip(i + 1));
                match spec_percent_decode(path@.skip(i + 1)) {
                    Ok(t) => {
                        assert(out_before + (seq![c] + t) =~= (out_before + seq![c]) + t);
                    },
                    Err(_) => {},
                }
            }
            i = i + 1;
        }
    }
    proof {
        assert(path@.skip(n as int).len() == 0);
    }
    Ok(out)
}

} // verus!
