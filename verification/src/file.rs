//! File references in a guest document: a local path, or a remote URL
//! cached under a content-addressed local name.
//!
//! The cache name of a remote file is the uppercase-hex digest of the URL
//! string under SHA3-256; fetching itself is outside the library, which
//! only decides the name and whether a fetch is due.

use vstd::prelude::*;
use vstd::string::*;
use crate::error::{Error, ErrorKind};

verus! {

/// A message-digest context of the cryptography library.
#[verifier::external_type_specification]
#[verifier::external_body]
pub struct ExMdCtx(openssl::md_ctx::MdCtx);

/// The digest a given algorithm assigns to a given input.  What the value
/// is lies with the cryptography library; contracts only carry it around.
pub uninterp spec fn digest_of(algorithm: Seq<char>, input: Seq<u8>) -> Seq<u8>;

/// Text free of NUL characters, as the C strings underneath require.
pub open spec fn spec_no_nul(s: Seq<char>) -> bool {
    forall|i: int| 0 <= i < s.len() ==> (#[trigger] s[i]) != '\0'
}

/// An incremental message digest under a named algorithm.
pub struct MessageDigest {
    context: openssl::md_ctx::MdCtx,
    fed: Ghost<Seq<u8>>,
    algorithm: Ghost<Seq<char>>,
    intact: Ghost<bool>,
}

impl MessageDigest {
    /// The input bytes fed so far.
    pub closed spec fn spec_fed(&self) -> Seq<u8> {
        self.fed@
    }

    /// The algorithm name the digest was fetched under.
    pub closed spec fn spec_algorithm(&self) -> Seq<char> {
        self.algorithm@
    }

    /// Whether every update succeeded: after a failed update the
    /// underlying context may no longer match the bytes recorded here,
    /// so the final digest is only pinned for intact contexts.
    pub closed spec fn spec_intact(&self) -> bool {
        self.intact@
    }

    /// New instance of a message digest using the specified algorithm.
    ///
    /// The algorithm refers to an OpenSSL algorithm name; unknown names
    /// fail.  The name crosses into C, so it must not hold a NUL.
    pub fn new(algorithm: &str) -> (r: Result<Self, Error>)
        requires
            spec_no_nul(algorithm@),
        ensures
            r matches Ok(d) ==> d.spec_fed() == Seq::<u8>::empty() && d.spec_algorithm()
                == algorithm@ && d.spec_intact(),
            r matches Err(e) ==> e.spec_kind() == ErrorKind::IOError,
    {
        let context = context_for(algorithm)?;
        Ok(
            MessageDigest {
                context,
                fed: Ghost(Seq::empty()),
                algorithm: Ghost(algorithm@),
                intact: Ghost(true),
            },
        )
    }

    /// Add more input to the digest.  A failed update leaves the bytes
    /// recorded unchanged but marks the context as no longer intact.
    pub fn update(&mut self, input: &[u8]) -> (r: Result<(), Error>)
        ensures
            final(self).spec_algorithm() == old(self).spec_algorithm(),
            r is Ok ==> final(self).spec_fed() == old(self).spec_fed() + input@
                && final(self).spec_intact() == old(self).spec_intact(),
            r matches Err(e) ==> e.spec_kind() == ErrorKind::IOError && final(self).spec_fed()
                == old(self).spec_fed() && !final(self).spec_intact(),
    {
        match context_update(&mut self.context, input) {
            Ok(()) => {
                self.fed = Ghost(self.fed@ + input@);
                Ok(())
            },
            Err(e) => {
                self.intact = Ghost(false);
                Err(e)
            },
        }
    }

    /// Finalize the digest, returning the result.  Relies on openssl's
    /// `digest_final`: for a context whose every update succeeded, the
    /// result is the digest of the bytes fed, under the algorithm the
    /// context was fetched for.
    #[verifier::external_body]
    pub fn finish(self) -> (r: Result<Vec<u8>, Error>)
        ensures
            self.spec_intact() ==> (r matches Ok(v) ==> v@ == digest_of(
                self.spec_algorithm(),
                self.spec_fed(),
            )),
            r matches Err(e) ==> e.spec_kind() == ErrorKind::IOError,
    {
        let mut ctx = self.context;
        let mut output = vec![0u8; ctx.size()];
        ctx.digest_final(&mut output)
            .map_err(|e| Error::from_string(ErrorKind::IOError, e.to_string()))?;
        Ok(output)
    }

    /// Calculate the hash of the input using the provided algorithm.
    pub fn calculate(algorithm: &str, input: &[u8]) -> (r: Result<Vec<u8>, Error>)
        requires
            spec_no_nul(algorithm@),
        ensures
            r matches Ok(v) ==> v@ == digest_of(algorithm@, input@),
            r matches Err(e) ==> e.spec_kind() == ErrorKind::IOError,
    {
        let mut md = Self::new(algorithm)?;
        md.update(input)?;
        proof {
            assert(Seq::<u8>::empty() + input@ =~= input@);
        }
        md.finish()
    }
}

/// Relies on openssl's `Md::fetch`, `MdCtx::new` and `digest_init`: a
/// fresh digest context initialised for the named algorithm, or a failure
/// for names the library does not know.  `Md::fetch` panics on a name
/// holding a NUL (it builds a C string from it), so such names are
/// excluded.
#[verifier::external_body]
fn context_for(algorithm: &str) -> (r: Result<openssl::md_ctx::MdCtx, Error>)
    requires
        spec_no_nul(algorithm@),
    ensures
        r matches Err(e) ==> e.spec_kind() == ErrorKind::IOError,
{
    let md = openssl::md::Md::fetch(None, algorithm, None)
        .map_err(|e| Error::from_string(ErrorKind::IOError, e.to_string()))?;
    let mut context = openssl::md_ctx::MdCtx::new()
        .map_err(|e| Error::from_string(ErrorKind::IOError, e.to_string()))?;
    context.digest_init(&md)
        .map_err(|e| Error::from_string(ErrorKind::IOError, e.to_string()))?;
    Ok(context)
}

/// Relies on openssl's `digest_update`: feeds bytes to the context.
#[verifier::external_body]
fn context_update(context: &mut openssl::md_ctx::MdCtx, input: &[u8]) -> (r: Result<(), Error>)
    ensures
        r matches Err(e) ==> e.spec_kind() == ErrorKind::IOError,
{
    context.digest_update(input)
        .map_err(|e| Error::from_string(ErrorKind::IOError, e.to_string()))
}

/// The uppercase hexadecimal digit for a value below sixteen.
pub open spec fn hex_digit(n: nat) -> char {
    if n < 10 {
        crate::render::dec_digit(n)
    } else if n == 10 {
        'A'
    } else if n == 11 {
        'B'
    } else if n == 12 {
        'C'
    } else if n == 13 {
        'D'
    } else if n == 14 {
        'E'
    } else {
        'F'
    }
}

/// The rendering of one byte in uppercase hex, two digits always.
pub open spec fn spec_hex_byte(b: nat) -> Seq<char> {
    seq![hex_digit(b / 16), hex_digit(b % 16)]
}

/// The concatenated hex renderings of a byte string.
pub open spec fn spec_hex(bytes: Seq<u8>) -> Seq<char>
    decreases bytes.len(),
{
    if bytes.len() == 0 {
        Seq::empty()
    } else {
        spec_hex(bytes.drop_last()) + spec_hex_byte(bytes.last() as nat)
    }
}

/// The one-character string for a hex digit.
fn hex_digit_str(d: u8) -> (r: &'static str)
    requires
        d < 16,
    ensures
        r@ == seq![hex_digit(d as nat)],
{
    if d < 10 {
        crate::render::dec_digit_str(d as u64)
    } else {
        proof {
            reveal_strlit("A");
            reveal_strlit("B");
            reveal_strlit("C");
            reveal_strlit("D");
            reveal_strlit("E");
            reveal_strlit("F");
        }
        let r = match d {
            10 => "A",
            11 => "B",
            12 => "C",
            13 => "D",
            14 => "E",
            _ => "F",
        };
        proof {
            assert(r@ =~= seq![hex_digit(d as nat)]);
        }
        r
    }
}

/// Appends the hex rendering of the bytes, as the cache names use it.
pub fn append_hex(out: &mut String, bytes: &Vec<u8>)
    ensures
        final(out)@ == old(out)@ + spec_hex(bytes@),
{
    let n = bytes.len();
    let mut i: usize = 0;
    proof {
        assert(bytes@.subrange(0, 0) =~= Seq::<u8>::empty());
        assert(old(out)@ + Seq::<char>::empty() =~= old(out)@);
    }
    while i < n
        invariant
            n == bytes@.len(),
            i <= n,
            out@ == old(out)@ + spec_hex(bytes@.subrange(0, i as int)),
        decreases n - i,
    {
        let b = bytes[i];
        out.append(hex_digit_str(b / 16));
        out.append(hex_digit_str(b % 16));
        proof {
            let now = bytes@.subrange(0, i + 1);
            assert(now.drop_last() =~= bytes@.subrange(0, i as int));
            assert(now.last() == bytes@[i as int]);
        }
        i = i + 1;
    }
    proof {
        assert(bytes@.subrange(0, n as int) =~= bytes@);
    }
}

/// The canonical serialization the URL library assigns to a string,
/// when the string parses as an absolute URL; what counts as one, and
/// what the canonical form is, lie with that library.
pub uninterp spec fn parsed_url(s: Seq<char>) -> Option<Seq<char>>;

/// Whether the string parses as an absolute URL.
pub open spec fn is_url_string(s: Seq<char>) -> bool {
    parsed_url(s) is Some
}

/// Relies on url::Url::parse and the serialization of the parsed URL:
/// the canonical form of a URL string, `None` for strings that are not
/// URLs.  The library documents that a URL's serialization reparses to
/// the same URL, so a canonical form is its own canonical form.
#[verifier::external_body]
fn canonicalize_url(s: &str) -> (r: Option<String>)
    ensures
        match r {
            Some(c) => parsed_url(s@) == Some(c@) && parsed_url(c@) == Some(c@),
            None => parsed_url(s@) is None,
        },
{
    url::Url::parse(s).ok().map(|u| u.to_string())
}

/// A file referenced by a guest document: a path on this machine, or a
/// remote URL to be cached locally.
#[derive(Clone, Debug, PartialEq)]
pub enum File {
    Local(String),
    Remote(String),
}

impl File {
    /// A copy of the reference, same kind and same text.
    pub fn duplicate(&self) -> (r: Self)
        ensures
            crate::config::file_eqv(r, *self),
    {
        match self {
            File::Local(path) => File::Local(path.clone()),
            File::Remote(url) => File::Remote(url.clone()),
        }
    }

    /// Reads a file reference from its string form: strings that parse
    /// as a URL are remote and are stored in their canonical form, all
    /// others are local paths kept verbatim.
    pub fn from_string(s: &str) -> (r: File)
        ensures
            is_url_string(s@) ==> (r matches File::Remote(u) && Some(u@) == parsed_url(s@)
                && parsed_url(u@) == Some(u@)),
            !is_url_string(s@) ==> (r matches File::Local(p) && p@ == s@),
    {
        match canonicalize_url(s) {
            Some(canonical) => File::Remote(canonical),
            None => File::Local(String::from_str(s)),
        }
    }

    /// The string form a file reference is written as.
    pub fn to_text(&self) -> (r: String)
        ensures
            self matches File::Local(p) ==> r@ == p@,
            self matches File::Remote(u) ==> r@ == u@,
    {
        match self {
            File::Local(path) => path.clone(),
            File::Remote(url) => url.clone(),
        }
    }

    /// The local path a reference resolves to: a local path verbatim, a
    /// remote URL as its content-addressed cache name — the hex digest
    /// of the stored URL text, which `from_string` keeps canonical —
    /// under the local storage directory.  Fetching the remote bytes is
    /// a separate step.
    pub fn cache_path(&self, local_storage: &str) -> (r: Result<String, Error>)
        ensures
            self matches File::Local(p) ==> (r matches Ok(v) && v@ == p@),
            self matches File::Remote(u) ==> (r matches Ok(v) ==> v@ == local_storage@ + "/"@
                + spec_hex(digest_of("SHA3-256"@, vstd::utf8::encode_utf8(u@)))),
            r matches Err(e) ==> e.spec_kind() == ErrorKind::IOError,
    {
        match self {
            File::Local(path) => Ok(path.clone()),
            File::Remote(url) => {
                proof {
                    reveal_strlit("SHA3-256");
                    assert(spec_no_nul("SHA3-256"@)) by {
                        assert(forall|i: int|
                            0 <= i < "SHA3-256"@.len() ==> ("SHA3-256"@[i] == 'S' || "SHA3-256"@[i]
                                == 'H' || "SHA3-256"@[i] == 'A' || "SHA3-256"@[i] == '3'
                                || "SHA3-256"@[i] == '-' || "SHA3-256"@[i] == '2' || "SHA3-256"@[i]
                                == '5' || "SHA3-256"@[i] == '6'));
                    }
                }
                let digest = MessageDigest::calculate("SHA3-256", url.as_str().as_bytes())?;
                let mut out = String::from_str(local_storage);
                out.append("/");
                append_hex(&mut out, &digest);
                Ok(out)
            },
        }
    }

    /// Whether a cached remote file is to be fetched again: yes when the
    /// remote modification time is known and newer than the local one, and
    /// whenever either time could not be read.
    pub fn should_refetch(remote_filetime: Option<u64>, local_mtime: Option<u64>) -> (r: bool)
        ensures
            r == match (remote_filetime, local_mtime) {
                (Some(ft), Some(mt)) => ft > mt,
                _ => true,
            },
    {
        match (remote_filetime, local_mtime) {
            (Some(ft), Some(mt)) => ft > mt,
            _ => true,
        }
    }
}

} // verus!
