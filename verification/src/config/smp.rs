//! The SMP topology fragment of a guest document.

use vstd::prelude::*;
use vstd::string::*;
use crate::error::Error;
use crate::render::{spec_dec, u64_to_string};

verus! {

#[derive(Clone, Copy, Debug, PartialEq, Eq, Structural)]
pub struct SmpConfig {
    pub cores: Option<u64>,
}

impl SmpConfig {
    /// The arguments the fragment renders to: `-smp cores=<n>` when a
    /// core count is given, nothing otherwise.
    pub open spec fn spec_args(self) -> Seq<Seq<char>> {
        match self.cores {
            Some(c) => seq!["-smp"@, "cores="@ + spec_dec(c as nat)],
            None => Seq::empty(),
        }
    }

    /// Renders the fragment; never fails.
    pub fn as_args(&self) -> (r: Result<Vec<String>, Error>)
        ensures
            r matches Ok(v) && v.deep_view() == self.spec_args(),
    {
        match self.cores {
            Some(cores) => {
                let mut v: Vec<String> = Vec::new();
                v.push(String::from_str("-smp"));
                let rendered = u64_to_string(cores);
                v.push(String::from_str("cores=").concat(rendered.as_str()));
                proof {
                    assert(v.deep_view() =~= self.spec_args());
                }
                Ok(v)
            },
            None => {
                let v: Vec<String> = Vec::new();
                proof {
                    assert(v.deep_view() =~= self.spec_args());
                }
                Ok(v)
            },
        }
    }
}

} // verus!
