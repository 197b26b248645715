//! The boot-order fragment of a guest document.

use vstd::prelude::*;
use vstd::string::*;
use crate::error::Error;

verus! {

#[derive(Clone, Debug, PartialEq)]
pub struct BootConfig {
    pub order: Option<String>,
}

impl BootConfig {
    /// The arguments the fragment renders to: `-boot order=<v>` when an
    /// order is given, nothing otherwise.
    pub open spec fn spec_args(self) -> Seq<Seq<char>> {
        match self.order {
            Some(o) => seq!["-boot"@, "order="@ + o@],
            None => Seq::empty(),
        }
    }

    /// A copy of the fragment with the same order text.
    pub fn duplicate(&self) -> (r: Self)
        ensures
            crate::config::opt_string_eqv(r.order, self.order),
    {
        match &self.order {
            Some(order) => Self { order: Some(order.clone()) },
            None => Self { order: None },
        }
    }

    /// Renders the fragment; never fails.
    pub fn as_args(&self) -> (r: Result<Vec<String>, Error>)
        ensures
            r matches Ok(v) && v.deep_view() == self.spec_args(),
    {
        match &self.order {
            Some(order) => {
                let mut v: Vec<String> = Vec::new();
                v.push(String::from_str("-boot"));
                v.push(String::from_str("order=").concat(order.as_str()));
                proof {
                    assert(v.deep_view() =~= self.spec_args());
                }
                Ok(v)
            },
            None => {
                let v: Vec<String> = Vec::new();
                proof {
                    assert(v.deep_view() =~= self.spec_args());
                }
                Ok(v)
            },
        }
    }
}

} // verus!
