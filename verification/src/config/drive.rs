//! The drive configuration: a record that is nothing but a free-form
//! property map, rendered whole into one `-drive` value.

use vstd::prelude::*;
use vstd::string::*;
use crate::error::Error;
use crate::props::PropMap;
use crate::render::{render_props, spec_render_entries};

verus! {

#[derive(Clone, Debug, PartialEq)]
pub struct DriveConfig {
    pub options: PropMap,
}

impl DriveConfig {
    /// The arguments the record renders to: `-drive` followed by the
    /// sorted `key=value` options, an empty value for an empty map.
    pub open spec fn spec_args(self) -> Seq<Seq<char>> {
        seq!["-drive"@, spec_render_entries(self.options@)]
    }

    /// A copy of the record with the same options.
    pub fn duplicate(&self) -> (r: Self)
        ensures
            r.options@ == self.options@,
    {
        Self { options: self.options.duplicate() }
    }

    /// The same record up to property-map representation.
    pub open spec fn congruent(self, other: Self) -> bool {
        self.options.wf() && other.options.wf() && self.options.as_map() == other.options.as_map()
    }

    /// Congruent records render identically.
    pub proof fn lemma_congruent_args(self, other: Self)
        requires
            self.congruent(other),
        ensures
            self.spec_args() == other.spec_args(),
    {
        crate::props::lemma_prop_map_canonical(self.options, other.options);
        assert(self.spec_args() =~~= other.spec_args());
    }

    /// Renders the record; never fails.
    pub fn as_args(&self) -> (r: Result<Vec<String>, Error>)
        ensures
            r matches Ok(v) && v.deep_view() == self.spec_args(),
    {
        let mut v: Vec<String> = Vec::new();
        v.push(String::from_str("-drive"));
        v.push(render_props(&self.options));
        proof {
            assert(v.deep_view() =~= self.spec_args());
        }
        Ok(v)
    }
}

} // verus!
