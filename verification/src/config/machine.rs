//! The machine-model fragment of a guest document: a machine type plus a
//! free-form property map flattened into the same `-machine` value.

use vstd::prelude::*;
use vstd::string::*;
use crate::error::Error;
use crate::props::PropMap;
use crate::render::{render_props, spec_render_entries};

verus! {

#[derive(Clone, Debug, PartialEq)]
pub struct MachineConfig {
    pub machine_type: String,
    pub props: Option<PropMap>,
}

impl MachineConfig {
    /// The arguments the fragment renders to: always `-machine`, with the
    /// type followed by the sorted `key=value` properties.
    pub open spec fn spec_args(self) -> Seq<Seq<char>> {
        match self.props {
            None => seq!["-machine"@, self.machine_type@],
            Some(p) => seq![
                "-machine"@,
                if p@.len() == 0 {
                    self.machine_type@
                } else {
                    self.machine_type@ + ","@ + spec_render_entries(p@)
                },
            ],
        }
    }

    /// A copy of the fragment with the same type and entries.
    pub fn duplicate(&self) -> (r: Self)
        ensures
            r.machine_type@ == self.machine_type@,
            crate::config::opt_prop_eqv(r.props, self.props),
    {
        Self {
            machine_type: self.machine_type.clone(),
            props: match &self.props {
                Some(p) => Some(p.duplicate()),
                None => None,
            },
        }
    }

    /// The same fragment up to property-map representation: equal types,
    /// and properties denoting the same key-to-value map.
    pub open spec fn congruent(self, other: Self) -> bool {
        self.machine_type@ == other.machine_type@ && match (self.props, other.props) {
            (None, None) => true,
            (Some(a), Some(b)) => a.wf() && b.wf() && a.as_map() == b.as_map(),
            _ => false,
        }
    }

    /// Congruent fragments render identically.
    pub proof fn lemma_congruent_args(self, other: Self)
        requires
            self.congruent(other),
        ensures
            self.spec_args() == other.spec_args(),
    {
        match (self.props, other.props) {
            (Some(a), Some(b)) => {
                crate::props::lemma_prop_map_canonical(a, b);
                assert(self.spec_args() =~~= other.spec_args());
            },
            _ => {
                assert(self.spec_args() =~~= other.spec_args());
            },
        }
    }

    /// Renders the fragment; never fails.
    pub fn as_args(&self) -> (r: Result<Vec<String>, Error>)
        ensures
            r matches Ok(v) && v.deep_view() == self.spec_args(),
    {
        let mut v: Vec<String> = Vec::new();
        v.push(String::from_str("-machine"));
        match &self.props {
            None => {
                v.push(self.machine_type.clone());
            },
            Some(props) => {
                if props.is_empty() {
                    v.push(self.machine_type.clone());
                } else {
                    let rendered = render_props(props);
                    let mut value = self.machine_type.clone();
                    value.append(",");
                    value.append(rendered.as_str());
                    v.push(value);
                }
            },
        }
        proof {
            assert(v.deep_view() =~= self.spec_args());
        }
        Ok(v)
    }
}

} // verus!
