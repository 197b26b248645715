//! The network backend fragment of a guest document: a type plus
//! flattened free-form properties, rendered into one `-netdev` value.

use vstd::prelude::*;
use vstd::string::*;
use crate::error::Error;
use crate::props::PropMap;
use crate::render::{render_props, spec_render_entries};

verus! {

#[derive(Clone, Debug, PartialEq)]
pub struct NetworkDeviceConfig {
    /// Type of device.
    pub device_type: String,
    pub props: Option<PropMap>,
}

impl NetworkDeviceConfig {
    /// The arguments the fragment renders to: always `-netdev`, with the
    /// type followed by the sorted `key=value` properties when any exist.
    pub open spec fn spec_args(self) -> Seq<Seq<char>> {
        match self.props {
            None => seq!["-netdev"@, self.device_type@],
            Some(p) => seq![
                "-netdev"@,
                if p@.len() == 0 {
                    self.device_type@
                } else {
                    self.device_type@ + ","@ + spec_render_entries(p@)
                },
            ],
        }
    }

    /// A copy of the fragment with the same type and entries.
    pub fn duplicate(&self) -> (r: Self)
        ensures
            r.device_type@ == self.device_type@,
            crate::config::opt_prop_eqv(r.props, self.props),
    {
        Self {
            device_type: self.device_type.clone(),
            props: match &self.props {
                Some(p) => Some(p.duplicate()),
                None => None,
            },
        }
    }

    /// The same fragment up to property-map representation.
    pub open spec fn congruent(self, other: Self) -> bool {
        self.device_type@ == other.device_type@ && match (self.props, other.props) {
            (None, None) => true,
            (Some(a), Some(b)) => a.wf() && b.wf() && a.as_map() == b.as_map(),
            _ => false,
        }
    }

    /// Congruent fragments render identically.
    pub proof fn lemma_congruent_args(self, other: Self)
        requires
            self.congruent(other),
        ensures
            self.spec_args() == other.spec_args(),
    {
        match (self.props, other.props) {
            (Some(a), Some(b)) => {
                crate::props::lemma_prop_map_canonical(a, b);
                assert(self.spec_args() =~~= other.spec_args());
            },
            _ => {
                assert(self.spec_args() =~~= other.spec_args());
            },
        }
    }

    /// Renders the fragment; never fails.
    pub fn as_args(&self) -> (r: Result<Vec<String>, Error>)
        ensures
            r matches Ok(v) && v.deep_view() == self.spec_args(),
    {
        let mut v: Vec<String> = Vec::new();
        v.push(String::from_str("-netdev"));
        match &self.props {
            None => {
                v.push(self.device_type.clone());
            },
            Some(props) => {
                if props.is_empty() {
                    v.push(self.device_type.clone());
                } else {
                    let rendered = render_props(props);
                    let mut value = self.device_type.clone();
                    value.append(",");
                    value.append(rendered.as_str());
                    v.push(value);
                }
            },
        }
        proof {
            assert(v.deep_view() =~= self.spec_args());
        }
        Ok(v)
    }
}

} // verus!
