//! The guest device fragment: a type plus flattened free-form
//! properties, rendered into one `-device` value.

use vstd::prelude::*;
use vstd::string::*;
use crate::error::Error;
use crate::props::PropMap;
use crate::render::{render_props, spec_render_entries};

verus! {

#[derive(Clone, Debug, PartialEq)]
pub struct DeviceConfig {
    /// Type of device.
    pub device_type: String,
    pub props: Option<PropMap>,
}

impl DeviceConfig {
    /// The arguments the fragment renders to: always `-device`, with the
    /// type followed by the sorted `key=value` properties when any exist.
    pub open spec fn spec_args(self) -> Seq<Seq<char>> {
        match self.props {
            None => seq!["-device"@, self.device_type@],
            Some(p) => seq![
                "-device"@,
                if p@.len() == 0 {
                    self.device_type@
                } else {
                    self.device_type@ + ","@ + spec_render_entries(p@)
                },
            ],
        }
    }

    /// Renders the fragment; never fails.
    pub fn as_args(&self) -> (r: Result<Vec<String>, Error>)
        ensures
            r matches Ok(v) && v.deep_view() == self.spec_args(),
    {
        let mut v: Vec<String> = Vec::new();
        v.push(String::from_str("-device"));
        match &self.props {
            None => {
                v.push(self.device_type.clone());
            },
            Some(props) => {
                if props.is_empty() {
                    v.push(self.device_type.clone());
                } else {
                    let rendered = render_props(props);
                    let mut value = self.device_type.clone();
                    value.append(",");
                    value.append(rendered.as_str());
                    v.push(value);
                }
            },
        }
        proof {
            assert(v.deep_view() =~= self.spec_args());
        }
        Ok(v)
    }
}

} // verus!
