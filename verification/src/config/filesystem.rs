//! The shared-filesystem fragment of a guest document, rendered into one
//! `-fsdev` value.

use vstd::prelude::*;
use vstd::string::*;
use crate::error::Error;
use crate::props::PropMap;
use crate::render::{render_props, spec_render_entries};

verus! {

/// The default fsdev driver name.
pub fn local() -> (r: String)
    ensures
        r@ == "local"@,
{
    String::from_str("local")
}

/// The security model of a shared-filesystem mount.
#[derive(Clone, Copy, Debug, PartialEq, Eq, Structural)]
pub enum SecurityModel {
    Passthrough,
    Mapped,
    MappedXattr,
    MappedFile,
    NoModel,
}

impl SecurityModel {
    /// The kebab-case name the model is written as.
    pub open spec fn spec_text(self) -> Seq<char> {
        match self {
            SecurityModel::Passthrough => "passthrough"@,
            SecurityModel::Mapped => "mapped"@,
            SecurityModel::MappedXattr => "mapped-xattr"@,
            SecurityModel::MappedFile => "mapped-file"@,
            SecurityModel::NoModel => "none"@,
        }
    }

    pub fn as_text(&self) -> (r: &'static str)
        ensures
            r@ == self.spec_text(),
    {
        match self {
            SecurityModel::Passthrough => "passthrough",
            SecurityModel::Mapped => "mapped",
            SecurityModel::MappedXattr => "mapped-xattr",
            SecurityModel::MappedFile => "mapped-file",
            SecurityModel::NoModel => "none",
        }
    }
}

#[derive(Clone, Debug, PartialEq)]
pub struct FilesystemDeviceConfig {
    /// The fsdev driver.
    pub driver: String,
    /// Path to local directory to mount.
    pub path: String,
    /// The tag name to be used by guest to mount.
    pub mount_tag: String,
    /// The security model of the mount.
    pub security_model: SecurityModel,
    /// Optional passthrough options.
    pub options: Option<PropMap>,
}

impl FilesystemDeviceConfig {
    /// The single `-fsdev` value: driver, path, mount tag and security
    /// model, with any sorted passthrough options after them.
    pub open spec fn spec_value(self) -> Seq<char> {
        self.driver@ + ",path="@ + self.path@ + ",mount_tag="@ + self.mount_tag@
            + ",security_model="@ + self.security_model.spec_text() + (match self.options {
            Some(p) => if p@.len() == 0 {
                Seq::<char>::empty()
            } else {
                ","@ + spec_render_entries(p@)
            },
            None => Seq::<char>::empty(),
        })
    }

    /// The arguments the fragment renders to.
    pub open spec fn spec_args(self) -> Seq<Seq<char>> {
        seq!["-fsdev"@, self.spec_value()]
    }

    /// Renders the fragment; never fails.
    pub fn as_args(&self) -> (r: Result<Vec<String>, Error>)
        ensures
            r matches Ok(v) && v.deep_view() == self.spec_args(),
    {
        let mut value = self.driver.clone();
        value.append(",path=");
        value.append(self.path.as_str());
        value.append(",mount_tag=");
        value.append(self.mount_tag.as_str());
        value.append(",security_model=");
        value.append(self.security_model.as_text());
        match &self.options {
            Some(options) => {
                if !options.is_empty() {
                    let rendered = render_props(options);
                    value.append(",");
                    value.append(rendered.as_str());
                }
            },
            None => {},
        }
        proof {
            assert(value@ =~= self.spec_value());
        }
        let mut v: Vec<String> = Vec::new();
        v.push(String::from_str("-fsdev"));
        v.push(value);
        proof {
            assert(v.deep_view() =~= self.spec_args());
        }
        Ok(v)
    }
}

} // verus!
