//! The description of a container.
use vstd::prelude::*;

use crate::text::texts;

verus! {

/// What the contained command may reach.
#[derive(Debug, PartialEq, Eq)]
pub struct ContainConfig {
    /// Schemes that the command reaches directly.
    pub pass_schemes: Vec<String>,
    /// Schemes that are served to the command through a filter.
    pub sandbox_schemes: Vec<String>,
    /// Files that the filter lets through.
    pub files: Vec<String>,
    /// Directories that the filter lets through.
    pub dirs: Vec<String>,
    /// Files that the filter lets through for reading only.
    pub rofiles: Vec<String>,
    /// Directories that the filter lets through for reading only.
    pub rodirs: Vec<String>,
    /// The root directory, which has to lie in a sandboxed scheme.
    pub root: Option<String>,
}

/// The texts of a configuration.
#[verifier::ext_equal]
pub struct ConfigView {
    pub pass_schemes: Seq<Seq<char>>,
    pub sandbox_schemes: Seq<Seq<char>>,
    pub files: Seq<Seq<char>>,
    pub dirs: Seq<Seq<char>>,
    pub rofiles: Seq<Seq<char>>,
    pub rodirs: Seq<Seq<char>>,
    pub root: Option<Seq<char>>,
}

impl View for ContainConfig {
    type V = ConfigView;

    open spec fn view(&self) -> ConfigView {
        ConfigView {
            pass_schemes: texts(self.pass_schemes@),
            sandbox_schemes: texts(self.sandbox_schemes@),
            files: texts(self.files@),
            dirs: texts(self.dirs@),
            rofiles: texts(self.rofiles@),
            rodirs: texts(self.rodirs@),
            root: match self.root {
                Some(root) => Some(root@),
                None => None,
            },
        }
    }
}

} // verus!
