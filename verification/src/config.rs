//! Who the relay seals for, and where the bundles go.

use vstd::prelude::*;

verus! {

/// One recipient: the name of its output directory, and where its public
/// key document is kept.
#[derive(Debug)]
pub struct Target {
    pub name: String,
    pub key_url: String,
}

/// The recipients as a configuration file lists them.
#[derive(Debug)]
pub struct ConfigFile {
    pub targets: Vec<Target>,
}

/// The recipients, and the root of the output directories.
#[derive(Debug)]
pub struct Config {
    pub targets: Vec<Target>,
    pub output: String,
}

impl Config {
    /// The configuration of a run: the recipients of `file`, and `output`.
    pub fn new(file: ConfigFile, output: String) -> (config: Config)
        ensures
            config.targets == file.targets,
            config.output == output,
    {
        Config { targets: file.targets, output }
    }
}

} // verus!
