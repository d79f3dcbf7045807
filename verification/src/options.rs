//! Plain argument payloads for the testnet materializer commands.  A CLI
//! front end parses flags into these values; the library only carries them.

use vstd::prelude::*;

verus! {

/// Arguments of the command that validates a testnet manifest.
pub struct MaterializerValidateArgs {
    /// Path to the manifest file.  The format of the manifest (e.g. JSON or
    /// YAML) is determined from the file extension.
    pub manifest_file: String,
}

/// Arguments of the command that sets up a testnet.
pub struct MaterializerSetupArgs {
    /// Path to the manifest file.  The format of the manifest (e.g. JSON or
    /// YAML) is determined from the file extension.
    pub manifest_file: String,
    /// Whether to validate the manifest before setting up the testnet.
    pub validate: bool,
}

/// Arguments of the command that tears a testnet down.
pub struct MaterializerRemoveArgs {
    /// ID of the testnet to remove.
    pub testnet_id: String,
}

/// The materializer subcommands.
pub enum MaterializerCommands {
    /// Validate a testnet manifest.
    Validate(MaterializerValidateArgs),
    /// Setup a testnet.
    Setup(MaterializerSetupArgs),
    /// Tear down a testnet.
    Remove(MaterializerRemoveArgs),
}

/// The materializer command line: where artifacts go, the seed for random
/// values, and the subcommand to run.
pub struct MaterializerArgs {
    /// Path to the directory where the materializer can store its artifacts.
    /// This must be the same between materializer invocations.
    pub data_dir: String,
    /// Seed for random values in the materialized testnet.
    pub seed: u64,
    pub command: MaterializerCommands,
}

} // verus!
