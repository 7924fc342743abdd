//! When external knowledge is synced, and under which configuration.

use vstd::prelude::*;

verus! {

/// The configuration file that is read where none is given.
pub const DEFAULT_CONFIG: &'static str = "litho.toml";

/// Where the configuration comes from.
#[derive(Debug)]
pub enum ConfigSource<P> {
    /// The file that was given.
    Given(P),
    /// The default file.
    DefaultFile,
    /// The built-in defaults.
    BuiltIn,
}

/// The file given with the subcommand, else the one given for the whole program, else the
/// default file where there is one.
pub open spec fn config_choice<P>(
    subcommand: Option<P>,
    program: Option<P>,
    default_exists: bool,
) -> ConfigSource<P> {
    match (subcommand, program) {
        (Some(path), _) => ConfigSource::Given(path),
        (None, Some(path)) => ConfigSource::Given(path),
        (None, None) => if default_exists {
            ConfigSource::DefaultFile
        } else {
            ConfigSource::BuiltIn
        },
    }
}

/// Chooses where the configuration comes from.
pub fn choose_config<P>(subcommand: Option<P>, program: Option<P>, default_exists: bool) -> (r:
    ConfigSource<P>)
    ensures
        r == config_choice(subcommand, program, default_exists),
{
    match subcommand {
        Some(path) => ConfigSource::Given(path),
        None => match program {
            Some(path) => ConfigSource::Given(path),
            None => if default_exists {
                ConfigSource::DefaultFile
            } else {
                ConfigSource::BuiltIn
            },
        },
    }
}

/// What to do about a sync. Whether one is due is asked only where it is not forced.
#[derive(Debug, Clone, Copy, PartialEq, Eq, Structural)]
pub enum SyncDecision {
    /// Find out whether a sync is due.
    Ask,
    /// Sync.
    Sync,
    /// The knowledge is up to date.
    UpToDate,
}

/// Decides from whether a sync is forced and, once that was asked, whether one is due.
pub fn decide_sync(force: bool, due: Option<bool>) -> (r: SyncDecision)
    ensures
        r == if force || due == Some(true) {
            SyncDecision::Sync
        } else if due == Some(false) {
            SyncDecision::UpToDate
        } else {
            SyncDecision::Ask
        },
{
    if force {
        SyncDecision::Sync
    } else {
        match due {
            Some(true) => SyncDecision::Sync,
            Some(false) => SyncDecision::UpToDate,
            None => SyncDecision::Ask,
        }
    }
}

/// The file given with the subcommand goes before the one given for the program, and that one
/// before the default file; the built-in defaults serve only where there is none of them.
pub proof fn law_config_choice<P>(
    subcommand: Option<P>,
    program: Option<P>,
    default_exists: bool,
    path: P,
)
    ensures
        subcommand == Some(path) ==> config_choice(subcommand, program, default_exists)
            == ConfigSource::Given(path),
        subcommand is None && program == Some(path) ==> config_choice(
            subcommand,
            program,
            default_exists,
        ) == ConfigSource::Given(path),
        config_choice(subcommand, program, default_exists) is DefaultFile <==> subcommand is None
            && program is None && default_exists,
        config_choice(subcommand, program, default_exists) is BuiltIn <==> subcommand is None
            && program is None && !default_exists,
{
}

} // verus!
