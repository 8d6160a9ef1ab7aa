//! What a configuration file stands for, and what is said of it.

use vstd::prelude::*;

use crate::config::Algorithm;
use crate::config::BackendConfig;
use crate::config::ConfigError;
use crate::config::ConfigFile;

verus! {

/// What a file spells out is taken as it is, and each key that it leaves out has its default,
/// independently of the others.
pub proof fn law_every_key_is_taken_or_defaulted(file: ConfigFile)
    ensures
        file.listen_addr matches Some(addr) ==> file.completed().listen_addr == addr@,
        file.listen_addr is None ==> file.completed().listen_addr == "127.0.0.1:8080"@,
        file.algorithm matches Some(algorithm) ==> file.completed().algorithm == algorithm,
        file.algorithm is None ==> file.completed().algorithm == Algorithm::RoundRobin,
        file.health_check_interval_secs matches Some(secs)
            ==> file.completed().health_check_interval_secs == secs,
        file.health_check_interval_secs is None ==> file.completed().health_check_interval_secs
            == 5,
        file.health_check_timeout_secs matches Some(secs)
            ==> file.completed().health_check_timeout_secs == secs,
        file.health_check_timeout_secs is None ==> file.completed().health_check_timeout_secs == 2,
        file.health_check_path matches Some(path) ==> file.completed().health_check_path == path@,
        file.health_check_path is None ==> file.completed().health_check_path == "/health"@,
        file.backends is None ==> file.completed().backends.len() == 0,
        file.backends matches Some(entries) ==> {
            &&& file.completed().backends.len() == entries@.len()
            &&& forall|i: int|
                0 <= i < entries@.len() ==> #[trigger] file.completed().backends[i]
                    == entries@[i].addr@
        },
{
}

/// A list of entries has one address for each of them, in order.
pub proof fn law_every_entry_has_its_address(entries: Seq<BackendConfig>, i: int)
    requires
        0 <= i < entries.len(),
    ensures
        crate::config::addresses(entries).len() == entries.len(),
        crate::config::addresses(entries)[i] == entries[i].addr@,
{
}

/// The names of the algorithms tell them apart.
pub proof fn law_algorithms_have_different_names(one: Algorithm, other: Algorithm)
    ensures
        one.label_spec() == other.label_spec() <==> one == other,
{
    reveal_strlit("RoundRobin");
    reveal_strlit("LeastConnections");
    assert("RoundRobin"@.len() != "LeastConnections"@.len());
}

/// The line for the operator says what was tried, names the file and ends with the reason.
pub proof fn law_an_error_names_the_file_and_the_reason(error: ConfigError)
    ensures
        error matches ConfigError::Read { path, source } ==> error.message_spec()
            == "failed to read config file "@ + path@ + ": "@ + source@,
        error matches ConfigError::Parse { path, source } ==> error.message_spec()
            == "failed to parse config file "@ + path@ + ": "@ + source@,
{
}

} // verus!
