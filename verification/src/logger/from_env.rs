//! Loading the configuration from the variables of the environment.

use crate::logger::from_file_config::{
    applied_view, config_of_entries, entry, load_config, load_error, load_of, pairs_map,
    pairs_view, ConfigForSerde, SerdeView,
};
use crate::logger::from_file_config::{config_from_env_vars, find_value};
use crate::helper::Clock;
use crate::logger::set_errors::ReadFromConfigFileError;
use crate::Config;
use vstd::prelude::*;

verus! {

/// The fields that the variables of the environment hold. They are those
/// of a configuration file, but that the template of the file name stands
/// under `file_name` and that no variable switches the configuration off.
pub open spec fn config_of_environment(vars: Map<Seq<char>, Seq<char>>) -> SerdeView {
    SerdeView {
        enabled: None,
        file_name: entry(vars, "file_name"@),
        ..config_of_entries(vars)
    }
}

/// The names of the variables of the environment that the configuration
/// is read from.
pub open spec fn environment_key_names() -> Seq<Seq<char>> {
    seq![
        "level"@,
        "print_to_terminal"@,
        "colorized"@,
        "global_formatting"@,
        "trace_formatting"@,
        "debug_formatting"@,
        "info_formatting"@,
        "warn_formatting"@,
        "error_formatting"@,
        "file_name"@,
        "compression"@,
        "archive_dir"@,
        "rotations"@,
    ]
}

/// The names of the variables of the environment that the configuration
/// is read from.
pub fn environment_keys() -> (keys: [&'static str; 13])
    ensures
        keys@.len() == 13,
        forall|i: int| 0 <= i < 13 ==> (#[trigger] keys@[i])@ == environment_key_names()[i],
{
    let keys = [
        "level",
        "print_to_terminal",
        "colorized",
        "global_formatting",
        "trace_formatting",
        "debug_formatting",
        "info_formatting",
        "warn_formatting",
        "error_formatting",
        "file_name",
        "compression",
        "archive_dir",
        "rotations",
    ];
    assert(keys@[0]@ == environment_key_names()[0]);
    assert(keys@[1]@ == environment_key_names()[1]);
    assert(keys@[2]@ == environment_key_names()[2]);
    assert(keys@[3]@ == environment_key_names()[3]);
    assert(keys@[4]@ == environment_key_names()[4]);
    assert(keys@[5]@ == environment_key_names()[5]);
    assert(keys@[6]@ == environment_key_names()[6]);
    assert(keys@[7]@ == environment_key_names()[7]);
    assert(keys@[8]@ == environment_key_names()[8]);
    assert(keys@[9]@ == environment_key_names()[9]);
    assert(keys@[10]@ == environment_key_names()[10]);
    assert(keys@[11]@ == environment_key_names()[11]);
    assert(keys@[12]@ == environment_key_names()[12]);
    keys
}

/// No other variable has a part in the configuration: two environments
/// that agree on the thirteen names hold the same fields.
pub proof fn lemma_environment_keys_suffice(
    first: Map<Seq<char>, Seq<char>>,
    second: Map<Seq<char>, Seq<char>>,
)
    requires
        forall|i: int|
            0 <= i < 13 ==> entry(first, #[trigger] environment_key_names()[i]) == entry(
                second,
                environment_key_names()[i],
            ),
    ensures
        config_of_environment(first) == config_of_environment(second),
{
    let names = environment_key_names();
    assert(names[0] == "level"@);
    assert(names[1] == "print_to_terminal"@);
    assert(names[2] == "colorized"@);
    assert(names[3] == "global_formatting"@);
    assert(names[4] == "trace_formatting"@);
    assert(names[5] == "debug_formatting"@);
    assert(names[6] == "info_formatting"@);
    assert(names[7] == "warn_formatting"@);
    assert(names[8] == "error_formatting"@);
    assert(names[9] == "file_name"@);
    assert(names[10] == "compression"@);
    assert(names[11] == "archive_dir"@);
    assert(names[12] == "rotations"@);
}

/// Reads the fields of a configuration from the variables of the
/// environment, given as pairs of a name and a value.
pub fn parse_config_from_env(vars: &Vec<(String, String)>) -> (res_conf: ConfigForSerde)
    ensures
        res_conf@ == config_of_environment(pairs_map(pairs_view(vars@))),
{
    let fields = config_from_env_vars(vars);
    ConfigForSerde { enabled: None, file_name: find_value(vars, "file_name"), ..fields }
}

/// Loads the variables of the environment into the configuration, for a
/// file set and rules added at the moment at which the clock is read. Where
/// a value or a setter is refused, the configuration is as it was before
/// the call.
pub fn load_config_from_env(
    config: &mut Config,
    vars: &Vec<(String, String)>,
    archive_dir_created: bool,
) -> (res: Result<(), ReadFromConfigFileError>)
    ensures
        res is Err ==> final(config)@ == old(config)@,
        match res {
            Ok(_) => load_error(
                config_of_environment(pairs_map(pairs_view(vars@))),
                old(config)@,
                archive_dir_created,
            ) is None,
            Err(e) => load_error(
                config_of_environment(pairs_map(pairs_view(vars@))),
                old(config)@,
                archive_dir_created,
            ) == Some(e@),
        },
        exists|clock: Clock|
            clock.wf() && applied_view(final(config)@, res) == #[trigger] load_of(
                config_of_environment(pairs_map(pairs_view(vars@))),
                old(config)@,
                clock,
                archive_dir_created,
            ),
{
    let serde_conf = parse_config_from_env(vars);
    load_config(config, serde_conf, archive_dir_created)
}

} // verus!
