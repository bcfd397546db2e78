use vstd::prelude::*;

verus! {

/// Where the configuration is read from.
pub const CONFIG_PATH: &'static str = "fake_file";

/// A configuration read that failed, with its context and a hint for the user.
pub struct ConfigError {
    pub context: String,
    pub cause: String,
    pub suggestion: String,
}

/// Gives the outcome of reading the configuration file its context: a failure is
/// reported as unable to read the configuration, with the cause and a hint.
pub fn read_config(read_outcome: Result<(), String>) -> (r: Result<(), ConfigError>)
    ensures
        read_outcome is Ok <==> r is Ok,
        read_outcome is Err ==> (r matches Err(e) && e.cause == read_outcome->Err_0
            && e.context@ == "Unable to read config"@
            && e.suggestion@ == "Double-check that the file exist in the current path"@),
{
    match read_outcome {
        Ok(()) => Ok(()),
        Err(cause) => Err(
            ConfigError {
                context: "Unable to read config".to_string(),
                cause,
                suggestion: "Double-check that the file exist in the current path".to_string(),
            },
        ),
    }
}

} // verus!
