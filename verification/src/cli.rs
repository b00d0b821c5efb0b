//! The settings of a debugging session.

use crate::text::texts;
use vstd::prelude::*;
use vstd::string::*;

verus! {

/// The settings of a debugging session.
#[derive(Debug)]
pub struct Options {
    /// The path of the script to debug.
    pub sed_script: String,
    /// The path of the file that the script reads.
    pub input_file: String,
    /// The parameters that the stream editor is started with, besides those
    /// that every run needs.
    pub sed_parameters: Vec<String>,
    /// Whether to report what is done.
    pub verbose: bool,
    /// The stream editor to run, where the user has named one.
    pub sed_path: Option<String>,
}

/// The parameters that the chosen flags stand for, in the order in which
/// the stream editor is given them.
pub open spec fn flag_parameters(
    quiet: bool,
    extended: bool,
    sandbox: bool,
    null_data: bool,
) -> Seq<Seq<char>> {
    (if quiet {
        seq!["-n"@]
    } else {
        Seq::empty()
    }) + (if extended {
        seq!["-E"@]
    } else {
        Seq::empty()
    }) + (if sandbox {
        seq!["--sandbox"@]
    } else {
        Seq::empty()
    }) + (if null_data {
        seq!["-z"@]
    } else {
        Seq::empty()
    })
}

impl Options {
    /// The settings that the given paths and flags stand for.
    pub fn from_flags(
        sed_script: String,
        input_file: String,
        sed_path: Option<String>,
        quiet: bool,
        extended: bool,
        sandbox: bool,
        null_data: bool,
        verbose: bool,
    ) -> (options: Options)
        ensures
            options.sed_script == sed_script,
            options.input_file == input_file,
            options.sed_path == sed_path,
            options.verbose == verbose,
            texts(options.sed_parameters@) == flag_parameters(quiet, extended, sandbox, null_data),
    {
        let mut sed_parameters: Vec<String> = Vec::new();
        assert(texts(sed_parameters@) =~= Seq::empty());
        if quiet {
            let ghost before = texts(sed_parameters@);
            sed_parameters.push(String::from_str("-n"));
            assert(texts(sed_parameters@) =~= before + seq!["-n"@]);
        }
        if extended {
            let ghost before = texts(sed_parameters@);
            sed_parameters.push(String::from_str("-E"));
            assert(texts(sed_parameters@) =~= before + seq!["-E"@]);
        }
        if sandbox {
            let ghost before = texts(sed_parameters@);
            sed_parameters.push(String::from_str("--sandbox"));
            assert(texts(sed_parameters@) =~= before + seq!["--sandbox"@]);
        }
        if null_data {
            let ghost before = texts(sed_parameters@);
            sed_parameters.push(String::from_str("-z"));
            assert(texts(sed_parameters@) =~= before + seq!["-z"@]);
        }
        assert(texts(sed_parameters@) =~= flag_parameters(quiet, extended, sandbox, null_data));
        Options { sed_script, input_file, sed_parameters, verbose, sed_path }
    }
}

} // verus!
