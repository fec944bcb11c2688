use vstd::prelude::*;

verus! {

/// The version that `-v` and `--version` print.
pub const VERSION: &'static str = "0.1.0";

/// What the command line asks for.
#[derive(Debug)]
pub enum CliAction {
    /// Print the version and stop, touching neither settings nor network.
    ShowVersion,
    /// Read the settings from this file.
    LoadFile(String),
    /// Read the settings from the default file.
    LoadDefault,
}

/// True when the arguments (program name first) ask for the version.
pub open spec fn asks_version(args: Seq<Seq<char>>) -> bool {
    (args.len() == 2 && args[1] == "-v"@) || (args.len() >= 2 && args[1] == "--version"@)
}

/// True when the arguments (program name first) name a settings file.
pub open spec fn asks_file(args: Seq<Seq<char>>) -> bool {
    args.len() == 3 && args[1] == "-f"@
}

/// Decides what the command line asks for; the version flag wins over everything else.
pub fn cli_action(args: &Vec<String>) -> (r: CliAction)
    ensures
        asks_version(args@.map_values(|a: String| a@)) ==> r is ShowVersion,
        !asks_version(args@.map_values(|a: String| a@)) && asks_file(
            args@.map_values(|a: String| a@),
        ) ==> (r matches CliAction::LoadFile(p) && p@ == args@[2]@),
        !asks_version(args@.map_values(|a: String| a@)) && !asks_file(
            args@.map_values(|a: String| a@),
        ) ==> r is LoadDefault,
{
    let ghost av = args@.map_values(|a: String| a@);
    let n = args.len();
    proof {
        assert(av.len() == n);
        if n >= 2 {
            assert(av[1] == args@[1]@);
        }
        if n >= 3 {
            assert(av[2] == args@[2]@);
        }
    }
    if n >= 2 {
        let short = String::from_str("-v");
        let long = String::from_str("--version");
        if (n == 2 && args[1] == short) || args[1] == long {
            return CliAction::ShowVersion;
        }
        let file = String::from_str("-f");
        if n == 3 && args[1] == file {
            return CliAction::LoadFile(args[2].clone());
        }
    }
    CliAction::LoadDefault
}

} // verus!
