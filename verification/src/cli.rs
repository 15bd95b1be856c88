//! The command line: its commands, and what running each one does.

use vstd::prelude::*;
use crate::text::{push_decimal, push_str, decimal};

verus! {

/// How `version` prints.
#[derive(Debug, Clone, Copy, PartialEq, Eq, Structural)]
pub enum VersionFormat {
    /// For humans
    Text,
    /// For machines
    Json,
}

/// Flags accepted before any command.
#[derive(Debug, Clone)]
pub struct GlobalArgs {
    /// How many times `-v` was given.
    pub verbose: u8,
}

/// The commands of the tool.
#[derive(Debug, Clone)]
pub enum Commands {
    /// Bundle JS and TS files
    Build { watch: bool, minify: bool, entry: Vec<String> },
    /// Run benchmarks
    Bench,
    /// Initialize a new project
    Init,
    /// Install dependencies
    Install,
    /// Run a JS/TS file
    Run { file: String },
    /// Test JS/TS files
    Test { filter: Option<String> },
    /// Update all the globally installed packages
    Update,
    /// Upgrade to the latest version
    Upgrade,
    /// Display version information
    Version { format: VersionFormat },
}

/// A parsed command line.
#[derive(Debug, Clone)]
pub struct Cli {
    pub global: GlobalArgs,
    pub command: Commands,
}

/// What a command asks for, with the values it needs. The bundler, the
/// runtime, the benchmarks and the package commands have no engine yet: for
/// those the program only prints the command's name (`build`, `run <file>`,
/// `bench`, `install`) or nothing (`init`, `update`, `upgrade`).
#[derive(Debug, Clone)]
pub enum RunAction {
    /// A bundle of the entry files, watched for changes and minified as
    /// asked.
    Bundle { entry: Vec<String>, watch: bool, minify: bool },
    /// A run of one JS/TS file.
    RunFile { file: String },
    /// A benchmark run.
    Benchmark,
    /// A new project.
    InitProject,
    /// The project's dependencies installed.
    InstallDependencies,
    /// The globally installed packages updated.
    UpdateGlobalPackages,
    /// The tool upgraded.
    UpgradeSelf,
    /// Print the announcement, if any, then run the test files that match
    /// the filter.
    RunTests { announcement: Option<String>, filter: Option<String> },
    /// Print this version information.
    ShowVersion(String),
}

/// The tool's version.
pub const VERSION: &'static str = "0.1.0";

/// The view of an optional string.
pub open spec fn opt_chars(o: Option<String>) -> Option<Seq<char>> {
    match o {
        Some(s) => Some(s@),
        None => None,
    }
}

/// The version information in each format: `momo 0.1.0` for humans, a JSON
/// object with the name and the version for machines.
pub open spec fn version_info(f: VersionFormat) -> Seq<char> {
    match f {
        VersionFormat::Text => "momo 0.1.0"@,
        VersionFormat::Json => "{\"name\":\"momo\",\"version\":\"0.1.0\"}"@,
    }
}

/// What `cmd` asks for, as each command's documentation says, with the
/// command's own values; for `test` and `version`, what is printed.
pub open spec fn planned(cmd: Commands, action: RunAction) -> bool {
    match cmd {
        Commands::Build { watch, minify, entry } => action == RunAction::Bundle { entry, watch, minify },
        Commands::Bench => action == RunAction::Benchmark,
        Commands::Init => action == RunAction::InitProject,
        Commands::Install => action == RunAction::InstallDependencies,
        Commands::Run { file } => action == RunAction::RunFile { file },
        Commands::Test { filter } => action matches RunAction::RunTests { announcement, filter: f }
            && f == filter && match filter {
            Some(x) => opt_chars(announcement) == Some("Running tests matching: "@ + x@),
            None => announcement is None,
        },
        Commands::Update => action == RunAction::UpdateGlobalPackages,
        Commands::Upgrade => action == RunAction::UpgradeSelf,
        Commands::Version { format } => action matches RunAction::ShowVersion(m) && m@
            == version_info(format),
    }
}

/// `test` runs the files that match its filter exactly as typed, character
/// for character, and announces that filter when there is one; without a
/// filter it runs every test file silently.
pub proof fn lemma_test_filter_as_typed(filter: Option<String>, action: RunAction)
    requires
        planned(Commands::Test { filter }, action),
    ensures
        action is RunTests,
        opt_chars(action->RunTests_filter) == opt_chars(filter),
        filter is None ==> action->RunTests_filter is None && action->RunTests_announcement is None,
        filter matches Some(x) ==> (action->RunTests_filter matches Some(y) && y@ == x@
            && opt_chars(action->RunTests_announcement) == Some("Running tests matching: "@ + x@)),
{
}

/// The other commands carry their values unchanged: `run` the file as given,
/// `build` its entries and flags, and `version` prints `momo 0.1.0` as text
/// or the JSON object with the name and version.
pub proof fn lemma_commands_carry_their_values(cmd: Commands, action: RunAction)
    requires
        planned(cmd, action),
    ensures
        cmd matches Commands::Run { file } ==> (action matches RunAction::RunFile { file: f }
            && f@ == file@),
        cmd matches Commands::Build { watch, minify, entry } ==> (action matches RunAction::Bundle {
            entry: e,
            watch: w,
            minify: m,
        } && e == entry && w == watch && m == minify),
        cmd == (Commands::Version { format: VersionFormat::Text }) ==> (action matches RunAction::ShowVersion(
            t,
        ) && t@ == "momo 0.1.0"@),
        cmd == (Commands::Version { format: VersionFormat::Json }) ==> (action matches RunAction::ShowVersion(
            t,
        ) && t@ == "{\"name\":\"momo\",\"version\":\"0.1.0\"}"@),
{
}

impl Cli {
    /// Decides what this command line asks for.
    pub fn plan(self) -> (action: RunAction)
        ensures
            planned(self.command, action),
    {
        match self.command {
            Commands::Build { watch, minify, entry } => RunAction::Bundle { entry, watch, minify },
            Commands::Bench => RunAction::Benchmark,
            Commands::Init => RunAction::InitProject,
            Commands::Install => RunAction::InstallDependencies,
            Commands::Run { file } => RunAction::RunFile { file },
            Commands::Test { filter } => {
                match filter {
                    Some(x) => {
                        let mut m = String::from_str("Running tests matching: ");
                        push_str(&mut m, x.as_str());
                        proof {
                            reveal_strlit("Running tests matching: ");
                        }
                        RunAction::RunTests { announcement: Some(m), filter: Some(x) }
                    },
                    None => RunAction::RunTests { announcement: None, filter: None },
                }
            },
            Commands::Update => RunAction::UpdateGlobalPackages,
            Commands::Upgrade => RunAction::UpgradeSelf,
            Commands::Version { format } => {
                let info = match format {
                    VersionFormat::Text => String::from_str("momo 0.1.0"),
                    VersionFormat::Json => String::from_str("{\"name\":\"momo\",\"version\":\"0.1.0\"}"),
                };
                RunAction::ShowVersion(info)
            },
        }
    }
}

/// The timing line printed after a command that ran for `millis`
/// milliseconds, when it ran for less than a second (`secs == 0`).
pub open spec fn millis_line(millis: nat) -> Seq<char> {
    "\n Command Ran in "@ + decimal(millis) + "ms."@
}

/// The timing line for a command that ran `secs` whole seconds and `millis`
/// milliseconds in all. From one second on the line shows fractional
/// seconds, which this function leaves to the caller (`None`).
pub fn execution_time_line(secs: u64, millis: u128) -> (line: Option<String>)
    ensures
        secs >= 1 ==> line is None,
        secs < 1 ==> (line matches Some(l) && l@ == millis_line(millis as nat)),
{
    if secs >= 1 {
        None
    } else {
        let mut l = String::from_str("\n Command Ran in ");
        push_decimal(&mut l, millis);
        push_str(&mut l, "ms.");
        proof {
            reveal_strlit("\n Command Ran in ");
            reveal_strlit("ms.");
        }
        Some(l)
    }
}

} // verus!
