//! The parsed command line: global options, commands and scan overrides.

use vstd::prelude::*;

verus! {

#[derive(Debug, Clone, Copy, PartialEq, Eq, Structural)]
pub enum OutputFormat {
    Human,
    Json,
}

impl Default for OutputFormat {
    fn default() -> (f: Self)
        ensures
            f == OutputFormat::Human,
    {
        OutputFormat::Human
    }
}

/// Global options and the selected command. Paths are raw bytes.
#[derive(Debug, Clone)]
pub struct Cli {
    pub state_directory: Option<Vec<u8>>,
    pub config: Option<Vec<u8>>,
    pub no_config: bool,
    pub json: bool,
    pub output_format: Option<OutputFormat>,
    pub command: Command,
}

#[derive(Debug, Clone)]
pub enum Command {
    Doctor,
    Scan(ScanArgs),
    Report(ReportArgs),
    Plan(PlanArgs),
    Cache(CacheArgs),
    Config(ConfigArgs),
}

#[derive(Debug, Clone)]
pub struct ScanArgs {
    pub inputs: Vec<Vec<u8>>,
    pub follow_symlinks: bool,
    pub no_follow_symlinks: bool,
    pub include_hidden: bool,
    pub exclude_hidden: bool,
    pub cross_filesystems: bool,
    pub stay_on_filesystem: bool,
    pub no_probe: bool,
    pub probe: bool,
}

#[derive(Debug, Clone)]
pub struct ReportArgs {
    pub run: String,
}

#[derive(Debug, Clone)]
pub struct PlanArgs {
    pub command: PlanCommand,
}

#[derive(Debug, Clone)]
pub enum PlanCommand {
    ExactDuplicates(ExactDuplicatePlanArgs),
}

#[derive(Debug, Clone)]
pub struct ExactDuplicatePlanArgs {
    pub run: String,
    pub output: Option<Vec<u8>>,
}

#[derive(Debug, Clone)]
pub struct CacheArgs {
    pub command: CacheCommand,
}

#[derive(Debug, Clone, Copy, PartialEq, Eq, Structural)]
pub enum CacheCommand {
    Status,
}

#[derive(Debug, Clone)]
pub struct ConfigArgs {
    pub command: ConfigCommand,
}

#[derive(Debug, Clone)]
pub enum ConfigCommand {
    Validate,
    Show,
    Explain(ConfigExplainArgs),
}

#[derive(Debug, Clone)]
pub struct ConfigExplainArgs {
    pub setting: String,
}

/// An explicit choice between two opposite flags, if either was given; the
/// flag that sets the value to true is `on`.
pub open spec fn flag_override(on: bool, off: bool) -> Option<bool> {
    if on { Some(true) } else if off { Some(false) } else { None }
}

pub open spec fn spec_command_name(command: Command) -> Seq<char> {
    match command {
        Command::Doctor => "doctor"@,
        Command::Scan(_) => "scan"@,
        Command::Report(_) => "report"@,
        Command::Plan(_) => "plan"@,
        Command::Cache(_) => "cache"@,
        Command::Config(arguments) => match arguments.command {
            ConfigCommand::Validate => "config validate"@,
            ConfigCommand::Show => "config show"@,
            ConfigCommand::Explain(_) => "config explain"@,
        },
    }
}

impl Cli {
    /// `--json` wins; otherwise the selected format, or the default.
    pub fn selected_output_format(&self) -> (f: OutputFormat)
        ensures
            f == (if self.json {
                OutputFormat::Json
            } else {
                match self.output_format {
                    Some(g) => g,
                    None => OutputFormat::Human,
                }
            }),
    {
        if self.json {
            OutputFormat::Json
        } else {
            match self.output_format {
                Some(g) => g,
                None => OutputFormat::Human,
            }
        }
    }

    pub fn command_name(&self) -> (name: &'static str)
        ensures
            name@ == spec_command_name(self.command),
    {
        match &self.command {
            Command::Doctor => "doctor",
            Command::Scan(_) => "scan",
            Command::Report(_) => "report",
            Command::Plan(_) => "plan",
            Command::Cache(_) => "cache",
            Command::Config(arguments) => match &arguments.command {
                ConfigCommand::Validate => "config validate",
                ConfigCommand::Show => "config show",
                ConfigCommand::Explain(_) => "config explain",
            },
        }
    }
}

impl ScanArgs {
    pub fn follow_symlinks_override(&self) -> (r: Option<bool>)
        ensures
            r == flag_override(self.follow_symlinks, self.no_follow_symlinks),
    {
        if self.follow_symlinks { Some(true) } else if self.no_follow_symlinks { Some(false) } else { None }
    }

    pub fn include_hidden_override(&self) -> (r: Option<bool>)
        ensures
            r == flag_override(self.include_hidden, self.exclude_hidden),
    {
        if self.include_hidden { Some(true) } else if self.exclude_hidden { Some(false) } else { None }
    }

    pub fn cross_filesystems_override(&self) -> (r: Option<bool>)
        ensures
            r == flag_override(self.cross_filesystems, self.stay_on_filesystem),
    {
        if self.cross_filesystems { Some(true) } else if self.stay_on_filesystem { Some(false) } else { None }
    }

    /// `--no-probe` is checked first.
    pub fn probe_media_override(&self) -> (r: Option<bool>)
        ensures
            r == (if self.no_probe { Some(false) } else if self.probe { Some(true) } else { None }),
    {
        if self.no_probe { Some(false) } else if self.probe { Some(true) } else { None }
    }
}

} // verus!
