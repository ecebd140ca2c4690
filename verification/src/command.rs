//! The commands a user can ask for, and the stages each one runs.

use vstd::prelude::*;
use vstd::string::*;
use crate::text::as_slice;
use crate::text::opt_str_text;
use crate::text::opt_text;

verus! {

/// One staged operation of the toolchain, or the waveform viewer after them.
#[derive(Debug, Clone, Copy, PartialEq, Eq, Structural)]
pub enum Stage {
    Analyze,
    Elaborate,
    Execute,
    Wave,
}

/// What the user asked for.
#[derive(Debug)]
pub enum Commands {
    /// Analyze, elaborate and run.
    Run { target: Option<String>, vcd: Option<String> },
    /// Analyze and elaborate.
    Compile { target: Option<String> },
    /// Analyze only.
    Analyze { target: Option<String> },
    /// Run, then open the waveform in the configured viewer.
    Wave { target: Option<String>, vcd: Option<String> },
    /// Set up a new project.
    Init,
}

/// The four stages in the order in which they run.
pub open spec fn all_stages() -> Seq<Stage> {
    seq![Stage::Analyze, Stage::Elaborate, Stage::Execute, Stage::Wave]
}

impl Commands {
    /// The target named on the command line, if one was.
    pub open spec fn target_name(&self) -> Option<Seq<char>> {
        match self {
            Commands::Run { target, vcd } => opt_text(*target),
            Commands::Compile { target } => opt_text(*target),
            Commands::Analyze { target } => opt_text(*target),
            Commands::Wave { target, vcd } => opt_text(*target),
            Commands::Init => None,
        }
    }

    /// The waveform file named on the command line, if one was.
    pub open spec fn waveform_name(&self) -> Option<Seq<char>> {
        match self {
            Commands::Run { target, vcd } => opt_text(*vcd),
            Commands::Wave { target, vcd } => opt_text(*vcd),
            _ => None,
        }
    }

    /// How many of the four stages this command runs.
    pub open spec fn stage_count(&self) -> nat {
        match self {
            Commands::Analyze { .. } => 1,
            Commands::Compile { .. } => 2,
            Commands::Run { .. } => 3,
            Commands::Wave { .. } => 4,
            Commands::Init => 0,
        }
    }

    /// The stages this command runs, in order: a prefix of the four.
    pub open spec fn stage_list(&self) -> Seq<Stage> {
        all_stages().take(self.stage_count() as int)
    }

    pub fn target(&self) -> (name: Option<&str>)
        ensures
            opt_str_text(name) == self.target_name(),
    {
        match self {
            Commands::Run { target, vcd: _ } => as_slice(target),
            Commands::Compile { target } => as_slice(target),
            Commands::Analyze { target } => as_slice(target),
            Commands::Init => None,
            Commands::Wave { target, vcd: _ } => as_slice(target),
        }
    }

    /// The waveform file asked for on the command line.
    pub fn waveform(&self) -> (name: Option<&str>)
        ensures
            opt_str_text(name) == self.waveform_name(),
    {
        match self {
            Commands::Run { target: _, vcd } => as_slice(vcd),
            Commands::Wave { target: _, vcd } => as_slice(vcd),
            _ => None,
        }
    }

    /// The stages to run, in order.
    pub fn stages(&self) -> (list: Vec<Stage>)
        ensures
            list@ == self.stage_list(),
    {
        let mut list: Vec<Stage> = Vec::new();
        match self {
            Commands::Init => {},
            Commands::Analyze { .. } => {
                list.push(Stage::Analyze);
            },
            Commands::Compile { .. } => {
                list.push(Stage::Analyze);
                list.push(Stage::Elaborate);
            },
            Commands::Run { .. } => {
                list.push(Stage::Analyze);
                list.push(Stage::Elaborate);
                list.push(Stage::Execute);
            },
            Commands::Wave { .. } => {
                list.push(Stage::Analyze);
                list.push(Stage::Elaborate);
                list.push(Stage::Execute);
                list.push(Stage::Wave);
            },
        }
        list
    }

    /// Whether this command runs `stage`.
    pub fn runs(&self, stage: Stage) -> (yes: bool)
        ensures
            yes == self.stage_list().contains(stage),
    {
        let count: u8 = match self {
            Commands::Init => 0,
            Commands::Analyze { .. } => 1,
            Commands::Compile { .. } => 2,
            Commands::Run { .. } => 3,
            Commands::Wave { .. } => 4,
        };
        let position: u8 = match stage {
            Stage::Analyze => 0,
            Stage::Elaborate => 1,
            Stage::Execute => 2,
            Stage::Wave => 3,
        };
        proof {
            let list = self.stage_list();
            if position < count {
                assert(list[position as int] == stage);
            } else {
                assert forall|i: int| 0 <= i < list.len() implies list[i] != stage by {}
            }
        }
        position < count
    }
}

} // verus!
