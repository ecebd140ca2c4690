//! The staged pipeline: analyze, relocate, elaborate, execute, view.
//!
//! A `Job` holds what one run was asked to do. [`Job::next`] is the whole
//! orchestration: given what just happened, it says what to do now. The
//! caller spawns the processes, runs the relocation and comes back with the
//! outcome. Every failure ends the run: after an `Abort` nothing is to be
//! done.

use vstd::prelude::*;
use vstd::string::*;
use crate::command::Commands;
use crate::command::Stage;
use crate::command::all_stages;
use crate::error::GbError;
use crate::error::Kind;
use crate::error::Level;
use crate::text::opt_text;
use crate::text::opt_str_text;
use crate::text::as_slice;
use crate::text::texts;
use crate::paths::file_stem;
use crate::paths::file_stem_of;
use crate::paths::join;
use crate::paths::joined_path;
use crate::platform::product_version;
use crate::platform::version_in;
use crate::relocator::BUILD_DIR;

verus! {

/// The toolchain's executable.
pub const TOOLCHAIN: &'static str = "ghdl";

/// The one waveform viewer that can be launched.
pub const SUPPORTED_VIEWER: &'static str = "gtkwave";

/// The toolchain ran and reported failure.
pub const TOOLCHAIN_FAILED: &'static str = "GHDL didn't compile successfully.";

/// The target lists no source file.
pub const NO_FILES: &'static str = "the files list must hold at least one file";

/// The target names no file to elaborate.
pub const NO_ENTRY: &'static str =
    "must have a file chosen to execute in order to elaborate. Please set `execute = \"<YOUR_FILE>\" in gb.toml";

/// The entry file's name has no stem.
pub const NO_BASE_NAME: &'static str = "could not get base filename";

/// No waveform file is known.
pub const NO_WAVEFORM: &'static str =
    "vcd-name not set in target for toml. Cannot launch vcd viewer";

/// No viewer is configured.
pub const NO_VIEWER: &'static str =
    "top level `default.vcd-viewer` not set in target for toml. Cannot launch vcd viewer";

/// A viewer other than the supported one is configured.
pub const UNSUPPORTED_VIEWER: &'static str =
    "The only supported wave viewer is gtkwave. Please set `default.vcd-viewer = \"gtkwave\"`";

/// The host's version utility could not be run.
pub const HOST_VERSION_UNKNOWN: &'static str = "could not access macos version";

/// The host's version utility printed no version.
pub const HOST_VERSION_UNREADABLE: &'static str = "failed to parse macos version";

/// The linker flag that carries the host's version.
pub const MIN_VERSION_FLAG: &'static str = "-Wl,-mmacosx-version-min=";

/// The flag that asks a run for a waveform file.
pub const WAVEFORM_FLAG: &'static str = "--vcd=";

/// The kind of machine the pipeline runs on.
#[derive(Debug, Clone, Copy, PartialEq, Eq, Structural)]
pub enum Host {
    /// The linker must be told the system's version.
    MacOs,
    /// Any other system.
    Other,
}

/// A build configuration, as the manifest describes it.
#[derive(Debug)]
pub struct Target {
    /// The source files, in the order in which they are analyzed.
    pub files: Vec<String>,
    /// The file whose design unit is elaborated and executed.
    pub entry: Option<String>,
    /// The waveform file to write, unless the command line names another.
    pub vcd_name: Option<String>,
}

/// A target by the characters of its strings.
pub struct TargetView {
    pub files: Seq<Seq<char>>,
    pub entry: Option<Seq<char>>,
    pub vcd_name: Option<Seq<char>>,
}

impl View for Target {
    type V = TargetView;

    open spec fn view(&self) -> TargetView {
        TargetView {
            files: texts(self.files@),
            entry: opt_text(self.entry),
            vcd_name: opt_text(self.vcd_name),
        }
    }
}

/// One run of the pipeline.
#[derive(Debug)]
pub struct Job {
    /// The last stage to run.
    pub goal: Stage,
    pub files: Vec<String>,
    pub entry: Option<String>,
    pub waveform: Option<String>,
    pub viewer: Option<String>,
    pub host: Host,
}

/// What the caller reports back.
#[derive(Debug)]
pub enum Event {
    /// Nothing has been done yet.
    Start,
    /// The process of `stage` ran to its end; `success` is exit status zero.
    Exited { stage: Stage, success: bool },
    /// The process of `stage` could not be started.
    SpawnFailed { stage: Stage, cause: String },
    /// The process of `stage` could not be waited for.
    WaitFailed { stage: Stage, cause: String },
    /// The viewer was started and runs on its own.
    Launched,
    /// The generated artifacts are in the build directory.
    Relocated,
    /// The relocation failed with this diagnostic.
    RelocationFailed(GbError),
    /// What the host's version utility printed, or `None` if it could not be
    /// run.
    HostVersion(Option<String>),
}

/// What the caller is to do.
#[derive(Debug)]
pub enum Action {
    /// Run `program` with `args` and wait for it, from the build directory
    /// if `in_build_dir` says so.
    Invoke { stage: Stage, program: String, args: Vec<String>, in_build_dir: bool },
    /// Start the viewer `program` with `args` as a detached process: it is
    /// not waited for.
    Launch { program: String, args: Vec<String> },
    /// Move the analyzer's output into the build directory.
    Relocate,
    /// Run the host's version utility.
    QueryHostVersion,
    /// The run is complete.
    Finish,
    /// The run ends here with this diagnostic.
    Abort(GbError),
}

/// An action by the characters of its strings.
pub enum ActionView {
    Invoke { stage: Stage, program: Seq<char>, args: Seq<Seq<char>>, in_build_dir: bool },
    Launch { program: Seq<char>, args: Seq<Seq<char>> },
    Relocate,
    QueryHostVersion,
    Finish,
    Abort { level: Level, kind: Kind, message: Seq<char>, cause: Option<Seq<char>> },
}

impl View for Action {
    type V = ActionView;

    open spec fn view(&self) -> ActionView {
        match self {
            Action::Invoke { stage, program, args, in_build_dir } => ActionView::Invoke {
                stage: *stage,
                program: program@,
                args: texts(args@),
                in_build_dir: *in_build_dir,
            },
            Action::Launch { program, args } => ActionView::Launch {
                program: program@,
                args: texts(args@),
            },
            Action::Relocate => ActionView::Relocate,
            Action::QueryHostVersion => ActionView::QueryHostVersion,
            Action::Finish => ActionView::Finish,
            Action::Abort(e) => ActionView::Abort {
                level: e.level,
                kind: e.kind,
                message: e.message@,
                cause: opt_text(e.source),
            },
        }
    }
}

/// The place of a stage in the pipeline.
pub open spec fn rank(stage: Stage) -> nat {
    match stage {
        Stage::Analyze => 0,
        Stage::Elaborate => 1,
        Stage::Execute => 2,
        Stage::Wave => 3,
    }
}

/// A fatal end of this kind, with this message and cause.
pub open spec fn abort(kind: Kind, message: Seq<char>, cause: Option<Seq<char>>) -> ActionView {
    ActionView::Abort { level: Level::Fatal, kind, message, cause }
}

/// The message for a process of `stage` that could not be started.
pub open spec fn spawn_message(stage: Stage) -> Seq<char> {
    match stage {
        Stage::Analyze => "couldn't spawn ghdl subprocess"@,
        Stage::Elaborate => "couldn't spawn ghdl elaborate subprocess, is ghdl installed?"@,
        Stage::Execute => "couldn't spawn ghdl run subprocess, is ghdl installed?"@,
        Stage::Wave => "could not create gtkwave"@,
    }
}

/// The message for a process of `stage` that could not be waited for. The
/// viewer is not waited for, so its stage has none.
pub open spec fn wait_message(stage: Stage) -> Option<Seq<char>> {
    match stage {
        Stage::Analyze => Some("couldn't await ghdl analyze subprocess, is ghdl installed?"@),
        Stage::Elaborate => Some(
            "couldn't await ghdl elaborate subprocess, is ghdl installed correctly, and do you have run permissions?"@,
        ),
        Stage::Execute => Some(
            "couldn't await ghdl run subprocess, is ghdl installed correctly, and do you have run permissions?"@,
        ),
        Stage::Wave => None,
    }
}

/// The arguments of an analysis: the flag, then the files in their order.
pub open spec fn analyze_arguments(files: Seq<Seq<char>>) -> Seq<Seq<char>> {
    seq!["-a"@] + files
}

/// The arguments of an elaboration of the unit `unit`: the flag, the linker
/// flag with the host's version where there is one, and the unit.
pub open spec fn elaborate_arguments(unit: Seq<char>, version: Option<Seq<char>>) -> Seq<
    Seq<char>,
> {
    match version {
        Some(v) => seq!["-e"@, MIN_VERSION_FLAG@ + v, unit],
        None => seq!["-e"@, unit],
    }
}

/// The arguments of a run of the unit `unit`: the flag, the unit, and the
/// waveform flag where a waveform is asked for.
pub open spec fn execute_arguments(unit: Seq<char>, waveform: Option<Seq<char>>) -> Seq<
    Seq<char>,
> {
    match waveform {
        Some(w) => seq!["-r"@, unit, WAVEFORM_FLAG@ + w],
        None => seq!["-r"@, unit],
    }
}

/// A call of the toolchain.
pub open spec fn toolchain_call(stage: Stage, args: Seq<Seq<char>>, in_build_dir: bool)
    -> ActionView {
    ActionView::Invoke { stage, program: TOOLCHAIN@, args, in_build_dir }
}

impl Commands {
    /// The last stage this command runs; `Init` runs none.
    pub open spec fn goal_stage(&self) -> Option<Stage> {
        match self {
            Commands::Analyze { .. } => Some(Stage::Analyze),
            Commands::Compile { .. } => Some(Stage::Elaborate),
            Commands::Run { .. } => Some(Stage::Execute),
            Commands::Wave { .. } => Some(Stage::Wave),
            Commands::Init => None,
        }
    }

    /// The last stage this command runs; `Init` runs none.
    pub fn goal(&self) -> (stage: Option<Stage>)
        ensures
            stage == self.goal_stage(),
    {
        match self {
            Commands::Analyze { .. } => Some(Stage::Analyze),
            Commands::Compile { .. } => Some(Stage::Elaborate),
            Commands::Run { .. } => Some(Stage::Execute),
            Commands::Wave { .. } => Some(Stage::Wave),
            Commands::Init => None,
        }
    }
}

/// A command runs exactly the stages up to its goal.
pub proof fn lemma_stages_up_to_goal(command: Commands, stage: Stage)
    ensures
        command.stage_list().contains(stage) <==> (command.goal_stage() is Some && rank(stage)
            <= rank(command.goal_stage().unwrap())),
{
    let list = command.stage_list();
    if command.goal_stage() is Some && rank(stage) <= rank(command.goal_stage().unwrap()) {
        assert(list[rank(stage) as int] == stage);
    } else {
        assert forall|i: int| 0 <= i < list.len() implies list[i] != stage by {}
    }
}

impl Job {
    /// Whether this run includes `stage`.
    pub open spec fn wants(&self, stage: Stage) -> bool {
        rank(stage) <= rank(self.goal)
    }

    /// The call that analyzes the files, or the end for want of any file.
    pub open spec fn analysis(&self) -> ActionView {
        if self.files@.len() == 0 {
            abort(Kind::Configuration, NO_FILES@, None)
        } else {
            toolchain_call(Stage::Analyze, analyze_arguments(texts(self.files@)), false)
        }
    }

    /// The call that elaborates the entry file's unit, or the end for want
    /// of an entry file or of its base name.
    pub open spec fn elaboration(&self, version: Option<Seq<char>>) -> ActionView {
        match self.entry {
            None => abort(Kind::Configuration, NO_ENTRY@, None),
            Some(entry) => match file_stem_of(entry@) {
                None => abort(Kind::Configuration, NO_BASE_NAME@, None),
                Some(unit) => toolchain_call(
                    Stage::Elaborate,
                    elaborate_arguments(unit, version),
                    true,
                ),
            },
        }
    }

    /// What opens the elaborate stage: the end for want of an entry file, the
    /// version query on a host that needs it, else the elaboration itself.
    pub open spec fn elaboration_start(&self) -> ActionView {
        if self.entry is None {
            abort(Kind::Configuration, NO_ENTRY@, None)
        } else if self.host == Host::MacOs {
            ActionView::QueryHostVersion
        } else {
            self.elaboration(None)
        }
    }

    /// What follows the version query.
    pub open spec fn elaboration_on_host(&self, output: Option<Seq<char>>) -> ActionView {
        if self.entry is None {
            abort(Kind::Configuration, NO_ENTRY@, None)
        } else {
            match output {
                None => abort(Kind::Toolchain, HOST_VERSION_UNKNOWN@, None),
                Some(text) => match version_in(text) {
                    None => abort(Kind::Toolchain, HOST_VERSION_UNREADABLE@, None),
                    Some(v) => self.elaboration(Some(v)),
                },
            }
        }
    }

    /// The call that runs the entry file's unit.
    pub open spec fn execution(&self) -> ActionView {
        match self.entry {
            None => abort(Kind::Configuration, NO_ENTRY@, None),
            Some(entry) => match file_stem_of(entry@) {
                None => abort(Kind::Configuration, NO_BASE_NAME@, None),
                Some(unit) => toolchain_call(
                    Stage::Execute,
                    execute_arguments(unit, opt_text(self.waveform)),
                    true,
                ),
            },
        }
    }

    /// The launch of the viewer on the waveform, or the end for want of a
    /// waveform, of a viewer, or of the supported one.
    pub open spec fn viewing(&self) -> ActionView {
        match self.waveform {
            None => abort(Kind::Configuration, NO_WAVEFORM@, None),
            Some(w) => match self.viewer {
                None => abort(Kind::Configuration, NO_VIEWER@, None),
                Some(v) => if v@ == SUPPORTED_VIEWER@ {
                    ActionView::Launch {
                        program: SUPPORTED_VIEWER@,
                        args: seq![joined_path(BUILD_DIR@, w@)],
                    }
                } else {
                    abort(Kind::Configuration, UNSUPPORTED_VIEWER@, None)
                },
            },
        }
    }

    /// What follows a process of `stage` that exited. The viewer is not
    /// waited for: were its end reported, the run would be complete all the
    /// same.
    pub open spec fn after_exit(&self, stage: Stage, success: bool) -> ActionView {
        match stage {
            Stage::Wave => ActionView::Finish,
            _ => if !success {
                abort(Kind::Toolchain, TOOLCHAIN_FAILED@, None)
            } else {
                match stage {
                    Stage::Analyze => ActionView::Relocate,
                    Stage::Elaborate => if self.wants(Stage::Execute) {
                        self.execution()
                    } else {
                        ActionView::Finish
                    },
                    _ => if self.wants(Stage::Wave) {
                        self.viewing()
                    } else {
                        ActionView::Finish
                    },
                }
            },
        }
    }

    /// The whole transition: what to do after `event`.
    pub open spec fn next_action(&self, event: Event) -> ActionView {
        match event {
            Event::Start => self.analysis(),
            Event::Exited { stage, success } => self.after_exit(stage, success),
            Event::SpawnFailed { stage, cause } => abort(
                Kind::Toolchain,
                spawn_message(stage),
                Some(cause@),
            ),
            Event::WaitFailed { stage, cause } => match wait_message(stage) {
                Some(message) => abort(Kind::Toolchain, message, Some(cause@)),
                None => ActionView::Finish,
            },
            Event::Launched => ActionView::Finish,
            Event::Relocated => if self.wants(Stage::Elaborate) {
                self.elaboration_start()
            } else {
                ActionView::Finish
            },
            Event::RelocationFailed(e) => ActionView::Abort {
                level: e.level,
                kind: e.kind,
                message: e.message@,
                cause: opt_text(e.source),
            },
            Event::HostVersion(output) => if self.wants(Stage::Elaborate) {
                self.elaboration_on_host(opt_text(output))
            } else {
                ActionView::Finish
            },
        }
    }

    /// Whether `event` reports a failure: a process that could not be
    /// started, a toolchain stage that could not be waited for or that exited
    /// with a failure, or a relocation that failed.
    pub open spec fn is_failure(event: Event) -> bool {
        match event {
            Event::SpawnFailed { .. } => true,
            Event::WaitFailed { stage, .. } => stage != Stage::Wave,
            Event::RelocationFailed(_) => true,
            Event::Exited { stage, success } => stage != Stage::Wave && !success,
            _ => false,
        }
    }
}

/// The waveform file of a run: the one the command line names, else the
/// target's.
pub open spec fn chosen_waveform(command: Commands, target: Target) -> Option<Seq<char>> {
    match command.waveform_name() {
        Some(w) => Some(w),
        None => opt_text(target.vcd_name),
    }
}

/// The message for a process of `stage` that could not be started.
pub fn spawn_text(stage: Stage) -> (m: &'static str)
    ensures
        m@ == spawn_message(stage),
{
    match stage {
        Stage::Analyze => "couldn't spawn ghdl subprocess",
        Stage::Elaborate => "couldn't spawn ghdl elaborate subprocess, is ghdl installed?",
        Stage::Execute => "couldn't spawn ghdl run subprocess, is ghdl installed?",
        Stage::Wave => "could not create gtkwave",
    }
}

/// The message for a process of `stage` that could not be waited for; the
/// viewer's stage has none.
pub fn wait_text(stage: Stage) -> (m: Option<&'static str>)
    ensures
        opt_str_text(m) == wait_message(stage),
{
    match stage {
        Stage::Analyze => Some("couldn't await ghdl analyze subprocess, is ghdl installed?"),
        Stage::Elaborate => Some(
            "couldn't await ghdl elaborate subprocess, is ghdl installed correctly, and do you have run permissions?",
        ),
        Stage::Execute => Some(
            "couldn't await ghdl run subprocess, is ghdl installed correctly, and do you have run permissions?",
        ),
        Stage::Wave => None,
    }
}

/// A fatal end of this kind, with this message and no cause.
pub fn abort_with(kind: Kind, message: &str) -> (action: Action)
    ensures
        action@ == abort(kind, message@, None),
{
    Action::Abort(GbError::fatal(kind, String::from_str(message)))
}

/// The arguments of an analysis of `files`: the files keep their order.
pub fn analyze_args(files: &Vec<String>) -> (args: Vec<String>)
    ensures
        texts(args@) == analyze_arguments(texts(files@)),
{
    let mut args: Vec<String> = Vec::new();
    args.push(String::from_str("-a"));
    let mut i: usize = 0;
    while i < files.len()
        invariant
            i <= files@.len(),
            args@.len() == i + 1,
            args@[0]@ == "-a"@,
            forall|j: int| 0 <= j < i ==> (#[trigger] args@[j + 1])@ == files@[j]@,
        decreases files@.len() - i,
    {
        args.push(files[i].clone());
        i = i + 1;
    }
    proof {
        let want = analyze_arguments(texts(files@));
        let have = texts(args@);
        assert forall|k: int| 0 <= k < have.len() implies have[k] == want[k] by {
            if k >= 1 {
                assert(args@[(k - 1) + 1]@ == files@[k - 1]@);
            }
        }
    }
    args
}

/// The arguments of an elaboration of `unit`, with the host's version where
/// the linker needs it.
pub fn elaborate_args(unit: &str, version: Option<&str>) -> (args: Vec<String>)
    ensures
        texts(args@) == elaborate_arguments(unit@, opt_str_text(version)),
{
    let mut args: Vec<String> = Vec::new();
    args.push(String::from_str("-e"));
    match version {
        Some(v) => {
            args.push(String::from_str(MIN_VERSION_FLAG).concat(v));
        },
        None => {},
    }
    args.push(String::from_str(unit));
    args
}

/// The arguments of a run of `unit`, with the waveform file where one is
/// asked for.
pub fn execute_args(unit: &str, waveform: Option<&str>) -> (args: Vec<String>)
    ensures
        texts(args@) == execute_arguments(unit@, opt_str_text(waveform)),
{
    let mut args: Vec<String> = Vec::new();
    args.push(String::from_str("-r"));
    args.push(String::from_str(unit));
    match waveform {
        Some(w) => {
            args.push(String::from_str(WAVEFORM_FLAG).concat(w));
        },
        None => {},
    }
    args
}

impl Job {
    /// The run that `command` asks for on `target`; `Init` asks for none.
    ///
    /// The waveform file is the one the command line names, else the
    /// target's.
    pub fn new(command: &Commands, target: Target, viewer: Option<String>, host: Host) -> (job:
        Option<Job>)
        ensures
            match command.goal_stage() {
                None => job is None,
                Some(goal) => job is Some && job->0.goal == goal && job->0.files == target.files
                    && job->0.entry == target.entry && opt_text(job->0.waveform)
                    == chosen_waveform(*command, target) && job->0.viewer == viewer
                    && job->0.host == host,
            },
    {
        let goal = match command.goal() {
            Some(goal) => goal,
            None => {
                return None;
            },
        };
        let waveform = match command.waveform() {
            Some(w) => Some(String::from_str(w)),
            None => target.vcd_name,
        };
        Some(Job { goal, files: target.files, entry: target.entry, waveform, viewer, host })
    }

    /// Whether this run includes `stage`.
    pub fn includes(&self, stage: Stage) -> (yes: bool)
        ensures
            yes == self.wants(stage),
    {
        let of_stage: u8 = match stage {
            Stage::Analyze => 0,
            Stage::Elaborate => 1,
            Stage::Execute => 2,
            Stage::Wave => 3,
        };
        let of_goal: u8 = match self.goal {
            Stage::Analyze => 0,
            Stage::Elaborate => 1,
            Stage::Execute => 2,
            Stage::Wave => 3,
        };
        of_stage <= of_goal
    }

    /// The call that analyzes the files, in the order in which they stand;
    /// a job without files ends here.
    pub fn analyze(&self) -> (action: Action)
        ensures
            action@ == self.analysis(),
    {
        if self.files.len() == 0 {
            abort_with(Kind::Configuration, NO_FILES)
        } else {
            Action::Invoke {
                stage: Stage::Analyze,
                program: String::from_str(TOOLCHAIN),
                args: analyze_args(&self.files),
                in_build_dir: false,
            }
        }
    }

    /// The elaboration of the entry file's unit, run from the build
    /// directory; `version` is the host's version where the linker needs it.
    pub fn elaborate(&self, version: Option<&str>) -> (action: Action)
        ensures
            action@ == self.elaboration(opt_str_text(version)),
    {
        match &self.entry {
            None => abort_with(Kind::Configuration, NO_ENTRY),
            Some(entry) => match file_stem(entry.as_str()) {
                None => abort_with(Kind::Configuration, NO_BASE_NAME),
                Some(unit) => Action::Invoke {
                    stage: Stage::Elaborate,
                    program: String::from_str(TOOLCHAIN),
                    args: elaborate_args(unit.as_str(), version),
                    in_build_dir: true,
                },
            },
        }
    }

    /// What opens the elaborate stage.
    pub fn begin_elaboration(&self) -> (action: Action)
        ensures
            action@ == self.elaboration_start(),
    {
        if self.entry.is_none() {
            abort_with(Kind::Configuration, NO_ENTRY)
        } else {
            match self.host {
                Host::MacOs => Action::QueryHostVersion,
                Host::Other => self.elaborate(None),
            }
        }
    }

    /// What follows the version query, whose output is `output`.
    pub fn elaborate_on_host(&self, output: Option<String>) -> (action: Action)
        ensures
            action@ == self.elaboration_on_host(opt_text(output)),
    {
        if self.entry.is_none() {
            return abort_with(Kind::Configuration, NO_ENTRY);
        }
        match output {
            None => abort_with(Kind::Toolchain, HOST_VERSION_UNKNOWN),
            Some(text) => match product_version(text.as_str()) {
                None => abort_with(Kind::Toolchain, HOST_VERSION_UNREADABLE),
                Some(v) => self.elaborate(Some(v.as_str())),
            },
        }
    }

    /// The run of the entry file's unit, from the build directory.
    pub fn execute(&self) -> (action: Action)
        ensures
            action@ == self.execution(),
    {
        match &self.entry {
            None => abort_with(Kind::Configuration, NO_ENTRY),
            Some(entry) => match file_stem(entry.as_str()) {
                None => abort_with(Kind::Configuration, NO_BASE_NAME),
                Some(unit) => Action::Invoke {
                    stage: Stage::Execute,
                    program: String::from_str(TOOLCHAIN),
                    args: execute_args(unit.as_str(), as_slice(&self.waveform)),
                    in_build_dir: true,
                },
            },
        }
    }

    /// The launch of the waveform viewer on the waveform file below the
    /// build directory.
    pub fn view_waveform(&self) -> (action: Action)
        ensures
            action@ == self.viewing(),
    {
        match &self.waveform {
            None => abort_with(Kind::Configuration, NO_WAVEFORM),
            Some(w) => match &self.viewer {
                None => abort_with(Kind::Configuration, NO_VIEWER),
                Some(v) => {
                    let supported = String::from_str(SUPPORTED_VIEWER);
                    if *v == supported {
                        let mut args: Vec<String> = Vec::new();
                        args.push(join(BUILD_DIR, w.as_str()));
                        assert(texts(args@) =~= seq![joined_path(BUILD_DIR@, w@)]);
                        Action::Launch { program: supported, args }
                    } else {
                        abort_with(Kind::Configuration, UNSUPPORTED_VIEWER)
                    }
                },
            },
        }
    }

    /// Decides what to do after `event`.
    ///
    /// The stages follow one another up to the goal, each only after the one
    /// before it succeeded; the relocation follows a successful analysis at
    /// once. A failure of any kind ends the run with its diagnostic.
    pub fn next(&self, event: Event) -> (action: Action)
        ensures
            action@ == self.next_action(event),
    {
        match event {
            Event::Start => self.analyze(),
            Event::Exited { stage, success } => match stage {
                Stage::Wave => Action::Finish,
                _ => if !success {
                    abort_with(Kind::Toolchain, TOOLCHAIN_FAILED)
                } else {
                    match stage {
                        Stage::Analyze => Action::Relocate,
                        Stage::Elaborate => if self.includes(Stage::Execute) {
                            self.execute()
                        } else {
                            Action::Finish
                        },
                        _ => if self.includes(Stage::Wave) {
                            self.view_waveform()
                        } else {
                            Action::Finish
                        },
                    }
                },
            },
            Event::SpawnFailed { stage, cause } => Action::Abort(
                GbError::fatal_with_source(
                    Kind::Toolchain,
                    String::from_str(spawn_text(stage)),
                    cause,
                ),
            ),
            Event::WaitFailed { stage, cause } => match wait_text(stage) {
                Some(message) => Action::Abort(
                    GbError::fatal_with_source(Kind::Toolchain, String::from_str(message), cause),
                ),
                None => Action::Finish,
            },
            Event::Launched => Action::Finish,
            Event::Relocated => if self.includes(Stage::Elaborate) {
                self.begin_elaboration()
            } else {
                Action::Finish
            },
            Event::RelocationFailed(e) => Action::Abort(e),
            Event::HostVersion(output) => if self.includes(Stage::Elaborate) {
                self.elaborate_on_host(output)
            } else {
                Action::Finish
            },
        }
    }
}

/// Fail-fast: whatever the run, an event that reports a failure ends it.
pub proof fn lemma_failure_ends_run(job: Job, event: Event)
    requires
        Job::is_failure(event),
    ensures
        job.next_action(event) is Abort,
{
}

/// Whether `action` calls for the process of `stage`: a call of the
/// toolchain for that stage, or the launch of the viewer for the last one.
pub open spec fn calls_for(action: ActionView, stage: Stage) -> bool {
    match action {
        ActionView::Invoke { stage: of, .. } => of == stage,
        ActionView::Launch { .. } => stage == Stage::Wave,
        _ => false,
    }
}

/// A job without source files starts no process at all: it ends at once with
/// a diagnostic.
pub proof fn lemma_no_files_no_analysis(job: Job)
    requires
        job.files@.len() == 0,
    ensures
        job.next_action(Event::Start) == abort(Kind::Configuration, NO_FILES@, None),
{
}

/// Without an entry file nothing is ever elaborated or executed: no event
/// leads to a call of either stage, and a run that goes beyond analysis ends
/// with the diagnostic for the missing entry as soon as the relocation is
/// done.
pub proof fn lemma_no_entry_no_elaboration(job: Job, event: Event)
    requires
        job.entry is None,
    ensures
        !calls_for(job.next_action(event), Stage::Elaborate),
        !calls_for(job.next_action(event), Stage::Execute),
        job.wants(Stage::Elaborate) ==> job.next_action(Event::Relocated) == abort(
            Kind::Configuration,
            NO_ENTRY@,
            None,
        ),
{
}

/// A viewer is launched only when the configured one is the supported one:
/// with any other, no event leads to a launch, and a run whose goal is the
/// waveform ends with a diagnostic once the execution has succeeded.
pub proof fn lemma_unsupported_viewer_never_launched(job: Job, event: Event)
    requires
        opt_text(job.viewer) != Some(SUPPORTED_VIEWER@),
    ensures
        !calls_for(job.next_action(event), Stage::Wave),
        job.goal == Stage::Wave ==> job.next_action(
            Event::Exited { stage: Stage::Execute, success: true },
        ) is Abort,
        job.goal == Stage::Wave && job.waveform is Some && job.viewer is Some ==> job.next_action(
            Event::Exited { stage: Stage::Execute, success: true },
        ) == abort(Kind::Configuration, UNSUPPORTED_VIEWER@, None),
{
}

/// The viewer is started and left alone: the toolchain is never called for
/// the last stage, the launch follows only a successful execution, and once
/// the viewer is started the run is complete.
pub proof fn lemma_viewer_is_detached(job: Job, event: Event)
    ensures
        !(job.next_action(event) matches ActionView::Invoke { stage, .. } && stage == Stage::Wave),
        job.next_action(event) is Launch ==> event == (Event::Exited {
            stage: Stage::Execute,
            success: true,
        }),
        job.next_action(Event::Launched) is Finish,
{
}

/// The stages run in order and never beyond the goal: a process is called for
/// only at the start (the analysis), after the relocation or the version
/// query (the elaboration), or after the success of the stage before it.
pub proof fn lemma_stages_in_order(job: Job, event: Event, stage: Stage)
    requires
        calls_for(job.next_action(event), stage),
    ensures
        job.wants(stage),
        match stage {
            Stage::Analyze => event is Start,
            Stage::Elaborate => event is Relocated || event is HostVersion,
            Stage::Execute => event == (Event::Exited { stage: Stage::Elaborate, success: true }),
            Stage::Wave => event == (Event::Exited { stage: Stage::Execute, success: true }),
        },
{
}

/// The relocation follows a successful analysis, and nothing else.
pub proof fn lemma_relocation_after_analysis(job: Job, event: Event)
    ensures
        job.next_action(event) is Relocate <==> event == (Event::Exited {
            stage: Stage::Analyze,
            success: true,
        }),
{
}

/// The stages up to `stage`, in their order.
pub open spec fn stages_up_to(stage: Stage) -> Seq<Stage> {
    all_stages().take(rank(stage) as int + 1)
}

/// Whether `event` reports on `action`: the end of the process that was
/// called, that the viewer was started or could not be, the outcome of the
/// relocation, or what the version query printed. Nothing reports on the end
/// of a run.
pub open spec fn answers(action: ActionView, event: Event) -> bool {
    match action {
        ActionView::Invoke { stage, .. } => match event {
            Event::Exited { stage: of, .. } => of == stage,
            Event::SpawnFailed { stage: of, .. } => of == stage,
            Event::WaitFailed { stage: of, .. } => of == stage,
            _ => false,
        },
        ActionView::Launch { .. } => match event {
            Event::Launched => true,
            Event::SpawnFailed { stage: of, .. } => of == Stage::Wave,
            _ => false,
        },
        ActionView::Relocate => event is Relocated || event is RelocationFailed,
        ActionView::QueryHostVersion => event is HostVersion,
        ActionView::Finish => false,
        ActionView::Abort { .. } => false,
    }
}

/// Whether `events` are what a caller reports in the course of one run: first
/// the start, then for each action the event that reports on it.
pub open spec fn is_run(job: Job, events: Seq<Event>) -> bool {
    &&& events.len() > 0
    &&& events[0] is Start
    &&& forall|i: int|
        0 < i < events.len() ==> answers(job.next_action(events[i - 1]), #[trigger] events[i])
}

/// The actions that a run takes on `events`, one for each event.
pub open spec fn actions_of(job: Job, events: Seq<Event>) -> Seq<ActionView> {
    Seq::new(events.len(), |i: int| job.next_action(events[i]))
}

/// The stages whose processes `actions` call for, in the order of the calls.
pub open spec fn called(actions: Seq<ActionView>) -> Seq<Stage>
    decreases actions.len(),
{
    if actions.len() == 0 {
        Seq::empty()
    } else {
        let before = called(actions.drop_last());
        match actions.last() {
            ActionView::Invoke { stage, .. } => before.push(stage),
            ActionView::Launch { .. } => before.push(Stage::Wave),
            _ => before,
        }
    }
}

/// Where a run stands after its last action: which stages were called, given
/// what that action is.
pub open spec fn on_course(job: Job, actions: Seq<ActionView>) -> bool {
    let calls = called(actions);
    match actions.last() {
        ActionView::Invoke { stage, .. } => stage != Stage::Wave && job.wants(stage) && calls
            == stages_up_to(stage),
        ActionView::Launch { .. } => job.wants(Stage::Wave) && calls == stages_up_to(Stage::Wave),
        ActionView::Relocate => calls == all_stages().take(1),
        ActionView::QueryHostVersion => job.wants(Stage::Elaborate) && calls == all_stages().take(
            1,
        ),
        ActionView::Finish => calls == stages_up_to(job.goal),
        ActionView::Abort { .. } => exists|k: int|
            0 <= k <= rank(job.goal) + 1 && calls == #[trigger] all_stages().take(k),
    }
}

/// One more action keeps a run on course: what is reported on the last
/// action leads to the next stage, to the end, or to nothing new.
pub proof fn lemma_step_on_course(job: Job, before: Seq<ActionView>, event: Event)
    requires
        before.len() > 0,
        on_course(job, before),
        answers(before.last(), event),
    ensures
        on_course(job, before.push(job.next_action(event))),
{
    let action = job.next_action(event);
    let after = before.push(action);
    let calls = called(before);
    assert(after.drop_last() == before);
    assert(after.last() == action);
    match action {
        ActionView::Invoke { stage: next, .. } => {
            assert(called(after) == calls.push(next));
            match before.last() {
                ActionView::Invoke { stage, .. } => {
                    assert(rank(next) == rank(stage) + 1);
                    assert(calls.push(next) == stages_up_to(next));
                },
                _ => {
                    assert(next == Stage::Elaborate);
                    assert(calls.push(next) == stages_up_to(next));
                },
            }
        },
        ActionView::Launch { .. } => {
            assert(called(after) == calls.push(Stage::Wave));
            assert(calls == stages_up_to(Stage::Execute));
            assert(calls.push(Stage::Wave) == stages_up_to(Stage::Wave));
        },
        ActionView::Finish => {
            assert(called(after) == calls);
            match before.last() {
                ActionView::Invoke { stage, .. } => {
                    assert(rank(job.goal) == rank(stage));
                },
                ActionView::Launch { .. } => {
                    assert(job.goal == Stage::Wave);
                },
                _ => {
                    assert(rank(job.goal) == 0);
                },
            }
        },
        ActionView::Abort { .. } => {
            assert(called(after) == calls);
            let k = calls.len() as int;
            assert(calls == all_stages().take(k));
        },
        _ => {
            assert(called(after) == calls);
        },
    }
}

/// In every run the stages are called in their order, from the analysis on
/// and without a gap, and none beyond the goal. A run that finishes has
/// called every stage up to its goal.
pub proof fn lemma_run_follows_stages(job: Job, events: Seq<Event>)
    requires
        is_run(job, events),
    ensures
        on_course(job, actions_of(job, events)),
        exists|k: int|
            0 <= k <= rank(job.goal) + 1 && called(actions_of(job, events))
                == #[trigger] all_stages().take(k),
        actions_of(job, events).last() is Finish ==> called(actions_of(job, events))
            == stages_up_to(job.goal),
    decreases events.len(),
{
    let actions = actions_of(job, events);
    if events.len() == 1 {
        assert(called(actions.drop_last()) == Seq::<Stage>::empty());
        if job.files@.len() == 0 {
            assert(called(actions) == all_stages().take(0));
        } else {
            assert(called(actions) == all_stages().take(1));
        }
    } else {
        let head = events.drop_last();
        assert(is_run(job, head));
        lemma_run_follows_stages(job, head);
        let before = actions_of(job, head);
        assert(answers(before.last(), events.last()));
        lemma_step_on_course(job, before, events.last());
        assert(actions == before.push(job.next_action(events.last())));
    }
    let k = called(actions).len() as int;
    assert(on_course(job, actions));
    if !(actions.last() is Abort) {
        assert(called(actions) == all_stages().take(k));
    }
}

/// A stage among those called was called for by one of the actions.
pub proof fn lemma_called_was_asked(actions: Seq<ActionView>, stage: Stage)
    requires
        called(actions).contains(stage),
    ensures
        exists|i: int| 0 <= i < actions.len() && calls_for(#[trigger] actions[i], stage),
    decreases actions.len(),
{
    if actions.len() > 0 {
        let before = actions.drop_last();
        if !calls_for(actions.last(), stage) {
            assert(called(before).contains(stage));
            lemma_called_was_asked(before, stage);
            let i = choose|i: int| 0 <= i < before.len() && calls_for(#[trigger] before[i], stage);
            assert(calls_for(actions[i], stage));
        }
    }
}

/// A run of a job without an entry file calls the analysis and nothing else,
/// whatever the command; without source files it calls nothing.
pub proof fn lemma_run_without_entry(job: Job, events: Seq<Event>)
    requires
        is_run(job, events),
        job.entry is None,
    ensures
        job.files@.len() > 0 ==> called(actions_of(job, events)) == seq![Stage::Analyze],
        job.files@.len() == 0 ==> called(actions_of(job, events)) == Seq::<Stage>::empty(),
{
    let actions = actions_of(job, events);
    let calls = called(actions);
    lemma_run_follows_stages(job, events);
    let k = choose|k: int| 0 <= k <= rank(job.goal) + 1 && calls == #[trigger] all_stages().take(k);
    if k >= 2 {
        assert(calls[1] == Stage::Elaborate);
        lemma_called_was_asked(actions, Stage::Elaborate);
        let i = choose|i: int|
            0 <= i < actions.len() && calls_for(#[trigger] actions[i], Stage::Elaborate);
        lemma_no_entry_no_elaboration(job, events[i]);
    }
    lemma_first_call(job, events);
}

/// A run calls the analysis exactly when the job has source files.
pub proof fn lemma_first_call(job: Job, events: Seq<Event>)
    requires
        is_run(job, events),
    ensures
        job.files@.len() == 0 ==> called(actions_of(job, events)) == Seq::<Stage>::empty(),
        job.files@.len() > 0 ==> called(actions_of(job, events)).len() >= 1,
    decreases events.len(),
{
    let actions = actions_of(job, events);
    let earlier = actions.drop_last();
    if events.len() == 1 {
        assert(called(earlier) == Seq::<Stage>::empty());
    } else if job.files@.len() == 0 {
        // The first action ends the run, and nothing reports on an end.
        assert(answers(job.next_action(events[0]), events[1]));
    } else {
        let head = events.drop_last();
        assert(is_run(job, head));
        lemma_first_call(job, head);
        assert(actions_of(job, head) == earlier);
    }
}

/// A run never launches a viewer other than the supported one.
pub proof fn lemma_run_with_unsupported_viewer(job: Job, events: Seq<Event>)
    requires
        is_run(job, events),
        opt_text(job.viewer) != Some(SUPPORTED_VIEWER@),
    ensures
        !called(actions_of(job, events)).contains(Stage::Wave),
{
    let actions = actions_of(job, events);
    if called(actions).contains(Stage::Wave) {
        lemma_called_was_asked(actions, Stage::Wave);
        let i = choose|i: int|
            0 <= i < actions.len() && calls_for(#[trigger] actions[i], Stage::Wave);
        lemma_unsupported_viewer_never_launched(job, events[i]);
    }
}

} // verus!
