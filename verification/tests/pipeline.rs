use gb::command::Commands;
use gb::command::Stage;
use gb::error::GbError;
use gb::error::Kind;
use gb::error::Level;
use gb::pipeline::analyze_args;
use gb::pipeline::elaborate_args;
use gb::pipeline::execute_args;
use gb::pipeline::spawn_text;
use gb::pipeline::wait_text;
use gb::pipeline::Action;
use gb::pipeline::Event;
use gb::pipeline::Host;
use gb::pipeline::Job;
use gb::pipeline::Target;

fn some(text: &str) -> Option<String> {
    Some(text.to_string())
}

fn target(files: &[&str], entry: Option<&str>, vcd_name: Option<&str>) -> Target {
    Target {
        files: files.iter().map(|f| f.to_string()).collect(),
        entry: entry.map(|e| e.to_string()),
        vcd_name: vcd_name.map(|v| v.to_string()),
    }
}

fn exited(stage: Stage) -> Event {
    Event::Exited { stage, success: true }
}

fn expect_call(action: Action, stage: Stage, program: &str, args: &[&str], in_build_dir: bool) {
    match action {
        Action::Invoke { stage: s, program: p, args: a, in_build_dir: d } => {
            assert_eq!(s, stage);
            assert_eq!(p, program);
            assert_eq!(a, args.iter().map(|x| x.to_string()).collect::<Vec<String>>());
            assert_eq!(d, in_build_dir);
        }
        other => panic!("no call: {:?}", other),
    }
}

fn expect_abort(kind: Kind, action: Action, message: &str, cause: Option<&str>) {
    match action {
        Action::Abort(e) => {
            assert_eq!(e.message, message);
            assert_eq!(e.kind, kind);
            assert!(matches!(e.level, Level::Fatal));
            assert_eq!(e.source.as_deref(), cause);
        }
        other => panic!("no abort: {:?}", other),
    }
}

#[test]
fn run_without_entry_fails_before_elaboration() {
    let command = Commands::Run { target: None, vcd: None };
    let job = Job::new(&command, target(&["a.vhd", "b.vhd", "c.vhd"], None, None), None, Host::Other)
        .unwrap();
    expect_call(job.next(Event::Start), Stage::Analyze, "ghdl", &["-a", "a.vhd", "b.vhd", "c.vhd"], false);
    assert!(matches!(job.next(exited(Stage::Analyze)), Action::Relocate));
    expect_abort(
        Kind::Configuration,
        job.next(Event::Relocated),
        "must have a file chosen to execute in order to elaborate. Please set `execute = \"<YOUR_FILE>\" in gb.toml",
        None,
    );
    assert!(matches!(job.next(exited(Stage::Elaborate)), Action::Abort(_)));
    assert!(matches!(job.next(Event::HostVersion(some("ProductVersion: 1"))), Action::Abort(_)));
}

#[test]
fn wave_with_another_viewer_fails_before_the_launch() {
    let command = Commands::Wave { target: None, vcd: some("out.vcd") };
    let job = Job::new(&command, target(&["top.vhd"], Some("top.vhd"), None), some("surfer"), Host::Other)
        .unwrap();
    expect_call(job.next(Event::Start), Stage::Analyze, "ghdl", &["-a", "top.vhd"], false);
    assert!(matches!(job.next(exited(Stage::Analyze)), Action::Relocate));
    expect_call(job.next(Event::Relocated), Stage::Elaborate, "ghdl", &["-e", "top"], true);
    expect_call(
        job.next(exited(Stage::Elaborate)),
        Stage::Execute,
        "ghdl",
        &["-r", "top", "--vcd=out.vcd"],
        true,
    );
    expect_abort(
        Kind::Configuration,
        job.next(exited(Stage::Execute)),
        "The only supported wave viewer is gtkwave. Please set `default.vcd-viewer = \"gtkwave\"`",
        None,
    );
}

#[test]
fn compile_analyzes_in_order_then_elaborates_the_entry() {
    let command = Commands::Compile { target: None };
    let job = Job::new(&command, target(&["a.vhd", "b.vhd"], Some("a.vhd"), None), None, Host::Other)
        .unwrap();
    expect_call(job.next(Event::Start), Stage::Analyze, "ghdl", &["-a", "a.vhd", "b.vhd"], false);
    assert!(matches!(job.next(exited(Stage::Analyze)), Action::Relocate));
    expect_call(job.next(Event::Relocated), Stage::Elaborate, "ghdl", &["-e", "a"], true);
    assert!(matches!(job.next(exited(Stage::Elaborate)), Action::Finish));
}

#[test]
fn analyze_only_stops_after_the_relocation() {
    let command = Commands::Analyze { target: None };
    let job = Job::new(&command, target(&["b.vhd", "a.vhd"], None, None), None, Host::MacOs).unwrap();
    expect_call(job.next(Event::Start), Stage::Analyze, "ghdl", &["-a", "b.vhd", "a.vhd"], false);
    assert!(matches!(job.next(exited(Stage::Analyze)), Action::Relocate));
    assert!(matches!(job.next(Event::Relocated), Action::Finish));
    assert!(matches!(job.next(Event::HostVersion(None)), Action::Finish));
}

#[test]
fn run_executes_after_elaboration() {
    let command = Commands::Run { target: some("t"), vcd: None };
    let job = Job::new(
        &command,
        target(&["src/top.vhd"], Some("src/top.vhd"), Some("wave.vcd")),
        None,
        Host::Other,
    )
    .unwrap();
    assert_eq!(job.goal, Stage::Execute);
    assert_eq!(job.waveform.as_deref(), Some("wave.vcd"));
    expect_call(job.next(Event::Relocated), Stage::Elaborate, "ghdl", &["-e", "top"], true);
    expect_call(
        job.next(exited(Stage::Elaborate)),
        Stage::Execute,
        "ghdl",
        &["-r", "top", "--vcd=wave.vcd"],
        true,
    );
    assert!(matches!(job.next(exited(Stage::Execute)), Action::Finish));
}

#[test]
fn command_line_waveform_wins() {
    let command = Commands::Run { target: None, vcd: some("cli.vcd") };
    let job = Job::new(&command, target(&["a.vhd"], Some("a.vhd"), Some("toml.vcd")), None, Host::Other)
        .unwrap();
    assert_eq!(job.waveform.as_deref(), Some("cli.vcd"));
    let command = Commands::Run { target: None, vcd: None };
    let job = Job::new(&command, target(&["a.vhd"], Some("a.vhd"), None), None, Host::Other).unwrap();
    assert_eq!(job.waveform, None);
    expect_call(job.next(exited(Stage::Elaborate)), Stage::Execute, "ghdl", &["-r", "a"], true);
}

#[test]
fn init_is_no_job() {
    assert!(Job::new(&Commands::Init, target(&["a.vhd"], None, None), None, Host::Other).is_none());
}

fn expect_launch(action: Action, program: &str, args: &[&str]) {
    match action {
        Action::Launch { program: p, args: a } => {
            assert_eq!(p, program);
            assert_eq!(a, args.iter().map(|x| x.to_string()).collect::<Vec<String>>());
        }
        other => panic!("no launch: {:?}", other),
    }
}

#[test]
fn job_without_files_ends_at_once() {
    for command in [
        Commands::Analyze { target: None },
        Commands::Compile { target: None },
        Commands::Run { target: None, vcd: None },
        Commands::Wave { target: None, vcd: None },
    ] {
        let job = Job::new(&command, target(&[], Some("a.vhd"), None), None, Host::Other).unwrap();
        expect_abort(
            Kind::Configuration,
            job.next(Event::Start),
            "the files list must hold at least one file",
            None,
        );
    }
}

#[test]
fn wave_launches_the_supported_viewer() {
    let command = Commands::Wave { target: None, vcd: None };
    let job = Job::new(
        &command,
        target(&["a.vhd"], Some("a.vhd"), Some("out.vcd")),
        some("gtkwave"),
        Host::Other,
    )
    .unwrap();
    expect_launch(job.next(exited(Stage::Execute)), "gtkwave", &["build/root/out.vcd"]);
    assert!(matches!(job.next(Event::Launched), Action::Finish));
}

#[test]
fn viewer_is_not_waited_for() {
    let command = Commands::Wave { target: None, vcd: None };
    let job = Job::new(
        &command,
        target(&["a.vhd"], Some("a.vhd"), Some("out.vcd")),
        some("gtkwave"),
        Host::Other,
    )
    .unwrap();
    assert!(matches!(job.next(exited(Stage::Execute)), Action::Launch { .. }));
    assert!(matches!(job.next(Event::Launched), Action::Finish));
    assert!(matches!(job.next(exited(Stage::Wave)), Action::Finish));
    assert!(matches!(
        job.next(Event::Exited { stage: Stage::Wave, success: false }),
        Action::Finish
    ));
    assert!(matches!(
        job.next(Event::WaitFailed { stage: Stage::Wave, cause: "gone".to_string() }),
        Action::Finish
    ));
    assert_eq!(wait_text(Stage::Wave), None);
    expect_abort(
        Kind::Toolchain,
        job.next(Event::SpawnFailed { stage: Stage::Wave, cause: "not found".to_string() }),
        "could not create gtkwave",
        Some("not found"),
    );
}

#[test]
fn wave_needs_a_waveform_and_a_viewer() {
    let command = Commands::Wave { target: None, vcd: None };
    let job = Job::new(&command, target(&["a.vhd"], Some("a.vhd"), None), some("gtkwave"), Host::Other)
        .unwrap();
    expect_abort(
        Kind::Configuration,
        job.next(exited(Stage::Execute)),
        "vcd-name not set in target for toml. Cannot launch vcd viewer",
        None,
    );
    let job = Job::new(&command, target(&["a.vhd"], Some("a.vhd"), Some("o.vcd")), None, Host::Other)
        .unwrap();
    expect_abort(
        Kind::Configuration,
        job.next(exited(Stage::Execute)),
        "top level `default.vcd-viewer` not set in target for toml. Cannot launch vcd viewer",
        None,
    );
}

#[test]
fn mac_host_asks_for_its_version_first() {
    let command = Commands::Compile { target: None };
    let job = Job::new(&command, target(&["a.vhd"], Some("a.vhd"), None), None, Host::MacOs).unwrap();
    assert!(matches!(job.next(Event::Relocated), Action::QueryHostVersion));
    let output = "ProductName:\tmacOS\nProductVersion:\t13.4.1\nBuildVersion:\t22F82\n";
    expect_call(
        job.next(Event::HostVersion(some(output))),
        Stage::Elaborate,
        "ghdl",
        &["-e", "-Wl,-mmacosx-version-min=13.4.1", "a"],
        true,
    );
    expect_abort(Kind::Toolchain, job.next(Event::HostVersion(None)), "could not access macos version", None);
    expect_abort(
        Kind::Toolchain,
        job.next(Event::HostVersion(some("nothing"))),
        "failed to parse macos version",
        None,
    );
}

#[test]
fn entry_without_base_name_is_refused() {
    let command = Commands::Run { target: None, vcd: None };
    let job = Job::new(&command, target(&["a.vhd"], Some(".."), None), None, Host::Other).unwrap();
    expect_abort(Kind::Configuration, job.next(Event::Relocated), "could not get base filename", None);
    expect_abort(Kind::Configuration, job.next(exited(Stage::Elaborate)), "could not get base filename", None);
}

#[test]
fn any_failure_ends_the_run() {
    let command = Commands::Wave { target: None, vcd: None };
    let job = Job::new(
        &command,
        target(&["a.vhd"], Some("a.vhd"), Some("o.vcd")),
        some("gtkwave"),
        Host::Other,
    )
    .unwrap();
    for stage in [Stage::Analyze, Stage::Elaborate, Stage::Execute] {
        expect_abort(
            Kind::Toolchain,
            job.next(Event::Exited { stage, success: false }),
            "GHDL didn't compile successfully.",
            None,
        );
    }
    let spawn = [
        (Stage::Analyze, "couldn't spawn ghdl subprocess"),
        (Stage::Elaborate, "couldn't spawn ghdl elaborate subprocess, is ghdl installed?"),
        (Stage::Execute, "couldn't spawn ghdl run subprocess, is ghdl installed?"),
        (Stage::Wave, "could not create gtkwave"),
    ];
    for (stage, message) in spawn {
        assert_eq!(spawn_text(stage), message);
        expect_abort(
            Kind::Toolchain,
            job.next(Event::SpawnFailed { stage, cause: "not found".to_string() }),
            message,
            Some("not found"),
        );
    }
    let wait = [
        (Stage::Analyze, "couldn't await ghdl analyze subprocess, is ghdl installed?"),
        (
            Stage::Elaborate,
            "couldn't await ghdl elaborate subprocess, is ghdl installed correctly, and do you have run permissions?",
        ),
        (
            Stage::Execute,
            "couldn't await ghdl run subprocess, is ghdl installed correctly, and do you have run permissions?",
        ),
    ];
    for (stage, message) in wait {
        assert_eq!(wait_text(stage), Some(message));
        expect_abort(
            Kind::Toolchain,
            job.next(Event::WaitFailed { stage, cause: "gone".to_string() }),
            message,
            Some("gone"),
        );
    }
    let e = GbError::fatal_with_source(
        Kind::Filesystem,
        "could not remove work-obj93.cf".to_string(),
        "x".to_string(),
    );
    expect_abort(Kind::Filesystem, job.next(Event::RelocationFailed(e)), "could not remove work-obj93.cf", Some("x"));
}

#[test]
fn arguments_are_exact() {
    let files = vec!["z.vhd".to_string(), "a.vhd".to_string()];
    assert_eq!(analyze_args(&files), vec!["-a", "z.vhd", "a.vhd"]);
    assert_eq!(analyze_args(&Vec::new()), vec!["-a"]);
    assert_eq!(elaborate_args("top", None), vec!["-e", "top"]);
    assert_eq!(
        elaborate_args("top", Some("14.0")),
        vec!["-e", "-Wl,-mmacosx-version-min=14.0", "top"]
    );
    assert_eq!(execute_args("top", None), vec!["-r", "top"]);
    assert_eq!(execute_args("top", Some("o.vcd")), vec!["-r", "top", "--vcd=o.vcd"]);
}

#[test]
fn job_includes_the_stages_up_to_its_goal() {
    let command = Commands::Compile { target: None };
    let job = Job::new(&command, target(&["a.vhd"], None, None), None, Host::Other).unwrap();
    assert!(job.includes(Stage::Analyze));
    assert!(job.includes(Stage::Elaborate));
    assert!(!job.includes(Stage::Execute));
    assert!(!job.includes(Stage::Wave));
}
