use gb::command::Commands;
use gb::command::Stage;
use gb::error::GbError;
use gb::error::Kind;
use gb::error::Level;

fn some(text: &str) -> Option<String> {
    Some(text.to_string())
}

#[test]
fn target_is_the_one_named() {
    assert_eq!(Commands::Run { target: some("t"), vcd: None }.target(), Some("t"));
    assert_eq!(Commands::Compile { target: some("c") }.target(), Some("c"));
    assert_eq!(Commands::Analyze { target: some("a") }.target(), Some("a"));
    assert_eq!(Commands::Wave { target: some("w"), vcd: some("o.vcd") }.target(), Some("w"));
    assert_eq!(Commands::Run { target: None, vcd: some("o.vcd") }.target(), None);
    assert_eq!(Commands::Init.target(), None);
}

#[test]
fn waveform_is_the_one_named() {
    assert_eq!(Commands::Run { target: None, vcd: some("o.vcd") }.waveform(), Some("o.vcd"));
    assert_eq!(Commands::Wave { target: None, vcd: some("w.vcd") }.waveform(), Some("w.vcd"));
    assert_eq!(Commands::Wave { target: some("t"), vcd: None }.waveform(), None);
    assert_eq!(Commands::Compile { target: some("t") }.waveform(), None);
}

#[test]
fn each_command_runs_a_prefix_of_the_stages() {
    assert_eq!(Commands::Init.stages(), vec![]);
    assert_eq!(Commands::Analyze { target: None }.stages(), vec![Stage::Analyze]);
    assert_eq!(
        Commands::Compile { target: None }.stages(),
        vec![Stage::Analyze, Stage::Elaborate]
    );
    assert_eq!(
        Commands::Run { target: None, vcd: None }.stages(),
        vec![Stage::Analyze, Stage::Elaborate, Stage::Execute]
    );
    assert_eq!(
        Commands::Wave { target: None, vcd: None }.stages(),
        vec![Stage::Analyze, Stage::Elaborate, Stage::Execute, Stage::Wave]
    );
}

#[test]
fn runs_agrees_with_stages() {
    let commands = [
        Commands::Init,
        Commands::Analyze { target: None },
        Commands::Compile { target: None },
        Commands::Run { target: None, vcd: None },
        Commands::Wave { target: None, vcd: None },
    ];
    let stages = [Stage::Analyze, Stage::Elaborate, Stage::Execute, Stage::Wave];
    for command in &commands {
        for stage in stages {
            assert_eq!(command.runs(stage), command.stages().contains(&stage));
        }
    }
    assert_eq!(commands[0].goal(), None);
    assert_eq!(commands[2].goal(), Some(Stage::Elaborate));
    assert_eq!(commands[4].goal(), Some(Stage::Wave));
}

#[test]
fn diagnostics_are_fatal_and_reported_in_one_line() {
    let e = GbError::fatal(Kind::Validation, "There were missing files.".to_string());
    assert!(matches!(e.level, Level::Fatal));
    assert_eq!(e.kind, Kind::Validation);
    assert!(e.source.is_none());
    assert_eq!(e.report(), "[gb-error] [build]: There were missing files.. Aborting.");
    let e = GbError::fatal_with_source(Kind::Toolchain, "m".to_string(), "c".to_string());
    assert_eq!(e.source.as_deref(), Some("c"));
    assert_eq!(e.report(), "[gb-error] [build]: m. Aborting.");
}
