use gb::error::Kind;
use gb::error::Level;
use gb::manifest::keys2;
use gb::manifest::list_at;
use gb::manifest::string_at;
use gb::manifest::unwrap_strings;
use gb::manifest::Manifest;
use gb::preflight::missing_files;
use gb::preflight::require_present;

const SAMPLE: &str = r#"
default.target = "adder"
default.vcd-viewer = "gtkwave"

[target.adder]
files = ["src/adder.vhd", "src/adder_tb.vhd"]
execute = "src/adder_tb.vhd"
vcd-name = "adder.vcd"

[target.bare]
files = []

[target.plain]
files = ["p.vhd"]

[target.broken]
files = "src/one.vhd"

[target.mixed]
files = ["a.vhd", 3]

[target.empty]
execute = "x.vhd"
"#;

fn sample() -> Manifest {
    Manifest::parse(SAMPLE).unwrap()
}

fn message_of<T: std::fmt::Debug>(r: Result<T, gb::error::GbError>) -> String {
    let e = r.unwrap_err();
    assert!(matches!(e.level, Level::Fatal));
    assert_eq!(e.kind, Kind::Configuration);
    assert!(e.source.is_none());
    e.message
}

#[test]
fn defaults_are_read() {
    let manifest = sample();
    assert_eq!(manifest.default_target().as_deref(), Some("adder"));
    assert_eq!(manifest.viewer().as_deref(), Some("gtkwave"));
    let manifest = Manifest::parse("[target.t]\nfiles = [\"a.vhd\"]\n").unwrap();
    assert_eq!(manifest.default_target(), None);
    assert_eq!(manifest.viewer(), None);
}

#[test]
fn default_target_is_selected() {
    let selected = sample().select(None).unwrap();
    assert_eq!(selected.name, "adder");
    assert_eq!(selected.target.files, vec!["src/adder.vhd", "src/adder_tb.vhd"]);
    assert_eq!(selected.target.entry.as_deref(), Some("src/adder_tb.vhd"));
    assert_eq!(selected.target.vcd_name.as_deref(), Some("adder.vcd"));
}

#[test]
fn requested_target_wins() {
    let selected = sample().select(Some("plain")).unwrap();
    assert_eq!(selected.name, "plain");
    assert_eq!(selected.target.files, vec!["p.vhd"]);
    assert_eq!(selected.target.entry, None);
    assert_eq!(selected.target.vcd_name, None);
}

#[test]
fn target_with_empty_file_list_is_refused() {
    assert_eq!(
        message_of(sample().select(Some("bare"))),
        "the files list must hold at least one file"
    );
    let manifest = Manifest::parse("default.target = \"t\"\n[target.t]\nfiles = []\n").unwrap();
    assert_eq!(
        message_of(manifest.select(None)),
        "the files list must hold at least one file"
    );
    assert_eq!(
        message_of(manifest.describe("t")),
        "the files list must hold at least one file"
    );
}

#[test]
fn unparseable_manifest_is_refused() {
    let e = Manifest::parse("default.target = ").err().unwrap();
    assert_eq!(e.message, "failed to parse manifest file");
    assert!(matches!(e.level, Level::Fatal));
    assert_eq!(e.kind, Kind::Configuration);
    assert!(e.source.is_some());
}

#[test]
fn no_target_at_all() {
    let manifest = Manifest::parse("[target.t]\nfiles = [\"a.vhd\"]\n").unwrap();
    assert_eq!(
        message_of(manifest.select(None)),
        "No target was passed and no default target was set"
    );
    let manifest = Manifest::parse("default.target = 3\n").unwrap();
    assert_eq!(
        message_of(manifest.select(None)),
        "No target was passed and no default target was set"
    );
}

#[test]
fn no_targets_table() {
    let manifest = Manifest::parse("default.target = \"t\"\n").unwrap();
    assert_eq!(
        message_of(manifest.select(None)),
        "there are no provided targets; please provide them"
    );
    assert_eq!(
        message_of(manifest.describe("t")),
        "there are no provided targets; please provide them"
    );
}

#[test]
fn unknown_target() {
    assert_eq!(
        message_of(sample().select(Some("nope"))),
        "Attempted to run target `nope` but it was not found in gb.toml"
    );
    let manifest = Manifest::parse("target = 5\n").unwrap();
    assert_eq!(
        message_of(manifest.select(Some("t"))),
        "Attempted to run target `t` but it was not found in gb.toml"
    );
}

#[test]
fn target_without_files() {
    assert_eq!(
        message_of(sample().select(Some("empty"))),
        "a files key is required for every target but it was not supplied for empty"
    );
}

#[test]
fn files_that_are_no_array() {
    assert_eq!(message_of(sample().select(Some("broken"))), "the files list must be an array");
}

#[test]
fn files_that_are_no_strings() {
    assert_eq!(
        message_of(sample().select(Some("mixed"))),
        "all the files in the files list, must be listed by their path as a string"
    );
}

#[test]
fn inline_tables_are_followed() {
    let manifest =
        Manifest::parse("target = { t = { files = [\"a.vhd\"], execute = \"a.vhd\" } }\n").unwrap();
    let selected = manifest.select(Some("t")).unwrap();
    assert_eq!(selected.target.files, vec!["a.vhd"]);
    assert_eq!(selected.target.entry.as_deref(), Some("a.vhd"));
}

#[test]
fn paths_lead_to_strings_and_lists() {
    let manifest = sample();
    assert_eq!(
        string_at(&manifest.root, &keys2("default", "target")).as_deref(),
        Some("adder")
    );
    assert_eq!(string_at(&manifest.root, &keys2("default", "nothing")), None);
    assert_eq!(string_at(&manifest.root, &keys2("target", "adder")), None);
    assert_eq!(string_at(&manifest.root, &Vec::new()), None);
    let path = vec!["target".to_string(), "mixed".to_string(), "files".to_string()];
    assert_eq!(list_at(&manifest.root, &path), Some(vec![Some("a.vhd".to_string()), None]));
    assert_eq!(list_at(&manifest.root, &keys2("default", "target")), None);
    assert_eq!(list_at(&manifest.root, &keys2("a", "b")), None);
}

#[test]
fn strings_are_unwrapped_all_or_none() {
    assert_eq!(
        unwrap_strings(&vec![Some("a".to_string()), Some("b".to_string())]),
        Some(vec!["a".to_string(), "b".to_string()])
    );
    assert_eq!(unwrap_strings(&vec![Some("a".to_string()), None]), None);
    assert_eq!(unwrap_strings(&Vec::new()), Some(Vec::new()));
}

#[test]
fn missing_files_are_listed_in_order() {
    let files = vec!["a.vhd".to_string(), "b.vhd".to_string(), "c.vhd".to_string()];
    assert_eq!(missing_files(&files, &vec![false, true, false]), vec!["a.vhd", "c.vhd"]);
    assert_eq!(missing_files(&files, &vec![true, true, true]), Vec::<String>::new());
    assert_eq!(missing_files(&files, &vec![true]), vec!["b.vhd", "c.vhd"]);
    assert!(require_present(&files, &vec![true, true, true]).is_ok());
    assert!(require_present(&Vec::new(), &Vec::new()).is_ok());
    let e = require_present(&files, &vec![true, false, true]).unwrap_err();
    assert_eq!(e.message, "There were missing files.");
    assert!(matches!(e.level, Level::Fatal));
    assert_eq!(e.kind, Kind::Validation);
    assert!(e.source.is_none());
}
