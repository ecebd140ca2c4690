use gb::error::Kind;
use gb::error::Level;
use gb::relocator::after_step;
use gb::relocator::cleanup_build_dir;
use gb::relocator::object_artifact;
use gb::relocator::plan_relocation;
use gb::relocator::step_failure;
use gb::relocator::FsStep;
use gb::relocator::Progress;

fn names(files: &[&str]) -> Vec<String> {
    files.iter().map(|f| f.to_string()).collect()
}

#[test]
fn object_file_is_named_after_the_stem() {
    assert_eq!(object_artifact("top.vhd").unwrap(), "top.o");
    assert_eq!(object_artifact("src/deep/adder.vhd").unwrap(), "adder.o");
    assert_eq!(object_artifact("noext").unwrap(), "noext.o");
    assert_eq!(object_artifact("a.b.vhd").unwrap(), "a.o");
    assert_eq!(object_artifact(".hidden").unwrap(), ".hidden.o");
}

#[test]
fn file_without_stem_is_refused() {
    let e = object_artifact("..").unwrap_err();
    assert_eq!(e.message, "could not get file stem for ..");
    assert!(matches!(e.level, Level::Fatal));
    assert_eq!(e.kind, Kind::Filesystem);
    assert!(e.source.is_none());
    let e = object_artifact("").unwrap_err();
    assert_eq!(e.message, "could not get file stem for ");
}

#[test]
fn plan_moves_objects_before_the_catalog() {
    let plan = plan_relocation("build/root/", &names(&["a.vhd", "src/b.vhd"])).unwrap();
    assert_eq!(plan.len(), 6);
    assert!(matches!(&plan[0], FsStep::CreateDir { path } if path == "build/root/"));
    assert!(
        matches!(&plan[1], FsStep::MoveObject { from, to } if from == "a.o" && to == "build/root/a.o")
    );
    assert!(
        matches!(&plan[2], FsStep::MoveObject { from, to } if from == "b.o" && to == "build/root/b.o")
    );
    assert!(matches!(&plan[3], FsStep::ReadCatalog { path } if path == "work-obj93.cf"));
    assert!(
        matches!(&plan[4], FsStep::WriteCatalog { path } if path == "build/root/work-obj93.cf")
    );
    assert!(matches!(&plan[5], FsStep::RemoveCatalog { path } if path == "work-obj93.cf"));
}

#[test]
fn plan_for_no_files_only_handles_the_catalog() {
    let plan = cleanup_build_dir(&Vec::new()).unwrap();
    assert_eq!(plan.len(), 4);
    assert!(matches!(&plan[0], FsStep::CreateDir { .. }));
    assert!(matches!(&plan[1], FsStep::ReadCatalog { .. }));
}

#[test]
fn plan_names_the_first_file_without_stem() {
    let e = cleanup_build_dir(&names(&["a.vhd", "..", ""])).unwrap_err();
    assert_eq!(e.message, "could not get file stem for ..");
}

#[test]
fn missing_object_stops_the_relocation_before_the_catalog() {
    let plan = cleanup_build_dir(&names(&["a.vhd", "b.vhd"])).unwrap();
    assert!(matches!(after_step(&plan, 0, Ok(())), Progress::Next(1)));
    assert!(matches!(after_step(&plan, 1, Ok(())), Progress::Next(2)));
    match after_step(&plan, 2, Err("No such file or directory".to_string())) {
        Progress::Failed(e) => {
            assert_eq!(
                e.message,
                "could not move generated build artifact `\"b.o\"` to build dir"
            );
            assert_eq!(e.source.as_deref(), Some("No such file or directory"));
            assert!(matches!(e.level, Level::Fatal));
            assert_eq!(e.kind, Kind::Filesystem);
        }
        other => panic!("the relocation went on: {:?}", other),
    }
    for step in &plan[..3] {
        assert!(matches!(step, FsStep::CreateDir { .. } | FsStep::MoveObject { .. }));
    }
}

#[test]
fn relocation_completes_after_the_last_step() {
    let plan = cleanup_build_dir(&names(&["a.vhd"])).unwrap();
    assert!(matches!(after_step(&plan, 3, Ok(())), Progress::Next(4)));
    assert!(matches!(after_step(&plan, 4, Ok(())), Progress::Complete));
    assert!(matches!(after_step(&plan, 5, Ok(())), Progress::Complete));
    assert!(matches!(after_step(&plan, 5, Err("x".to_string())), Progress::Complete));
}

#[test]
fn each_step_has_its_diagnostic() {
    let cause = || "denied".to_string();
    let e = step_failure(&FsStep::CreateDir { path: "build/root/".to_string() }, cause());
    assert_eq!(e.message, "could not create build directory build/root/");
    let e = step_failure(&FsStep::ReadCatalog { path: "work-obj93.cf".to_string() }, cause());
    assert_eq!(
        e.message,
        "could not load work-obj93.cf, which is a necessary compilation artifact to move it to the build dir"
    );
    let e = step_failure(
        &FsStep::WriteCatalog { path: "build/root/work-obj93.cf".to_string() },
        cause(),
    );
    assert_eq!(
        e.message,
        "could not move modified work-obj93.cf to build/root/work-obj93.cf, but it is necessary to build ghdl"
    );
    let e = step_failure(&FsStep::RemoveCatalog { path: "work-obj93.cf".to_string() }, cause());
    assert_eq!(e.message, "could not remove work-obj93.cf");
    assert_eq!(e.source.as_deref(), Some("denied"));
}
