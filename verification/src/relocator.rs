//! Moving what the analyzer generated into the build directory.
//!
//! The analyzer leaves one object file per source file, and the catalog, in
//! the directory it ran in. This module says which file-system steps bring
//! them below the build directory, in which order, and which diagnostic each
//! failing step gives. The steps themselves are the caller's to perform.

use vstd::prelude::*;
use vstd::string::*;
use crate::error::GbError;
use crate::error::Kind;
use crate::text::texts;
use crate::paths::file_stem;
use crate::paths::file_stem_of;
use crate::paths::join;
use crate::paths::joined_path;
use crate::paths::with_extension;
use crate::paths::with_extension_of;

verus! {

/// Where relocated artifacts go, relative to where the analyzer ran.
pub const BUILD_DIR: &'static str = "build/root/";

/// The catalog's file name.
pub const CATALOG: &'static str = "work-obj93.cf";

/// The extension of a generated object file.
pub const OBJECT_EXTENSION: &'static str = "o";

/// One step on the file system.
#[derive(Debug)]
pub enum FsStep {
    /// Create the directory and its parents, unless it is there.
    CreateDir { path: String },
    /// Move the object file `from` to `to`.
    MoveObject { from: String, to: String },
    /// Read the catalog at `path`.
    ReadCatalog { path: String },
    /// Write the relocated catalog to `path`.
    WriteCatalog { path: String },
    /// Delete the catalog at `path`, where the analyzer left it.
    RemoveCatalog { path: String },
}

/// A step by the characters of its paths.
pub enum FsStepView {
    CreateDir { path: Seq<char> },
    MoveObject { from: Seq<char>, to: Seq<char> },
    ReadCatalog { path: Seq<char> },
    WriteCatalog { path: Seq<char> },
    RemoveCatalog { path: Seq<char> },
}

impl View for FsStep {
    type V = FsStepView;

    open spec fn view(&self) -> FsStepView {
        match self {
            FsStep::CreateDir { path } => FsStepView::CreateDir { path: path@ },
            FsStep::MoveObject { from, to } => FsStepView::MoveObject { from: from@, to: to@ },
            FsStep::ReadCatalog { path } => FsStepView::ReadCatalog { path: path@ },
            FsStep::WriteCatalog { path } => FsStepView::WriteCatalog { path: path@ },
            FsStep::RemoveCatalog { path } => FsStepView::RemoveCatalog { path: path@ },
        }
    }
}

/// Where a relocation stands after a step.
#[derive(Debug)]
pub enum Progress {
    /// Perform the step at this position next.
    Next(usize),
    /// Every step is done.
    Complete,
    /// A step failed: nothing further is to be done.
    Failed(GbError),
}

/// The views of the steps of a plan.
pub open spec fn plan_view(plan: Seq<FsStep>) -> Seq<FsStepView> {
    Seq::new(plan.len(), |i: int| plan[i]@)
}

/// The name of the object file that the analyzer generates for `file`, where
/// `file` has a stem.
pub open spec fn object_name(file: Seq<char>) -> Option<Seq<char>> {
    match file_stem_of(file) {
        Some(stem) => Some(with_extension_of(stem, OBJECT_EXTENSION@)),
        None => None,
    }
}

/// Whether each of `files` has a stem.
pub open spec fn all_have_stems(files: Seq<Seq<char>>) -> bool {
    forall|i: int| 0 <= i < files.len() ==> file_stem_of(#[trigger] files[i]) is Some
}

/// The move that brings the object file of `file` into `build_dir`, under the
/// name it has.
pub open spec fn object_move(build_dir: Seq<char>, file: Seq<char>) -> FsStepView {
    let name = object_name(file).unwrap();
    FsStepView::MoveObject { from: name, to: joined_path(build_dir, name) }
}

/// The steps of one relocation: make the build directory, move each object
/// file in the order of `files`, then read the catalog, write its relocated
/// text into the build directory, and delete the catalog that was read.
pub open spec fn relocation_plan(build_dir: Seq<char>, files: Seq<Seq<char>>) -> Seq<FsStepView> {
    seq![FsStepView::CreateDir { path: build_dir }] + Seq::new(
        files.len(),
        |i: int| object_move(build_dir, files[i]),
    ) + seq![
        FsStepView::ReadCatalog { path: CATALOG@ },
        FsStepView::WriteCatalog { path: joined_path(build_dir, CATALOG@) },
        FsStepView::RemoveCatalog { path: CATALOG@ },
    ]
}

/// The message for a source file without a stem.
pub open spec fn no_stem_message(file: Seq<char>) -> Seq<char> {
    "could not get file stem for "@ + file
}

/// The message for a step that failed; it names the path that the step was
/// about.
pub open spec fn failure_message(step: FsStepView) -> Seq<char> {
    match step {
        FsStepView::CreateDir { path } => "could not create build directory "@ + path,
        FsStepView::MoveObject { from, to } => "could not move generated build artifact `\""@
            + from + "\"` to build dir"@,
        FsStepView::ReadCatalog { path } => "could not load "@ + path
            + ", which is a necessary compilation artifact to move it to the build dir"@,
        FsStepView::WriteCatalog { path } => "could not move modified "@ + CATALOG@ + " to "@
            + path + ", but it is necessary to build ghdl"@,
        FsStepView::RemoveCatalog { path } => "could not remove "@ + path,
    }
}

/// Where a relocation stands when the step at `index` of a plan of `len`
/// steps came out as `failed` says.
pub open spec fn progress_after(len: nat, index: nat, failed: bool) -> ProgressKind {
    if index >= len {
        ProgressKind::Complete
    } else if failed {
        ProgressKind::Failed
    } else if index + 1 < len {
        ProgressKind::Next((index + 1) as nat)
    } else {
        ProgressKind::Complete
    }
}

/// A `Progress` without its diagnostic.
pub enum ProgressKind {
    Next(nat),
    Complete,
    Failed,
}

impl Progress {
    /// This progress without its diagnostic.
    pub open spec fn kind(&self) -> ProgressKind {
        match self {
            Progress::Next(i) => ProgressKind::Next(*i as nat),
            Progress::Complete => ProgressKind::Complete,
            Progress::Failed(_) => ProgressKind::Failed,
        }
    }
}

/// The name of the object file generated for `file`, or the diagnostic for a
/// file name without a stem.
pub fn object_artifact(file: &str) -> (r: Result<String, GbError>)
    ensures
        match object_name(file@) {
            Some(name) => r is Ok && r->Ok_0@ == name,
            None => r is Err && r->Err_0.is_fatal(Kind::Filesystem, no_stem_message(file@), None),
        },
{
    match file_stem(file) {
        Some(stem) => {
            proof {
                reveal_strlit("o");
            }
            Ok(with_extension(stem.as_str(), OBJECT_EXTENSION))
        },
        None => {
            let message = String::from_str("could not get file stem for ").concat(file);
            Err(GbError::fatal(Kind::Filesystem, message))
        },
    }
}

/// Plans one relocation into `build_dir`.
///
/// The plan comes back exactly when each of `files` has a stem; else the
/// diagnostic names the first that has none, and nothing is to be done.
pub fn plan_relocation(build_dir: &str, files: &Vec<String>) -> (r: Result<Vec<FsStep>, GbError>)
    ensures
        all_have_stems(texts(files@)) ==> r is Ok && plan_view(r->Ok_0@) == relocation_plan(
            build_dir@,
            texts(files@),
        ),
        !all_have_stems(texts(files@)) ==> r is Err && exists|i: int|
            0 <= i < files@.len() && file_stem_of(files@[i]@) is None && r->Err_0.is_fatal(
                Kind::Filesystem,
                no_stem_message(#[trigger] files@[i]@),
                None,
            ) && forall|j: int| 0 <= j < i ==> file_stem_of(#[trigger] texts(files@)[j]) is Some,
{
    let mut plan: Vec<FsStep> = Vec::new();
    plan.push(FsStep::CreateDir { path: String::from_str(build_dir) });
    let mut i: usize = 0;
    while i < files.len()
        invariant
            i <= files@.len(),
            plan@.len() == i + 1,
            plan@[0]@ == (FsStepView::CreateDir { path: build_dir@ }),
            forall|j: int| 0 <= j < i ==> file_stem_of(#[trigger] texts(files@)[j]) is Some,
            forall|j: int|
                0 <= j < i ==> (#[trigger] plan@[j + 1])@ == object_move(build_dir@, files@[j]@),
        decreases files@.len() - i,
    {
        match object_artifact(files[i].as_str()) {
            Ok(name) => {
                let to = join(build_dir, name.as_str());
                plan.push(FsStep::MoveObject { from: name, to });
            },
            Err(e) => {
                assert(file_stem_of(texts(files@)[i as int]) is None);
                return Err(e);
            },
        }
        i = i + 1;
    }
    plan.push(FsStep::ReadCatalog { path: String::from_str(CATALOG) });
    plan.push(FsStep::WriteCatalog { path: join(build_dir, CATALOG) });
    plan.push(FsStep::RemoveCatalog { path: String::from_str(CATALOG) });
    proof {
        let want = relocation_plan(build_dir@, texts(files@));
        let have = plan_view(plan@);
        assert forall|k: int| 0 <= k < have.len() implies have[k] == want[k] by {
            if 1 <= k <= files@.len() {
                assert(plan@[(k - 1) + 1]@ == object_move(build_dir@, files@[k - 1]@));
            }
        }
    }
    Ok(plan)
}

/// Plans the relocation of what an analysis of `files` left behind into the
/// build directory `build/root/`.
pub fn cleanup_build_dir(files: &Vec<String>) -> (r: Result<Vec<FsStep>, GbError>)
    ensures
        all_have_stems(texts(files@)) ==> r is Ok && plan_view(r->Ok_0@) == relocation_plan(
            BUILD_DIR@,
            texts(files@),
        ),
        !all_have_stems(texts(files@)) ==> r is Err && exists|i: int|
            0 <= i < files@.len() && file_stem_of(files@[i]@) is None && r->Err_0.is_fatal(
                Kind::Filesystem,
                no_stem_message(#[trigger] files@[i]@),
                None,
            ) && forall|j: int| 0 <= j < i ==> file_stem_of(#[trigger] texts(files@)[j]) is Some,
{
    plan_relocation(BUILD_DIR, files)
}

/// The diagnostic for `step` when it failed for the reason `cause`.
pub fn step_failure(step: &FsStep, cause: String) -> (e: GbError)
    ensures
        e.is_fatal(Kind::Filesystem, failure_message(step@), Some(cause@)),
{
    let message = match step {
        FsStep::CreateDir { path } => String::from_str("could not create build directory ").concat(
            path.as_str(),
        ),
        FsStep::MoveObject { from, to } => String::from_str(
            "could not move generated build artifact `\"",
        ).concat(from.as_str()).concat("\"` to build dir"),
        FsStep::ReadCatalog { path } => String::from_str("could not load ").concat(
            path.as_str(),
        ).concat(", which is a necessary compilation artifact to move it to the build dir"),
        FsStep::WriteCatalog { path } => String::from_str("could not move modified ").concat(
            CATALOG,
        ).concat(" to ").concat(path.as_str()).concat(", but it is necessary to build ghdl"),
        FsStep::RemoveCatalog { path } => String::from_str("could not remove ").concat(
            path.as_str(),
        ),
    };
    GbError::fatal_with_source(Kind::Filesystem, message, cause)
}

/// Decides what follows the step at `index` of `plan`.
///
/// `outcome` is `Ok` when the step was performed, and the reason when it was
/// not. A failed step ends the relocation with its diagnostic; after the last
/// step, and for an `index` outside the plan, the relocation is complete.
pub fn after_step(plan: &Vec<FsStep>, index: usize, outcome: Result<(), String>) -> (p: Progress)
    ensures
        p.kind() == progress_after(plan@.len(), index as nat, outcome is Err),
        p matches Progress::Failed(e) ==> e.is_fatal(
            Kind::Filesystem,
            failure_message(plan@[index as int]@),
            Some(outcome->Err_0@),
        ),
{
    if index >= plan.len() {
        return Progress::Complete;
    }
    match outcome {
        Err(cause) => Progress::Failed(step_failure(&plan[index], cause)),
        Ok(_) => {
            if index + 1 < plan.len() {
                Progress::Next(index + 1)
            } else {
                Progress::Complete
            }
        },
    }
}

/// In every plan the object files move before the catalog is touched, and a
/// move that fails ends the relocation with a diagnostic that names the
/// object file: the catalog is then neither read, written nor removed.
pub proof fn lemma_failed_move_spares_catalog(
    build_dir: Seq<char>,
    files: Seq<Seq<char>>,
    i: int,
)
    requires
        0 <= i < files.len(),
        all_have_stems(files),
    ensures
        relocation_plan(build_dir, files)[i + 1] == object_move(build_dir, files[i]),
        progress_after(relocation_plan(build_dir, files).len(), (i + 1) as nat, true)
            == ProgressKind::Failed,
        failure_message(relocation_plan(build_dir, files)[i + 1])
            == "could not move generated build artifact `\""@ + object_name(files[i]).unwrap()
            + "\"` to build dir"@,
        forall|k: int|
            0 <= k <= i + 1 ==> !(#[trigger] relocation_plan(build_dir, files)[k]
                is ReadCatalog) && !(relocation_plan(build_dir, files)[k] is WriteCatalog)
                && !(relocation_plan(build_dir, files)[k] is RemoveCatalog),
{
}

} // verus!
