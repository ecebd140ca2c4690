//! Before any stage runs, every file of the target must exist.

use vstd::prelude::*;
use vstd::string::*;
use crate::error::GbError;
use crate::error::Kind;
use crate::text::texts;
use crate::resolver::keep_existing;
use crate::resolver::kept;

verus! {

/// Files of the target are missing.
pub const MISSING_FILES: &'static str = "There were missing files.";

/// For each of `n` files, whether it is missing: whether `present` does not
/// mark it as existing.
pub open spec fn absence(present: Seq<bool>, n: nat) -> Seq<bool> {
    Seq::new(n, |i: int| !(i < present.len() && present[i]))
}

/// The files of `files` that are missing, in their order.
pub open spec fn missing(files: Seq<Seq<char>>, present: Seq<bool>) -> Seq<Seq<char>> {
    kept(files, absence(present, files.len()))
}

/// Lists every file of the target that does not exist; `present` says of
/// each file, by its position, whether it does.
pub fn missing_files(files: &Vec<String>, present: &Vec<bool>) -> (absent: Vec<String>)
    ensures
        texts(absent@) == missing(texts(files@), present@),
{
    let mut marks: Vec<bool> = Vec::new();
    let mut i: usize = 0;
    while i < files.len()
        invariant
            i <= files@.len(),
            marks@.len() == i,
            forall|j: int| 0 <= j < i ==> marks@[j] == !(j < present@.len() && present@[j]),
        decreases files@.len() - i,
    {
        marks.push(!(i < present.len() && present[i]));
        i = i + 1;
    }
    assert(marks@ =~= absence(present@, texts(files@).len()));
    keep_existing(files, &marks)
}

/// Passes exactly when no file of the target is missing.
pub fn require_present(files: &Vec<String>, present: &Vec<bool>) -> (r: Result<(), GbError>)
    ensures
        missing(texts(files@), present@).len() == 0 ==> r is Ok,
        missing(texts(files@), present@).len() > 0 ==> r is Err && r->Err_0.is_fatal(
            Kind::Validation,
            MISSING_FILES@,
            None,
        ),
{
    let absent = missing_files(files, present);
    if absent.len() == 0 {
        Ok(())
    } else {
        Err(GbError::fatal(Kind::Validation, String::from_str(MISSING_FILES)))
    }
}

} // verus!
