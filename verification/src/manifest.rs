//! The manifest `gb.toml`: which targets there are, and what each one holds.
//!
//! The text is parsed by `toml_edit`. What the parser hands back is opaque
//! here: the contracts speak of the entries below an item, addressed by the
//! keys that lead to them, and the functions that read an item are believed
//! to agree with that. Choosing the target and reading its fields is proved
//! on top of them.

use vstd::prelude::*;
use vstd::string::*;
use toml_edit::Item;
use toml_edit::TomlError;
use crate::error::GbError;
use crate::error::Kind;
use crate::error::Level;
use crate::text::opt_text;
use crate::text::opt_str_text;
use crate::text::texts;
use crate::pipeline::NO_FILES;
use crate::pipeline::Target;
use crate::pipeline::TargetView;

verus! {

/// An item of a TOML document: a value, a table, an array of tables, or
/// nothing.
#[verifier::external_type_specification]
#[verifier::external_body]
pub struct ExItem(toml_edit::Item);

/// The error of the TOML parser.
#[verifier::external_type_specification]
#[verifier::external_body]
pub struct ExTomlError(toml_edit::TomlError);

/// What `toml_edit` makes of `text`: the entries below the root of the
/// document it parses, or `None` where it refuses the text.
pub uninterp spec fn parsed_manifest(text: Seq<char>) -> Option<
    Map<Seq<Seq<char>>, (Option<Seq<char>>, Option<Seq<Option<Seq<char>>>>)>,
>;

/// Whether `toml_edit` accepts `text` as a document.
pub open spec fn manifest_parses(text: Seq<char>) -> bool {
    parsed_manifest(text) is Some
}

/// What lies below an item: for each sequence of keys that leads from the
/// item to an item, the string that item is, if it is one, and the values of
/// the array that item is, if it is one, each value by its string if it is
/// one. The empty sequence leads to the item itself.
pub uninterp spec fn item_entries(item: Item) -> Map<
    Seq<Seq<char>>,
    (Option<Seq<char>>, Option<Seq<Option<Seq<char>>>>),
>;

/// What `path` leads to below `item`, if it leads anywhere.
pub open spec fn entry(item: Item, path: Seq<Seq<char>>) -> Option<
    (Option<Seq<char>>, Option<Seq<Option<Seq<char>>>>),
> {
    item_entries(item).get(path)
}

/// Whether `path` leads to an item below `item`.
pub open spec fn has_path(item: Item, path: Seq<Seq<char>>) -> bool {
    entry(item, path) is Some
}

/// The string that `path` leads to below `item`.
pub open spec fn string_of(item: Item, path: Seq<Seq<char>>) -> Option<Seq<char>> {
    match entry(item, path) {
        Some(found) => found.0,
        None => None,
    }
}

/// The array that `path` leads to below `item`.
pub open spec fn list_of(item: Item, path: Seq<Seq<char>>) -> Option<Seq<Option<Seq<char>>>> {
    match entry(item, path) {
        Some(found) => found.1,
        None => None,
    }
}

/// Whether `inner` is what `key` leads to below `outer`: a path below
/// `inner` leads to what the path with `key` in front leads to below `outer`.
pub open spec fn is_below(outer: Item, key: Seq<char>, inner: Item) -> bool {
    forall|path: Seq<Seq<char>>|
        path.len() > 0 && path[0] == key ==> #[trigger] entry(outer, path) == entry(
            inner,
            path.skip(1),
        )
}

/// Whether nothing lies below `outer` under `key`.
pub open spec fn nothing_below(outer: Item, key: Seq<char>) -> bool {
    forall|path: Seq<Seq<char>>|
        path.len() > 0 && path[0] == key ==> #[trigger] entry(outer, path) is None
}

/// The characters of the values of an optional list of optional strings.
pub open spec fn list_texts(list: Option<Vec<Option<String>>>) -> Option<
    Seq<Option<Seq<char>>>,
> {
    match list {
        Some(values) => Some(value_texts(values@)),
        None => None,
    }
}

/// Parses `text` with `toml_edit` (`<Document as FromStr>::from_str`) and
/// hands back the root item of the document (`Document::as_item`).
///
/// Believed, not proved: the result is `Ok` exactly on the texts that the
/// parser accepts; the root then holds the entries that the parser makes of
/// the text, and the empty path leads to the root itself.
#[verifier::external_body]
pub(crate) fn parse_root(text: &str) -> (r: Result<Item, TomlError>)
    ensures
        r is Ok <==> parsed_manifest(text@) is Some,
        r is Ok ==> item_entries(r->Ok_0) == parsed_manifest(text@)->0,
        r is Ok ==> item_entries(r->Ok_0).contains_key(Seq::empty()),
{
    match text.parse::<toml_edit::Document>() {
        Ok(document) => Ok(document.as_item().clone()),
        Err(e) => Err(e),
    }
}

/// The parser's own words for an error (`TomlError`'s `to_string`).
///
/// Nothing is claimed of the text.
#[verifier::external_body]
pub(crate) fn error_text(e: &TomlError) -> (text: String) {
    e.to_string()
}

/// Calls `Item::get` with a key.
///
/// Believed, not proved: where an item is found, it is what `key` leads to
/// below `item`; where none is found, nothing lies below `item` under `key`.
#[verifier::external_body]
pub(crate) fn get<'a>(item: &'a Item, key: &str) -> (found: Option<&'a Item>)
    ensures
        match found {
            Some(inner) => is_below(*item, key@, *inner) && item_entries(*inner).contains_key(
                Seq::empty(),
            ),
            None => nothing_below(*item, key@),
        },
{
    item.get(key)
}

/// Calls `Item::as_str`.
///
/// Believed, not proved: the result is the string that `item` itself is, and
/// `None` where it is none.
#[verifier::external_body]
pub(crate) fn as_string(item: &Item) -> (text: Option<String>)
    ensures
        opt_text(text) == string_of(*item, Seq::empty()),
{
    item.as_str().map(|text| text.to_owned())
}

/// Calls `Item::as_array` and walks the array (`Array::iter`), taking each
/// value by `Value::as_str`.
///
/// Believed, not proved: the result holds the values of the array that
/// `item` itself is, in their order, each by its string if it is one, and is
/// `None` where `item` is no array.
#[verifier::external_body]
pub(crate) fn as_list(item: &Item) -> (list: Option<Vec<Option<String>>>)
    ensures
        list_texts(list) == list_of(*item, Seq::empty()),
{
    item.as_array().map(
        |array| array.iter().map(|value| value.as_str().map(|text| text.to_owned())).collect(),
    )
}

/// Follows `path` from `item`, key by key.
pub fn find<'a>(item: &'a Item, path: &Vec<String>) -> (found: Option<&'a Item>)
    ensures
        match found {
            Some(inner) => forall|rest: Seq<Seq<char>>|
                entry(*inner, rest) == #[trigger] entry(*item, texts(path@) + rest),
            None => entry(*item, texts(path@)) is None,
        },
        texts(path@).len() > 0 ==> (found is Some <==> has_path(*item, texts(path@))),
{
    let ghost keys = texts(path@);
    let mut current: &Item = item;
    let mut i: usize = 0;
    assert forall|rest: Seq<Seq<char>>| entry(*current, rest) == #[trigger] entry(
        *item,
        keys.take(0) + rest,
    ) by {}
    while i < path.len()
        invariant
            i <= path@.len(),
            keys == texts(path@),
            i > 0 ==> has_path(*current, Seq::empty()),
            forall|rest: Seq<Seq<char>>|
                entry(*current, rest) == #[trigger] entry(*item, keys.take(i as int) + rest),
        decreases path@.len() - i,
    {
        let key = path[i].as_str();
        match get(current, key) {
            Some(inner) => {
                assert forall|rest: Seq<Seq<char>>| entry(*inner, rest) == #[trigger] entry(
                    *item,
                    keys.take(i + 1) + rest,
                ) by {
                    let longer = seq![key@] + rest;
                    assert(longer.skip(1) =~= rest);
                    assert(keys.take(i as int) + longer =~= keys.take(i + 1) + rest);
                }
                current = inner;
            },
            None => {
                proof {
                    let tail = keys.skip(i as int);
                    assert(keys.take(i as int) + tail =~= keys);
                }
                return None;
            },
        }
        i = i + 1;
    }
    proof {
        assert(keys.take(path@.len() as int) =~= keys);
        if path@.len() > 0 {
            assert(entry(*current, Seq::empty()) == entry(
                *item,
                keys + Seq::<Seq<char>>::empty(),
            ));
        }
    }
    Some(current)
}

/// The string that `path` leads to below `item`, if it leads to one.
pub fn string_at(item: &Item, path: &Vec<String>) -> (text: Option<String>)
    ensures
        opt_text(text) == string_of(*item, texts(path@)),
{
    match find(item, path) {
        Some(inner) => {
            proof {
                let none = Seq::<Seq<char>>::empty();
                assert(texts(path@) + none =~= texts(path@));
            }
            as_string(inner)
        },
        None => None,
    }
}

/// The values of the array that `path` leads to below `item`, if it leads to
/// one.
pub fn list_at(item: &Item, path: &Vec<String>) -> (list: Option<Vec<Option<String>>>)
    ensures
        list_texts(list) == list_of(*item, texts(path@)),
{
    match find(item, path) {
        Some(inner) => {
            proof {
                let none = Seq::<Seq<char>>::empty();
                assert(texts(path@) + none =~= texts(path@));
            }
            as_list(inner)
        },
        None => None,
    }
}

/// The manifest could not be parsed.
pub const UNPARSED: &'static str = "failed to parse manifest file";

/// Neither the command line nor the manifest names a target.
pub const NO_TARGET: &'static str = "No target was passed and no default target was set";

/// The manifest holds no targets at all.
pub const NO_TARGETS: &'static str = "there are no provided targets; please provide them";

/// The files of a target are no array.
pub const FILES_NOT_ARRAY: &'static str = "the files list must be an array";

/// A file of a target is no string.
pub const FILES_NOT_STRINGS: &'static str =
    "all the files in the files list, must be listed by their path as a string";

/// The message for a target that the manifest does not hold.
pub open spec fn unknown_target_message(name: Seq<char>) -> Seq<char> {
    "Attempted to run target `"@ + name + "` but it was not found in gb.toml"@
}

/// The message for a target without files.
pub open spec fn no_files_message(name: Seq<char>) -> Seq<char> {
    "a files key is required for every target but it was not supplied for "@ + name
}

/// Whether each value of a list is a string.
pub open spec fn all_strings(values: Seq<Option<Seq<char>>>) -> bool {
    forall|i: int| 0 <= i < values.len() ==> (#[trigger] values[i]) is Some
}

/// The strings of a list of strings.
pub open spec fn strings_of(values: Seq<Option<Seq<char>>>) -> Seq<Seq<char>> {
    Seq::new(values.len(), |i: int| values[i].unwrap())
}

/// A parsed manifest.
pub struct Manifest {
    pub root: Item,
}

/// The target that a run is about.
#[derive(Debug)]
pub struct Selected {
    /// The target's name.
    pub name: String,
    /// What the manifest says of it.
    pub target: Target,
}

impl Manifest {
    /// The target to take where the command line names none
    /// (`default.target`).
    pub open spec fn default_target_name(&self) -> Option<Seq<char>> {
        string_of(self.root, seq!["default"@, "target"@])
    }

    /// The configured waveform viewer (`default.vcd-viewer`).
    pub open spec fn viewer_name(&self) -> Option<Seq<char>> {
        string_of(self.root, seq!["default"@, "vcd-viewer"@])
    }

    /// The name of the target to run: the requested one, else the default.
    pub open spec fn chosen_name(&self, requested: Option<Seq<char>>) -> Option<Seq<char>> {
        match requested {
            Some(name) => Some(name),
            None => self.default_target_name(),
        }
    }

    /// What the manifest says of the target `name`, or the message that says
    /// what is wrong with it. What is looked at, in this order: the table of
    /// targets, the target, its files, that they are an array, that each is a
    /// string, that there is at least one.
    pub open spec fn described(&self, name: Seq<char>) -> Result<TargetView, Seq<char>> {
        let files = seq!["target"@, name, "files"@];
        if !has_path(self.root, seq!["target"@]) {
            Err(NO_TARGETS@)
        } else if !has_path(self.root, seq!["target"@, name]) {
            Err(unknown_target_message(name))
        } else if !has_path(self.root, files) {
            Err(no_files_message(name))
        } else {
            match list_of(self.root, files) {
                None => Err(FILES_NOT_ARRAY@),
                Some(values) => if !all_strings(values) {
                    Err(FILES_NOT_STRINGS@)
                } else if values.len() == 0 {
                    Err(NO_FILES@)
                } else {
                    Ok(
                        TargetView {
                            files: strings_of(values),
                            entry: string_of(self.root, seq!["target"@, name, "execute"@]),
                            vcd_name: string_of(self.root, seq!["target"@, name, "vcd-name"@]),
                        },
                    )
                },
            }
        }
    }

    /// The outcome of a selection: the name and the target, or the message.
    pub open spec fn selection(&self, requested: Option<Seq<char>>) -> Result<
        (Seq<char>, TargetView),
        Seq<char>,
    > {
        match self.chosen_name(requested) {
            None => Err(NO_TARGET@),
            Some(name) => match self.described(name) {
                Ok(target) => Ok((name, target)),
                Err(message) => Err(message),
            },
        }
    }

    /// Parses the manifest's text. It fails exactly where the parser does,
    /// with the parser's words as the cause; else the manifest holds what the
    /// parser makes of the text.
    pub fn parse(text: &str) -> (r: Result<Manifest, GbError>)
        ensures
            r is Ok <==> manifest_parses(text@),
            r is Ok ==> item_entries(r->Ok_0.root) == parsed_manifest(text@)->0,
            r is Ok ==> has_path(r->Ok_0.root, Seq::empty()),
            r is Err ==> r->Err_0.level == Level::Fatal && r->Err_0.kind == Kind::Configuration
                && r->Err_0.message@ == UNPARSED@
                && r->Err_0.source is Some,
    {
        match parse_root(text) {
            Ok(root) => Ok(Manifest { root }),
            Err(e) => Err(
                GbError::fatal_with_source(
                    Kind::Configuration,
                    String::from_str(UNPARSED),
                    error_text(&e),
                ),
            ),
        }
    }

    /// The target to take where the command line names none.
    pub fn default_target(&self) -> (name: Option<String>)
        ensures
            opt_text(name) == self.default_target_name(),
    {
        string_at(&self.root, &keys2("default", "target"))
    }

    /// The configured waveform viewer.
    pub fn viewer(&self) -> (name: Option<String>)
        ensures
            opt_text(name) == self.viewer_name(),
    {
        string_at(&self.root, &keys2("default", "vcd-viewer"))
    }

    /// Reads the target `name` out of the manifest.
    pub fn describe(&self, name: &str) -> (r: Result<Target, GbError>)
        ensures
            match self.described(name@) {
                Ok(target) => r is Ok && r->Ok_0@ == target,
                Err(message) => r is Err && r->Err_0.is_fatal(Kind::Configuration, message, None),
            },
    {
        if find(&self.root, &keys1("target")).is_none() {
            return Err(GbError::fatal(Kind::Configuration, String::from_str(NO_TARGETS)));
        }
        if find(&self.root, &keys2("target", name)).is_none() {
            let message = String::from_str("Attempted to run target `").concat(name).concat(
                "` but it was not found in gb.toml",
            );
            return Err(GbError::fatal(Kind::Configuration, message));
        }
        let files_key = keys3("target", name, "files");
        if find(&self.root, &files_key).is_none() {
            let message = String::from_str(
                "a files key is required for every target but it was not supplied for ",
            ).concat(name);
            return Err(GbError::fatal(Kind::Configuration, message));
        }
        let values = match list_at(&self.root, &files_key) {
            Some(values) => values,
            None => {
                return Err(GbError::fatal(Kind::Configuration, String::from_str(FILES_NOT_ARRAY)));
            },
        };
        let files = match unwrap_strings(&values) {
            Some(files) => files,
            None => {
                return Err(GbError::fatal(Kind::Configuration, String::from_str(FILES_NOT_STRINGS)));
            },
        };
        if values.len() == 0 {
            assert(value_texts(values@).len() == 0);
            return Err(GbError::fatal(Kind::Configuration, String::from_str(NO_FILES)));
        }
        assert(value_texts(values@).len() == values@.len());
        let entry = string_at(&self.root, &keys3("target", name, "execute"));
        let vcd_name = string_at(&self.root, &keys3("target", name, "vcd-name"));
        Ok(Target { files, entry, vcd_name })
    }

    /// Chooses the target of a run, by the name the command line gives or
    /// else by the manifest's default, and reads it.
    pub fn select(&self, requested: Option<&str>) -> (r: Result<Selected, GbError>)
        ensures
            match self.selection(opt_str_text(requested)) {
                Ok((name, target)) => r is Ok && r->Ok_0.name@ == name && r->Ok_0.target@
                    == target,
                Err(message) => r is Err && r->Err_0.is_fatal(Kind::Configuration, message, None),
            },
    {
        let name = match requested {
            Some(name) => String::from_str(name),
            None => match self.default_target() {
                Some(name) => name,
                None => {
                    return Err(GbError::fatal(Kind::Configuration, String::from_str(NO_TARGET)));
                },
            },
        };
        match self.describe(name.as_str()) {
            Ok(target) => Ok(Selected { name, target }),
            Err(e) => Err(e),
        }
    }
}

/// The characters of each value of a list of optional strings.
pub open spec fn value_texts(values: Seq<Option<String>>) -> Seq<Option<Seq<char>>> {
    Seq::new(values.len(), |i: int| opt_text(values[i]))
}

/// The strings of `values`, where each value is one.
pub fn unwrap_strings(values: &Vec<Option<String>>) -> (strings: Option<Vec<String>>)
    ensures
        all_strings(value_texts(values@)) ==> strings is Some && texts(strings->0@) == strings_of(
            value_texts(values@),
        ),
        !all_strings(value_texts(values@)) ==> strings is None,
{
    let ghost listed = value_texts(values@);
    let mut strings: Vec<String> = Vec::new();
    let mut i: usize = 0;
    while i < values.len()
        invariant
            i <= values@.len(),
            listed == value_texts(values@),
            strings@.len() == i,
            forall|j: int| 0 <= j < i ==> (#[trigger] listed[j]) is Some,
            forall|j: int| 0 <= j < i ==> (#[trigger] strings@[j])@ == listed[j].unwrap(),
        decreases values@.len() - i,
    {
        match &values[i] {
            Some(text) => {
                strings.push(text.clone());
            },
            None => {
                assert(listed[i as int] is None);
                return None;
            },
        }
        i = i + 1;
    }
    Some(strings)
}

/// The one key `a`.
pub fn keys1(a: &str) -> (path: Vec<String>)
    ensures
        texts(path@) == seq![a@],
{
    let mut path: Vec<String> = Vec::new();
    path.push(String::from_str(a));
    path
}

/// The keys `a` and `b`.
pub fn keys2(a: &str, b: &str) -> (path: Vec<String>)
    ensures
        texts(path@) == seq![a@, b@],
{
    let mut path: Vec<String> = Vec::new();
    path.push(String::from_str(a));
    path.push(String::from_str(b));
    path
}

/// The keys `a`, `b` and `c`.
pub fn keys3(a: &str, b: &str, c: &str) -> (path: Vec<String>)
    ensures
        texts(path@) == seq![a@, b@, c@],
{
    let mut path: Vec<String> = Vec::new();
    path.push(String::from_str(a));
    path.push(String::from_str(b));
    path.push(String::from_str(c));
    path
}

} // verus!
