//! Finding the source files a design depends on.
//!
//! A source file declares components; a component named `N` is expected in
//! the file `N.vhd` beside the file that declares it, and counts only if that
//! file is there. The files a design needs are those that can be reached from
//! its root file along such references.
//!
//! [`Resolver`] is the traversal itself, one file at a time: it hands out the
//! next file to inspect and takes back what that file depends on. Reading and
//! parsing a file is the caller's part. [`SourceTree`] is a snapshot of a set
//! of files, and [`generate_sources_for`] runs the traversal over it.

use vstd::prelude::*;
use vstd::string::*;
use crate::text::texts;
use crate::paths::with_extension;
use crate::paths::with_extension_of;
use crate::paths::with_file_name;
use crate::paths::with_file_name_of;

verus! {

/// The extension of a source file.
pub const SOURCE_EXTENSION: &'static str = "vhd";

/// The file in which the component `name`, declared in the file `path`, is
/// expected: beside `path`, named after the component.
pub open spec fn candidate(path: Seq<char>, name: Seq<char>) -> Seq<char> {
    with_extension_of(with_file_name_of(path, name), SOURCE_EXTENSION@)
}

/// The candidate files of the components `names` declared in `path`.
pub open spec fn candidates(path: Seq<char>, names: Seq<Seq<char>>) -> Seq<Seq<char>> {
    Seq::new(names.len(), |i: int| candidate(path, names[i]))
}

/// The first `n` of `items` without those that `present` does not mark;
/// an item that `present` has no entry for is not kept.
pub open spec fn kept_up_to(items: Seq<Seq<char>>, present: Seq<bool>, n: int) -> Seq<Seq<char>>
    decreases n,
{
    if n <= 0 {
        Seq::empty()
    } else {
        let rest = kept_up_to(items, present, n - 1);
        if n - 1 < items.len() && n - 1 < present.len() && present[n - 1] {
            rest.push(items[n - 1])
        } else {
            rest
        }
    }
}

/// `items` without those that `present` does not mark, in their order.
pub open spec fn kept(items: Seq<Seq<char>>, present: Seq<bool>) -> Seq<Seq<char>> {
    kept_up_to(items, present, items.len() as int)
}

/// What is kept are exactly the marked items.
pub proof fn lemma_kept_members(items: Seq<Seq<char>>, present: Seq<bool>, n: int, q: Seq<char>)
    requires
        0 <= n <= items.len(),
    ensures
        kept_up_to(items, present, n).contains(q) <==> exists|i: int|
            0 <= i < n && i < present.len() && present[i] && #[trigger] items[i] == q,
    decreases n,
{
    if n > 0 {
        lemma_kept_members(items, present, n - 1, q);
        let rest = kept_up_to(items, present, n - 1);
        let all = kept_up_to(items, present, n);
        if n - 1 < present.len() && present[n - 1] {
            if exists|i: int| 0 <= i < n && i < present.len() && present[i] && #[trigger] items[i]
                == q {
                let i = choose|i: int|
                    0 <= i < n && i < present.len() && present[i] && #[trigger] items[i] == q;
                if i == n - 1 {
                    assert(all[all.len() - 1] == q);
                } else {
                    let k = choose|k: int| 0 <= k < rest.len() && rest[k] == q;
                    assert(all[k] == q);
                }
            }
        }
    }
}

/// One file of a snapshot: its path and the components it declares, or
/// `None` where the file cannot be read or parsed.
#[derive(Debug)]
pub struct SourceFile {
    pub path: String,
    pub components: Option<Vec<String>>,
}

/// A snapshot of the source files that exist. Where a path stands twice, its
/// first entry counts.
#[derive(Debug)]
pub struct SourceTree {
    pub files: Vec<SourceFile>,
}

impl SourceTree {
    /// The paths of the files, entry by entry.
    pub open spec fn paths(&self) -> Seq<Seq<char>> {
        Seq::new(self.files@.len(), |i: int| self.files@[i].path@)
    }

    /// The position of the first entry for `path` at or after `from`.
    pub open spec fn first_index(&self, path: Seq<char>, from: int) -> Option<int>
        decreases self.files@.len() - from,
    {
        if from < 0 || from >= self.files@.len() {
            None
        } else if self.files@[from].path@ == path {
            Some(from)
        } else {
            self.first_index(path, from + 1)
        }
    }

    /// Whether the file `path` exists.
    pub open spec fn has(&self, path: Seq<char>) -> bool {
        self.first_index(path, 0) is Some
    }

    /// The components that `path` declares: none where the file is missing,
    /// unreadable or unparseable.
    pub open spec fn declared(&self, path: Seq<char>) -> Seq<Seq<char>> {
        match self.first_index(path, 0) {
            Some(i) => match self.files@[i].components {
                Some(names) => texts(names@),
                None => Seq::empty(),
            },
            None => Seq::empty(),
        }
    }

    /// For each of `items`, whether that file exists.
    pub open spec fn presence(&self, items: Seq<Seq<char>>) -> Seq<bool> {
        Seq::new(items.len(), |i: int| self.has(items[i]))
    }

    /// The files that `path` depends on directly: the candidates of its
    /// components that exist, in the order of declaration.
    pub open spec fn dependencies(&self, path: Seq<char>) -> Seq<Seq<char>> {
        let items = candidates(path, self.declared(path));
        kept(items, self.presence(items))
    }

    /// Whether `from` depends on `to` directly.
    pub open spec fn links(&self, from: Seq<char>, to: Seq<char>) -> bool {
        self.dependencies(from).contains(to)
    }

    /// Whether each file of `chain` depends directly on the next.
    pub open spec fn is_chain(&self, chain: Seq<Seq<char>>) -> bool {
        &&& chain.len() >= 1
        &&& forall|i: int| 0 <= i < chain.len() - 1 ==> self.links(#[trigger] chain[i], chain[i + 1])
    }

    /// Whether `path` is `root` or one of its direct or transitive
    /// dependencies.
    pub open spec fn reaches(&self, root: Seq<char>, path: Seq<char>) -> bool {
        exists|chain: Seq<Seq<char>>| #[trigger]
            self.is_chain(chain) && chain[0] == root && chain.last() == path
    }

    /// The first entry for a path, where there is one, lies in range and
    /// holds that path; where there is none, no entry holds it.
    pub proof fn lemma_first_index(&self, path: Seq<char>, from: int)
        requires
            0 <= from,
        ensures
            match self.first_index(path, from) {
                Some(i) => from <= i < self.files@.len() && self.files@[i].path@ == path,
                None => forall|i: int| from <= i < self.files@.len() ==> self.files@[i].path@ != path,
            },
        decreases self.files@.len() - from,
    {
        if from < self.files@.len() && self.files@[from].path@ != path {
            self.lemma_first_index(path, from + 1);
        }
    }

    /// A file depends only on files that exist: a component whose file is
    /// missing leaves no trace.
    pub proof fn lemma_dependencies_exist(&self, from: Seq<char>, to: Seq<char>)
        requires
            self.links(from, to),
        ensures
            self.has(to),
            exists|i: int|
                0 <= i < self.declared(from).len() && to == candidate(
                    from,
                    #[trigger] self.declared(from)[i],
                ),
    {
        let items = candidates(from, self.declared(from));
        lemma_kept_members(items, self.presence(items), items.len() as int, to);
    }

    /// Whatever is reached from `root` is `root` itself or a file that
    /// exists.
    pub proof fn lemma_reached_exist(&self, root: Seq<char>, path: Seq<char>)
        requires
            self.reaches(root, path),
        ensures
            path == root || self.has(path),
    {
        let chain = choose|chain: Seq<Seq<char>>| #[trigger]
            self.is_chain(chain) && chain[0] == root && chain.last() == path;
        if chain.len() > 1 {
            let i = chain.len() - 2;
            self.lemma_dependencies_exist(chain[i], path);
        }
    }

    /// What is reached from `root` and a step further is reached from `root`.
    pub proof fn lemma_reaches_step(&self, root: Seq<char>, from: Seq<char>, to: Seq<char>)
        requires
            self.reaches(root, from),
            self.links(from, to),
        ensures
            self.reaches(root, to),
    {
        let chain = choose|chain: Seq<Seq<char>>| #[trigger]
            self.is_chain(chain) && chain[0] == root && chain.last() == from;
        let longer = chain.push(to);
        assert forall|i: int| 0 <= i < longer.len() - 1 implies self.links(
            #[trigger] longer[i],
            longer[i + 1],
        ) by {}
        assert(self.is_chain(longer) && longer[0] == root && longer.last() == to);
    }

    /// What is reached from a file that `root` reaches is reached from
    /// `root`: resolving once more, from any file found, finds nothing new.
    pub proof fn lemma_reaches_transitive(
        &self,
        root: Seq<char>,
        middle: Seq<char>,
        path: Seq<char>,
    )
        requires
            self.reaches(root, middle),
            self.reaches(middle, path),
        ensures
            self.reaches(root, path),
    {
        let first = choose|chain: Seq<Seq<char>>| #[trigger]
            self.is_chain(chain) && chain[0] == root && chain.last() == middle;
        let second = choose|chain: Seq<Seq<char>>| #[trigger]
            self.is_chain(chain) && chain[0] == middle && chain.last() == path;
        let whole = first + second.skip(1);
        assert forall|i: int| 0 <= i < whole.len() - 1 implies self.links(
            #[trigger] whole[i],
            whole[i + 1],
        ) by {}
        assert(self.is_chain(whole) && whole[0] == root && whole.last() == path);
    }

    /// Every file reaches itself.
    pub proof fn lemma_reaches_itself(&self, root: Seq<char>)
        ensures
            self.reaches(root, root),
    {
        let chain = seq![root];
        assert(self.is_chain(chain) && chain[0] == root && chain.last() == root);
    }

    /// A set of files that holds `root` and, with each file, the files it
    /// depends on directly, holds every file reached from `root`.
    pub proof fn lemma_closed_holds_reached(
        &self,
        root: Seq<char>,
        closed: Set<Seq<char>>,
        path: Seq<char>,
    )
        requires
            closed.contains(root),
            forall|p: Seq<char>, q: Seq<char>|
                closed.contains(p) && #[trigger] self.links(p, q) ==> closed.contains(q),
            self.reaches(root, path),
        ensures
            closed.contains(path),
    {
        let chain = choose|chain: Seq<Seq<char>>| #[trigger]
            self.is_chain(chain) && chain[0] == root && chain.last() == path;
        self.lemma_chain_in_closed(closed, chain, chain.len() - 1);
    }

    /// Each file of a chain that starts in a closed set lies in that set.
    pub proof fn lemma_chain_in_closed(&self, closed: Set<Seq<char>>, chain: Seq<Seq<char>>, i: int)
        requires
            self.is_chain(chain),
            closed.contains(chain[0]),
            forall|p: Seq<char>, q: Seq<char>|
                closed.contains(p) && #[trigger] self.links(p, q) ==> closed.contains(q),
            0 <= i < chain.len(),
        ensures
            closed.contains(chain[i]),
        decreases i,
    {
        if i > 0 {
            self.lemma_chain_in_closed(closed, chain, i - 1);
        }
    }

    /// A snapshot without files.
    pub fn new() -> (tree: SourceTree)
        ensures
            tree.files@.len() == 0,
    {
        SourceTree { files: Vec::new() }
    }

    /// Adds a file and what it declares; `None` stands for a file that cannot
    /// be read or parsed.
    pub fn add(&mut self, path: String, components: Option<Vec<String>>)
        ensures
            final(self).files@ == old(self).files@.push(SourceFile { path, components }),
    {
        self.files.push(SourceFile { path, components });
    }

    /// The position of the first entry for `path`.
    pub fn position(&self, path: &String) -> (at: Option<usize>)
        ensures
            match at {
                Some(i) => self.first_index(path@, 0) == Some(i as int) && i < self.files@.len(),
                None => self.first_index(path@, 0) is None,
            },
    {
        let mut i: usize = 0;
        while i < self.files.len()
            invariant
                i <= self.files@.len(),
                self.first_index(path@, 0) == self.first_index(path@, i as int),
            decreases self.files@.len() - i,
        {
            if self.files[i].path == *path {
                return Some(i);
            }
            i = i + 1;
        }
        None
    }

    /// Whether the file `path` exists.
    pub fn contains(&self, path: &String) -> (yes: bool)
        ensures
            yes == self.has(path@),
    {
        self.position(path).is_some()
    }

    /// The files that `path` depends on directly.
    pub fn dependencies_of(&self, path: &String) -> (found: Vec<String>)
        ensures
            texts(found@) == self.dependencies(path@),
    {
        let items = match self.position(path) {
            Some(i) => match &self.files[i].components {
                Some(names) => candidate_paths(path.as_str(), names),
                None => Vec::new(),
            },
            None => Vec::new(),
        };
        let mut present: Vec<bool> = Vec::new();
        let mut i: usize = 0;
        while i < items.len()
            invariant
                i <= items@.len(),
                present@.len() == i,
                forall|j: int| 0 <= j < i ==> present@[j] == self.has(#[trigger] items@[j]@),
            decreases items@.len() - i,
        {
            present.push(self.contains(&items[i]));
            i = i + 1;
        }
        assert(present@ =~= self.presence(texts(items@)));
        keep_existing(&items, &present)
    }
}

/// The file in which the component `name`, declared in `path`, is expected.
pub fn candidate_path(path: &str, name: &str) -> (file: String)
    ensures
        file@ == candidate(path@, name@),
{
    let renamed = with_file_name(path, name);
    proof {
        reveal_strlit("vhd");
    }
    with_extension(renamed.as_str(), SOURCE_EXTENSION)
}

/// The candidate files of the components `names` declared in `path`, in the
/// order of `names`.
pub fn candidate_paths(path: &str, names: &Vec<String>) -> (files: Vec<String>)
    ensures
        texts(files@) == candidates(path@, texts(names@)),
{
    let mut files: Vec<String> = Vec::new();
    let mut i: usize = 0;
    while i < names.len()
        invariant
            i <= names@.len(),
            files@.len() == i,
            forall|j: int| 0 <= j < i ==> (#[trigger] files@[j])@ == candidate(path@, names@[j]@),
        decreases names@.len() - i,
    {
        files.push(candidate_path(path, names[i].as_str()));
        i = i + 1;
    }
    files
}

/// Keeps of `items` those that `present` marks as existing, in their order.
pub fn keep_existing(items: &Vec<String>, present: &Vec<bool>) -> (found: Vec<String>)
    ensures
        texts(found@) == kept(texts(items@), present@),
{
    let mut found: Vec<String> = Vec::new();
    let mut i: usize = 0;
    while i < items.len()
        invariant
            i <= items@.len(),
            texts(found@) == kept_up_to(texts(items@), present@, i as int),
        decreases items@.len() - i,
    {
        if i < present.len() && present[i] {
            found.push(items[i].clone());
        }
        i = i + 1;
    }
    found
}

/// Whether `list` holds `path`.
pub fn holds(list: &Vec<String>, path: &String) -> (yes: bool)
    ensures
        yes == texts(list@).contains(path@),
{
    let mut i: usize = 0;
    while i < list.len()
        invariant
            i <= list@.len(),
            forall|j: int| 0 <= j < i ==> texts(list@)[j] != path@,
        decreases list@.len() - i,
    {
        if list[i] == *path {
            assert(texts(list@)[i as int] == path@);
            return true;
        }
        i = i + 1;
    }
    false
}

/// A traversal in progress: the files inspected so far, and the files that
/// were found and still wait to be inspected. Both are lists, in the order in
/// which the files came up; that no file is inspected twice is the invariant
/// [`Resolver::wf`], which every method keeps.
#[derive(Debug)]
pub struct Resolver {
    pub visited: Vec<String>,
    pub pending: Vec<String>,
}

impl Resolver {
    /// The files inspected so far, in the order in which they were.
    pub open spec fn seen(&self) -> Seq<Seq<char>> {
        texts(self.visited@)
    }

    /// The files that wait to be inspected; the last is next.
    pub open spec fn waiting(&self) -> Seq<Seq<char>> {
        texts(self.pending@)
    }

    /// No file is inspected twice.
    pub open spec fn wf(&self) -> bool {
        self.seen().no_duplicates()
    }

    /// Whether `path` was inspected or waits to be.
    pub open spec fn knows(&self, path: Seq<char>) -> bool {
        self.seen().contains(path) || self.waiting().contains(path)
    }

    /// A traversal that starts at `root`.
    pub fn new(root: String) -> (r: Resolver)
        ensures
            r.wf(),
            r.seen() == Seq::<Seq<char>>::empty(),
            r.waiting() == seq![root@],
    {
        let mut pending: Vec<String> = Vec::new();
        pending.push(root);
        Resolver { visited: Vec::new(), pending }
    }

    /// Whether `path` was inspected already.
    pub fn is_visited(&self, path: &String) -> (yes: bool)
        ensures
            yes == self.seen().contains(path@),
    {
        holds(&self.visited, path)
    }

    /// Hands out the next file to inspect: the last waiting file that was not
    /// inspected yet. It and the waiting files after it leave the list, the
    /// latter because they were inspected meanwhile. `None` means that no
    /// file waits that was not inspected: the traversal is complete.
    pub fn next_path(&mut self) -> (next: Option<String>)
        ensures
            final(self).visited@ == old(self).visited@,
            match next {
                Some(path) => exists|k: int|
                    0 <= k < old(self).waiting().len() && #[trigger] old(self).waiting()[k]
                        == path@ && final(self).waiting() == old(self).waiting().take(k)
                        && !old(self).seen().contains(path@) && forall|j: int|
                        k < j < old(self).waiting().len() ==> old(self).seen().contains(
                            #[trigger] old(self).waiting()[j],
                        ),
                None => final(self).waiting().len() == 0 && forall|j: int|
                    0 <= j < old(self).waiting().len() ==> old(self).seen().contains(
                        #[trigger] old(self).waiting()[j],
                    ),
            },
    {
        let ghost before = self.waiting();
        let ghost seen = self.seen();
        while self.pending.len() > 0
            invariant
                self.visited@ == old(self).visited@,
                seen == old(self).seen(),
                before == old(self).waiting(),
                self.pending@.len() <= before.len(),
                self.waiting() == before.take(self.pending@.len() as int),
                forall|j: int|
                    self.pending@.len() <= j < before.len() ==> seen.contains(#[trigger] before[j]),
            decreases self.pending@.len(),
        {
            let ghost k = self.pending@.len() - 1;
            let ghost now = self.waiting();
            let path = match self.pending.pop() {
                Some(path) => path,
                None => {
                    return None;
                },
            };
            assert(path@ == now[k]);
            if !holds(&self.visited, &path) {
                return Some(path);
            }
        }
        None
    }

    /// Takes back what the inspection of `path` found: the files it depends
    /// on directly. `path` counts as inspected from now on, and its
    /// dependencies wait to be; a file that cannot be read or parsed is
    /// recorded with none. For a file that was inspected already nothing
    /// changes.
    pub fn record(&mut self, path: String, dependencies: Vec<String>)
        ensures
            old(self).wf() ==> final(self).wf(),
            old(self).seen().contains(path@) ==> final(self).seen() == old(self).seen()
                && final(self).waiting() == old(self).waiting(),
            !old(self).seen().contains(path@) ==> final(self).seen() == old(self).seen().push(path@)
                && final(self).waiting() == old(self).waiting() + texts(dependencies@),
    {
        if holds(&self.visited, &path) {
            return ;
        }
        let ghost seen = self.seen();
        let ghost waiting = self.waiting();
        self.visited.push(path);
        let mut i: usize = 0;
        while i < dependencies.len()
            invariant
                i <= dependencies@.len(),
                self.seen() == seen.push(path@),
                self.waiting() == waiting + texts(dependencies@).take(i as int),
            decreases dependencies@.len() - i,
        {
            let ghost so_far = self.waiting();
            self.pending.push(dependencies[i].clone());
            assert(self.waiting() =~= so_far.push(dependencies@[i as int]@));
            i = i + 1;
        }
    }

    /// The files found: those inspected, then those that still wait, each
    /// once. After a complete traversal these are the inspected files, in
    /// the order in which they were inspected.
    pub fn into_sources(self) -> (sources: Vec<String>)
        ensures
            texts(sources@).no_duplicates(),
            forall|path: Seq<char>| texts(sources@).contains(path) <==> self.knows(path),
            texts(sources@) == with_new(with_new(Seq::empty(), self.seen()), self.waiting()),
            self.wf() ==> self.seen().is_prefix_of(texts(sources@)),
            self.wf() && (forall|j: int|
                0 <= j < self.waiting().len() ==> self.seen().contains(
                    #[trigger] self.waiting()[j],
                )) ==> texts(sources@) == self.seen(),
    {
        let mut sources: Vec<String> = Vec::new();
        assert(texts(sources@) =~= Seq::<Seq<char>>::empty());
        append_new(&mut sources, &self.visited);
        assert(self.wf() ==> texts(sources@) == self.seen()) by {
            assert(Seq::<Seq<char>>::empty() + self.seen() =~= self.seen());
        }
        let ghost inspected = texts(sources@);
        append_new(&mut sources, &self.pending);
        proof {
            if self.wf() && (forall|j: int|
                0 <= j < self.waiting().len() ==> self.seen().contains(
                    #[trigger] self.waiting()[j],
                )) {
                assert forall|j: int| 0 <= j < self.pending@.len() implies inspected.contains(
                    #[trigger] texts(self.pending@)[j],
                ) by {
                    assert(self.seen().contains(self.waiting()[j]));
                }
            }
        }
        sources
    }
}

/// `held`, and behind it each of the first `n` of `items` that did not stand
/// before it, in their order.
pub open spec fn with_new_up_to(held: Seq<Seq<char>>, items: Seq<Seq<char>>, n: int) -> Seq<
    Seq<char>,
>
    decreases n,
{
    if n <= 0 || n > items.len() {
        held
    } else {
        let so_far = with_new_up_to(held, items, n - 1);
        if so_far.contains(items[n - 1]) {
            so_far
        } else {
            so_far.push(items[n - 1])
        }
    }
}

/// `held`, and behind it each of `items` that did not stand before it.
pub open spec fn with_new(held: Seq<Seq<char>>, items: Seq<Seq<char>>) -> Seq<Seq<char>> {
    with_new_up_to(held, items, items.len() as int)
}

/// Appends to `list` each of `items` that it does not hold yet, in their
/// order.
pub fn append_new(list: &mut Vec<String>, items: &Vec<String>)
    ensures
        texts(final(list)@) == with_new(texts(old(list)@), texts(items@)),
        texts(old(list)@).no_duplicates() ==> texts(final(list)@).no_duplicates(),
        texts(old(list)@).is_prefix_of(texts(final(list)@)),
        forall|path: Seq<char>|
            texts(final(list)@).contains(path) <==> texts(old(list)@).contains(path) || texts(
                items@,
            ).contains(path),
        (forall|j: int|
            0 <= j < items@.len() ==> texts(old(list)@).contains(#[trigger] texts(items@)[j]))
            ==> texts(final(list)@) == texts(old(list)@),
        (texts(old(list)@) + texts(items@)).no_duplicates() ==> texts(final(list)@) == texts(
            old(list)@,
        ) + texts(items@),
{
    let ghost held = texts(list@);
    let ghost fresh = texts(items@);
    let mut i: usize = 0;
    assert(held + fresh.take(0) =~= held);
    while i < items.len()
        invariant
            i <= items@.len(),
            held == texts(old(list)@),
            fresh == texts(items@),
            texts(list@) == with_new_up_to(held, fresh, i as int),
            held.no_duplicates() ==> texts(list@).no_duplicates(),
            held.is_prefix_of(texts(list@)),
            forall|path: Seq<char>| #[trigger]
                texts(list@).contains(path) ==> held.contains(path) || fresh.take(
                    i as int,
                ).contains(path),
            forall|path: Seq<char>| #[trigger] held.contains(path) ==> texts(list@).contains(path),
            forall|path: Seq<char>| #[trigger]
                fresh.take(i as int).contains(path) ==> texts(list@).contains(path),
            (forall|j: int| 0 <= j < i ==> held.contains(#[trigger] fresh[j])) ==> texts(list@)
                == held,
            (held + fresh).no_duplicates() ==> texts(list@) == held + fresh.take(i as int),
        decreases items@.len() - i,
    {
        let ghost before = texts(list@);
        let ghost head = fresh.take(i as int);
        let ghost next = fresh.take(i + 1);
        let ghost item = fresh[i as int];
        assert(next =~= head.push(item));
        assert(item == items@[i as int]@);
        if !holds(list, &items[i]) {
            list.push(items[i].clone());
            assert(texts(list@) =~= before.push(item));
            assert(!held.contains(item));
        } else {
            assert((held + fresh).no_duplicates() ==> false) by {
                if (held + fresh).no_duplicates() {
                    let k = choose|k: int| 0 <= k < before.len() && before[k] == item;
                    assert(before == held + head);
                    assert((held + fresh)[k] == item);
                    assert((held + fresh)[held.len() + i] == item);
                }
            }
        }
        assert forall|path: Seq<char>| #[trigger] texts(list@).contains(path) implies held.contains(
            path,
        ) || next.contains(path) by {
            lemma_push_members(before, item, path);
            lemma_push_members(head, item, path);
        }
        assert forall|path: Seq<char>| #[trigger] held.contains(path) implies texts(
            list@,
        ).contains(path) by {
            lemma_push_members(before, item, path);
        }
        assert forall|path: Seq<char>| #[trigger] next.contains(path) implies texts(
            list@,
        ).contains(path) by {
            lemma_push_members(before, item, path);
            lemma_push_members(head, item, path);
        }
        assert((held + fresh).no_duplicates() ==> texts(list@) =~= held + next);
        i = i + 1;
    }
    assert(fresh.take(items@.len() as int) =~= fresh);
    assert forall|path: Seq<char>|
        texts(list@).contains(path) <==> held.contains(path) || fresh.contains(path) by {}
}

/// What a list holds after a push: what it held, and the new item.
pub proof fn lemma_push_members(list: Seq<Seq<char>>, item: Seq<char>, path: Seq<char>)
    ensures
        list.push(item).contains(path) <==> list.contains(path) || path == item,
{
    let longer = list.push(item);
    if list.contains(path) {
        let k = choose|k: int| 0 <= k < list.len() && list[k] == path;
        assert(longer[k] == path);
    }
    if path == item {
        assert(longer[list.len() as int] == path);
    }
}

/// The files a traversal from `root` can come to inspect and has not yet:
/// the root and the files of the snapshot, without those in `seen`.
pub open spec fn unvisited(tree: SourceTree, root: Seq<char>, seen: Seq<Seq<char>>) -> Set<
    Seq<char>,
> {
    tree.paths().to_set().insert(root).difference(seen.to_set())
}

/// Inspecting a file for the first time leaves fewer files to inspect.
pub proof fn lemma_visit_shrinks(
    tree: SourceTree,
    root: Seq<char>,
    seen: Seq<Seq<char>>,
    path: Seq<char>,
)
    requires
        !seen.contains(path),
        path == root || tree.has(path),
    ensures
        unvisited(tree, root, seen.push(path)).len() < unvisited(tree, root, seen).len(),
{
    let before = unvisited(tree, root, seen);
    let after = unvisited(tree, root, seen.push(path));
    vstd::seq_lib::seq_to_set_is_finite(tree.paths());
    if tree.has(path) {
        tree.lemma_first_index(path, 0);
        let i = tree.first_index(path, 0).unwrap();
        assert(tree.paths()[i] == path);
    }
    lemma_push_members(seen, path, path);
    assert forall|x: Seq<char>| after.insert(path).contains(x) implies before.contains(x) by {
        if x != path {
            lemma_push_members(seen, path, x);
        }
    }
    vstd::set_lib::lemma_len_subset(after.insert(path), before);
}

/// Resolves the files that the design rooted at `root` needs, over the
/// snapshot `tree`.
///
/// The traversal ends on every snapshot, cyclic references included. What
/// comes back holds each file once: `root`, and every file that `root`
/// depends on, directly or through other files. A component whose file is
/// missing adds nothing, and a file that cannot be read or parsed counts as
/// one without components.
pub fn generate_sources_for(root: &str, tree: &SourceTree) -> (sources: Vec<String>)
    ensures
        texts(sources@).no_duplicates(),
        forall|path: Seq<char>| texts(sources@).contains(path) <==> tree.reaches(root@, path),
        forall|path: Seq<char>|
            texts(sources@).contains(path) ==> path == root@ || tree.has(path),
{
    let mut resolver = Resolver::new(String::from_str(root));
    proof {
        tree.lemma_reaches_itself(root@);
        assert(resolver.waiting()[0] == root@);
        assert forall|path: Seq<char>| #[trigger] resolver.knows(path) implies tree.reaches(
            root@,
            path,
        ) by {}
    }
    loop
        invariant
            resolver.wf(),
            resolver.knows(root@),
            forall|path: Seq<char>| #[trigger] resolver.knows(path) ==> tree.reaches(root@, path),
            forall|from: Seq<char>, to: Seq<char>|
                resolver.seen().contains(from) && #[trigger] tree.links(from, to)
                    ==> resolver.knows(to),
        ensures
            resolver.waiting().len() == 0,
        decreases unvisited(*tree, root@, resolver.seen()).len(),
    {
        let ghost seen = resolver.seen();
        let ghost waiting = resolver.waiting();
        let ghost earlier = resolver;
        let next = resolver.next_path();
        let path = match next {
            Some(path) => path,
            None => {
                proof {
                    assert forall|x: Seq<char>| #[trigger] earlier.knows(x) implies seen.contains(
                        x,
                    ) by {}
                    assert forall|x: Seq<char>| #[trigger] resolver.knows(x) implies tree.reaches(
                        root@,
                        x,
                    ) by {
                        assert(earlier.knows(x));
                    }
                }
                break ;
            },
        };
        let found = tree.dependencies_of(&path);
        let ghost k = choose|k: int|
            0 <= k < waiting.len() && #[trigger] waiting[k] == path@ && resolver.waiting()
                == waiting.take(k) && forall|j: int|
                k < j < waiting.len() ==> seen.contains(#[trigger] waiting[j]);
        let ghost kept_back = waiting.take(k);
        let ghost added = texts(found@);
        proof {
            assert(earlier.knows(path@));
            tree.lemma_reached_exist(root@, path@);
            lemma_visit_shrinks(*tree, root@, seen, path@);
        }
        resolver.record(path, found);
        proof {
            assert forall|x: Seq<char>| #[trigger] earlier.knows(x) implies resolver.knows(x) by {
                lemma_push_members(seen, path@, x);
                if !seen.contains(x) {
                    let j = choose|j: int| 0 <= j < waiting.len() && waiting[j] == x;
                    if j < k {
                        assert((kept_back + added)[j] == x);
                    }
                }
            }
            assert forall|x: Seq<char>| #[trigger] resolver.knows(x) implies tree.reaches(
                root@,
                x,
            ) by {
                lemma_push_members(seen, path@, x);
                if !seen.contains(x) && x != path@ {
                    let j = choose|j: int|
                        0 <= j < (kept_back + added).len() && (kept_back + added)[j] == x;
                    if j < k {
                        assert(earlier.knows(x));
                    } else {
                        tree.lemma_reaches_step(root@, path@, x);
                    }
                }
            }
            assert forall|from: Seq<char>, to: Seq<char>|
                resolver.seen().contains(from) && #[trigger] tree.links(
                    from,
                    to,
                ) implies resolver.knows(to) by {
                lemma_push_members(seen, path@, from);
                if !seen.contains(from) {
                    let j = choose|j: int| 0 <= j < added.len() && added[j] == to;
                    assert((kept_back + added)[k + j] == to);
                }
            }
        }
    }
    let ghost seen = resolver.seen();
    let sources = resolver.into_sources();
    proof {
        let closed = Set::new(|x: Seq<char>| seen.contains(x));
        assert forall|path: Seq<char>|
            texts(sources@).contains(path) <==> tree.reaches(root@, path) by {
            if tree.reaches(root@, path) {
                tree.lemma_closed_holds_reached(root@, closed, path);
            }
            if texts(sources@).contains(path) {
                assert(resolver.knows(path));
            }
        }
        assert forall|path: Seq<char>| texts(sources@).contains(path) implies path == root@
            || tree.has(path) by {
            tree.lemma_reached_exist(root@, path);
        }
    }
    sources
}

} // verus!
