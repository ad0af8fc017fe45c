//! The model of a Makefile, and how it is put together from the text of the
//! top-level file and of the files it includes.
//!
//! The library reads no file itself. Its caller reads them and hands over
//! what it found: the text of the Makefile, and for each path that an include
//! directive names, whether a file is there and what it holds.

use crate::error::{Failure, MakefileError};
use crate::locator::{search, DirProbe};
use crate::parser::{
    about_comments, initial, lemma_comments_accumulate, lemma_no_includes_below_top, lemma_offer,
    lemma_recorded_targets_stay, offer, offer_target, parse_lines, postscript_comments, run,
    unique_names, ParserState, State,
};
use crate::text::{join, join_lines, lines_of, split_lines};
use vstd::prelude::*;

verus! {

/// What a Makefile says of itself: its path, the about text, the postscript
/// text, and its documented targets as (name, help), each name once.
#[derive(Debug, PartialEq, Eq)]
pub struct Makefile {
    /// The path of the file.
    pub path: String,
    /// The about comments of the file, one per line.
    pub about: String,
    /// The postscript comments of the file, one per line.
    pub postscript: String,
    /// The documented targets, those of the file itself first, then those of
    /// its includes.
    pub targets: Vec<(String, String)>,
}

/// The mathematical value of a [`Makefile`].
pub struct Model {
    pub path: Seq<char>,
    pub about: Seq<char>,
    pub postscript: Seq<char>,
    pub targets: Seq<(Seq<char>, Seq<char>)>,
}

impl Model {
    /// Whether the model is well formed: no target name stands twice.
    pub open spec fn well_formed(self) -> bool {
        unique_names(self.targets)
    }
}

impl View for Makefile {
    type V = Model;

    open spec fn view(&self) -> Model {
        Model {
            path: self.path@,
            about: self.about@,
            postscript: self.postscript@,
            targets: self.targets.deep_view(),
        }
    }
}

/// What the caller found at the path of an include directive.
#[derive(Debug, PartialEq, Eq)]
pub enum IncludeSource {
    /// No file is there.
    Missing,
    /// A file is there and could not be read; the text says why.
    Unreadable(String),
    /// A file is there, with this text.
    Content(String),
}

/// The mathematical value of an [`IncludeSource`].
pub enum Source {
    Missing,
    Unreadable(Seq<char>),
    Content(Seq<char>),
}

impl View for IncludeSource {
    type V = Source;

    open spec fn view(&self) -> Source {
        match self {
            IncludeSource::Missing => Source::Missing,
            IncludeSource::Unreadable(reason) => Source::Unreadable(reason@),
            IncludeSource::Content(text) => Source::Content(text@),
        }
    }
}

/// A path, and what the caller found there.
#[derive(Debug, PartialEq, Eq)]
pub struct IncludeFile {
    /// The path, as the include directive gives it.
    pub path: String,
    /// What is at that path.
    pub source: IncludeSource,
}

/// The mathematical value of an [`IncludeFile`].
pub struct Entry {
    pub path: Seq<char>,
    pub source: Source,
}

impl DeepView for IncludeFile {
    type V = Entry;

    open spec fn deep_view(&self) -> Entry {
        Entry { path: self.path@, source: self.source@ }
    }
}

/// One directory on the way up from the starting directory, as the caller
/// found it.
#[derive(Debug, PartialEq, Eq)]
pub struct Directory {
    /// The path that a Makefile in this directory has.
    pub makefile_path: String,
    /// The text of the Makefile in this directory, if it holds one.
    pub makefile: Option<String>,
    /// The directory holds the repository marker.
    pub has_marker: bool,
}

/// The mathematical value of a [`Directory`].
pub struct Dir {
    pub makefile_path: Seq<char>,
    pub makefile: Option<Seq<char>>,
    pub has_marker: bool,
}

impl DeepView for Directory {
    type V = Dir;

    open spec fn deep_view(&self) -> Dir {
        Dir {
            makefile_path: self.makefile_path@,
            makefile: match self.makefile {
                Some(text) => Some(text@),
                None => None,
            },
            has_marker: self.has_marker,
        }
    }
}

/// The model of a file without a line.
pub open spec fn empty_model(path: Seq<char>) -> Model {
    Model { path, about: Seq::empty(), postscript: Seq::empty(), targets: Seq::empty() }
}

/// What is at `path` according to `files`: what the first entry for that
/// path says, and nothing if there is no entry for it.
pub open spec fn lookup(files: Seq<Entry>, path: Seq<char>) -> Source
    decreases files.len(),
{
    if files.len() == 0 {
        Source::Missing
    } else if files.first().path == path {
        files.first().source
    } else {
        lookup(files.drop_first(), path)
    }
}

/// `targets` after each target of `more` was offered to it, in order.
pub open spec fn merge(
    targets: Seq<(Seq<char>, Seq<char>)>,
    more: Seq<(Seq<char>, Seq<char>)>,
) -> Seq<(Seq<char>, Seq<char>)>
    decreases more.len(),
{
    if more.len() == 0 {
        targets
    } else {
        offer(merge(targets, more.drop_last()), more.last())
    }
}

/// The documented targets of an included file with the text `text`. The file
/// is read one level down, so its own include directives count for nothing.
pub open spec fn included_targets(text: Seq<char>) -> Seq<(Seq<char>, Seq<char>)> {
    run(initial(), lines_of(text), 1).targets
}

/// `targets` after the includes at `paths` were resolved against `files`, in
/// order. A path with no file is passed over. A file that could not be read
/// ends the resolution with an error. The targets of a file that was read are
/// merged in.
pub open spec fn resolve(
    targets: Seq<(Seq<char>, Seq<char>)>,
    paths: Seq<Seq<char>>,
    files: Seq<Entry>,
) -> Result<Seq<(Seq<char>, Seq<char>)>, Failure>
    decreases paths.len(),
{
    if paths.len() == 0 {
        Ok(targets)
    } else {
        match resolve(targets, paths.drop_last(), files) {
            Err(failure) => Err(failure),
            Ok(merged) => match lookup(files, paths.last()) {
                Source::Missing => Ok(merged),
                Source::Unreadable(reason) => Err(
                    Failure::IncludeParseFailure { path: paths.last(), reason },
                ),
                Source::Content(text) => Ok(merge(merged, included_targets(text))),
            },
        }
    }
}

/// The model that a finished pass gives: the about and the postscript
/// comments of `state` joined by line feeds, and its targets after the
/// includes it queued were resolved against `files`.
pub open spec fn assemble(path: Seq<char>, state: State, files: Seq<Entry>) -> Result<
    Model,
    Failure,
> {
    match resolve(state.targets, state.includes, files) {
        Ok(targets) => Ok(
            Model {
                path,
                about: join_lines(state.about),
                postscript: join_lines(state.postscript),
                targets,
            },
        ),
        Err(failure) => Err(failure),
    }
}

/// The model of the file at `path` with the text `content`, read at `depth`,
/// where `files` says what is at the paths of its include directives.
pub open spec fn model_of(path: Seq<char>, content: Seq<char>, depth: nat, files: Seq<Entry>)
    -> Result<Model, Failure> {
    assemble(path, run(initial(), lines_of(content), depth), files)
}

/// What the search sees in each of `dirs`.
pub open spec fn probes_of(dirs: Seq<Dir>) -> Seq<DirProbe> {
    Seq::new(
        dirs.len(),
        |i: int| DirProbe { has_makefile: dirs[i].makefile is Some, has_marker: dirs[i].has_marker },
    )
}

/// The model of the Makefile that the search finds in `dirs`.
pub open spec fn discover(dirs: Seq<Dir>, files: Seq<Entry>) -> Result<Model, Failure> {
    match search(probes_of(dirs), 0) {
        Some(at) => model_of(dirs[at].makefile_path, dirs[at].makefile->0, 0, files),
        None => Err(Failure::NotFound),
    }
}

/// The mathematical value of what [`Makefile::parse`] returns.
pub open spec fn outcome(result: Result<Makefile, MakefileError>) -> Result<Model, Failure> {
    match result {
        Ok(makefile) => Ok(makefile@),
        Err(error) => Err(error@),
    }
}

/// The mathematical value of what [`resolve_includes`] returns.
pub open spec fn merged(result: Result<Vec<(String, String)>, MakefileError>) -> Result<
    Seq<(Seq<char>, Seq<char>)>,
    Failure,
> {
    match result {
        Ok(targets) => Ok(targets.deep_view()),
        Err(error) => Err(error@),
    }
}

/// Once the resolution of the first `upto` includes has failed, the
/// resolution of all of them fails in the same way.
pub proof fn lemma_resolve_error_stays(
    targets: Seq<(Seq<char>, Seq<char>)>,
    paths: Seq<Seq<char>>,
    files: Seq<Entry>,
    upto: int,
)
    requires
        0 <= upto <= paths.len(),
        resolve(targets, paths.take(upto), files) is Err,
    ensures
        resolve(targets, paths, files) == resolve(targets, paths.take(upto), files),
    decreases paths.len() - upto,
{
    if upto == paths.len() {
        assert(paths.take(upto) =~= paths);
    } else {
        assert(paths.take(upto + 1).drop_last() =~= paths.take(upto));
        lemma_resolve_error_stays(targets, paths, files, upto + 1);
    }
}

/// What is at `path` according to `files`; `None` stands for no file.
pub fn lookup_source<'a>(files: &'a Vec<IncludeFile>, path: &String) -> (found: Option<
    &'a IncludeSource,
>)
    ensures
        match found {
            Some(source) => source@ == lookup(files.deep_view(), path@),
            None => lookup(files.deep_view(), path@) == Source::Missing,
        },
{
    let mut i: usize = 0;
    assert(files.deep_view().skip(0) =~= files.deep_view());
    while i < files.len()
        invariant
            i <= files.len(),
            lookup(files.deep_view(), path@) == lookup(files.deep_view().skip(i as int), path@),
        decreases files.len() - i,
    {
        proof {
            let rest = files.deep_view().skip(i as int);
            assert(rest.first() == files@[i as int].deep_view());
            assert(rest.drop_first() =~= files.deep_view().skip(i + 1));
        }
        if files[i].path == *path {
            return Some(&files[i].source);
        }
        i += 1;
    }
    None
}

/// Merges `more` into `targets`: offers each of its targets in order.
pub fn merge_targets(targets: &mut Vec<(String, String)>, more: &Vec<(String, String)>)
    ensures
        final(targets).deep_view() == merge(old(targets).deep_view(), more.deep_view()),
{
    let mut i: usize = 0;
    while i < more.len()
        invariant
            i <= more.len(),
            targets.deep_view() == merge(old(targets).deep_view(), more.deep_view().take(i as int)),
        decreases more.len() - i,
    {
        proof {
            let upto = more.deep_view().take(i + 1);
            assert(upto.drop_last() =~= more.deep_view().take(i as int));
            assert(upto.last() == more@[i as int].deep_view());
        }
        let target = (more[i].0.clone(), more[i].1.clone());
        offer_target(targets, target);
        i += 1;
    }
    assert(more.deep_view().take(more.len() as int) =~= more.deep_view());
}

/// Resolves the includes at `paths` against `files` and merges their
/// documented targets into `targets`.
pub fn resolve_includes(
    targets: Vec<(String, String)>,
    paths: &Vec<String>,
    files: &Vec<IncludeFile>,
) -> (result: Result<Vec<(String, String)>, MakefileError>)
    ensures
        merged(result) == resolve(targets.deep_view(), paths.deep_view(), files.deep_view()),
{
    let ghost start = targets.deep_view();
    let mut all = targets;
    let mut i: usize = 0;
    while i < paths.len()
        invariant
            i <= paths.len(),
            start == targets.deep_view(),
            resolve(start, paths.deep_view().take(i as int), files.deep_view()) == Ok::<
                Seq<(Seq<char>, Seq<char>)>,
                Failure,
            >(all.deep_view()),
        decreases paths.len() - i,
    {
        proof {
            let upto = paths.deep_view().take(i + 1);
            assert(upto.drop_last() =~= paths.deep_view().take(i as int));
            assert(upto.last() == paths@[i as int]@);
        }
        match lookup_source(files, &paths[i]) {
            None => {},
            Some(IncludeSource::Missing) => {},
            Some(IncludeSource::Unreadable(reason)) => {
                proof {
                    assert(resolve(start, paths.deep_view().take(i + 1), files.deep_view()) is Err);
                    lemma_resolve_error_stays(start, paths.deep_view(), files.deep_view(), i + 1);
                }
                return Err(
                    MakefileError::IncludeParseFailure {
                        path: paths[i].clone(),
                        reason: reason.clone(),
                    },
                );
            },
            Some(IncludeSource::Content(text)) => {
                let lines = split_lines(text.as_str());
                let included = parse_lines(&lines, 1);
                merge_targets(&mut all, &included.targets);
            },
        }
        i += 1;
    }
    assert(paths.deep_view().take(paths.len() as int) =~= paths.deep_view());
    Ok(all)
}

impl Makefile {
    /// The model of a Makefile of which nothing is known yet: no path, no
    /// text, no target.
    pub fn new() -> (makefile: Self)
        ensures
            makefile@ == empty_model(Seq::empty()),
            makefile@.well_formed(),
    {
        let makefile = Makefile {
            path: String::new(),
            about: String::new(),
            postscript: String::new(),
            targets: Vec::new(),
        };
        assert(makefile@.targets =~= Seq::empty());
        makefile
    }

    /// Makes the model that a finished pass over the file at `path` gives,
    /// once the caller has looked at the paths of the includes that the pass
    /// queued, and says in `files` what is there.
    pub fn assemble(path: &str, state: ParserState, files: &Vec<IncludeFile>) -> (result: Result<
        Makefile,
        MakefileError,
    >)
        ensures
            outcome(result) == assemble(path@, state@, files.deep_view()),
            state@.well_formed() ==> (result matches Ok(makefile) ==> makefile@.well_formed()),
    {
        proof {
            lemma_resolve(state@.targets, state@.includes, files.deep_view());
        }
        let about = join(&state.about);
        let postscript = join(&state.postscript);
        match resolve_includes(state.targets, &state.includes, files) {
            Ok(targets) => Ok(Makefile { path: path.to_owned(), about, postscript, targets }),
            Err(error) => Err(error),
        }
    }

    /// Makes the model of the file at `path` with the text `content`.
    ///
    /// `depth` is 0 for the top-level Makefile. Only there are include
    /// directives followed, and `files` says what is at their paths. An
    /// included file adds documented targets, never about or postscript text.
    pub fn parse(path: &str, content: &str, depth: usize, files: &Vec<IncludeFile>) -> (result:
        Result<Makefile, MakefileError>)
        ensures
            outcome(result) == model_of(path@, content@, depth as nat, files.deep_view()),
            result matches Ok(makefile) ==> makefile@.well_formed(),
    {
        let lines = split_lines(content);
        let state = parse_lines(&lines, depth);
        Makefile::assemble(path, state, files)
    }

    /// Searches `dirs` for the Makefile and makes this value its model.
    ///
    /// `dirs` holds the starting directory and each directory above it,
    /// nearest first and up to the root of the file system; `files` says what
    /// is at the paths of the include directives. On an error this value
    /// stays as it was.
    pub fn find_and_parse(&mut self, dirs: &Vec<Directory>, files: &Vec<IncludeFile>) -> (result:
        Result<(), MakefileError>)
        ensures
            match discover(dirs.deep_view(), files.deep_view()) {
                Ok(model) => result is Ok && final(self)@ == model && model.well_formed(),
                Err(failure) => result matches Err(error) && error@ == failure && *final(self)
                    == *old(self),
            },
    {
        let mut probes: Vec<DirProbe> = Vec::new();
        let mut i: usize = 0;
        while i < dirs.len()
            invariant
                i <= dirs.len(),
                probes@ == probes_of(dirs.deep_view()).take(i as int),
            decreases dirs.len() - i,
        {
            let probe = DirProbe {
                has_makefile: dirs[i].makefile.is_some(),
                has_marker: dirs[i].has_marker,
            };
            probes.push(probe);
            assert(probes@ =~= probes_of(dirs.deep_view()).take(i + 1));
            i += 1;
        }
        assert(probes@ =~= probes_of(dirs.deep_view()));
        let at = match Makefile::find(&probes) {
            Ok(at) => at,
            Err(error) => {
                return Err(error);
            },
        };
        let content = dirs[at].makefile.as_ref().unwrap();
        match Makefile::parse(dirs[at].makefile_path.as_str(), content.as_str(), 0, files) {
            Ok(makefile) => {
                *self = makefile;
                Ok(())
            },
            Err(error) => Err(error),
        }
    }
}

impl Default for Makefile {
    fn default() -> (makefile: Self)
        ensures
            makefile@ == empty_model(Seq::empty()),
            makefile@.well_formed(),
    {
        Makefile::new()
    }
}

/// Merging keeps every recorded target where it is and as it is, and keeps
/// the names apart.
pub proof fn lemma_merge(targets: Seq<(Seq<char>, Seq<char>)>, more: Seq<(Seq<char>, Seq<char>)>)
    ensures
        targets.is_prefix_of(merge(targets, more)),
        unique_names(targets) ==> unique_names(merge(targets, more)),
    decreases more.len(),
{
    if more.len() > 0 {
        lemma_merge(targets, more.drop_last());
        lemma_offer(merge(targets, more.drop_last()), more.last());
    }
}

/// Resolving includes keeps every recorded target where it is and as it is,
/// and keeps the names apart.
pub proof fn lemma_resolve(
    targets: Seq<(Seq<char>, Seq<char>)>,
    paths: Seq<Seq<char>>,
    files: Seq<Entry>,
)
    ensures
        resolve(targets, paths, files) matches Ok(all) ==> {
            &&& targets.is_prefix_of(all)
            &&& unique_names(targets) ==> unique_names(all)
        },
    decreases paths.len(),
{
    if paths.len() > 0 {
        lemma_resolve(targets, paths.drop_last(), files);
        if let Ok(merged) = resolve(targets, paths.drop_last(), files) {
            if let Source::Content(text) = lookup(files, paths.last()) {
                lemma_merge(merged, included_targets(text));
            }
        }
    }
}

/// Among the includes the earlier one wins: what the first `upto` includes
/// gave stays where it is and as it is when the others are resolved.
pub proof fn lemma_earlier_include_wins(
    targets: Seq<(Seq<char>, Seq<char>)>,
    paths: Seq<Seq<char>>,
    files: Seq<Entry>,
    upto: int,
)
    requires
        0 <= upto <= paths.len(),
    ensures
        resolve(targets, paths, files) matches Ok(all) ==> resolve(
            targets,
            paths.take(upto),
            files,
        ) matches Ok(part) && part.is_prefix_of(all),
    decreases paths.len() - upto,
{
    if upto == paths.len() {
        assert(paths.take(upto) =~= paths);
    } else {
        lemma_earlier_include_wins(targets, paths, files, upto + 1);
        assert(paths.take(upto + 1).drop_last() =~= paths.take(upto));
        if let Ok(part) = resolve(targets, paths.take(upto), files) {
            if let Source::Content(text) = lookup(files, paths.take(upto + 1).last()) {
                lemma_merge(part, included_targets(text));
            }
        }
    }
}

/// In a model no name stands twice, and the targets that the file itself
/// documents come first, as the file alone gives them: a target of an
/// include never replaces or moves one of them.
pub proof fn lemma_first_declaration_wins(
    path: Seq<char>,
    content: Seq<char>,
    depth: nat,
    files: Seq<Entry>,
)
    ensures
        model_of(path, content, depth, files) matches Ok(model) ==> {
            &&& unique_names(model.targets)
            &&& run(initial(), lines_of(content), depth).targets.is_prefix_of(model.targets)
        },
{
    let state = run(initial(), lines_of(content), depth);
    lemma_recorded_targets_stay(initial(), lines_of(content), depth);
    lemma_resolve(state.targets, state.includes, files);
}

/// The about text of a model is made of the about comments of the file, in
/// file order, and its postscript of the postscript comments, wherever they
/// stand among the other lines. The includes add nothing to either.
pub proof fn lemma_about_and_postscript(
    path: Seq<char>,
    content: Seq<char>,
    depth: nat,
    files: Seq<Entry>,
)
    ensures
        model_of(path, content, depth, files) matches Ok(model) ==> {
            &&& model.about == join_lines(about_comments(lines_of(content)))
            &&& model.postscript == join_lines(postscript_comments(lines_of(content)))
        },
{
    let lines = lines_of(content);
    lemma_comments_accumulate(initial(), lines, depth);
    assert(initial().about + about_comments(lines) =~= about_comments(lines));
    assert(initial().postscript + postscript_comments(lines) =~= postscript_comments(lines));
}

/// What the resolution gives depends on `files` only through what they say
/// of the paths to resolve.
pub proof fn lemma_resolve_reads_given_paths_only(
    targets: Seq<(Seq<char>, Seq<char>)>,
    paths: Seq<Seq<char>>,
    files: Seq<Entry>,
    others: Seq<Entry>,
)
    requires
        forall|i: int|
            0 <= i < paths.len() ==> lookup(files, #[trigger] paths[i]) == lookup(others, paths[i]),
    ensures
        resolve(targets, paths, files) == resolve(targets, paths, others),
    decreases paths.len(),
{
    if paths.len() > 0 {
        let rest = paths.drop_last();
        assert forall|i: int| 0 <= i < rest.len() implies lookup(files, #[trigger] rest[i])
            == lookup(others, rest[i]) by {
            assert(rest[i] == paths[i]);
        }
        lemma_resolve_reads_given_paths_only(targets, rest, files, others);
        assert(paths.last() == paths[paths.len() - 1]);
    }
}

/// Includes are followed one level deep and no further. The model of a
/// top-level file depends on `files` only through what they say of the paths
/// that the file's own include directives name: a path that only an included
/// file names is never looked up.
pub proof fn lemma_includes_one_level_deep(
    path: Seq<char>,
    content: Seq<char>,
    files: Seq<Entry>,
    others: Seq<Entry>,
)
    requires
        ({
            let paths = run(initial(), lines_of(content), 0).includes;
            forall|i: int|
                0 <= i < paths.len() ==> lookup(files, #[trigger] paths[i]) == lookup(
                    others,
                    paths[i],
                )
        }),
    ensures
        model_of(path, content, 0, files) == model_of(path, content, 0, others),
{
    let state = run(initial(), lines_of(content), 0);
    lemma_resolve_reads_given_paths_only(state.targets, state.includes, files, others);
}

/// Below the top level no include is followed at all: the model of a file
/// read there is the same whatever `files` holds.
pub proof fn lemma_no_includes_followed_below_top(
    path: Seq<char>,
    content: Seq<char>,
    depth: nat,
    files: Seq<Entry>,
)
    requires
        depth > 0,
    ensures
        model_of(path, content, depth, files) == model_of(path, content, depth, Seq::empty()),
        model_of(path, content, depth, files) is Ok,
{
    lemma_no_includes_below_top(initial(), lines_of(content), depth);
}

/// An include whose path has no file is passed over: the outcome is the one
/// that the other includes alone give.
pub proof fn lemma_missing_include_skipped(
    targets: Seq<(Seq<char>, Seq<char>)>,
    paths: Seq<Seq<char>>,
    files: Seq<Entry>,
    at: int,
)
    requires
        0 <= at < paths.len(),
        lookup(files, paths[at]) == Source::Missing,
    ensures
        resolve(targets, paths, files) == resolve(targets, paths.remove(at), files),
    decreases paths.len(),
{
    if at == paths.len() - 1 {
        assert(paths.remove(at) =~= paths.drop_last());
    } else {
        lemma_missing_include_skipped(targets, paths.drop_last(), files, at);
        assert(paths.remove(at).drop_last() =~= paths.drop_last().remove(at));
        assert(paths.remove(at).last() == paths.last());
    }
}

/// Where none of `paths` has a file, the resolution changes nothing.
pub proof fn lemma_missing_includes_add_nothing(
    targets: Seq<(Seq<char>, Seq<char>)>,
    paths: Seq<Seq<char>>,
    files: Seq<Entry>,
)
    requires
        forall|i: int| 0 <= i < paths.len() ==> lookup(files, #[trigger] paths[i]) == Source::Missing,
    ensures
        resolve(targets, paths, files) == Ok::<Seq<(Seq<char>, Seq<char>)>, Failure>(targets),
    decreases paths.len(),
{
    if paths.len() > 0 {
        let rest = paths.drop_last();
        assert forall|i: int| 0 <= i < rest.len() implies lookup(files, #[trigger] rest[i])
            == Source::Missing by {
            assert(rest[i] == paths[i]);
        }
        lemma_missing_includes_add_nothing(targets, rest, files);
        assert(paths.last() == paths[paths.len() - 1]);
    }
}

/// Where none of the paths that the include directives of a file name has a
/// file, the model is the one that the file alone gives.
pub proof fn lemma_missing_includes_leave_the_model(
    path: Seq<char>,
    content: Seq<char>,
    files: Seq<Entry>,
)
    requires
        ({
            let paths = run(initial(), lines_of(content), 0).includes;
            forall|i: int|
                0 <= i < paths.len() ==> lookup(files, #[trigger] paths[i]) == Source::Missing
        }),
    ensures
        model_of(path, content, 0, files) == model_of(path, content, 0, Seq::empty()),
        model_of(path, content, 0, files) matches Ok(model) && model.targets == run(
            initial(),
            lines_of(content),
            0,
        ).targets,
{
    let state = run(initial(), lines_of(content), 0);
    lemma_missing_includes_add_nothing(state.targets, state.includes, files);
    lemma_missing_includes_add_nothing(state.targets, state.includes, Seq::empty());
}

} // verus!
