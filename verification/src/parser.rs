//! The single pass over the lines of one file.
//!
//! The pass carries a [`ParserState`] from line to line. Help comments wait in
//! a pending buffer until the next target declaration takes them; about and
//! postscript comments pile up for the whole file; include directives are
//! queued, in the top-level file only.
//!
//! A target is recorded once, at its first documented declaration. No set of
//! seen names is kept beside the list of targets: a name has been seen
//! exactly if the list records it, and the list never holds a name twice.

use crate::line::{classify, classify_line, Line, LineKind};
use crate::text::{join, join_lines};
use vstd::prelude::*;

verus! {

/// What the pass has gathered so far.
#[derive(Debug)]
pub struct ParserState {
    /// The about comments met so far, in file order.
    pub about: Vec<String>,
    /// The postscript comments met so far, in file order.
    pub postscript: Vec<String>,
    /// The documented targets recorded so far, as (name, help), in the order
    /// in which they were recorded.
    pub targets: Vec<(String, String)>,
    /// The help comments met since the last target declaration.
    pub comments: Vec<String>,
    /// The paths of the include directives met so far, in file order.
    pub includes: Vec<String>,
}

/// The mathematical value of a [`ParserState`].
pub struct State {
    pub about: Seq<Seq<char>>,
    pub postscript: Seq<Seq<char>>,
    pub targets: Seq<(Seq<char>, Seq<char>)>,
    pub comments: Seq<Seq<char>>,
    pub includes: Seq<Seq<char>>,
}

impl State {
    /// Whether the state is well formed: no target name stands twice.
    pub open spec fn well_formed(self) -> bool {
        unique_names(self.targets)
    }
}

impl View for ParserState {
    type V = State;

    open spec fn view(&self) -> State {
        State {
            about: self.about.deep_view(),
            postscript: self.postscript.deep_view(),
            targets: self.targets.deep_view(),
            comments: self.comments.deep_view(),
            includes: self.includes.deep_view(),
        }
    }
}

/// The state before the first line.
pub open spec fn initial() -> State {
    State {
        about: Seq::empty(),
        postscript: Seq::empty(),
        targets: Seq::empty(),
        comments: Seq::empty(),
        includes: Seq::empty(),
    }
}

/// Whether `targets` records a target called `name`.
pub open spec fn has_target(targets: Seq<(Seq<char>, Seq<char>)>, name: Seq<char>) -> bool {
    exists|i: int| 0 <= i < targets.len() && (#[trigger] targets[i]).0 == name
}

/// Whether no name occurs twice in `targets`.
pub open spec fn unique_names(targets: Seq<(Seq<char>, Seq<char>)>) -> bool {
    forall|i: int, j: int|
        0 <= i < j < targets.len() ==> (#[trigger] targets[i]).0 != (#[trigger] targets[j]).0
}

/// `targets` after `target` was offered to it: appended if its name is new,
/// left alone otherwise.
pub open spec fn offer(targets: Seq<(Seq<char>, Seq<char>)>, target: (Seq<char>, Seq<char>)) -> Seq<
    (Seq<char>, Seq<char>),
> {
    if has_target(targets, target.0) {
        targets
    } else {
        targets.push(target)
    }
}

/// The state after one more line, `line`, of a file read at `depth` (0 for the
/// top-level file).
///
/// - A help comment joins the pending buffer.
/// - A postscript or about comment joins its list.
/// - A target declaration is recorded, with the pending comments joined by
///   line feeds as its help, if its name is new and the buffer is not empty.
///   Recorded or not, it empties the buffer.
/// - An include directive is queued at depth 0 and passed over below.
/// - Any other line changes nothing; the pending buffer stays.
pub open spec fn step(s: State, line: Line, depth: nat) -> State {
    match line {
        Line::HelpComment(text) => State { comments: s.comments.push(text), ..s },
        Line::PostscriptComment(text) => State { postscript: s.postscript.push(text), ..s },
        Line::AboutComment(text) => State { about: s.about.push(text), ..s },
        Line::TargetDeclaration(name) => State {
            targets: if s.comments.len() > 0 {
                offer(s.targets, (name, join_lines(s.comments)))
            } else {
                s.targets
            },
            comments: Seq::empty(),
            ..s
        },
        Line::IncludeDirective(path) => if depth == 0 {
            State { includes: s.includes.push(path), ..s }
        } else {
            s
        },
        Line::Other => s,
    }
}

/// The state after the lines `lines` of a file read at `depth`, from `s` on.
pub open spec fn run(s: State, lines: Seq<Seq<char>>, depth: nat) -> State
    decreases lines.len(),
{
    if lines.len() == 0 {
        s
    } else {
        step(run(s, lines.drop_last(), depth), classify(lines.last()), depth)
    }
}

/// Whether `targets` records a target called `name`.
pub fn contains_target(targets: &Vec<(String, String)>, name: &String) -> (found: bool)
    ensures
        found == has_target(targets.deep_view(), name@),
{
    let mut i: usize = 0;
    while i < targets.len()
        invariant
            i <= targets.len(),
            forall|k: int| 0 <= k < i ==> (#[trigger] targets.deep_view()[k]).0 != name@,
        decreases targets.len() - i,
    {
        if targets[i].0 == *name {
            assert(targets.deep_view()[i as int].0 == name@);
            return true;
        }
        i += 1;
    }
    false
}

/// Offers `target` to `targets`: appends it if its name is new.
pub fn offer_target(targets: &mut Vec<(String, String)>, target: (String, String))
    ensures
        final(targets).deep_view() == offer(old(targets).deep_view(), target.deep_view()),
{
    if !contains_target(targets, &target.0) {
        let ghost before = targets.deep_view();
        let ghost added = target.deep_view();
        targets.push(target);
        assert(targets.deep_view() =~= before.push(added));
    }
}

impl ParserState {
    /// The state before the first line.
    pub fn new() -> (state: Self)
        ensures
            state@ == initial(),
            state@.well_formed(),
    {
        let state = ParserState {
            about: Vec::new(),
            postscript: Vec::new(),
            targets: Vec::new(),
            comments: Vec::new(),
            includes: Vec::new(),
        };
        assert(state@.about =~= Seq::empty());
        assert(state@.postscript =~= Seq::empty());
        assert(state@.targets =~= Seq::empty());
        assert(state@.comments =~= Seq::empty());
        assert(state@.includes =~= Seq::empty());
        state
    }

    /// Takes in one classified line of a file read at `depth`.
    pub fn step(&mut self, line: LineKind, depth: usize)
        ensures
            final(self)@ == step(old(self)@, line@, depth as nat),
            old(self)@.well_formed() ==> final(self)@.well_formed(),
    {
        match line {
            LineKind::HelpComment(text) => {
                let ghost before = self.comments.deep_view();
                self.comments.push(text);
                assert(self.comments.deep_view() =~= before.push(text@));
            },
            LineKind::PostscriptComment(text) => {
                let ghost before = self.postscript.deep_view();
                self.postscript.push(text);
                assert(self.postscript.deep_view() =~= before.push(text@));
            },
            LineKind::AboutComment(text) => {
                let ghost before = self.about.deep_view();
                self.about.push(text);
                assert(self.about.deep_view() =~= before.push(text@));
            },
            LineKind::TargetDeclaration(name) => {
                proof {
                    lemma_offer(self@.targets, (name@, join_lines(self@.comments)));
                }
                if self.comments.len() > 0 {
                    let help = join(&self.comments);
                    offer_target(&mut self.targets, (name, help));
                }
                self.comments.clear();
                assert(self.comments.deep_view() =~= Seq::empty());
            },
            LineKind::IncludeDirective(path) => {
                if depth == 0 {
                    let ghost before = self.includes.deep_view();
                    self.includes.push(path);
                    assert(self.includes.deep_view() =~= before.push(path@));
                }
            },
            LineKind::Other => {},
        }
    }

    /// Takes in the lines `lines` of a file read at `depth`, in order.
    pub fn feed(&mut self, lines: &Vec<String>, depth: usize)
        ensures
            final(self)@ == run(old(self)@, lines.deep_view(), depth as nat),
            old(self)@.well_formed() ==> final(self)@.well_formed(),
    {
        proof {
            lemma_recorded_targets_stay(old(self)@, lines.deep_view(), depth as nat);
        }
        let mut i: usize = 0;
        while i < lines.len()
            invariant
                i <= lines.len(),
                self@ == run(old(self)@, lines.deep_view().take(i as int), depth as nat),
            decreases lines.len() - i,
        {
            proof {
                let upto = lines.deep_view().take(i + 1);
                assert(upto.drop_last() =~= lines.deep_view().take(i as int));
                assert(upto.last() == lines@[i as int]@);
            }
            let kind = classify_line(lines[i].as_str());
            self.step(kind, depth);
            i += 1;
        }
        assert(lines.deep_view().take(lines.len() as int) =~= lines.deep_view());
    }
}

/// Reads the lines `lines` of a file at `depth`, from the first line on.
pub fn parse_lines(lines: &Vec<String>, depth: usize) -> (state: ParserState)
    ensures
        state@ == run(initial(), lines.deep_view(), depth as nat),
        state@.well_formed(),
{
    let mut state = ParserState::new();
    state.feed(lines, depth);
    state
}

/// The about comments among `lines`, in file order.
pub open spec fn about_comments(lines: Seq<Seq<char>>) -> Seq<Seq<char>>
    decreases lines.len(),
{
    if lines.len() == 0 {
        Seq::empty()
    } else {
        match classify(lines.last()) {
            Line::AboutComment(text) => about_comments(lines.drop_last()).push(text),
            _ => about_comments(lines.drop_last()),
        }
    }
}

/// The postscript comments among `lines`, in file order.
pub open spec fn postscript_comments(lines: Seq<Seq<char>>) -> Seq<Seq<char>>
    decreases lines.len(),
{
    if lines.len() == 0 {
        Seq::empty()
    } else {
        match classify(lines.last()) {
            Line::PostscriptComment(text) => postscript_comments(lines.drop_last()).push(text),
            _ => postscript_comments(lines.drop_last()),
        }
    }
}

/// Offering a target keeps every recorded target where it is, and keeps the
/// names apart.
pub proof fn lemma_offer(targets: Seq<(Seq<char>, Seq<char>)>, target: (Seq<char>, Seq<char>))
    ensures
        targets.is_prefix_of(offer(targets, target)),
        has_target(offer(targets, target), target.0),
        unique_names(targets) ==> unique_names(offer(targets, target)),
{
    let offered = offer(targets, target);
    if has_target(targets, target.0) {
    } else {
        assert(offered[targets.len() as int].0 == target.0);
        assert forall|i: int, j: int| 0 <= i < j < offered.len() && unique_names(targets) implies (
        #[trigger] offered[i]).0 != (#[trigger] offered[j]).0 by {
            if j == targets.len() {
                assert(targets[i].0 != target.0);
            } else {
                assert(targets[i].0 != targets[j].0);
            }
        }
    }
}

/// A declaration of a target whose name is recorded already changes no
/// recorded target and adds none.
pub proof fn lemma_redeclared_target_changes_nothing(s: State, name: Seq<char>, depth: nat)
    requires
        has_target(s.targets, name),
    ensures
        step(s, Line::TargetDeclaration(name), depth).targets == s.targets,
{
}

/// A declaration of a target with no help comment pending records nothing.
pub proof fn lemma_undocumented_target_not_recorded(s: State, name: Seq<char>, depth: nat)
    requires
        s.comments.len() == 0,
    ensures
        step(s, Line::TargetDeclaration(name), depth).targets == s.targets,
{
}

/// Whatever lines follow, every recorded target stays where it is and as it
/// is, and no name comes to stand twice.
pub proof fn lemma_recorded_targets_stay(s: State, lines: Seq<Seq<char>>, depth: nat)
    ensures
        s.targets.is_prefix_of(run(s, lines, depth).targets),
        unique_names(s.targets) ==> unique_names(run(s, lines, depth).targets),
    decreases lines.len(),
{
    if lines.len() > 0 {
        let before = run(s, lines.drop_last(), depth);
        lemma_recorded_targets_stay(s, lines.drop_last(), depth);
        match classify(lines.last()) {
            Line::TargetDeclaration(name) => {
                lemma_offer(before.targets, (name, join_lines(before.comments)));
            },
            _ => {},
        }
    }
}

/// A target is not recorded if, at each of its declarations in the file, no
/// help comment is pending.
pub proof fn lemma_undocumented_target_absent(lines: Seq<Seq<char>>, name: Seq<char>, depth: nat)
    requires
        forall|k: int|
            0 <= k < lines.len() && classify(#[trigger] lines[k]) == Line::TargetDeclaration(name)
                ==> run(initial(), lines.take(k), depth).comments.len() == 0,
    ensures
        !has_target(run(initial(), lines, depth).targets, name),
    decreases lines.len(),
{
    if lines.len() > 0 {
        let rest = lines.drop_last();
        assert forall|k: int|
            0 <= k < rest.len() && classify(#[trigger] rest[k]) == Line::TargetDeclaration(
                name,
            ) implies run(initial(), rest.take(k), depth).comments.len() == 0 by {
            assert(rest[k] == lines[k]);
            assert(rest.take(k) =~= lines.take(k));
        }
        lemma_undocumented_target_absent(rest, name, depth);
        let before = run(initial(), rest, depth);
        match classify(lines.last()) {
            Line::TargetDeclaration(declared) => {
                if declared == name {
                    assert(lines[lines.len() - 1] == lines.last());
                    assert(lines.take(lines.len() - 1) =~= rest);
                } else if before.comments.len() > 0 {
                    let target = (declared, join_lines(before.comments));
                    let after = offer(before.targets, target);
                    if has_target(after, name) {
                        let i = choose|i: int| 0 <= i < after.len() && (#[trigger] after[i]).0 == name;
                        assert(before.targets[i].0 == name);
                    }
                }
            },
            _ => {},
        }
    }
}

/// The about and the postscript comments of a file pile up in file order,
/// whatever stands between them: the lists after `lines` are the lists before
/// them, followed by the about and by the postscript comments among `lines`.
pub proof fn lemma_comments_accumulate(s: State, lines: Seq<Seq<char>>, depth: nat)
    ensures
        run(s, lines, depth).about == s.about + about_comments(lines),
        run(s, lines, depth).postscript == s.postscript + postscript_comments(lines),
    decreases lines.len(),
{
    if lines.len() > 0 {
        lemma_comments_accumulate(s, lines.drop_last(), depth);
        let before = run(s, lines.drop_last(), depth);
        let after = run(s, lines, depth);
        assert(after.about =~= s.about + about_comments(lines));
        assert(after.postscript =~= s.postscript + postscript_comments(lines));
    } else {
        assert(s.about + about_comments(lines) =~= s.about);
        assert(s.postscript + postscript_comments(lines) =~= s.postscript);
    }
}

/// Below the top-level file no include directive is queued.
pub proof fn lemma_no_includes_below_top(s: State, lines: Seq<Seq<char>>, depth: nat)
    requires
        depth > 0,
    ensures
        run(s, lines, depth).includes == s.includes,
    decreases lines.len(),
{
    if lines.len() > 0 {
        lemma_no_includes_below_top(s, lines.drop_last(), depth);
    }
}

} // verus!
