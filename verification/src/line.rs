//! Classification of one line of a Makefile.
//!
//! A line is looked at on its own, without the lines around it. The tests
//! are made in a fixed order and the first that holds decides:
//!
//! 1. `#|` at the start: a help comment for the next target;
//! 2. `#>` at the start: a postscript comment;
//! 3. `#<` at the start: an about comment;
//! 4. a target name directly followed by `:`: a target declaration;
//! 5. `include` or `-include`, one white space, and a path: an include
//!    directive;
//! 6. anything else.

use crate::text::{
    chars_of, char_is_whitespace, is_whitespace, line_end, slice_of, starts_with, trim,
    trim_range, lemma_line_end_at,
};
use vstd::prelude::*;

verus! {

/// What a line is, with the text it carries.
#[derive(Debug, PartialEq, Eq)]
pub enum LineKind {
    /// A help comment, with its trimmed content.
    HelpComment(String),
    /// An about comment, with its trimmed content.
    AboutComment(String),
    /// A postscript comment, with its trimmed content.
    PostscriptComment(String),
    /// A target declaration, with the target's name.
    TargetDeclaration(String),
    /// An include directive, with the trimmed rest of the line as one path.
    IncludeDirective(String),
    /// Any other line.
    Other,
}

/// The mathematical value of a [`LineKind`].
pub enum Line {
    HelpComment(Seq<char>),
    AboutComment(Seq<char>),
    PostscriptComment(Seq<char>),
    TargetDeclaration(Seq<char>),
    IncludeDirective(Seq<char>),
    Other,
}

impl View for LineKind {
    type V = Line;

    open spec fn view(&self) -> Line {
        match self {
            LineKind::HelpComment(text) => Line::HelpComment(text@),
            LineKind::AboutComment(text) => Line::AboutComment(text@),
            LineKind::PostscriptComment(text) => Line::PostscriptComment(text@),
            LineKind::TargetDeclaration(name) => Line::TargetDeclaration(name@),
            LineKind::IncludeDirective(path) => Line::IncludeDirective(path@),
            LineKind::Other => Line::Other,
        }
    }
}

/// The tag that opens a help comment.
pub open spec fn help_tag() -> Seq<char> {
    seq!['#', '|']
}

/// The tag that opens a postscript comment.
pub open spec fn postscript_tag() -> Seq<char> {
    seq!['#', '>']
}

/// The tag that opens an about comment.
pub open spec fn about_tag() -> Seq<char> {
    seq!['#', '<']
}

/// The keyword of an include directive.
pub open spec fn include_keyword() -> Seq<char> {
    seq!['i', 'n', 'c', 'l', 'u', 'd', 'e']
}

/// Whether `c` may stand in a target's name: an ASCII letter or digit, or one
/// of `/`, `%`, `_`, `-`.
pub open spec fn is_target_char(c: char) -> bool {
    ||| 'a' <= c <= 'z'
    ||| 'A' <= c <= 'Z'
    ||| '0' <= c <= '9'
    ||| c == '/'
    ||| c == '%'
    ||| c == '_'
    ||| c == '-'
}

/// How many characters at the start of `s` may stand in a target's name.
pub open spec fn name_len(s: Seq<char>) -> nat
    decreases s.len(),
{
    if s.len() > 0 && is_target_char(s.first()) {
        1 + name_len(s.drop_first())
    } else {
        0
    }
}

/// The name of the target that `line` declares, if it declares one: the
/// longest run of name characters at its start, where that run is not empty
/// and a colon follows it directly. What comes after the colon is not looked
/// at, so `name:= value` declares `name`.
pub open spec fn target_name(line: Seq<char>) -> Option<Seq<char>> {
    let n = name_len(line) as int;
    if 0 < n < line.len() && line[n] == ':' {
        Some(line.take(n))
    } else {
        None
    }
}

/// What follows the include keyword, where `line` starts with it; one `-`
/// may stand before the keyword.
pub open spec fn after_include_keyword(line: Seq<char>) -> Option<Seq<char>> {
    let body = if line.len() > 0 && line.first() == '-' {
        line.skip(1)
    } else {
        line
    };
    if starts_with(body, include_keyword()) {
        Some(body.skip(include_keyword().len() as int))
    } else {
        None
    }
}

/// The path of the include directive that `line` is, if it is one: after the
/// keyword comes one white space, and all that follows it, up to the end of
/// the line, is the path, trimmed. White space inside it does not split it.
pub open spec fn include_path(line: Seq<char>) -> Option<Seq<char>> {
    match after_include_keyword(line) {
        Some(rest) => {
            if rest.len() > 0 && is_whitespace(rest.first()) {
                let tail = rest.skip(1);
                Some(trim(tail.take(line_end(tail) as int)))
            } else {
                None
            }
        },
        None => None,
    }
}

/// What `line` is.
pub open spec fn classify(line: Seq<char>) -> Line {
    if starts_with(line, help_tag()) {
        Line::HelpComment(trim(line.skip(2)))
    } else if starts_with(line, postscript_tag()) {
        Line::PostscriptComment(trim(line.skip(2)))
    } else if starts_with(line, about_tag()) {
        Line::AboutComment(trim(line.skip(2)))
    } else if let Some(name) = target_name(line) {
        Line::TargetDeclaration(name)
    } else if let Some(path) = include_path(line) {
        Line::IncludeDirective(path)
    } else {
        Line::Other
    }
}

/// Where the first `n` characters of `s` may stand in a target's name and the
/// next one may not, the run of name characters at the start of `s` is `n`
/// long.
pub proof fn lemma_name_len_at(s: Seq<char>, n: int)
    requires
        0 <= n <= s.len(),
        forall|k: int| 0 <= k < n ==> is_target_char(s[k]),
        n < s.len() ==> !is_target_char(s[n]),
    ensures
        name_len(s) == n,
    decreases n,
{
    if n > 0 {
        lemma_name_len_at(s.drop_first(), n - 1);
    }
}

/// Whether `c` may stand in a target's name.
pub fn char_is_target_char(c: char) -> (b: bool)
    ensures
        b == is_target_char(c),
{
    (c >= 'a' && c <= 'z') || (c >= 'A' && c <= 'Z') || (c >= '0' && c <= '9') || c == '/'
        || c == '%' || c == '_' || c == '-'
}

/// Whether `chars` begins with `#` and then `mark`.
fn has_tag(chars: &Vec<char>, mark: char) -> (b: bool)
    ensures
        b == starts_with(chars@, seq!['#', mark]),
{
    let b = chars.len() >= 2 && chars[0] == '#' && chars[1] == mark;
    proof {
        if chars.len() >= 2 {
            assert(chars@.take(2) =~= seq![chars@[0], chars@[1]]);
        }
    }
    b
}

/// The trimmed content of a tagged comment: all that follows the tag.
fn comment_text(line: &str, chars: &Vec<char>) -> (text: String)
    requires
        chars@ == line@,
        chars.len() >= 2,
    ensures
        text@ == trim(line@.skip(2)),
{
    let (a, b) = trim_range(chars, 2, chars.len());
    slice_of(line, a, b)
}

/// The length of the name that `chars` declares as a target, if it declares
/// one.
fn target_name_len(chars: &Vec<char>) -> (len: Option<usize>)
    ensures
        match len {
            Some(n) => n <= chars.len() && target_name(chars@) == Some(chars@.take(n as int)),
            None => target_name(chars@) is None,
        },
{
    let mut n: usize = 0;
    while n < chars.len() && char_is_target_char(chars[n])
        invariant
            n <= chars.len(),
            forall|k: int| 0 <= k < n ==> is_target_char(chars@[k]),
        decreases chars.len() - n,
    {
        n += 1;
    }
    proof {
        lemma_name_len_at(chars@, n as int);
    }
    if n > 0 && n < chars.len() && chars[n] == ':' {
        Some(n)
    } else {
        None
    }
}

/// Where the path of an include directive starts and ends in `chars`, if
/// `chars` is one.
fn include_path_range(chars: &Vec<char>) -> (range: Option<(usize, usize)>)
    ensures
        match range {
            Some((a, b)) => a <= b <= chars.len() && include_path(chars@) == Some(
                chars@.subrange(a as int, b as int),
            ),
            None => include_path(chars@) is None,
        },
{
    let start: usize = if chars.len() > 0 && chars[0] == '-' {
        1
    } else {
        0
    };
    let ghost body = chars@.skip(start as int);
    let ghost word = include_keyword();
    assert(chars@.skip(0) =~= chars@);
    if chars.len() - start < 7 {
        return None;
    }
    let found = chars[start] == 'i' && chars[start + 1] == 'n' && chars[start + 2] == 'c'
        && chars[start + 3] == 'l' && chars[start + 4] == 'u' && chars[start + 5] == 'd'
        && chars[start + 6] == 'e';
    if !found {
        return None;
    }
    assert(body.take(7) =~= word);
    let space = start + 7;
    let ghost rest = body.skip(7);
    if space >= chars.len() || !char_is_whitespace(chars[space]) {
        return None;
    }
    let from = space + 1;
    let mut to: usize = from;
    while to < chars.len() && chars[to] != '\n'
        invariant
            from <= to <= chars.len(),
            forall|k: int| from <= k < to ==> chars@[k] != '\n',
        decreases chars.len() - to,
    {
        to += 1;
    }
    let (a, b) = trim_range(chars, from, to);
    proof {
        let tail = rest.skip(1);
        lemma_line_end_at(tail, to - from);
        assert(tail.take(to - from) =~= chars@.subrange(from as int, to as int));
    }
    Some((a, b))
}

/// Classifies one line.
pub fn classify_line(line: &str) -> (kind: LineKind)
    ensures
        kind@ == classify(line@),
{
    let chars = chars_of(line);
    if has_tag(&chars, '|') {
        LineKind::HelpComment(comment_text(line, &chars))
    } else if has_tag(&chars, '>') {
        LineKind::PostscriptComment(comment_text(line, &chars))
    } else if has_tag(&chars, '<') {
        LineKind::AboutComment(comment_text(line, &chars))
    } else if let Some(n) = target_name_len(&chars) {
        LineKind::TargetDeclaration(slice_of(line, 0, n))
    } else if let Some((a, b)) = include_path_range(&chars) {
        LineKind::IncludeDirective(slice_of(line, a, b))
    } else {
        LineKind::Other
    }
}

} // verus!
