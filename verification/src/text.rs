//! Text primitives: white space, trimming, splitting into lines and joining.
//!
//! Every function here works on characters, not bytes: the view of a string is
//! its sequence of `char`s, and all positions count characters.

use vstd::prelude::*;

verus! {

/// Whether `c` is white space, that is, has the Unicode property `White_Space`.
pub open spec fn is_whitespace(c: char) -> bool {
    ||| '\u{9}' <= c <= '\u{d}'
    ||| c == ' '
    ||| c == '\u{85}'
    ||| c == '\u{a0}'
    ||| c == '\u{1680}'
    ||| '\u{2000}' <= c <= '\u{200a}'
    ||| c == '\u{2028}'
    ||| c == '\u{2029}'
    ||| c == '\u{202f}'
    ||| c == '\u{205f}'
    ||| c == '\u{3000}'
}

/// `s` without its leading white space.
pub open spec fn trim_start(s: Seq<char>) -> Seq<char>
    decreases s.len(),
{
    if s.len() > 0 && is_whitespace(s.first()) {
        trim_start(s.drop_first())
    } else {
        s
    }
}

/// `s` without its trailing white space.
pub open spec fn trim_end(s: Seq<char>) -> Seq<char>
    decreases s.len(),
{
    if s.len() > 0 && is_whitespace(s.last()) {
        trim_end(s.drop_last())
    } else {
        s
    }
}

/// `s` without the white space at either end.
pub open spec fn trim(s: Seq<char>) -> Seq<char> {
    trim_end(trim_start(s))
}

/// Position of the first line feed in `s`, or the length of `s` if it has none.
pub open spec fn line_end(s: Seq<char>) -> nat
    decreases s.len(),
{
    if s.len() == 0 || s.first() == '\n' {
        0
    } else {
        1 + line_end(s.drop_first())
    }
}

/// `line` without one trailing carriage return.
pub open spec fn strip_cr(line: Seq<char>) -> Seq<char> {
    if line.len() > 0 && line.last() == '\r' {
        line.drop_last()
    } else {
        line
    }
}

/// The lines of `s`. A line ends at a line feed, or at a carriage return
/// directly followed by one; the terminator is not part of the line. The last
/// line needs no terminator, and a text that ends in one has no empty line
/// after it. A carriage return anywhere else stays in its line.
pub open spec fn lines_of(s: Seq<char>) -> Seq<Seq<char>>
    decreases s.len(),
{
    if s.len() == 0 {
        Seq::empty()
    } else {
        let n = line_end(s);
        if n >= s.len() {
            seq![s]
        } else {
            seq![strip_cr(s.take(n as int))] + lines_of(s.skip(n as int + 1))
        }
    }
}

/// The `parts` in order, with one line feed between each two neighbours.
pub open spec fn join_lines(parts: Seq<Seq<char>>) -> Seq<char>
    decreases parts.len(),
{
    if parts.len() == 0 {
        Seq::empty()
    } else if parts.len() == 1 {
        parts[0]
    } else {
        join_lines(parts.drop_last()) + seq!['\n'] + parts.last()
    }
}

/// Whether `s` begins with `prefix`.
pub open spec fn starts_with(s: Seq<char>, prefix: Seq<char>) -> bool {
    prefix.len() <= s.len() && s.take(prefix.len() as int) == prefix
}

/// Where the first `a` characters of `s` are white space and the next one is
/// not, trimming the start of `s` drops exactly those `a`.
pub proof fn lemma_trim_start_skips(s: Seq<char>, a: int)
    requires
        0 <= a <= s.len(),
        forall|k: int| 0 <= k < a ==> is_whitespace(s[k]),
        a < s.len() ==> !is_whitespace(s[a]),
    ensures
        trim_start(s) == s.skip(a),
    decreases a,
{
    if a == 0 {
        assert(s.skip(0) =~= s);
    } else {
        lemma_trim_start_skips(s.drop_first(), a - 1);
        assert(s.drop_first().skip(a - 1) =~= s.skip(a));
    }
}

/// Where the characters of `s` from `b` on are white space and the one before
/// them is not, trimming the end of `s` keeps exactly the first `b`.
pub proof fn lemma_trim_end_takes(s: Seq<char>, b: int)
    requires
        0 <= b <= s.len(),
        forall|k: int| b <= k < s.len() ==> is_whitespace(s[k]),
        b > 0 ==> !is_whitespace(s[b - 1]),
    ensures
        trim_end(s) == s.take(b),
    decreases s.len() - b,
{
    if b == s.len() {
        assert(s.take(b) =~= s);
    } else {
        lemma_trim_end_takes(s.drop_last(), b);
        assert(s.drop_last().take(b) =~= s.take(b));
    }
}

/// Whether `c` is white space.
pub fn char_is_whitespace(c: char) -> (b: bool)
    ensures
        b == is_whitespace(c),
{
    (c >= '\u{9}' && c <= '\u{d}') || c == ' ' || c == '\u{85}' || c == '\u{a0}' || c
        == '\u{1680}' || (c >= '\u{2000}' && c <= '\u{200a}') || c == '\u{2028}' || c
        == '\u{2029}' || c == '\u{202f}' || c == '\u{205f}' || c == '\u{3000}'
}

/// The characters of `s`, in order.
pub fn chars_of(s: &str) -> (chars: Vec<char>)
    ensures
        chars@ == s@,
{
    let mut chars: Vec<char> = Vec::new();
    for c in it: s.chars()
        invariant
            chars@ == it.seq().take(it.index() as int),
    {
        chars.push(c);
    }
    chars
}

/// The characters of `s` from position `from` up to, not including, `to`.
pub fn slice_of(s: &str, from: usize, to: usize) -> (part: String)
    requires
        from <= to <= s@.len(),
    ensures
        part@ == s@.subrange(from as int, to as int),
{
    s.substring_char(from, to).to_owned()
}

/// The bounds of what trimming leaves of `chars[from..to]`.
pub fn trim_range(chars: &Vec<char>, from: usize, to: usize) -> (range: (usize, usize))
    requires
        from <= to <= chars.len(),
    ensures
        from <= range.0 <= range.1 <= to,
        chars@.subrange(range.0 as int, range.1 as int) == trim(
            chars@.subrange(from as int, to as int),
        ),
{
    let mut a: usize = from;
    while a < to && char_is_whitespace(chars[a])
        invariant
            from <= a <= to <= chars.len(),
            forall|k: int| from <= k < a ==> is_whitespace(chars@[k]),
        decreases to - a,
    {
        a += 1;
    }
    let mut b: usize = to;
    while a < b && char_is_whitespace(chars[b - 1])
        invariant
            a <= b <= to <= chars.len(),
            forall|k: int| b <= k < to ==> is_whitespace(chars@[k]),
        decreases b,
    {
        b -= 1;
    }
    proof {
        let s = chars@.subrange(from as int, to as int);
        lemma_trim_start_skips(s, a - from);
        let t = s.skip(a - from);
        lemma_trim_end_takes(t, b - a);
        assert(t.take(b - a) =~= chars@.subrange(a as int, b as int));
    }
    (a, b)
}

/// `s` without the white space at either end.
pub fn trimmed(s: &str) -> (t: String)
    ensures
        t@ == trim(s@),
{
    let chars = chars_of(s);
    let (a, b) = trim_range(&chars, 0, chars.len());
    assert(chars@.subrange(0, chars.len() as int) =~= chars@);
    slice_of(s, a, b)
}

/// Where the first `k` characters of `s` hold no line feed and the next one,
/// if there is one, is a line feed, the first line of `s` ends at `k`.
pub proof fn lemma_line_end_at(s: Seq<char>, k: int)
    requires
        0 <= k <= s.len(),
        forall|j: int| 0 <= j < k ==> s[j] != '\n',
        k < s.len() ==> s[k] == '\n',
    ensures
        line_end(s) == k,
    decreases k,
{
    if k > 0 {
        lemma_line_end_at(s.drop_first(), k - 1);
    }
}

/// The lines of `s`.
pub fn split_lines(s: &str) -> (lines: Vec<String>)
    ensures
        lines.deep_view() == lines_of(s@),
{
    let chars = chars_of(s);
    let n = chars.len();
    let mut lines: Vec<String> = Vec::new();
    let mut start: usize = 0;
    let mut i: usize = 0;
    assert(s@.skip(0) =~= s@);
    while i < n
        invariant
            start <= i <= n,
            n == chars.len(),
            chars@ == s@,
            forall|k: int| start <= k < i ==> chars@[k] != '\n',
            lines.deep_view() + lines_of(s@.skip(start as int)) == lines_of(s@),
        decreases n - i,
    {
        if chars[i] == '\n' {
            let end = if i > start && chars[i - 1] == '\r' {
                i - 1
            } else {
                i
            };
            let line = slice_of(s, start, end);
            proof {
                let rest = s@.skip(start as int);
                lemma_line_end_at(rest, i - start);
                assert(rest.take(i - start) =~= s@.subrange(start as int, i as int));
                assert(strip_cr(s@.subrange(start as int, i as int)) =~= line@);
                assert(rest.skip(i - start + 1) =~= s@.skip(i + 1));
                assert(lines.deep_view().push(line@) + lines_of(s@.skip(i + 1))
                    =~= lines.deep_view() + lines_of(rest));
            }
            let ghost before = lines.deep_view();
            lines.push(line);
            assert(lines.deep_view() =~= before.push(line@));
            start = i + 1;
        }
        i += 1;
    }
    if start < n {
        let line = slice_of(s, start, n);
        proof {
            let rest = s@.skip(start as int);
            lemma_line_end_at(rest, n - start);
            assert(rest =~= line@);
            assert(lines.deep_view().push(line@) =~= lines.deep_view() + lines_of(rest));
        }
        let ghost before = lines.deep_view();
        lines.push(line);
        assert(lines.deep_view() =~= before.push(line@));
    } else {
        assert(lines.deep_view() + lines_of(s@.skip(start as int)) =~= lines.deep_view());
    }
    lines
}

/// The `parts` in order, with one line feed between each two neighbours.
pub fn join(parts: &Vec<String>) -> (text: String)
    ensures
        text@ == join_lines(parts.deep_view()),
{
    let mut text = String::new();
    let mut i: usize = 0;
    while i < parts.len()
        invariant
            i <= parts.len(),
            text@ == join_lines(parts.deep_view().take(i as int)),
        decreases parts.len() - i,
    {
        proof {
            reveal_strlit("\n");
            let upto = parts.deep_view().take(i + 1);
            assert(upto.drop_last() =~= parts.deep_view().take(i as int));
            assert(upto.last() == parts@[i as int]@);
            assert("\n"@ =~= seq!['\n']);
        }
        if i > 0 {
            text.append("\n");
        }
        text.append(parts[i].as_str());
        i += 1;
    }
    assert(parts.deep_view().take(parts.len() as int) =~= parts.deep_view());
    text
}

} // verus!
