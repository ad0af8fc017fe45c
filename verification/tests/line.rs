use mk::line::{char_is_target_char, classify_line, LineKind};
use regex::Regex;

fn help(text: &str) -> LineKind {
    LineKind::HelpComment(text.to_string())
}

fn about(text: &str) -> LineKind {
    LineKind::AboutComment(text.to_string())
}

fn postscript(text: &str) -> LineKind {
    LineKind::PostscriptComment(text.to_string())
}

fn target(name: &str) -> LineKind {
    LineKind::TargetDeclaration(name.to_string())
}

fn directive(path: &str) -> LineKind {
    LineKind::IncludeDirective(path.to_string())
}

/// The classification written with patterns, to hold the classifier against.
fn by_patterns(target_re: &Regex, directive_re: &Regex, line: &str) -> LineKind {
    if let Some(s) = line.strip_prefix("#|") {
        LineKind::HelpComment(s.trim().to_string())
    } else if let Some(s) = line.strip_prefix("#>") {
        LineKind::PostscriptComment(s.trim().to_string())
    } else if let Some(s) = line.strip_prefix("#<") {
        LineKind::AboutComment(s.trim().to_string())
    } else if let Some(caps) = target_re.captures(line) {
        LineKind::TargetDeclaration(caps[1].trim().to_string())
    } else if let Some(caps) = directive_re.captures(line) {
        LineKind::IncludeDirective(caps[1].trim().to_string())
    } else {
        LineKind::Other
    }
}

const LINES: [&str; 64] = [
    "",
    " ",
    "#",
    "#|",
    "#| Runs the tests",
    "#|Runs the tests",
    "#|   padded   ",
    "#|\ttab",
    "#> See the README",
    "#>",
    "#< A project",
    "#<",
    " #| indented tag",
    "# plain comment",
    "## double",
    "#|#>",
    "#>#|",
    "test:",
    "test: deps",
    "test-me:",
    "test :",
    " test:",
    "\ttest:",
    "test",
    ":",
    "::",
    "a:b:c",
    "name:= value",
    "NAME := value",
    "name::= value",
    "TEST_1/%-x.o: y",
    "TEST_1/%-x: y",
    "dir/file%:",
    "tést:",
    "a b:",
    ".PHONY: test",
    "\t@echo 'done'",
    "include foo.mk",
    "-include foo.mk",
    "--include foo.mk",
    "include",
    "include ",
    "include  ",
    "includes foo.mk",
    "includefoo.mk",
    "include\tfoo.mk",
    "include a.mk b.mk",
    "include   spaced.mk   ",
    "include\u{a0}nbsp.mk",
    "include\u{3000}wide.mk",
    "include\u{200b}zero-width.mk",
    "-include:",
    "include:",
    "include: x",
    "-",
    "-i",
    "-includ",
    "Include foo.mk",
    "include\nfoo.mk",
    "include foo.mk\nbar.mk",
    "include \n",
    "test:\nsecond",
    "x\ntest:",
    "include foo.mk\r",
];

#[test]
fn help_comment() {
    assert_eq!(classify_line("#| Runs the tests"), help("Runs the tests"));
    assert_eq!(classify_line("#|Runs the tests"), help("Runs the tests"));
    assert_eq!(classify_line("#|   padded \t"), help("padded"));
    assert_eq!(classify_line("#|"), help(""));
    assert_eq!(classify_line("#| test: not a target"), help("test: not a target"));
}

#[test]
fn about_comment() {
    assert_eq!(classify_line("#< A project"), about("A project"));
    assert_eq!(classify_line("#<"), about(""));
}

#[test]
fn postscript_comment() {
    assert_eq!(classify_line("#> See the README"), postscript("See the README"));
    assert_eq!(classify_line("#>"), postscript(""));
}

#[test]
fn a_tag_counts_at_the_start_of_the_line_only() {
    assert_eq!(classify_line(" #| indented"), LineKind::Other);
    assert_eq!(classify_line("x #| trailing"), LineKind::Other);
    assert_eq!(classify_line("# | split"), LineKind::Other);
    assert_eq!(classify_line("#"), LineKind::Other);
}

#[test]
fn target_declaration() {
    assert_eq!(classify_line("test:"), target("test"));
    assert_eq!(classify_line("test: deps more"), target("test"));
    assert_eq!(classify_line("test-me:"), target("test-me"));
    assert_eq!(classify_line("TEST_1/%-x: y"), target("TEST_1/%-x"));
    assert_eq!(classify_line("a:b:c"), target("a"));
}

#[test]
fn assignment_with_a_colon_counts_as_a_target() {
    assert_eq!(classify_line("name:= value"), target("name"));
    assert_eq!(classify_line("name::= value"), target("name"));
    assert_eq!(classify_line("NAME := value"), LineKind::Other);
}

#[test]
fn not_a_target() {
    assert_eq!(classify_line(":"), LineKind::Other);
    assert_eq!(classify_line("test"), LineKind::Other);
    assert_eq!(classify_line("test :"), LineKind::Other);
    assert_eq!(classify_line(" test:"), LineKind::Other);
    assert_eq!(classify_line("\ttest:"), LineKind::Other);
    assert_eq!(classify_line(".PHONY: test"), LineKind::Other);
    assert_eq!(classify_line("tést:"), LineKind::Other);
    assert_eq!(classify_line("a.o: a.c"), LineKind::Other);
}

#[test]
fn include_directive() {
    assert_eq!(classify_line("include includes/include.mk"), directive("includes/include.mk"));
    assert_eq!(classify_line("-include local.mk"), directive("local.mk"));
    assert_eq!(classify_line("include\tfoo.mk"), directive("foo.mk"));
    assert_eq!(classify_line("include   spaced.mk   "), directive("spaced.mk"));
    assert_eq!(classify_line("include "), directive(""));
}

#[test]
fn an_include_of_several_paths_is_not_split() {
    assert_eq!(classify_line("include a.mk b.mk"), directive("a.mk b.mk"));
}

#[test]
fn not_an_include_directive() {
    assert_eq!(classify_line("include"), LineKind::Other);
    assert_eq!(classify_line("includes foo.mk"), LineKind::Other);
    assert_eq!(classify_line("includefoo.mk"), LineKind::Other);
    assert_eq!(classify_line("--include foo.mk"), LineKind::Other);
    assert_eq!(classify_line("Include foo.mk"), LineKind::Other);
    assert_eq!(classify_line(" include foo.mk"), LineKind::Other);
}

#[test]
fn a_keyword_before_a_colon_is_a_target() {
    assert_eq!(classify_line("include:"), target("include"));
    assert_eq!(classify_line("-include: x"), target("-include"));
}

#[test]
fn other_lines() {
    assert_eq!(classify_line(""), LineKind::Other);
    assert_eq!(classify_line("# plain comment"), LineKind::Other);
    assert_eq!(classify_line("\t@echo 'done'"), LineKind::Other);
    assert_eq!(classify_line("VAR = value"), LineKind::Other);
}

#[test]
fn target_characters() {
    for c in "azAZ09/%_-".chars() {
        assert!(char_is_target_char(c), "{:?}", c);
    }
    for c in "`{@[.:$ \té".chars() {
        assert!(!char_is_target_char(c), "{:?}", c);
    }
}

fn target_pattern() -> Regex {
    Regex::new(r"^([a-zA-Z0-9/%_-]+):.*").unwrap()
}

fn directive_pattern() -> Regex {
    Regex::new(r"^-?include\s(.*)").unwrap()
}

#[test]
fn classify_agrees_with_the_patterns() {
    let target_re = target_pattern();
    let directive_re = directive_pattern();
    for line in LINES {
        assert_eq!(classify_line(line), by_patterns(&target_re, &directive_re, line), "{:?}", line);
    }
}

#[test]
fn classify_agrees_with_the_patterns_on_random_lines() {
    let alphabet: Vec<char> = "#|<>:-include a%/_:\t\n\u{a0}=.Zz09 ".chars().collect();
    let target_re = target_pattern();
    let directive_re = directive_pattern();
    let mut seed: u64 = 0x2545_f491_4f6c_dd1d;
    for _ in 0..4000 {
        let mut line = String::new();
        seed = seed.wrapping_mul(6364136223846793005).wrapping_add(1442695040888963407);
        let len = (seed >> 33) % 12;
        for _ in 0..len {
            seed = seed.wrapping_mul(6364136223846793005).wrapping_add(1442695040888963407);
            let pick = ((seed >> 33) % (alphabet.len() as u64 + 1)) as usize;
            if pick == alphabet.len() {
                line.push_str("include");
            } else {
                line.push(alphabet[pick]);
            }
        }
        assert_eq!(classify_line(&line), by_patterns(&target_re, &directive_re, &line), "{:?}", line);
    }
}
