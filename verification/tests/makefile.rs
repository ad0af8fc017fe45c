use mk::makefile::{
    lookup_source, merge_targets, resolve_includes, Directory, IncludeFile, IncludeSource,
};
use mk::{Makefile, MakefileError};

fn pairs(items: &[(&str, &str)]) -> Vec<(String, String)> {
    items.iter().map(|(a, b)| (a.to_string(), b.to_string())).collect()
}

fn content(path: &str, text: &str) -> IncludeFile {
    IncludeFile { path: path.to_string(), source: IncludeSource::Content(text.to_string()) }
}

fn missing(path: &str) -> IncludeFile {
    IncludeFile { path: path.to_string(), source: IncludeSource::Missing }
}

fn unreadable(path: &str, reason: &str) -> IncludeFile {
    IncludeFile { path: path.to_string(), source: IncludeSource::Unreadable(reason.to_string()) }
}

fn dir(path: &str, makefile: Option<&str>, has_marker: bool) -> Directory {
    Directory {
        makefile_path: path.to_string(),
        makefile: makefile.map(|text| text.to_string()),
        has_marker,
    }
}

#[test]
fn a_new_model_is_empty() {
    let makefile = Makefile::new();
    assert_eq!(makefile.path, "");
    assert_eq!(makefile.about, "");
    assert_eq!(makefile.postscript, "");
    assert!(makefile.targets.is_empty());
    assert_eq!(Makefile::default(), makefile);
}

#[test]
fn an_empty_file_gives_an_empty_model() {
    let makefile = Makefile::parse("/p/Makefile", "", 0, &Vec::new()).unwrap();
    assert_eq!(makefile.path, "/p/Makefile");
    assert_eq!(makefile.about, "");
    assert_eq!(makefile.postscript, "");
    assert!(makefile.targets.is_empty());
}

#[test]
fn a_file_without_tags_gives_an_empty_model() {
    let text = "# A comment\nVAR = 1\n\nall: dep\n\t@echo all\n.PHONY: all\n";
    let makefile = Makefile::parse("Makefile", text, 0, &Vec::new()).unwrap();
    assert_eq!(makefile.about, "");
    assert_eq!(makefile.postscript, "");
    assert!(makefile.targets.is_empty());
}

#[test]
fn a_documented_target_is_in_the_model() {
    let text = "#| Runs the tests\ntest:\n\t@echo 'This is a successful test.'\n.PHONY: test\n";
    let makefile = Makefile::parse("Makefile", text, 0, &Vec::new()).unwrap();
    assert_eq!(makefile.targets, pairs(&[("test", "Runs the tests")]));
}

#[test]
fn an_undocumented_target_is_not_in_the_model() {
    let text = "test-me:\n\t@echo 'This is a successful test.'\n.PHONY: test-me\n";
    let makefile = Makefile::parse("Makefile", text, 0, &Vec::new()).unwrap();
    assert!(makefile.targets.is_empty());
}

#[test]
fn two_declarations_of_a_target_give_one_entry_with_the_first_help() {
    let text = "#| Runs the tests\ntest:\n\t@echo one\n\n#| Runs them again\ntest:\n\t@echo two\n";
    let makefile = Makefile::parse("Makefile", text, 0, &Vec::new()).unwrap();
    assert_eq!(makefile.targets, pairs(&[("test", "Runs the tests")]));
}

#[test]
fn about_and_postscript_are_joined_by_line_feeds() {
    let text = "#< A project.\n#> See the README.\n#| T\nt:\n#< It builds things.\n\n#> Or ask.\n";
    let makefile = Makefile::parse("Makefile", text, 0, &Vec::new()).unwrap();
    assert_eq!(makefile.about, "A project.\nIt builds things.");
    assert_eq!(makefile.postscript, "See the README.\nOr ask.");
    assert_eq!(makefile.targets, pairs(&[("t", "T")]));
}

#[test]
fn lines_may_end_in_carriage_return_and_line_feed() {
    let text = "#< About\r\n#| Runs the tests\r\ntest:\r\n\t@echo ok\r\n";
    let makefile = Makefile::parse("Makefile", text, 0, &Vec::new()).unwrap();
    assert_eq!(makefile.about, "About");
    assert_eq!(makefile.targets, pairs(&[("test", "Runs the tests")]));
}

#[test]
fn an_include_adds_its_documented_targets() {
    let text = "include includes/include.mk\n\n#| Runs the tests\ntest:\n\t@echo ok\n";
    let files = vec![content(
        "includes/include.mk",
        "#| Included test target\nincluded:\n\t@echo 'This is another successful test.'\n.PHONY: included\n",
    )];
    let makefile = Makefile::parse("Makefile", text, 0, &files).unwrap();
    assert_eq!(
        makefile.targets,
        pairs(&[("test", "Runs the tests"), ("included", "Included test target")])
    );
}

#[test]
fn the_targets_of_the_file_come_before_those_of_its_includes() {
    let text = "include a.mk\n#| Top\ntop:\n";
    let files = vec![content("a.mk", "#| Inc\ninc:\n")];
    let makefile = Makefile::parse("Makefile", text, 0, &files).unwrap();
    assert_eq!(makefile.targets, pairs(&[("top", "Top"), ("inc", "Inc")]));
}

#[test]
fn a_target_of_the_file_wins_over_one_of_an_include() {
    let text = "include a.mk\n#| From the top\ntest:\n";
    let files = vec![content("a.mk", "#| From the include\ntest:\n#| Other\nother:\n")];
    let makefile = Makefile::parse("Makefile", text, 0, &files).unwrap();
    assert_eq!(makefile.targets, pairs(&[("test", "From the top"), ("other", "Other")]));
}

#[test]
fn an_earlier_include_wins_over_a_later_one() {
    let text = "include a.mk\n-include b.mk\n";
    let files = vec![
        content("b.mk", "#| From b\nshared:\n#| Only b\nb:\n"),
        content("a.mk", "#| From a\nshared:\n#| Only a\na:\n"),
    ];
    let makefile = Makefile::parse("Makefile", text, 0, &files).unwrap();
    assert_eq!(
        makefile.targets,
        pairs(&[("shared", "From a"), ("a", "Only a"), ("b", "Only b")])
    );
}

#[test]
fn an_include_adds_no_about_and_no_postscript() {
    let text = "#< Top about\n#> Top postscript\ninclude a.mk\n";
    let files = vec![content("a.mk", "#< Inc about\n#> Inc postscript\n#| Inc\ninc:\n")];
    let makefile = Makefile::parse("Makefile", text, 0, &files).unwrap();
    assert_eq!(makefile.about, "Top about");
    assert_eq!(makefile.postscript, "Top postscript");
    assert_eq!(makefile.targets, pairs(&[("inc", "Inc")]));
}

#[test]
fn an_include_inside_an_include_is_not_followed() {
    let text = "include a.mk\n";
    let files = vec![
        content("a.mk", "include b.mk\n#| A\na:\n"),
        content("b.mk", "#| B\nb:\n"),
    ];
    let makefile = Makefile::parse("Makefile", text, 0, &files).unwrap();
    assert_eq!(makefile.targets, pairs(&[("a", "A")]));
}

#[test]
fn below_the_top_level_no_include_is_followed() {
    let text = "include a.mk\n#| Top\ntop:\n";
    let files = vec![content("a.mk", "#| A\na:\n")];
    let makefile = Makefile::parse("inc.mk", text, 1, &files).unwrap();
    assert_eq!(makefile.targets, pairs(&[("top", "Top")]));
    let files = vec![unreadable("a.mk", "Permission denied")];
    let makefile = Makefile::parse("inc.mk", text, 7, &files).unwrap();
    assert_eq!(makefile.targets, pairs(&[("top", "Top")]));
}

#[test]
fn a_missing_include_is_skipped() {
    let text = "#< About\ninclude gone.mk\ninclude a.mk\n#| Top\ntop:\n";
    let with = vec![missing("gone.mk"), content("a.mk", "#| A\na:\n")];
    let without = vec![content("a.mk", "#| A\na:\n")];
    let expected = || Makefile {
        path: "Makefile".to_string(),
        about: "About".to_string(),
        postscript: String::new(),
        targets: pairs(&[("top", "Top"), ("a", "A")]),
    };
    assert_eq!(Makefile::parse("Makefile", text, 0, &with), Ok(expected()));
    assert_eq!(Makefile::parse("Makefile", text, 0, &without), Ok(expected()));
    let shorter = "#< About\ninclude a.mk\n#| Top\ntop:\n";
    assert_eq!(Makefile::parse("Makefile", shorter, 0, &without), Ok(expected()));
}

#[test]
fn a_file_with_missing_includes_only_is_read_alone() {
    let text = "include gone.mk\n-include also-gone.mk\n#| Top\ntop:\n";
    let makefile = Makefile::parse("Makefile", text, 0, &Vec::new()).unwrap();
    assert_eq!(makefile.targets, pairs(&[("top", "Top")]));
}

#[test]
fn an_include_of_several_paths_is_looked_up_as_one_path() {
    let text = "include a.mk b.mk\n";
    let files = vec![content("a.mk", "#| A\na:\n"), content("b.mk", "#| B\nb:\n")];
    let makefile = Makefile::parse("Makefile", text, 0, &files).unwrap();
    assert!(makefile.targets.is_empty());
    let files = vec![content("a.mk b.mk", "#| Both\nboth:\n")];
    let makefile = Makefile::parse("Makefile", text, 0, &files).unwrap();
    assert_eq!(makefile.targets, pairs(&[("both", "Both")]));
}

#[test]
fn an_unreadable_include_fails_the_whole_parse() {
    let text = "include a.mk\ninclude locked.mk\n#| Top\ntop:\n";
    let files = vec![content("a.mk", "#| A\na:\n"), unreadable("locked.mk", "Permission denied")];
    assert_eq!(
        Makefile::parse("Makefile", text, 0, &files),
        Err(MakefileError::IncludeParseFailure {
            path: "locked.mk".to_string(),
            reason: "Permission denied".to_string(),
        })
    );
}

#[test]
fn the_first_unreadable_include_is_reported() {
    let text = "include one.mk\ninclude two.mk\n";
    let files = vec![unreadable("two.mk", "second"), unreadable("one.mk", "first")];
    assert_eq!(
        Makefile::parse("Makefile", text, 0, &files),
        Err(MakefileError::IncludeParseFailure {
            path: "one.mk".to_string(),
            reason: "first".to_string(),
        })
    );
}

#[test]
fn lookup_takes_the_first_entry_of_a_path() {
    let files = vec![content("a.mk", "one"), missing("b.mk"), content("a.mk", "two")];
    assert_eq!(
        lookup_source(&files, &"a.mk".to_string()),
        Some(&IncludeSource::Content("one".to_string()))
    );
    assert_eq!(lookup_source(&files, &"b.mk".to_string()), Some(&IncludeSource::Missing));
    assert_eq!(lookup_source(&files, &"c.mk".to_string()), None);
    assert_eq!(lookup_source(&Vec::new(), &"a.mk".to_string()), None);
}

#[test]
fn merge_offers_each_target_in_order() {
    let mut targets = pairs(&[("a", "1")]);
    merge_targets(&mut targets, &pairs(&[("b", "2"), ("a", "3"), ("c", "4"), ("b", "5")]));
    assert_eq!(targets, pairs(&[("a", "1"), ("b", "2"), ("c", "4")]));
    merge_targets(&mut targets, &Vec::new());
    assert_eq!(targets, pairs(&[("a", "1"), ("b", "2"), ("c", "4")]));
}

#[test]
fn assemble_finishes_a_pass() {
    let lines: Vec<String> =
        ["#< About", "include a.mk", "#| Top", "top:"].iter().map(|l| l.to_string()).collect();
    let state = mk::parser::parse_lines(&lines, 0);
    assert_eq!(state.includes, vec!["a.mk".to_string()]);
    let files = vec![content("a.mk", "#| A\na:\n")];
    assert_eq!(
        Makefile::assemble("Makefile", state, &files),
        Makefile::parse("Makefile", "#< About\ninclude a.mk\n#| Top\ntop:\n", 0, &files)
    );
}

#[test]
fn resolve_merges_what_it_finds() {
    let paths = vec!["a.mk".to_string(), "gone.mk".to_string(), "b.mk".to_string()];
    let files = vec![content("a.mk", "#| A\na:\n"), content("b.mk", "#| B\nb:\n#| A2\na:\n")];
    assert_eq!(
        resolve_includes(pairs(&[("top", "Top")]), &paths, &files),
        Ok(pairs(&[("top", "Top"), ("a", "A"), ("b", "B")]))
    );
    assert_eq!(
        resolve_includes(pairs(&[("top", "Top")]), &Vec::new(), &files),
        Ok(pairs(&[("top", "Top")]))
    );
}

#[test]
fn find_and_parse_reads_the_nearest_makefile() {
    let dirs = vec![
        dir("/w/a/b/Makefile", None, false),
        dir("/w/a/Makefile", Some("#< Near\n#| Near target\nnear:\n"), false),
        dir("/w/Makefile", Some("#< Far\n#| Far target\nfar:\n"), true),
        dir("/Makefile", None, false),
    ];
    let mut makefile = Makefile::new();
    assert_eq!(makefile.find_and_parse(&dirs, &Vec::new()), Ok(()));
    assert_eq!(makefile.path, "/w/a/Makefile");
    assert_eq!(makefile.about, "Near");
    assert_eq!(makefile.targets, pairs(&[("near", "Near target")]));
}

#[test]
fn find_and_parse_resolves_includes() {
    let dirs = vec![dir("/w/Makefile", Some("include inc.mk\n"), true)];
    let files = vec![content("inc.mk", "#| Inc\ninc:\n")];
    let mut makefile = Makefile::new();
    assert_eq!(makefile.find_and_parse(&dirs, &files), Ok(()));
    assert_eq!(makefile.targets, pairs(&[("inc", "Inc")]));
}

#[test]
fn find_and_parse_stops_at_the_marker() {
    let dirs = vec![
        dir("/w/a/Makefile", None, true),
        dir("/w/Makefile", Some("#| T\nt:\n"), false),
    ];
    let mut makefile = Makefile::new();
    assert_eq!(makefile.find_and_parse(&dirs, &Vec::new()), Err(MakefileError::NotFound));
    assert_eq!(makefile, Makefile::new());
}

#[test]
fn find_and_parse_leaves_the_model_on_an_error() {
    let mut makefile = Makefile::parse("old", "#| T\nt:\n", 0, &Vec::new()).unwrap();
    let dirs = vec![dir("/w/Makefile", Some("include locked.mk\n#| U\nu:\n"), true)];
    let files = vec![unreadable("locked.mk", "Permission denied")];
    assert_eq!(
        makefile.find_and_parse(&dirs, &files),
        Err(MakefileError::IncludeParseFailure {
            path: "locked.mk".to_string(),
            reason: "Permission denied".to_string(),
        })
    );
    assert_eq!(makefile.path, "old");
    assert_eq!(makefile.targets, pairs(&[("t", "T")]));
    assert_eq!(makefile.find_and_parse(&Vec::new(), &files), Err(MakefileError::NotFound));
    assert_eq!(makefile.path, "old");
}
