use sar::engine::{plan_file, process_lines, FileOutcome, FilePlan};
use sar::filter::{is_directory_ignored, is_matching_file, validate_file_extensions};
use sar::pattern::{search_and_replace, CompiledRegex, Pattern, PatternError};
use sar::summary::RunSummary;

fn lines_of(v: &[&str]) -> Vec<String> {
    v.iter().map(|s| s.to_string()).collect()
}

#[test]
fn search_and_replace_positive() {
    let mut found_and_replaced: bool = false;
    let original_text =
        "import { BrowserModule } @igniteui/ from \"@igniteui/platform-browser\";".to_string();
    let expected_text = "import { BrowserModule }  from \"platform-browser\";".to_string();
    let regex = Pattern::regex("@igniteui/").unwrap();
    let result = search_and_replace(&original_text, &regex, "", &mut found_and_replaced);
    assert_eq!(result, expected_text);
    assert_eq!(found_and_replaced, true);
}

#[test]
fn search_and_replace_negative() {
    let mut found_and_replaced: bool = false;
    let original_text = "import { BrowserModule } from \"platform-browser\";".to_string();
    let expected_text = "import { BrowserModule } from \"platform-browser\";".to_string();
    let regex = Pattern::regex("@igniteui/").unwrap();
    let result = search_and_replace(&original_text, &regex, "", &mut found_and_replaced);
    assert_eq!(result, expected_text);
    assert_eq!(found_and_replaced, false);
}

#[test]
fn search_and_replace_regex_positive_1() {
    let mut found_and_replaced: bool = false;
    let original_text = r"2012-03-14, 2013-01-01 and 2014-07-05".to_string();
    let expected_text = r"03/14/2012, 01/01/2013 and 07/05/2014".to_string();
    let regex = Pattern::regex(r"(?P<y>\d{4})-(?P<m>\d{2})-(?P<d>\d{2})").unwrap();
    let result = search_and_replace(&original_text, &regex, "$m/$d/$y", &mut found_and_replaced);
    assert_eq!(result, expected_text);
    assert_eq!(found_and_replaced, true);
}

#[test]
fn search_and_replace_regex_positive_2() {
    let mut found_and_replaced: bool = false;
    let original_text = r"www.xyz.123".to_string();
    let expected_text = r"www.xyz.com".to_string();
    let regex = Pattern::regex(r"(?P<a>[a-z]{3})\.(?P<b>[a-z]{3})\.(?P<c>\d{3})").unwrap();
    let result = search_and_replace(&original_text, &regex, r"$a.$b.com", &mut found_and_replaced);
    assert_eq!(result, expected_text);
    assert_eq!(found_and_replaced, true);
}

#[test]
fn search_and_replace_regex_negative() {
    let mut found_and_replaced: bool = false;
    let original_text = r"03/14/2012, 01/01/2013 and 07/05/2014".to_string();
    let expected_text = r"03/14/2012, 01/01/2013 and 07/05/2014".to_string();
    let regex = Pattern::regex(r"(?P<y>\d{4})-(?P<m>\d{2})-(?P<d>\d{2})").unwrap();
    let result = search_and_replace(&original_text, &regex, "$m/$d/$y", &mut found_and_replaced);
    assert_eq!(result, expected_text);
    assert_eq!(found_and_replaced, false);
}

#[test]
fn is_matching_file_positive() {
    let file_extensions: Vec<String> = vec!["txt".to_string(), "json".to_string()];
    let entry: Option<&str> = Some("test.json");
    let is_matching_file = is_matching_file(entry, &file_extensions);
    assert_eq!(is_matching_file, true);
}

#[test]
fn is_matching_file_negative() {
    let file_extensions: Vec<String> = vec!["txt".to_string(), "json".to_string()];
    let entry: Option<&str> = Some("test.js");
    let is_matching_file = is_matching_file(entry, &file_extensions);
    assert_eq!(is_matching_file, false);
}

#[test]
fn is_matching_file_no_file_extensions() {
    let file_extensions: Vec<String> = Vec::new();
    let entry: Option<&str> = Some("test.js");
    let is_matching_file = is_matching_file(entry, &file_extensions);
    assert_eq!(is_matching_file, true);
}

#[test]
fn validate_file_extensions_positive() {
    let file_extensions: Vec<String> = vec!["txt".to_string(), "json".to_string()];
    let validate_file_extensions = validate_file_extensions(&file_extensions);
    assert_eq!(validate_file_extensions, true);
}

#[test]
fn validate_file_extensions_negative_1() {
    let file_extensions: Vec<String> = vec!["*.txt".to_string(), "json".to_string()];
    let validate_file_extensions = validate_file_extensions(&file_extensions);
    assert_eq!(validate_file_extensions, false);
}

#[test]
fn validate_file_extensions_negative_2() {
    let file_extensions: Vec<String> = vec!["txt".to_string(), ".json".to_string()];
    let validate_file_extensions = validate_file_extensions(&file_extensions);
    assert_eq!(validate_file_extensions, false);
}

#[test]
fn extension_filter_is_a_suffix_match() {
    let filter = vec!["txt".to_string()];
    assert!(is_matching_file(Some("notes.txt"), &filter));
    assert!(is_matching_file(Some("abctxt"), &filter));
    assert!(!is_matching_file(Some("notes.json"), &filter));
    assert!(!is_matching_file(Some("tx"), &filter));
    assert!(!is_matching_file(None, &filter));
    assert!(!is_matching_file(None, &Vec::new()));
}

#[test]
fn extension_filter_with_non_ascii_names() {
    let filter = vec!["número".to_string()];
    assert!(is_matching_file(Some("a.número"), &filter));
    assert!(!is_matching_file(Some("a.numero"), &filter));
}

#[test]
fn empty_extension_list_is_valid() {
    assert!(validate_file_extensions(&Vec::new()));
    assert!(!validate_file_extensions(&vec!["t*t".to_string()]));
    assert!(validate_file_extensions(&vec!["t.t".to_string()]));
}

#[test]
fn ignored_directory_is_pruned() {
    let ignored = vec!["dir1".to_string(), "dir2".to_string()];
    assert!(is_directory_ignored(Some("dir1"), true, &ignored));
    assert!(is_directory_ignored(Some("dir2"), true, &ignored));
    assert!(!is_directory_ignored(Some("dir1"), false, &ignored));
    assert!(!is_directory_ignored(Some("dir"), true, &ignored));
    assert!(!is_directory_ignored(Some("Dir1"), true, &ignored));
    assert!(!is_directory_ignored(Some("dir11"), true, &ignored));
    assert!(!is_directory_ignored(None, true, &ignored));
    assert!(!is_directory_ignored(Some("dir1"), true, &Vec::new()));
}

#[test]
fn positive_to_negative_rewrites_file() {
    let lines = lines_of(&["the positive case"]);
    let pattern = Pattern::regex("positive").unwrap();
    let plan = plan_file(&lines, &pattern, "negative", false);
    match &plan {
        FilePlan::Rewrite(v) => assert_eq!(v, &lines_of(&["the negative case"])),
        _ => panic!("expected a rewrite"),
    }
    let mut summary = RunSummary::new();
    summary.record(plan.outcome(true));
    assert_eq!(summary.files_matched(), 1);
    assert_eq!(summary.files_edited(), 1);
    assert_eq!(summary.files_failed(), 0);
    assert_eq!(summary.dir_read_errors(), 0);
}

#[test]
fn date_template_reorders_groups() {
    let lines = lines_of(&["2012-03-14"]);
    let pattern = Pattern::regex(r"(?P<y>\d{4})-(?P<m>\d{2})-(?P<d>\d{2})").unwrap();
    let (out, found) = process_lines(&lines, &pattern, "$m/$d/$y");
    assert!(found);
    assert_eq!(out, lines_of(&["03/14/2012"]));
}

#[test]
fn absent_pattern_leaves_file_and_counters() {
    let lines = lines_of(&["alpha\n", "beta\r\n", "gamma"]);
    let pattern = Pattern::literal("google");
    let (out, found) = process_lines(&lines, &pattern, "x");
    assert!(!found);
    assert_eq!(out, lines);
    let plan = plan_file(&lines, &pattern, "x", false);
    assert!(matches!(plan, FilePlan::Unchanged));
    let mut summary = RunSummary::new();
    summary.record(plan.outcome(true));
    assert_eq!(summary.files_matched(), 0);
    assert_eq!(summary.files_edited(), 0);
    assert_eq!(summary.files_failed(), 0);
    assert_eq!(summary.dir_read_errors(), 0);
}

#[test]
fn dry_run_reports_without_rewriting() {
    let lines = lines_of(&["the positive case\n"]);
    let pattern = Pattern::regex("positive").unwrap();
    let plan = plan_file(&lines, &pattern, "negative", true);
    assert!(matches!(plan, FilePlan::ReportOnly));
    assert_eq!(plan.outcome(true), FileOutcome::MatchedDryRun);
    let mut summary = RunSummary::new();
    summary.record(plan.outcome(true));
    assert_eq!(summary.files_matched(), 1);
    assert_eq!(summary.files_edited(), 0);
}

#[test]
fn literal_reapplication_finds_nothing() {
    let lines = lines_of(&["positive and positive\n", "none here\n"]);
    let pattern = Pattern::literal("positive");
    let (once, found) = process_lines(&lines, &pattern, "NEG");
    assert!(found);
    assert_eq!(once, lines_of(&["NEG and NEG\n", "none here\n"]));
    let (twice, found_again) = process_lines(&once, &pattern, "NEG");
    assert!(!found_again);
    assert_eq!(twice, once);
}

#[test]
fn literal_replace_is_leftmost_and_non_overlapping() {
    let mut found = false;
    let r = search_and_replace("aaaa", &Pattern::literal("aa"), "b", &mut found);
    assert_eq!(r, "bb");
    assert!(found);
    let mut found = false;
    let r = search_and_replace("aaa", &Pattern::literal("aa"), "b", &mut found);
    assert_eq!(r, "ba");
    let mut found = false;
    let r = search_and_replace("número uno", &Pattern::literal("número"), "നമ്പർ", &mut found);
    assert_eq!(r, "നമ്പർ uno");
}

#[test]
fn empty_literal_matches_nothing() {
    let mut found = false;
    let r = search_and_replace("abc", &Pattern::literal(""), "x", &mut found);
    assert_eq!(r, "abc");
    assert!(!found);
}

#[test]
fn found_flag_is_never_cleared() {
    let mut found = true;
    let r = search_and_replace("abc", &Pattern::literal("zzz"), "x", &mut found);
    assert_eq!(r, "abc");
    assert!(found);
}

#[test]
fn malformed_regex_is_refused() {
    assert_eq!(Pattern::regex("foo(bar").err(), Some(PatternError::InvalidRegex));
    assert!(CompiledRegex::new("foo(bar").is_err());
    let c = CompiledRegex::new(r"\d+").unwrap();
    assert_eq!(c.as_str(), r"\d+");
}

#[test]
fn line_terminators_are_kept() {
    let lines = lines_of(&["a positive\r\n", "positive\n", "end"]);
    let pattern = Pattern::regex("positive").unwrap();
    let (out, found) = process_lines(&lines, &pattern, "negative");
    assert!(found);
    assert_eq!(out, lines_of(&["a negative\r\n", "negative\n", "end"]));
}

#[test]
fn write_failure_counts_match_and_failure() {
    let lines = lines_of(&["positive"]);
    let pattern = Pattern::literal("positive");
    let plan = plan_file(&lines, &pattern, "negative", false);
    assert_eq!(plan.outcome(false), FileOutcome::WriteFailed);
    let mut summary = RunSummary::new();
    summary.record(plan.outcome(false));
    summary.record(FileOutcome::ReadFailed);
    summary.record_dir_error();
    assert_eq!(summary.files_matched(), 1);
    assert_eq!(summary.files_edited(), 0);
    assert_eq!(summary.files_failed(), 2);
    assert_eq!(summary.dir_read_errors(), 1);
}

#[test]
fn template_references_must_resolve() {
    let date = r"(?P<y>\d{4})-(?P<m>\d{2})-(?P<d>\d{2})";
    assert!(Pattern::compile(date, "$m/$d/$y").is_ok());
    assert!(Pattern::compile(date, "${m}/${d}/${y}").is_ok());
    assert!(Pattern::compile(date, "$0 $1 $3").is_ok());
    assert!(Pattern::compile(date, "${+1}").is_ok());
    assert!(Pattern::compile(date, "cost: $$5, $").is_ok());
    assert!(Pattern::compile(date, "${unclosed").is_ok());
    assert!(Pattern::compile(date, "no references").is_ok());
    assert_eq!(Pattern::compile(date, "$4").err(), Some(PatternError::UnresolvedGroup));
    assert_eq!(Pattern::compile(date, "$x").err(), Some(PatternError::UnresolvedGroup));
    assert_eq!(Pattern::compile(date, "$m/$q").err(), Some(PatternError::UnresolvedGroup));
    assert_eq!(Pattern::compile(date, "${q}").err(), Some(PatternError::UnresolvedGroup));
    assert_eq!(Pattern::compile(date, "$1a").err(), Some(PatternError::UnresolvedGroup));
    assert_eq!(
        Pattern::compile(date, "$99999999999999999999999").err(),
        Some(PatternError::UnresolvedGroup)
    );
    assert_eq!(Pattern::compile("a(", "").err(), Some(PatternError::InvalidRegex));
}

#[test]
fn compiled_pattern_replaces_with_groups() {
    let pattern = Pattern::compile(r"(?P<a>[a-z]{3})\.(?P<b>[a-z]{3})\.(?P<c>\d{3})", "$a.$b.com").unwrap();
    let mut found = false;
    let r = search_and_replace("www.xyz.123", &pattern, "$a.$b.com", &mut found);
    assert_eq!(r, "www.xyz.com");
    assert!(found);
    let c = CompiledRegex::new(r"(\d)(?P<n>\d)").unwrap();
    assert!(c.resolves("$1$2$n"));
    assert!(!c.resolves("$3"));
}
