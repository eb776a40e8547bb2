use std::collections::HashMap;

use level_harness::batch::{generation_jobs, target_sub_level};
use level_harness::cli::{get_level_input_path, Cli};
use level_harness::error::HarnessError;
use level_harness::lines::{join_lines, render_lines, split_lines};
use level_harness::paths::{build_path, expected_output_path, level_dir, push_decimal};
use level_harness::session::{Action, Outcome, Session};
use level_harness::solver::{solve_level, SolverRegistry};
use level_harness::validate::{compare_output, validation_report, ValidationConfig, Verdict};

fn strings(lines: &[&str]) -> Vec<String> {
    lines.iter().map(|l| l.to_string()).collect()
}

/// A level solver: the lines of an input in, the lines of its output out.
type Solver = fn(Vec<String>) -> Vec<String>;

/// Hands its input back unchanged.
fn echo(input_lines: Vec<String>) -> Vec<String> {
    input_lines
}

/// Answers with the number of input lines.
fn count(input_lines: Vec<String>) -> Vec<String> {
    vec![input_lines.len().to_string()]
}

#[test]
fn build_path_input_and_output() {
    assert_eq!(build_path(2, "1", false), "src/input/level2/level2_1.in");
    assert_eq!(build_path(2, "1", true), "src/output/level2/level2_1.out");
    assert_eq!(build_path(3, "example", false), "src/input/level3/level3_example.in");
    assert_eq!(build_path(0, "0", false), "src/input/level0/level0_0.in");
}

#[test]
fn build_path_large_level() {
    assert_eq!(
        build_path(usize::MAX, "7", true),
        format!("src/output/level{}/level{}_7.out", usize::MAX, usize::MAX)
    );
    assert_eq!(build_path(1020, "x", false), "src/input/level1020/level1020_x.in");
}

#[test]
fn build_path_distinct_inputs_do_not_collide() {
    let a = build_path(1, "11", false);
    let b = build_path(11, "1", false);
    let c = build_path(1, "11", true);
    assert_ne!(a, b);
    assert_ne!(a, c);
    assert_eq!(a, build_path(1, "11", false));
}

#[test]
fn decimal_rendering() {
    let mut s = String::from("n=");
    push_decimal(&mut s, 0);
    assert_eq!(s, "n=0");
    let mut t = String::new();
    push_decimal(&mut t, 9050);
    assert_eq!(t, "9050");
}

#[test]
fn level_dirs_and_reference_path() {
    assert_eq!(level_dir(4, false), "src/input/level4");
    assert_eq!(level_dir(4, true), "src/output/level4");
    assert_eq!(expected_output_path(3), "src/input/level3/level3_example.out");
}

#[test]
fn input_path_of_invocation() {
    let with_sub = Cli { level: 2, sub_level: Some(1) };
    assert_eq!(get_level_input_path(&with_sub), "src/input/level2/level2_1.in");
    let without_sub = Cli { level: 7, sub_level: None };
    assert_eq!(get_level_input_path(&without_sub), "src/input/level7/level7_example.in");
    let zero = Cli { level: 0, sub_level: Some(0) };
    assert_eq!(get_level_input_path(&zero), "src/input/level0/level0_0.in");
}

#[test]
fn split_lines_cases() {
    assert_eq!(split_lines("a\nb\n"), strings(&["a", "b"]));
    assert_eq!(split_lines("a\nb"), strings(&["a", "b"]));
    assert_eq!(split_lines("a\r\nb\r\n"), strings(&["a", "b"]));
    assert_eq!(split_lines(""), Vec::<String>::new());
    assert_eq!(split_lines("\n"), strings(&[""]));
    assert_eq!(split_lines("\n\nx"), strings(&["", "", "x"]));
    assert_eq!(split_lines("a\r"), strings(&["a\r"]));
    assert_eq!(split_lines("  spaced  \n"), strings(&["  spaced  "]));
    assert_eq!(split_lines("é\nß"), strings(&["é", "ß"]));
}

#[test]
fn render_and_join() {
    let lines = strings(&["1 2", "", "end"]);
    assert_eq!(render_lines(&lines), "1 2\n\nend\n");
    assert_eq!(join_lines(&lines), "1 2\n\nend");
    assert_eq!(render_lines(&Vec::new()), "");
    assert_eq!(join_lines(&Vec::new()), "");
    assert_eq!(join_lines(&strings(&["only"])), "only");
}

#[test]
fn lines_round_trip() {
    let lines = strings(&["first", "", "  third ", "4"]);
    assert_eq!(split_lines(&render_lines(&lines)), lines);
    let with_cr = strings(&["a\r", "b"]);
    assert_eq!(split_lines(&render_lines(&with_cr)), strings(&["a", "b"]));
}

#[test]
fn target_sub_level_filter() {
    assert_eq!(target_sub_level(2, "level2_1.in"), Some("1".to_string()));
    assert_eq!(target_sub_level(2, "level2_15.in"), Some("15".to_string()));
    assert_eq!(target_sub_level(2, "level2_example.in"), None);
    assert_eq!(target_sub_level(2, "level2_example.out"), None);
    assert_eq!(target_sub_level(2, "level2_1.out"), None);
    assert_eq!(target_sub_level(2, "level21_1.in"), None);
    assert_eq!(target_sub_level(21, "level2_1.in"), None);
    assert_eq!(target_sub_level(2, "notes.txt"), None);
    assert_eq!(target_sub_level(2, "level2_.in"), Some(String::new()));
    assert_eq!(target_sub_level(2, "level2_"), None);
}

#[test]
fn generation_jobs_follow_listing() {
    let names = strings(&["level2_example.in", "level2_2.in", "README", "level2_example.out", "level2_1.in", "level3_1.in"]);
    let jobs = generation_jobs(2, &names);
    assert_eq!(jobs.len(), 2);
    assert_eq!(jobs[0].sub_level, "2");
    assert_eq!(jobs[0].input_path, "src/input/level2/level2_2.in");
    assert_eq!(jobs[0].output_path, "src/output/level2/level2_2.out");
    assert_eq!(jobs[1].sub_level, "1");
    assert_eq!(jobs[1].input_path, "src/input/level2/level2_1.in");
    assert_eq!(jobs[1].output_path, "src/output/level2/level2_1.out");
    assert!(generation_jobs(2, &Vec::new()).is_empty());
}

#[test]
fn generation_jobs_twice_agree() {
    let names = strings(&["level5_3.in", "level5_1.in", "level5_example.in"]);
    let first = generation_jobs(5, &names);
    let second = generation_jobs(5, &names);
    assert_eq!(first.len(), second.len());
    for (a, b) in first.iter().zip(second.iter()) {
        assert_eq!(a.output_path, b.output_path);
        assert!(a.output_path.starts_with("src/output/"));
        assert!(!names.iter().any(|n| format!("src/input/level5/{}", n) == a.output_path));
    }
}

#[test]
fn verdicts() {
    let out = strings(&["1", "2"]);
    let same = strings(&["1", "2"]);
    let other = strings(&["1", "3"]);
    let shorter = strings(&["1"]);
    let plain = ValidationConfig::default();
    let forced = ValidationConfig { force_write: true };
    assert!(!plain.force_write);
    assert_eq!(compare_output(&out, &same, &plain), Verdict::Matches);
    assert_eq!(compare_output(&out, &other, &plain), Verdict::Mismatch);
    assert_eq!(compare_output(&out, &shorter, &plain), Verdict::Mismatch);
    assert_eq!(compare_output(&out, &other, &forced), Verdict::Forced);
    assert_eq!(compare_output(&out, &same, &forced), Verdict::Forced);
    assert!(Verdict::Matches.generates());
    assert!(Verdict::Forced.generates());
    assert!(!Verdict::Mismatch.generates());
}

#[test]
fn validation_is_deterministic() {
    let out = strings(&["x", "y"]);
    let expected = strings(&["x", "z"]);
    let plain = ValidationConfig::default();
    let first = compare_output(&out, &expected, &plain);
    let second = compare_output(&out, &expected, &plain);
    assert_eq!(first, second);
    assert_eq!(first, Verdict::Mismatch);
}

#[test]
fn reports() {
    let out = strings(&["1", "2"]);
    let expected = strings(&["1", "3"]);
    assert_eq!(validation_report(Verdict::Matches, &out, &out), "Solution matches expected output!");
    assert_eq!(
        validation_report(Verdict::Forced, &out, &expected),
        "-------- Forced Output --------\n1\n2\n"
    );
    assert_eq!(
        validation_report(Verdict::Mismatch, &out, &expected),
        "----------- Output -----------\n1\n2\n\n---------- Expected ----------\n1\n3"
    );
}

#[test]
fn dispatch_unregistered_level() {
    let registry: SolverRegistry<Solver> = SolverRegistry::new();
    assert!(!registry.is_registered(4));
    let r = solve_level(&registry, 4, strings(&["a"]));
    assert!(matches!(r, Err(HarnessError::UnsupportedLevel { level: 4 })));
}

#[test]
fn dispatch_registered_levels() {
    let mut registry: SolverRegistry<Solver> = SolverRegistry::new();
    registry = registry.register(1, echo);
    registry = registry.register(2, count);
    assert!(registry.is_registered(1));
    assert!(registry.is_registered(2));
    assert!(!registry.is_registered(3));
    assert_eq!(solve_level(&registry, 1, strings(&["a", "b"])).unwrap(), strings(&["a", "b"]));
    assert_eq!(solve_level(&registry, 2, strings(&["a", "b"])).unwrap(), strings(&["2"]));
    registry = registry.register(1, count);
    assert_eq!(solve_level(&registry, 1, strings(&["a"])).unwrap(), strings(&["1"]));
    assert!(matches!(
        solve_level(&registry, 3, Vec::new()),
        Err(HarnessError::UnsupportedLevel { level: 3 })
    ));
}

#[test]
fn error_messages() {
    let missing = HarnessError::ReadFile { path: "src/input/level3/level3_example.in".to_string() };
    assert_eq!(missing.message(), "Could not read file at path: src/input/level3/level3_example.in");
    let dir = HarnessError::CreateDir { path: "src/output/level3".to_string() };
    assert_eq!(dir.message(), "Failed to create directory: src/output/level3");
    let file = HarnessError::CreateFile { path: "src/output/level3/level3_1.out".to_string() };
    assert_eq!(file.message(), "Could not create file at path: src/output/level3/level3_1.out");
    let list = HarnessError::ListDir { path: "src/input/level3".to_string() };
    assert_eq!(list.message(), "Could not list directory: src/input/level3");
    let level = HarnessError::UnsupportedLevel { level: 12 };
    assert_eq!(level.message(), "No solver is registered for level 12");
}

#[test]
fn scenario_matching_example_generates_numbered_outputs() {
    let mut registry: SolverRegistry<Solver> = SolverRegistry::new();
    registry = registry.register(2, echo);
    let example_in = "5\n6\n";
    let example_out = "5\n6\n";
    let listing = strings(&["level2_example.in", "level2_example.out", "level2_1.in", "level2_2.in"]);
    let output = solve_level(&registry, 2, split_lines(example_in)).unwrap();
    let verdict = compare_output(&output, &split_lines(example_out), &ValidationConfig::default());
    assert_eq!(verdict, Verdict::Matches);
    assert!(verdict.generates());
    let jobs = generation_jobs(2, &listing);
    let written: Vec<String> = jobs.iter().map(|j| j.output_path.clone()).collect();
    assert_eq!(written, strings(&["src/output/level2/level2_1.out", "src/output/level2/level2_2.out"]));
    let contents = render_lines(&solve_level(&registry, 2, split_lines("7\n")).unwrap());
    assert_eq!(contents, "7\n");
}

#[test]
fn scenario_mismatch_writes_nothing() {
    let mut registry: SolverRegistry<Solver> = SolverRegistry::new();
    registry = registry.register(2, count);
    let output = solve_level(&registry, 2, split_lines("5\n6\n")).unwrap();
    let expected = split_lines("5\n6\n");
    let verdict = compare_output(&output, &expected, &ValidationConfig::default());
    assert_eq!(verdict, Verdict::Mismatch);
    assert!(!verdict.generates());
    assert_eq!(
        validation_report(verdict, &output, &expected),
        "----------- Output -----------\n2\n\n---------- Expected ----------\n5\n6"
    );
}

#[test]
fn scenario_explicit_sub_level_solves_that_input() {
    let args = Cli { level: 2, sub_level: Some(1) };
    assert_eq!(get_level_input_path(&args), "src/input/level2/level2_1.in");
    let mut registry: SolverRegistry<Solver> = SolverRegistry::new();
    registry = registry.register(2, count);
    let output = solve_level(&registry, args.level, split_lines("a\nb\nc\n")).unwrap();
    assert_eq!(output, strings(&["3"]));
}

#[test]
fn scenario_missing_reference_names_its_path() {
    let path = expected_output_path(2);
    assert_eq!(path, "src/input/level2/level2_example.out");
    let error = HarnessError::ReadFile { path };
    assert_eq!(error.message(), "Could not read file at path: src/input/level2/level2_example.out");
}

/// What an in-memory run left behind.
struct RunRecord {
    printed: String,
    error: Option<String>,
    files: HashMap<String, String>,
    dirs: Vec<String>,
    solver_calls: usize,
}

/// Drives a session against an in-memory file tree, the way the command does
/// against the disk.
fn drive(args: Cli, registry: &SolverRegistry<Solver>, files: HashMap<String, String>) -> RunRecord {
    let mut record = RunRecord { printed: String::new(), error: None, files, dirs: Vec::new(), solver_calls: 0 };
    let (mut session, mut action) = Session::start(&args, ValidationConfig::default());
    loop {
        let outcome = match action {
            Action::Read { path } => Outcome::Read(record.files.get(&path).cloned()),
            Action::Solve { level, input_lines } => {
                record.solver_calls += 1;
                Outcome::Solved(solve_level(registry, level, input_lines))
            }
            Action::Print { text } => {
                record.printed.push_str(&text);
                Outcome::Done(true)
            }
            Action::CreateDir { path } => {
                record.dirs.push(path);
                Outcome::Done(true)
            }
            Action::List { path } => {
                let prefix = format!("{}/", path);
                let mut names: Vec<String> = record
                    .files
                    .keys()
                    .filter_map(|k| k.strip_prefix(&prefix).map(|n| n.to_string()))
                    .filter(|n| !n.contains('/'))
                    .collect();
                names.sort();
                Outcome::Listed(Some(names))
            }
            Action::Write { path, contents } => {
                record.files.insert(path, contents);
                Outcome::Done(true)
            }
            Action::Finish => return record,
            Action::Fail { error } => {
                record.error = Some(error.message());
                return record;
            }
        };
        assert!(session.accepts(&outcome));
        action = session.step(outcome);
    }
}

fn level2_tree(example_out: &str) -> HashMap<String, String> {
    let mut files = HashMap::new();
    files.insert("src/input/level2/level2_example.in".to_string(), "5\n6\n".to_string());
    files.insert("src/input/level2/level2_example.out".to_string(), example_out.to_string());
    files.insert("src/input/level2/level2_1.in".to_string(), "a\nb\nc\n".to_string());
    files.insert("src/input/level2/level2_2.in".to_string(), "x\r\ny\n".to_string());
    files.insert("src/input/level2/notes.txt".to_string(), "ignored\n".to_string());
    files
}

fn echo_registry() -> SolverRegistry<Solver> {
    let mut registry: SolverRegistry<Solver> = SolverRegistry::new();
    registry = registry.register(2, echo);
    registry
}

#[test]
fn session_matching_example_writes_outputs() {
    let record = drive(Cli { level: 2, sub_level: None }, &echo_registry(), level2_tree("5\n6\n"));
    assert_eq!(record.error, None);
    assert_eq!(record.dirs, strings(&["src/output/level2"]));
    assert_eq!(record.files.get("src/output/level2/level2_1.out").unwrap(), "a\nb\nc\n");
    assert_eq!(record.files.get("src/output/level2/level2_2.out").unwrap(), "x\ny\n");
    assert!(!record.files.contains_key("src/output/level2/level2_example.out"));
    assert_eq!(record.files.len(), 7);
    assert_eq!(record.solver_calls, 3);
    assert_eq!(
        record.printed,
        "Solution matches expected output!\nOutput written to: src/output/level2/level2_1.out\nOutput written to: src/output/level2/level2_2.out\n"
    );
}

#[test]
fn session_generation_twice_gives_same_files() {
    let first = drive(Cli { level: 2, sub_level: None }, &echo_registry(), level2_tree("5\n6\n"));
    let second = drive(Cli { level: 2, sub_level: None }, &echo_registry(), first.files.clone());
    assert_eq!(first.files, second.files);
    assert_eq!(first.printed, second.printed);
}

#[test]
fn session_mismatch_writes_nothing() {
    let record = drive(Cli { level: 2, sub_level: None }, &echo_registry(), level2_tree("5\n7\n"));
    assert_eq!(record.error, None);
    assert!(record.dirs.is_empty());
    assert_eq!(record.files.len(), 5);
    assert_eq!(record.solver_calls, 1);
    assert_eq!(
        record.printed,
        "----------- Output -----------\n5\n6\n\n---------- Expected ----------\n5\n7\n"
    );
}

#[test]
fn session_sub_level_prints_result() {
    let record = drive(Cli { level: 2, sub_level: Some(1) }, &echo_registry(), level2_tree("5\n6\n"));
    assert_eq!(record.error, None);
    assert_eq!(record.printed, "a\nb\nc\n");
    assert!(record.dirs.is_empty());
    assert_eq!(record.files.len(), 5);
    assert_eq!(record.solver_calls, 1);
}

#[test]
fn session_missing_reference_fails_before_generation() {
    let mut files = level2_tree("");
    files.remove("src/input/level2/level2_example.out");
    let record = drive(Cli { level: 2, sub_level: None }, &echo_registry(), files);
    assert_eq!(
        record.error,
        Some("Could not read file at path: src/input/level2/level2_example.out".to_string())
    );
    assert_eq!(record.solver_calls, 1);
    assert!(record.dirs.is_empty());
    assert_eq!(record.printed, "");
}

#[test]
fn session_missing_input_fails() {
    let record = drive(Cli { level: 3, sub_level: None }, &echo_registry(), level2_tree("5\n6\n"));
    assert_eq!(
        record.error,
        Some("Could not read file at path: src/input/level3/level3_example.in".to_string())
    );
    assert_eq!(record.solver_calls, 0);
}

#[test]
fn session_unregistered_level_fails() {
    let registry: SolverRegistry<Solver> = SolverRegistry::new();
    let record = drive(Cli { level: 2, sub_level: Some(2) }, &registry, level2_tree("5\n6\n"));
    assert_eq!(record.error, Some("No solver is registered for level 2".to_string()));
}

/// Steps a validation run of level 2 up to its request for the output directory.
fn session_at_create_dir() -> Session {
    let registry = echo_registry();
    let (mut session, first) = Session::start(&Cli { level: 2, sub_level: None }, ValidationConfig::default());
    assert!(matches!(first, Action::Read { ref path } if path == "src/input/level2/level2_example.in"));
    let solve = session.step(Outcome::Read(Some("1\n".to_string())));
    let Action::Solve { level, input_lines } = solve else { panic!("expected a solve") };
    assert_eq!(level, 2);
    assert_eq!(input_lines, strings(&["1"]));
    let read = session.step(Outcome::Solved(solve_level(&registry, level, input_lines)));
    assert!(matches!(read, Action::Read { ref path } if path == "src/input/level2/level2_example.out"));
    let print = session.step(Outcome::Read(Some("1".to_string())));
    assert!(matches!(print, Action::Print { ref text } if text == "Solution matches expected output!\n"));
    let create = session.step(Outcome::Done(true));
    assert!(matches!(create, Action::CreateDir { ref path } if path == "src/output/level2"));
    session
}

#[test]
fn session_create_dir_failure() {
    let mut session = session_at_create_dir();
    let failed = session.step(Outcome::Done(false));
    let Action::Fail { error } = failed else { panic!("expected a failure") };
    assert_eq!(error.message(), "Failed to create directory: src/output/level2");
    assert!(!session.accepts(&Outcome::Done(true)));
}

#[test]
fn session_listing_failure() {
    let mut session = session_at_create_dir();
    let list = session.step(Outcome::Done(true));
    assert!(matches!(list, Action::List { ref path } if path == "src/input/level2"));
    assert!(!session.accepts(&Outcome::Done(true)));
    let failed = session.step(Outcome::Listed(None));
    let Action::Fail { error } = failed else { panic!("expected a failure") };
    assert_eq!(error.message(), "Could not list directory: src/input/level2");
}

#[test]
fn session_write_failure() {
    let mut session = session_at_create_dir();
    session.step(Outcome::Done(true));
    let read = session.step(Outcome::Listed(Some(strings(&["level2_example.in", "level2_4.in"]))));
    assert!(matches!(read, Action::Read { ref path } if path == "src/input/level2/level2_4.in"));
    let solve = session.step(Outcome::Read(Some("q".to_string())));
    assert!(matches!(solve, Action::Solve { level: 2, .. }));
    let write = session.step(Outcome::Solved(Ok(strings(&["r", "s"]))));
    assert!(matches!(write, Action::Write { ref path, ref contents } if path == "src/output/level2/level2_4.out" && contents == "r\ns\n"));
    let failed = session.step(Outcome::Done(false));
    let Action::Fail { error } = failed else { panic!("expected a failure") };
    assert_eq!(error.message(), "Could not create file at path: src/output/level2/level2_4.out");
}

#[test]
fn session_empty_listing_finishes() {
    let mut session = session_at_create_dir();
    session.step(Outcome::Done(true));
    let end = session.step(Outcome::Listed(Some(strings(&["level2_example.in", "level2_example.out"]))));
    assert!(matches!(end, Action::Finish));
}

#[test]
fn register_replaces_only_that_level() {
    let mut registry: SolverRegistry<Solver> = SolverRegistry::new();
    registry = registry.register(1, echo);
    registry = registry.register(2, echo);
    registry = registry.register(2, count);
    assert_eq!(solve_level(&registry, 1, strings(&["p", "q"])).unwrap(), strings(&["p", "q"]));
    assert_eq!(solve_level(&registry, 2, strings(&["p", "q"])).unwrap(), strings(&["2"]));
}
