use std::cell::RefCell;
use std::time::{Duration, Instant};

use dataset_builder::batch::{run_batch, RootEntry, SinkFailure};
use dataset_builder::invocation::{deadline_reached, timed, Invocation, ProcessOutput, Timed};
use dataset_builder::registry::{AnalyzerSpec, Registry, RegistryError};
use dataset_builder::report::{analyze_repo, RepositoryReport};
use dataset_builder::sink::{render_all, render_report};
use dataset_builder::text::split_lines;

fn spec(name: &str, command: &str, args: &[&str]) -> AnalyzerSpec {
    AnalyzerSpec::new(name, command, args.iter().map(|a| a.to_string()).collect())
}

fn lint_and_scan() -> Registry {
    Registry::from_specs(vec![
        spec("lint", "lint-tool", &["--all"]),
        spec("scan", "missing-tool", &[]),
    ])
    .unwrap()
}

fn completed(stdout: &str, stderr: &str) -> Invocation {
    Invocation::Completed(ProcessOutput {
        stdout: stdout.as_bytes().to_vec(),
        stderr: stderr.as_bytes().to_vec(),
    })
}

fn outcome(value: Invocation, elapsed_ms: u128) -> Timed<Invocation> {
    Timed { value, elapsed_ms }
}

fn dir(name: &str) -> RootEntry {
    RootEntry { name: name.to_string(), path: format!("root/{}", name), is_dir: true }
}

fn file(name: &str) -> RootEntry {
    RootEntry { name: name.to_string(), path: format!("root/{}", name), is_dir: false }
}

fn lint_works_scan_is_missing(_dir: &str, analyzer: &AnalyzerSpec) -> Invocation {
    if analyzer.name == "lint" {
        let start = Instant::now();
        while start.elapsed() < Duration::from_millis(3) {}
        completed("ok", "")
    } else {
        Invocation::SpawnFailed
    }
}

#[test]
fn two_repositories_with_one_missing_analyzer() {
    let registry = lint_and_scan();
    let entries = vec![dir("a"), dir("b")];
    let lines: RefCell<Vec<String>> = RefCell::new(Vec::new());
    let emit = |line: &str| {
        lines.borrow_mut().push(line.to_string());
        true
    };
    let res = run_batch(&registry, &entries, &lint_works_scan_is_missing, &emit);
    assert_eq!(res, Ok(2));
    let lines = lines.into_inner();
    assert_eq!(lines.len(), 2);
    let names = ["a", "b"];
    for (line, name) in lines.iter().zip(names.iter()) {
        assert!(line.ends_with('\n'));
        let value: serde_json::Value = serde_json::from_str(line).unwrap();
        assert_eq!(value["name"].as_str(), Some(*name));
        assert_eq!(value["lint"].as_str(), Some("ok"));
        assert_eq!(value["scan"].as_str(), Some(""));
        assert!(value["time_ms"]["lint"].as_u64().unwrap() > 0);
        assert!(value["time_ms"]["scan"].as_u64().is_some());
        assert_eq!(value.as_object().unwrap().len(), 4);
        assert_eq!(value["time_ms"].as_object().unwrap().len(), 2);
    }
}

#[test]
fn analyze_repo_hands_the_repository_path_to_the_runner() {
    let registry = lint_and_scan();
    let seen: RefCell<Vec<(String, String, String, Vec<String>)>> = RefCell::new(Vec::new());
    let run = |dir: &str, analyzer: &AnalyzerSpec| {
        seen.borrow_mut().push((
            dir.to_string(),
            analyzer.name.clone(),
            analyzer.command.clone(),
            analyzer.args.clone(),
        ));
        completed("", "")
    };
    let report = analyze_repo(&registry, "/data/repo-1", "repo-1", &run);
    assert_eq!(report.name, "repo-1");
    assert_eq!(
        seen.into_inner(),
        vec![
            (
                "/data/repo-1".to_string(),
                "lint".to_string(),
                "lint-tool".to_string(),
                vec!["--all".to_string()]
            ),
            ("/data/repo-1".to_string(), "scan".to_string(), "missing-tool".to_string(), vec![]),
        ]
    );
}

#[test]
fn analyze_repo_continues_past_failures() {
    let registry = Registry::from_specs(vec![
        spec("first", "x", &[]),
        spec("second", "y", &[]),
        spec("third", "z", &[]),
    ])
    .unwrap();
    let run = |_dir: &str, analyzer: &AnalyzerSpec| {
        if analyzer.name == "first" {
            Invocation::SpawnFailed
        } else if analyzer.name == "second" {
            Invocation::TimedOut
        } else {
            completed("", "warning: something")
        }
    };
    let report = analyze_repo(&registry, ".", "repo", &run);
    assert_eq!(report.results.len(), 3);
    assert_eq!(report.timings.entries.len(), 3);
    assert_eq!(report.results[0].name, "first");
    assert_eq!(report.results[0].text, "");
    assert_eq!(report.results[1].name, "second");
    assert_eq!(report.results[1].text, "");
    assert_eq!(report.results[2].name, "third");
    assert_eq!(report.results[2].text, "warning: something");
    assert_eq!(report.timings.entries[0].name, "first");
    assert_eq!(report.timings.entries[1].name, "second");
    assert_eq!(report.timings.entries[2].name, "third");
}

#[test]
fn every_failing_analyzer_still_yields_a_full_report() {
    let registry = lint_and_scan();
    let run = |_dir: &str, _analyzer: &AnalyzerSpec| Invocation::SpawnFailed;
    let report = analyze_repo(&registry, ".", "broken", &run);
    assert_eq!(report.results.len(), 2);
    assert_eq!(report.timings.entries.len(), 2);
    assert!(report.results.iter().all(|r| r.text.is_empty()));
}

#[test]
fn assemble_builds_the_exact_report() {
    let registry = lint_and_scan();
    let report = RepositoryReport::assemble(
        &registry,
        "a",
        vec![outcome(completed("ok", ""), 12), outcome(Invocation::SpawnFailed, 0)],
    )
    .unwrap();
    assert_eq!(report.name, "a");
    assert_eq!(report.results.len(), 2);
    assert_eq!(report.results[0].name, "lint");
    assert_eq!(report.results[0].text, "ok");
    assert_eq!(report.results[1].name, "scan");
    assert_eq!(report.results[1].text, "");
    assert_eq!(report.timings.entries[0].name, "lint");
    assert_eq!(report.timings.entries[0].elapsed_ms, 12);
    assert_eq!(report.timings.entries[1].name, "scan");
    assert_eq!(report.timings.entries[1].elapsed_ms, 0);
}

#[test]
fn assemble_wants_one_outcome_per_analyzer() {
    let registry = lint_and_scan();
    assert_eq!(RepositoryReport::assemble(&registry, "a", vec![]), None);
    assert_eq!(
        RepositoryReport::assemble(&registry, "a", vec![outcome(Invocation::SpawnFailed, 1)]),
        None
    );
    let three = vec![
        outcome(Invocation::SpawnFailed, 1),
        outcome(Invocation::SpawnFailed, 1),
        outcome(Invocation::SpawnFailed, 1),
    ];
    assert_eq!(RepositoryReport::assemble(&registry, "a", three), None);
}

#[test]
fn timing_is_recorded_when_the_invocation_fails() {
    let registry = lint_and_scan();
    let report = RepositoryReport::assemble(
        &registry,
        "a",
        vec![outcome(Invocation::SpawnFailed, 7), outcome(Invocation::TimedOut, 30000)],
    )
    .unwrap();
    assert_eq!(report.timings.get("lint"), Some(7));
    assert_eq!(report.timings.get("scan"), Some(30000));
    assert_eq!(report.timings.get("other"), None);
    assert_eq!(report.text_of("lint"), Some(&String::new()));
    assert_eq!(report.text_of("scan"), Some(&String::new()));
    assert_eq!(report.text_of("other"), None);
}

#[test]
fn lookups_find_the_slot_by_name() {
    let registry = lint_and_scan();
    let report = RepositoryReport::assemble(
        &registry,
        "a",
        vec![outcome(completed("fine", ""), 5), outcome(completed("", "E1"), 9)],
    )
    .unwrap();
    assert_eq!(report.text_of("lint"), Some(&"fine".to_string()));
    assert_eq!(report.text_of("scan"), Some(&"E1".to_string()));
    assert_eq!(report.timings.get("scan"), Some(9));
}

#[test]
fn record_line_has_the_fixed_layout() {
    let registry = lint_and_scan();
    let report = RepositoryReport::assemble(
        &registry,
        "a",
        vec![outcome(completed("ok", ""), 12), outcome(Invocation::SpawnFailed, 0)],
    )
    .unwrap();
    assert_eq!(
        render_report(&report),
        "{\"name\":\"a\",\"lint\":\"ok\",\"scan\":\"\",\"time_ms\":{\"lint\":12,\"scan\":0}}\n"
    );
}

#[test]
fn record_of_an_empty_registry() {
    let registry = Registry::from_specs(vec![]).unwrap();
    let run = |_dir: &str, _analyzer: &AnalyzerSpec| Invocation::SpawnFailed;
    let report = analyze_repo(&registry, ".", "bare", &run);
    assert!(report.results.is_empty());
    assert!(report.timings.entries.is_empty());
    assert_eq!(render_report(&report), "{\"name\":\"bare\",\"time_ms\":{}}\n");
}

#[test]
fn record_escapes_what_would_break_the_line() {
    let registry = Registry::from_specs(vec![spec("lint", "x", &[])]).unwrap();
    let text = "line one\nline \"two\"\r\n\ttab \\ back\u{1}\u{7f} \u{e9}\u{1f600}";
    let report = RepositoryReport::assemble(
        &registry,
        "we\"ird\nname",
        vec![outcome(completed(text, ""), 340282366920938463463374607431768211455)],
    )
    .unwrap();
    let line = render_report(&report);
    assert_eq!(line.matches('\n').count(), 1);
    assert!(line.ends_with("}}\n"));
    assert!(line.contains("\"lint\":\"line one\\nline \\\"two\\\"\\r\\n\\ttab \\\\ back\\u0001"));
    assert!(line.contains("\"time_ms\":{\"lint\":340282366920938463463374607431768211455}"));
    let value: serde_json::Value = serde_json::from_str(&line).unwrap();
    assert_eq!(value["name"].as_str(), Some("we\"ird\nname"));
    assert_eq!(value["lint"].as_str(), Some(text));
}

#[test]
fn fields_follow_registry_order() {
    let registry = Registry::from_specs(vec![
        spec("zeta", "z", &[]),
        spec("alpha", "a", &[]),
        spec("mid", "m", &[]),
    ])
    .unwrap();
    let report = RepositoryReport::assemble(
        &registry,
        "r",
        vec![
            outcome(completed("1", ""), 1),
            outcome(completed("2", ""), 2),
            outcome(completed("3", ""), 3),
        ],
    )
    .unwrap();
    assert_eq!(
        render_report(&report),
        "{\"name\":\"r\",\"zeta\":\"1\",\"alpha\":\"2\",\"mid\":\"3\",\
         \"time_ms\":{\"zeta\":1,\"alpha\":2,\"mid\":3}}\n"
    );
}

fn reports(registry: &Registry, names: &[&str]) -> Vec<RepositoryReport> {
    names
        .iter()
        .map(|name| analyze_repo(registry, ".", name, &|_dir: &str, analyzer: &AnalyzerSpec| {
            if analyzer.name == "scan" {
                Invocation::SpawnFailed
            } else {
                completed("multi\nline", "")
            }
        }))
        .collect()
}

#[test]
fn a_batch_has_one_line_per_repository() {
    let registry = lint_and_scan();
    for count in 0..5usize {
        let names: Vec<String> = (0..count).map(|i| format!("repo{}", i)).collect();
        let refs: Vec<&str> = names.iter().map(|n| n.as_str()).collect();
        let stream = render_all(&reports(&registry, &refs));
        let lines = split_lines(&stream);
        assert_eq!(lines.len(), count);
        assert_eq!(stream.matches('\n').count(), count);
        for (line, name) in lines.iter().zip(names.iter()) {
            let value: serde_json::Value = serde_json::from_str(line).unwrap();
            assert_eq!(value["name"].as_str(), Some(name.as_str()));
            assert_eq!(value.as_object().unwrap().len(), 2 + 2);
            assert_eq!(value["time_ms"].as_object().unwrap().len(), 2);
        }
    }
}

#[test]
fn concatenated_streams_keep_their_records() {
    let small = Registry::from_specs(vec![spec("lint", "x", &[])]).unwrap();
    let large = lint_and_scan();
    let first = reports(&small, &["a", "b"]);
    let second = reports(&large, &["c"]);
    let first_stream = render_all(&first);
    let second_stream = render_all(&second);
    let mut expected = split_lines(&first_stream);
    expected.extend(split_lines(&second_stream));
    let both = format!("{}{}", first_stream, second_stream);
    let lines = split_lines(&both);
    assert_eq!(lines, expected);
    assert_eq!(lines.len(), 3);
    let all: Vec<&RepositoryReport> = first.iter().chain(second.iter()).collect();
    for (line, report) in lines.iter().zip(all.iter()) {
        assert_eq!(format!("{}\n", line), render_report(report));
    }
    let last: serde_json::Value = serde_json::from_str(&lines[2]).unwrap();
    assert_eq!(last["name"].as_str(), Some("c"));
    assert_eq!(last["scan"].as_str(), Some(""));
    let head: serde_json::Value = serde_json::from_str(&lines[0]).unwrap();
    assert!(head.get("scan").is_none());
}

#[test]
fn batch_ignores_what_is_not_a_directory() {
    let registry = lint_and_scan();
    let entries = vec![file("README"), dir("a"), file("notes.txt"), dir("b"), file("z")];
    let lines: RefCell<Vec<String>> = RefCell::new(Vec::new());
    let visited: RefCell<Vec<String>> = RefCell::new(Vec::new());
    let run = |dir: &str, _analyzer: &AnalyzerSpec| {
        visited.borrow_mut().push(dir.to_string());
        Invocation::SpawnFailed
    };
    let emit = |line: &str| {
        lines.borrow_mut().push(line.to_string());
        true
    };
    assert_eq!(run_batch(&registry, &entries, &run, &emit), Ok(2));
    assert_eq!(visited.into_inner(), vec!["root/a", "root/a", "root/b", "root/b"]);
    let lines = lines.into_inner();
    assert_eq!(lines.len(), 2);
    assert!(lines[0]
        .starts_with("{\"name\":\"a\",\"lint\":\"\",\"scan\":\"\",\"time_ms\":{\"lint\":"));
    assert!(lines[1].starts_with("{\"name\":\"b\","));
}

#[test]
fn batch_over_nothing_writes_nothing() {
    let registry = lint_and_scan();
    let calls = RefCell::new(0usize);
    let emit = |_line: &str| {
        *calls.borrow_mut() += 1;
        true
    };
    assert_eq!(run_batch(&registry, &vec![], &lint_works_scan_is_missing, &emit), Ok(0));
    assert_eq!(run_batch(&registry, &vec![file("x")], &lint_works_scan_is_missing, &emit), Ok(0));
    assert_eq!(calls.into_inner(), 0);
}

#[test]
fn batch_stops_when_the_sink_fails() {
    let registry = lint_and_scan();
    let entries = vec![dir("a"), dir("b"), dir("c")];
    let offered = RefCell::new(0usize);
    let emit = |_line: &str| {
        *offered.borrow_mut() += 1;
        *offered.borrow() < 2
    };
    let run = |_dir: &str, _analyzer: &AnalyzerSpec| Invocation::SpawnFailed;
    assert_eq!(run_batch(&registry, &entries, &run, &emit), Err(SinkFailure { written: 1 }));
    assert_eq!(offered.into_inner(), 2);
}

#[test]
fn registry_rejects_a_repeated_name() {
    let res = Registry::from_specs(vec![
        spec("lint", "a", &[]),
        spec("scan", "b", &[]),
        spec("lint", "c", &[]),
    ]);
    assert_eq!(res.err(), Some(RegistryError::DuplicateName { index: 2 }));
}

#[test]
fn registry_rejects_the_records_own_field_names() {
    let res = Registry::from_specs(vec![spec("lint", "a", &[]), spec("time_ms", "b", &[])]);
    assert_eq!(res.err(), Some(RegistryError::ReservedName { index: 1 }));
    let res = Registry::from_specs(vec![spec("name", "a", &[]), spec("name", "b", &[])]);
    assert_eq!(res.err(), Some(RegistryError::ReservedName { index: 0 }));
}

#[test]
fn registry_reports_the_first_offence() {
    let res = Registry::from_specs(vec![
        spec("a", "x", &[]),
        spec("a", "x", &[]),
        spec("name", "x", &[]),
    ]);
    assert_eq!(res.err(), Some(RegistryError::DuplicateName { index: 1 }));
}

#[test]
fn registry_keeps_its_analyzers_in_order() {
    let registry = lint_and_scan();
    assert_eq!(registry.len(), 2);
    assert_eq!(registry.get(0), &spec("lint", "lint-tool", &["--all"]));
    assert_eq!(registry.get(1), &spec("scan", "missing-tool", &[]));
}

#[test]
fn standard_registry_lists_the_battery() {
    let registry = Registry::standard();
    let expected: Vec<(&str, &str, Vec<&str>)> = vec![
        ("clippy", "cargo", vec!["clippy", "--message-format=json"]),
        ("fmt", "cargo", vec!["fmt", "--", "--check"]),
        ("audit", "cargo", vec!["audit"]),
        ("auditable", "cargo", vec!["auditable"]),
        ("deny", "cargo", vec!["deny", "check"]),
        ("semgrep", "semgrep", vec!["--config", "p/rust", "--json"]),
        ("geiger", "cargo", vec!["geiger"]),
        ("codeql", "codeql", vec!["database", "analyze", "--format=json"]),
        ("tree", "cargo", vec!["tree"]),
        ("ast", "rustc", vec!["--emit=ast", "-Z", "unpretty=ast"]),
    ];
    assert_eq!(registry.len(), expected.len());
    for (i, (name, command, args)) in expected.iter().enumerate() {
        assert_eq!(registry.get(i), &spec(name, command, args));
    }
}

#[test]
fn standard_registry_record_has_every_field() {
    let registry = Registry::standard();
    let run = |_dir: &str, _analyzer: &AnalyzerSpec| Invocation::SpawnFailed;
    let report = analyze_repo(&registry, ".", "r", &run);
    let value: serde_json::Value = serde_json::from_str(&render_report(&report)).unwrap();
    let object = value.as_object().unwrap();
    assert_eq!(object.len(), 12);
    assert_eq!(value["time_ms"].as_object().unwrap().len(), 10);
    let names =
        ["clippy", "fmt", "audit", "auditable", "deny", "semgrep", "geiger", "codeql", "tree", "ast"];
    for name in names {
        assert_eq!(value[name].as_str(), Some(""));
        assert!(value["time_ms"][name].as_u64().is_some());
    }
}

#[test]
fn standard_output_is_preferred() {
    assert_eq!(completed("out", "err").captured_text(), "out");
    assert_eq!(completed("out", "").captured_text(), "out");
}

#[test]
fn standard_error_is_the_fallback() {
    assert_eq!(completed("", "err").captured_text(), "err");
    assert_eq!(completed("", "").captured_text(), "");
}

#[test]
fn failed_invocations_capture_nothing() {
    assert_eq!(Invocation::SpawnFailed.captured_text(), "");
    assert_eq!(Invocation::TimedOut.captured_text(), "");
}

#[test]
fn captured_bytes_are_decoded_leniently() {
    let output = ProcessOutput { stdout: vec![b'a', 0xff, b'b'], stderr: vec![] };
    assert_eq!(output.text(), "a\u{fffd}b");
    let output = ProcessOutput { stdout: vec![], stderr: "h\u{e9}llo".as_bytes().to_vec() };
    assert_eq!(output.text(), "h\u{e9}llo");
}

#[test]
fn timed_returns_the_result_and_the_duration() {
    let out = timed(|| {
        let start = Instant::now();
        while start.elapsed() < Duration::from_millis(5) {}
        41 + 1
    });
    assert_eq!(out.value, 42);
    assert!(out.elapsed_ms >= 5);
    assert!(out.elapsed_ms < 15000);
    let quick = timed(|| "done");
    assert_eq!(quick.value, "done");
    assert!(quick.elapsed_ms < 15000);
}

#[test]
fn deadline_is_reached_at_the_limit() {
    assert!(!deadline_reached(0, None));
    assert!(!deadline_reached(u128::MAX, None));
    assert!(!deadline_reached(999, Some(1000)));
    assert!(deadline_reached(1000, Some(1000)));
    assert!(deadline_reached(1001, Some(1000)));
    assert!(deadline_reached(0, Some(0)));
}

#[test]
fn registry_grows_by_registration() {
    let mut registry = Registry::new();
    assert_eq!(registry.len(), 0);
    assert_eq!(registry.register(spec("lint", "a", &[])), Ok(()));
    assert_eq!(registry.register(spec("scan", "b", &["-q"])), Ok(()));
    assert_eq!(registry.len(), 2);
    assert_eq!(registry.get(1), &spec("scan", "b", &["-q"]));
}

#[test]
fn registration_rejects_what_cannot_be_a_field() {
    let mut registry = Registry::standard();
    assert_eq!(
        registry.register(spec("clippy", "other", &[])),
        Err(RegistryError::DuplicateName { index: 10 })
    );
    assert_eq!(
        registry.register(spec("name", "x", &[])),
        Err(RegistryError::ReservedName { index: 10 })
    );
    assert_eq!(
        registry.register(spec("time_ms", "x", &[])),
        Err(RegistryError::ReservedName { index: 10 })
    );
    assert_eq!(registry.len(), 10);
    assert_eq!(registry.register(spec("extra", "x", &[])), Ok(()));
    assert_eq!(registry.len(), 11);
    assert_eq!(registry.get(10).name, "extra");
}
