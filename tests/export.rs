use std::collections::HashMap;

use xfuzz_corpus::{
    count_summary, decimal_string, plan_export, summary, testcase_path, Action, CorpusEntry,
    ExportError, TestcaseRecord,
};

#[derive(Debug, PartialEq)]
enum Step {
    Log(String),
    Write(usize, String, Vec<u8>),
}

fn steps(actions: &[Action]) -> Vec<Step> {
    actions
        .iter()
        .map(|a| match a {
            Action::Log(line) => Step::Log(line.clone()),
            Action::Write { id, path, contents } => Step::Write(*id, path.clone(), contents.clone()),
        })
        .collect()
}

fn record(executions: usize, scheduled_count: usize, parent_id: Option<usize>, input: Option<Vec<u8>>) -> TestcaseRecord {
    TestcaseRecord { executions, scheduled_count, parent_id, input }
}

fn entry(id: usize, t: TestcaseRecord) -> CorpusEntry {
    CorpusEntry { id, testcase: Some(t) }
}

fn writes(actions: &[Action]) -> Vec<(usize, String, Vec<u8>)> {
    actions
        .iter()
        .filter_map(|a| match a {
            Action::Write { id, path, contents } => Some((*id, path.clone(), contents.clone())),
            Action::Log(_) => None,
        })
        .collect()
}

fn apply(files: &mut HashMap<String, Vec<u8>>, actions: &[Action]) {
    for (_, path, contents) in writes(actions) {
        files.insert(path, contents);
    }
}

#[test]
fn three_entries_stop_at_missing_input() {
    let entries = vec![
        entry(0, record(5, 2, None, Some(vec![0xde, 0xad]))),
        entry(1, record(3, 1, Some(0), Some(vec![1, 2, 3]))),
        entry(2, record(0, 0, Some(1), None)),
    ];
    let plan = plan_export(3, &entries, &"out".to_string());
    assert_eq!(plan.outcome, Err(ExportError::MissingInput { id: 2 }));
    assert_eq!(
        steps(&plan.actions),
        vec![
            Step::Log("Total corpus count: 3".to_string()),
            Step::Log("Corpus 0: executions 5, scheduled_count 2, parent_id -1".to_string()),
            Step::Write(0, "out/0".to_string(), vec![0xde, 0xad]),
            Step::Log("Corpus 1: executions 3, scheduled_count 1, parent_id 0".to_string()),
            Step::Write(1, "out/1".to_string(), vec![1, 2, 3]),
            Step::Log("Corpus 2: executions 0, scheduled_count 0, parent_id 1".to_string()),
        ]
    );
    assert!(writes(&plan.actions).iter().all(|(_, path, _)| path != "out/2"));
}

#[test]
fn complete_corpus_writes_one_file_per_entry() {
    let entries = vec![
        entry(0, record(1, 1, None, Some(vec![7]))),
        entry(4, record(2, 0, Some(0), Some(vec![]))),
        entry(12, record(9, 3, Some(4), Some(vec![1, 1, 2, 3]))),
    ];
    let plan = plan_export(3, &entries, &"corpus/out".to_string());
    assert_eq!(plan.outcome, Ok(()));
    assert_eq!(
        writes(&plan.actions),
        vec![
            (0, "corpus/out/0".to_string(), vec![7]),
            (4, "corpus/out/4".to_string(), vec![]),
            (12, "corpus/out/12".to_string(), vec![1, 1, 2, 3]),
        ]
    );
}

#[test]
fn written_bytes_match_inputs() {
    let input: Vec<u8> = (0..=255).collect();
    let entries = vec![entry(3, record(0, 0, None, Some(input.clone())))];
    let plan = plan_export(1, &entries, &"d".to_string());
    let w = writes(&plan.actions);
    assert_eq!(w.len(), 1);
    assert_eq!(w[0].2, input);
}

#[test]
fn second_export_leaves_same_files() {
    let entries = vec![
        entry(0, record(1, 1, None, Some(vec![1]))),
        entry(1, record(1, 1, Some(0), Some(vec![2, 2]))),
    ];
    let dir = "o".to_string();
    let mut files: HashMap<String, Vec<u8>> = HashMap::new();
    files.insert("o/1".to_string(), vec![9, 9, 9, 9]);
    files.insert("o/other".to_string(), vec![5]);
    let first = plan_export(2, &entries, &dir);
    apply(&mut files, &first.actions);
    let after_first = files.clone();
    let second = plan_export(2, &entries, &dir);
    assert_eq!(steps(&first.actions), steps(&second.actions));
    apply(&mut files, &second.actions);
    assert_eq!(files, after_first);
    assert_eq!(files.get("o/1"), Some(&vec![2, 2]));
}

#[test]
fn empty_corpus_writes_nothing() {
    let plan = plan_export(0, &Vec::new(), &"out".to_string());
    assert_eq!(plan.outcome, Ok(()));
    assert_eq!(steps(&plan.actions), vec![Step::Log("Total corpus count: 0".to_string())]);
}

#[test]
fn missing_input_is_not_skipped() {
    let entries = vec![
        entry(0, record(0, 0, None, None)),
        entry(1, record(0, 0, None, Some(vec![1]))),
    ];
    let plan = plan_export(2, &entries, &"out".to_string());
    assert_eq!(plan.outcome, Err(ExportError::MissingInput { id: 0 }));
    assert!(writes(&plan.actions).is_empty());
}

#[test]
fn unresolved_identifier_stops_export() {
    let entries = vec![
        entry(0, record(0, 0, None, Some(vec![1]))),
        CorpusEntry { id: 5, testcase: None },
        entry(6, record(0, 0, None, Some(vec![2]))),
    ];
    let plan = plan_export(3, &entries, &"out".to_string());
    assert_eq!(plan.outcome, Err(ExportError::Lookup { id: 5 }));
    assert_eq!(
        steps(&plan.actions),
        vec![
            Step::Log("Total corpus count: 3".to_string()),
            Step::Log("Corpus 0: executions 0, scheduled_count 0, parent_id -1".to_string()),
            Step::Write(0, "out/0".to_string(), vec![1]),
        ]
    );
}

#[test]
fn parent_is_logged_or_sentinel() {
    assert_eq!(
        summary(9, &record(100, 42, None, None)),
        "Corpus 9: executions 100, scheduled_count 42, parent_id -1"
    );
    assert_eq!(
        summary(10, &record(0, 1, Some(9), None)),
        "Corpus 10: executions 0, scheduled_count 1, parent_id 9"
    );
}

#[test]
fn decimal_forms() {
    assert_eq!(decimal_string(0), "0");
    assert_eq!(decimal_string(9), "9");
    assert_eq!(decimal_string(10), "10");
    assert_eq!(decimal_string(1234567), "1234567");
    assert_eq!(decimal_string(usize::MAX), usize::MAX.to_string());
}

#[test]
fn path_and_count_lines() {
    assert_eq!(testcase_path(&"a/b".to_string(), 305), "a/b/305");
    assert_eq!(count_summary(17), "Total corpus count: 17");
}
