use libafl::corpus::{Corpus, CorpusId, InMemoryCorpus, Testcase};
use libafl::inputs::BytesInput;
use xfuzz_corpus::{export_plan, plan_export, snapshot, Action, ExportError, StoredCorpus};

fn testcase(bytes: Option<Vec<u8>>, executions: usize, scheduled: usize, parent: Option<usize>) -> Testcase<BytesInput> {
    let mut t = match bytes {
        Some(b) => Testcase::new(BytesInput::new(b)),
        None => Testcase::default(),
    };
    *t.executions_mut() = executions;
    t.set_scheduled_count(scheduled);
    t.set_parent_id_optional(parent.map(CorpusId::from));
    t
}

#[test]
fn snapshot_reads_each_testcase() {
    let mut corpus: InMemoryCorpus<BytesInput> = InMemoryCorpus::new();
    let a = corpus.add(testcase(Some(vec![1, 2]), 5, 2, None)).unwrap();
    let b = corpus.add(testcase(Some(vec![3]), 3, 1, Some(usize::from(a)))).unwrap();
    let stored = StoredCorpus { corpus };
    let snap = snapshot(&stored);
    assert_eq!(snap.count, 2);
    assert_eq!(snap.entries.len(), 2);
    assert_eq!(snap.entries[0].id, usize::from(a));
    assert_eq!(snap.entries[1].id, usize::from(b));
    let t0 = snap.entries[0].testcase.as_ref().unwrap();
    assert_eq!((t0.executions, t0.scheduled_count, t0.parent_id), (5, 2, None));
    assert_eq!(t0.input, Some(vec![1, 2]));
    let t1 = snap.entries[1].testcase.as_ref().unwrap();
    assert_eq!((t1.executions, t1.scheduled_count, t1.parent_id), (3, 1, Some(usize::from(a))));
    assert_eq!(t1.input, Some(vec![3]));
}

#[test]
fn corpus_with_absent_input_fails_export() {
    let mut corpus: InMemoryCorpus<BytesInput> = InMemoryCorpus::new();
    let a = corpus.add(testcase(Some(vec![1]), 5, 2, None)).unwrap();
    let b = corpus.add(testcase(Some(vec![2]), 3, 1, Some(usize::from(a)))).unwrap();
    let c = corpus.add(testcase(None, 0, 0, Some(usize::from(b)))).unwrap();
    let stored = StoredCorpus { corpus };
    let snap = snapshot(&stored);
    assert_eq!(snap.count, 3);
    let plan = plan_export(snap.count, &snap.entries, &"out".to_string());
    assert_eq!(plan.outcome, Err(ExportError::MissingInput { id: usize::from(c) }));
}

#[test]
fn corpus_export_plan_writes_each_input() {
    let mut corpus: InMemoryCorpus<BytesInput> = InMemoryCorpus::new();
    let a = corpus.add(testcase(Some(vec![4, 5, 6]), 1, 1, None)).unwrap();
    let b = corpus.add(testcase(Some(vec![7]), 2, 0, Some(usize::from(a)))).unwrap();
    let stored = StoredCorpus { corpus };
    let plan = export_plan(&stored, &"snap".to_string());
    assert_eq!(plan.outcome, Ok(()));
    let mut lines = Vec::new();
    let mut files = Vec::new();
    for action in &plan.actions {
        match action {
            Action::Log(line) => lines.push(line.clone()),
            Action::Write { path, contents, .. } => files.push((path.clone(), contents.clone())),
        }
    }
    assert_eq!(
        lines,
        vec![
            "Total corpus count: 2".to_string(),
            format!("Corpus {}: executions 1, scheduled_count 1, parent_id -1", usize::from(a)),
            format!("Corpus {}: executions 2, scheduled_count 0, parent_id {}", usize::from(b), usize::from(a)),
        ]
    );
    assert_eq!(
        files,
        vec![
            (format!("snap/{}", usize::from(a)), vec![4, 5, 6]),
            (format!("snap/{}", usize::from(b)), vec![7]),
        ]
    );
}
