use vstd::prelude::*;

use crate::decimal::{append_decimal, decimal};

verus! {

/// What the export reads of one testcase.
pub struct TestcaseRecord {
    /// How many times the target ran this input.
    pub executions: usize,
    /// How many times the scheduler picked this input.
    pub scheduled_count: usize,
    /// The testcase this one was mutated from; `None` for a seed.
    pub parent_id: Option<usize>,
    /// The input bytes; `None` where the corpus holds none.
    pub input: Option<Vec<u8>>,
}

/// One identifier of the corpus, in enumeration order, and what looking it up gave.
pub struct CorpusEntry {
    pub id: usize,
    /// `None` where the identifier did not resolve to a testcase.
    pub testcase: Option<TestcaseRecord>,
}

/// Why an export stopped.
#[derive(Debug, Clone, Copy, PartialEq, Eq, Structural)]
pub enum ExportError {
    /// The output directory could not be created.
    DirectoryCreation,
    /// The identifier did not resolve to a testcase.
    Lookup { id: usize },
    /// The testcase holds no input.
    MissingInput { id: usize },
    /// The file for the testcase could not be written.
    Write { id: usize },
}

/// One step of an export, in the order in which it is carried out.
pub enum Action {
    /// A line for the diagnostic stream.
    Log(String),
    /// Replace the file at `path` by `contents`.
    Write { id: usize, path: String, contents: Vec<u8> },
}

/// The mathematical form of an [`Action`].
pub enum ActionModel {
    Log(Seq<char>),
    Write(usize, Seq<char>, Seq<u8>),
}

impl View for Action {
    type V = ActionModel;

    open spec fn view(&self) -> ActionModel {
        match self {
            Action::Log(line) => ActionModel::Log(line@),
            Action::Write { id, path, contents } => ActionModel::Write(*id, path@, contents@),
        }
    }
}

/// The steps of an export and how it ends, once the output directory exists.
pub struct ExportPlan {
    pub actions: Vec<Action>,
    pub outcome: Result<(), ExportError>,
}

pub open spec fn actions_view(v: Seq<Action>) -> Seq<ActionModel> {
    v.map_values(|a: Action| a@)
}

/// The parent as it is logged: its identifier, or `-1` for a seed.
pub open spec fn parent_label(parent: Option<usize>) -> Seq<char> {
    match parent {
        Some(p) => decimal(p as nat),
        None => "-1"@,
    }
}

pub open spec fn count_line(count: usize) -> Seq<char> {
    "Total corpus count: "@ + decimal(count as nat)
}

pub open spec fn summary_line(id: usize, t: TestcaseRecord) -> Seq<char> {
    "Corpus "@ + decimal(id as nat) + ": executions "@ + decimal(t.executions as nat)
        + ", scheduled_count "@ + decimal(t.scheduled_count as nat) + ", parent_id "@
        + parent_label(t.parent_id)
}

/// The file that receives the input of testcase `id`.
pub open spec fn file_path(dir: Seq<char>, id: usize) -> Seq<char> {
    dir + "/"@ + decimal(id as nat)
}

/// Why processing this entry stops the export, if it does.
pub open spec fn entry_failure(e: CorpusEntry) -> Option<ExportError> {
    match e.testcase {
        None => Some(ExportError::Lookup { id: e.id }),
        Some(t) => if t.input is None {
            Some(ExportError::MissingInput { id: e.id })
        } else {
            None
        },
    }
}

/// The steps taken for one entry: its summary line once it resolved, then its
/// file where it holds an input.
pub open spec fn entry_actions(e: CorpusEntry, dir: Seq<char>) -> Seq<ActionModel> {
    match e.testcase {
        None => seq![],
        Some(t) => match t.input {
            None => seq![ActionModel::Log(summary_line(e.id, t))],
            Some(bytes) => seq![
                ActionModel::Log(summary_line(e.id, t)),
                ActionModel::Write(e.id, file_path(dir, e.id), bytes@),
            ],
        },
    }
}

/// How an export of the entries `s` ends: with the failure of the first entry
/// that fails, else with success.
pub open spec fn plan_outcome(s: Seq<CorpusEntry>) -> Result<(), ExportError>
    decreases s.len(),
{
    if s.len() == 0 {
        Ok(())
    } else if plan_outcome(s.drop_last()) is Err {
        plan_outcome(s.drop_last())
    } else {
        match entry_failure(s.last()) {
            Some(err) => Err(err),
            None => Ok(()),
        }
    }
}

/// The steps taken for the entries `s`, up to and including the first that fails.
pub open spec fn entry_steps(s: Seq<CorpusEntry>, dir: Seq<char>) -> Seq<ActionModel>
    decreases s.len(),
{
    if s.len() == 0 {
        seq![]
    } else if plan_outcome(s.drop_last()) is Err {
        entry_steps(s.drop_last(), dir)
    } else {
        entry_steps(s.drop_last(), dir) + entry_actions(s.last(), dir)
    }
}

/// All steps of an export: the count line, then the steps of the entries.
pub open spec fn plan_actions(count: usize, s: Seq<CorpusEntry>, dir: Seq<char>) -> Seq<ActionModel> {
    seq![ActionModel::Log(count_line(count))] + entry_steps(s, dir)
}

/// Once a prefix of the entries has failed, the entries after it change nothing.
pub proof fn lemma_halted(s: Seq<CorpusEntry>, dir: Seq<char>, k: int, n: int)
    requires
        0 <= k <= n <= s.len(),
        plan_outcome(s.take(k)) is Err,
    ensures
        plan_outcome(s.take(n)) == plan_outcome(s.take(k)),
        entry_steps(s.take(n), dir) == entry_steps(s.take(k), dir),
    decreases n - k,
{
    if n > k {
        lemma_halted(s, dir, k, n - 1);
        assert(s.take(n).drop_last() =~= s.take(n - 1));
    }
}

/// The summary line of testcase `id`.
pub fn summary(id: usize, t: &TestcaseRecord) -> (r: String)
    ensures
        r@ == summary_line(id, *t),
{
    let mut s = String::new();
    s.append("Corpus ");
    append_decimal(&mut s, id);
    s.append(": executions ");
    append_decimal(&mut s, t.executions);
    s.append(", scheduled_count ");
    append_decimal(&mut s, t.scheduled_count);
    s.append(", parent_id ");
    append_parent(&mut s, t.parent_id);
    proof {
        assert(s@ =~= summary_line(id, *t));
    }
    s
}

/// Appends the parent as it is logged: its identifier, or `-1` for a seed.
pub fn append_parent(s: &mut String, parent: Option<usize>)
    ensures
        final(s)@ == old(s)@ + parent_label(parent),
{
    match parent {
        Some(p) => append_decimal(s, p),
        None => s.append("-1"),
    }
}

/// The line that reports the size of the corpus.
pub fn count_summary(count: usize) -> (r: String)
    ensures
        r@ == count_line(count),
{
    let mut s = String::new();
    s.append("Total corpus count: ");
    append_decimal(&mut s, count);
    proof {
        assert(s@ =~= count_line(count));
    }
    s
}

/// The file that receives the input of testcase `id` under `dir`.
pub fn testcase_path(dir: &String, id: usize) -> (r: String)
    ensures
        r@ == file_path(dir@, id),
{
    let mut s = dir.clone();
    s.append("/");
    append_decimal(&mut s, id);
    proof {
        assert(s@ =~= file_path(dir@, id));
    }
    s
}

fn copy_bytes(b: &Vec<u8>) -> (r: Vec<u8>)
    ensures
        r@ == b@,
{
    let mut r: Vec<u8> = Vec::new();
    let mut i: usize = 0;
    while i < b.len()
        invariant
            i <= b@.len(),
            r@ == b@.take(i as int),
        decreases b@.len() - i,
    {
        r.push(b[i]);
        i = i + 1;
        proof {
            assert(r@ =~= b@.take(i as int));
        }
    }
    proof {
        assert(b@.take(i as int) =~= b@);
    }
    r
}

/// The steps of exporting `entries` into `output_dir`, given the corpus size
/// `count` to report: the count line, then for each entry in order its summary
/// line and the write of its input to `output_dir/<id>`, stopping at the first
/// entry that did not resolve or holds no input.
pub fn plan_export(count: usize, entries: &Vec<CorpusEntry>, output_dir: &String) -> (r: ExportPlan)
    ensures
        actions_view(r.actions@) == plan_actions(count, entries@, output_dir@),
        r.outcome == plan_outcome(entries@),
{
    let ghost s = entries@;
    let ghost dir = output_dir@;
    let mut actions: Vec<Action> = Vec::new();
    actions.push(Action::Log(count_summary(count)));
    proof {
        assert(s.take(0) =~= Seq::<CorpusEntry>::empty());
        assert(actions_view(actions@) =~= plan_actions(count, s.take(0), dir));
    }
    let mut i: usize = 0;
    while i < entries.len()
        invariant
            s == entries@,
            dir == output_dir@,
            i <= s.len(),
            plan_outcome(s.take(i as int)) is Ok,
            actions_view(actions@) == plan_actions(count, s.take(i as int), dir),
        decreases s.len() - i,
    {
        let e = &entries[i];
        let ghost prev = actions_view(actions@);
        proof {
            assert(s.take(i + 1).drop_last() =~= s.take(i as int));
            assert(s.take(i + 1).last() == s[i as int]);
        }
        match &e.testcase {
            None => {
                proof {
                    lemma_halted(s, dir, i + 1, s.len() as int);
                    assert(s.take(s.len() as int) =~= s);
                    assert(entry_actions(*e, dir) =~= seq![]);
                    assert(actions_view(actions@) =~= plan_actions(count, s.take(i + 1), dir));
                }
                return ExportPlan { actions, outcome: Err(ExportError::Lookup { id: e.id }) };
            },
            Some(t) => {
                actions.push(Action::Log(summary(e.id, t)));
                match &t.input {
                    None => {
                        proof {
                            lemma_halted(s, dir, i + 1, s.len() as int);
                            assert(s.take(s.len() as int) =~= s);
                            assert(actions_view(actions@) =~= prev + entry_actions(*e, dir));
                            assert(actions_view(actions@) =~= plan_actions(count, s.take(i + 1), dir));
                        }
                        return ExportPlan {
                            actions,
                            outcome: Err(ExportError::MissingInput { id: e.id }),
                        };
                    },
                    Some(bytes) => {
                        let path = testcase_path(output_dir, e.id);
                        let contents = copy_bytes(bytes);
                        actions.push(Action::Write { id: e.id, path, contents });
                        proof {
                            assert(actions_view(actions@) =~= prev + entry_actions(*e, dir));
                            assert(actions_view(actions@) =~= plan_actions(count, s.take(i + 1), dir));
                        }
                    },
                }
            },
        }
        i = i + 1;
    }
    proof {
        assert(s.take(s.len() as int) =~= s);
    }
    ExportPlan { actions, outcome: Ok(()) }
}

} // verus!
