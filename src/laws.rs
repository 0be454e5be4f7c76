use vstd::prelude::*;

use crate::decimal::{decimal, lemma_decimal_injective};
use crate::plan::{
    count_line, entry_actions, entry_steps, file_path, lemma_halted, plan_actions, plan_outcome,
    ActionModel, CorpusEntry, ExportError,
};

verus! {

/// The file writes among `a`, in order: identifier, path and contents.
pub open spec fn written(a: Seq<ActionModel>) -> Seq<(usize, Seq<char>, Seq<u8>)>
    decreases a.len(),
{
    if a.len() == 0 {
        seq![]
    } else {
        match a.last() {
            ActionModel::Write(id, path, contents) => written(a.drop_last()).push((id, path, contents)),
            ActionModel::Log(_) => written(a.drop_last()),
        }
    }
}

/// The write that exporting entry `e` into `dir` makes, where it holds an input.
pub open spec fn entry_write(dir: Seq<char>, e: CorpusEntry) -> (usize, Seq<char>, Seq<u8>) {
    (e.id, file_path(dir, e.id), e.testcase.unwrap().input.unwrap()@)
}

/// Every entry resolved and holds an input.
pub open spec fn all_present(s: Seq<CorpusEntry>) -> bool {
    forall|i: int| 0 <= i < s.len() ==> (#[trigger] s[i]).testcase is Some
        && s[i].testcase.unwrap().input is Some
}

/// The contents of the files under a directory after carrying out the writes
/// of `a` on `files`, each write replacing the whole file.
pub open spec fn apply_writes(files: Map<Seq<char>, Seq<u8>>, a: Seq<ActionModel>) -> Map<Seq<char>, Seq<u8>>
    decreases a.len(),
{
    if a.len() == 0 {
        files
    } else {
        match a.last() {
            ActionModel::Write(_, path, contents) => apply_writes(files, a.drop_last()).insert(path, contents),
            ActionModel::Log(_) => apply_writes(files, a.drop_last()),
        }
    }
}

proof fn lemma_written_append(a: Seq<ActionModel>, b: Seq<ActionModel>)
    ensures
        written(a + b) == written(a) + written(b),
    decreases b.len(),
{
    if b.len() == 0 {
        assert(a + b =~= a);
        assert(written(b) =~= seq![]);
        assert(written(a) + written(b) =~= written(a));
    } else {
        lemma_written_append(a, b.drop_last());
        assert((a + b).drop_last() =~= a + b.drop_last());
        assert((a + b).last() == b.last());
        match b.last() {
            ActionModel::Write(id, path, contents) => {
                assert(written(a) + written(b) =~= (written(a) + written(b.drop_last())).push((id, path, contents)));
            },
            ActionModel::Log(_) => {},
        }
    }
}

proof fn lemma_entry_written(e: CorpusEntry, dir: Seq<char>)
    ensures
        e.testcase is Some && e.testcase.unwrap().input is Some ==>
            written(entry_actions(e, dir)) == seq![entry_write(dir, e)],
        !(e.testcase is Some && e.testcase.unwrap().input is Some) ==>
            written(entry_actions(e, dir)) == Seq::<(usize, Seq<char>, Seq<u8>)>::empty(),
{
    reveal_with_fuel(written, 3);
    let a = entry_actions(e, dir);
    if a.len() > 0 {
        assert(a.drop_last().len() <= 1);
        if a.len() == 2 {
            assert(a.drop_last().drop_last() =~= Seq::<ActionModel>::empty());
            assert(written(a.drop_last()) =~= Seq::<(usize, Seq<char>, Seq<u8>)>::empty());
            assert(written(a) =~= seq![entry_write(dir, e)]);
        } else {
            assert(a.drop_last() =~= Seq::<ActionModel>::empty());
        }
    }
}

/// The writes of an export are those of a prefix of the entries, each the
/// entry's own input under its own identifier; after a success, of all of them.
proof fn lemma_steps_written(s: Seq<CorpusEntry>, dir: Seq<char>)
    ensures
        written(entry_steps(s, dir)).len() <= s.len(),
        forall|k: int| 0 <= k < written(entry_steps(s, dir)).len() ==>
            (#[trigger] s[k]).testcase is Some && s[k].testcase.unwrap().input is Some
            && written(entry_steps(s, dir))[k] == entry_write(dir, s[k]),
        plan_outcome(s) is Ok ==> written(entry_steps(s, dir)).len() == s.len(),
    decreases s.len(),
{
    if s.len() > 0 {
        let t = s.drop_last();
        lemma_steps_written(t, dir);
        let wt = written(entry_steps(t, dir));
        let ws = written(entry_steps(s, dir));
        if plan_outcome(t) is Ok {
            lemma_written_append(entry_steps(t, dir), entry_actions(s.last(), dir));
            lemma_entry_written(s.last(), dir);
        }
        assert forall|k: int| 0 <= k < ws.len() implies
            (#[trigger] s[k]).testcase is Some && s[k].testcase.unwrap().input is Some
            && ws[k] == entry_write(dir, s[k]) by {
            if k < wt.len() {
                assert(s[k] == t[k]);
                assert(ws[k] == wt[k]);
            } else {
                assert(k == t.len());
                assert(s[k] == s.last());
            }
        }
    }
}

proof fn lemma_all_present_ok(s: Seq<CorpusEntry>)
    requires
        all_present(s),
    ensures
        plan_outcome(s) is Ok,
    decreases s.len(),
{
    if s.len() > 0 {
        assert(all_present(s.drop_last())) by {
            assert forall|i: int| 0 <= i < s.drop_last().len() implies
                (#[trigger] s.drop_last()[i]).testcase is Some
                && s.drop_last()[i].testcase.unwrap().input is Some by {
                assert(s.drop_last()[i] == s[i]);
            }
        }
        lemma_all_present_ok(s.drop_last());
        assert(s.last() == s[s.len() - 1]);
    }
}

proof fn lemma_plan_written(count: usize, s: Seq<CorpusEntry>, dir: Seq<char>)
    ensures
        written(plan_actions(count, s, dir)) == written(entry_steps(s, dir)),
{
    reveal_with_fuel(written, 2);
    let head = seq![ActionModel::Log(count_line(count))];
    lemma_written_append(head, entry_steps(s, dir));
    assert(head.drop_last() =~= Seq::<ActionModel>::empty());
    assert(written(head) =~= Seq::<(usize, Seq<char>, Seq<u8>)>::empty());
    assert(written(head) + written(entry_steps(s, dir)) =~= written(entry_steps(s, dir)));
}

/// Completeness: where every entry resolves and holds an input, the export
/// succeeds and writes one file per entry, in order, each named by the entry's
/// identifier and holding its input.
pub proof fn lemma_export_complete(count: usize, s: Seq<CorpusEntry>, dir: Seq<char>)
    requires
        all_present(s),
    ensures
        plan_outcome(s) is Ok,
        written(plan_actions(count, s, dir)) == s.map_values(|e: CorpusEntry| entry_write(dir, e)),
{
    lemma_all_present_ok(s);
    lemma_steps_written(s, dir);
    lemma_plan_written(count, s, dir);
    assert(written(plan_actions(count, s, dir)) =~= s.map_values(|e: CorpusEntry| entry_write(dir, e)));
}

/// No two entries share an identifier.
pub open spec fn ids_distinct(s: Seq<CorpusEntry>) -> bool {
    forall|i: int, j: int| 0 <= i < s.len() && 0 <= j < s.len() && i != j ==> s[i].id != s[j].id
}

/// Distinct identifiers name distinct files under one directory.
pub proof fn lemma_file_path_injective(dir: Seq<char>, a: usize, b: usize)
    requires
        file_path(dir, a) == file_path(dir, b),
    ensures
        a == b,
{
    let pre = dir + "/"@;
    assert(file_path(dir, a).subrange(pre.len() as int, file_path(dir, a).len() as int) =~= decimal(a as nat));
    assert(file_path(dir, b).subrange(pre.len() as int, file_path(dir, b).len() as int) =~= decimal(b as nat));
    lemma_decimal_injective(a as nat, b as nat);
}

/// Completeness, counted in files: where the corpus's identifiers are distinct
/// and every entry resolves and holds an input, the export writes as many
/// distinct files as there are entries.
pub proof fn lemma_export_file_count(count: usize, s: Seq<CorpusEntry>, dir: Seq<char>)
    requires
        all_present(s),
        ids_distinct(s),
    ensures
        written(plan_actions(count, s, dir)).len() == s.len(),
        forall|i: int, j: int| 0 <= i < s.len() && 0 <= j < s.len() && i != j ==>
            (#[trigger] written(plan_actions(count, s, dir))[i]).1
                != (#[trigger] written(plan_actions(count, s, dir))[j]).1,
{
    lemma_export_complete(count, s, dir);
    let w = written(plan_actions(count, s, dir));
    assert forall|i: int, j: int| 0 <= i < s.len() && 0 <= j < s.len() && i != j implies
        (#[trigger] w[i]).1 != (#[trigger] w[j]).1 by {
        assert(w[i] == entry_write(dir, s[i]));
        assert(w[j] == entry_write(dir, s[j]));
        if w[i].1 == w[j].1 {
            lemma_file_path_injective(dir, s[i].id, s[j].id);
        }
    }
}

/// Content fidelity: each file that an export writes holds exactly the input
/// of the entry it is named after, and the written entries are the first ones
/// of the corpus, in order.
pub proof fn lemma_export_fidelity(count: usize, s: Seq<CorpusEntry>, dir: Seq<char>)
    ensures
        written(plan_actions(count, s, dir)).len() <= s.len(),
        forall|k: int| 0 <= k < written(plan_actions(count, s, dir)).len() ==>
            (#[trigger] s[k]).testcase is Some && s[k].testcase.unwrap().input is Some
            && written(plan_actions(count, s, dir))[k] == entry_write(dir, s[k]),
{
    lemma_steps_written(s, dir);
    lemma_plan_written(count, s, dir);
}

/// An empty corpus exports with success and writes no file.
pub proof fn lemma_export_empty(count: usize, s: Seq<CorpusEntry>, dir: Seq<char>)
    requires
        s.len() == 0,
    ensures
        plan_outcome(s) is Ok,
        written(plan_actions(count, s, dir)).len() == 0,
        plan_actions(count, s, dir) == seq![ActionModel::Log(count_line(count))],
{
    lemma_plan_written(count, s, dir);
    assert(plan_actions(count, s, dir) =~= seq![ActionModel::Log(count_line(count))]);
}

/// An entry without input stops the export with a missing-input error for
/// that entry, where every entry resolves: it is not skipped, and no file is
/// written for it or for any entry after it.
pub proof fn lemma_export_missing_input(count: usize, s: Seq<CorpusEntry>, dir: Seq<char>, j: int)
    requires
        0 <= j < s.len(),
        forall|i: int| 0 <= i < s.len() ==> (#[trigger] s[i]).testcase is Some,
        s[j].testcase.unwrap().input is None,
        forall|i: int| 0 <= i < j ==> (#[trigger] s[i]).testcase.unwrap().input is Some,
    ensures
        plan_outcome(s) == Err::<(), ExportError>(ExportError::MissingInput { id: s[j].id }),
        written(plan_actions(count, s, dir)).len() == j,
{
    let p = s.take(j);
    assert(all_present(p)) by {
        assert forall|i: int| 0 <= i < p.len() implies (#[trigger] p[i]).testcase is Some
            && p[i].testcase.unwrap().input is Some by {
            assert(p[i] == s[i]);
        }
    }
    lemma_all_present_ok(p);
    lemma_steps_written(p, dir);
    let q = s.take(j + 1);
    assert(q.drop_last() =~= p);
    assert(q.last() == s[j]);
    lemma_written_append(entry_steps(p, dir), entry_actions(s[j], dir));
    lemma_entry_written(s[j], dir);
    lemma_halted(s, dir, j + 1, s.len() as int);
    assert(s.take(s.len() as int) =~= s);
    lemma_plan_written(count, s, dir);
}

proof fn lemma_apply_union(files: Map<Seq<char>, Seq<u8>>, a: Seq<ActionModel>)
    ensures
        apply_writes(files, a) == files.union_prefer_right(apply_writes(Map::empty(), a)),
    decreases a.len(),
{
    if a.len() == 0 {
        assert(files.union_prefer_right(Map::empty()) =~= files);
    } else {
        lemma_apply_union(files, a.drop_last());
        match a.last() {
            ActionModel::Write(_, path, contents) => {
                assert(apply_writes(files, a) =~= files.union_prefer_right(apply_writes(Map::empty(), a)));
            },
            ActionModel::Log(_) => {},
        }
    }
}

/// Idempotence: carrying out the writes of an export a second time on the
/// directory that the first left leaves every file as the first left it.
pub proof fn lemma_export_idempotent(
    count: usize,
    s: Seq<CorpusEntry>,
    dir: Seq<char>,
    files: Map<Seq<char>, Seq<u8>>,
)
    ensures
        apply_writes(apply_writes(files, plan_actions(count, s, dir)), plan_actions(count, s, dir))
            == apply_writes(files, plan_actions(count, s, dir)),
{
    let a = plan_actions(count, s, dir);
    let w = apply_writes(Map::empty(), a);
    lemma_apply_union(files, a);
    lemma_apply_union(apply_writes(files, a), a);
    assert(files.union_prefer_right(w).union_prefer_right(w) =~= files.union_prefer_right(w));
}

} // verus!
