use vstd::prelude::*;

use libafl::corpus::InMemoryCorpus;
use libafl::inputs::BytesInput;

use crate::plan::{
    actions_view, plan_actions, plan_export, plan_outcome, CorpusEntry, ExportPlan, TestcaseRecord,
};

verus! {

/// An in-memory corpus of byte inputs, as the fuzzing engine keeps it. Its
/// contents are seen through [`corpus_order`] and [`corpus_contents`].
#[verifier::external_body]
pub struct StoredCorpus {
    pub corpus: InMemoryCorpus<BytesInput>,
}

/// The identifiers of a corpus, in the order in which it enumerates them.
pub uninterp spec fn corpus_order(c: StoredCorpus) -> Seq<usize>;

/// The testcases stored in a corpus, by identifier: executions, scheduled
/// count, parent and input bytes.
pub uninterp spec fn corpus_contents(c: StoredCorpus) -> Map<
    usize,
    (usize, usize, Option<usize>, Option<Seq<u8>>),
>;

/// The fields of a record, as [`corpus_contents`] gives them.
pub open spec fn record_view(t: TestcaseRecord) -> (usize, usize, Option<usize>, Option<Seq<u8>>) {
    (
        t.executions,
        t.scheduled_count,
        t.parent_id,
        match t.input {
            Some(b) => Some(b@),
            None => None,
        },
    )
}

/// Relies on libafl's `Corpus::count` for `InMemoryCorpus`: the number of
/// testcases in its storage map.
#[verifier::external_body]
fn stored_count(c: &StoredCorpus) -> (r: usize)
    ensures
        r == corpus_contents(*c).dom().len(),
{
    libafl::corpus::Corpus::count(&c.corpus)
}

/// Relies on libafl's `Corpus::ids`: the identifiers in enumeration order.
#[verifier::external_body]
fn stored_ids(c: &StoredCorpus) -> (r: Vec<usize>)
    ensures
        r@ == corpus_order(*c),
{
    libafl::corpus::Corpus::ids(&c.corpus).map(usize::from).collect()
}

/// Relies on libafl's `Corpus::get` for `InMemoryCorpus`, which finds the
/// testcase of an identifier in its storage map or fails, and on the getters of
/// `Testcase` and `BytesInput`, which hand out the stored fields. The testcase
/// is borrowed with `RefCell::try_borrow`; where it is borrowed mutably
/// elsewhere, the result is `None`.
#[verifier::external_body]
fn stored_testcase(c: &StoredCorpus, id: usize) -> (r: Option<TestcaseRecord>)
    ensures
        r is Some ==> corpus_contents(*c).contains_key(id)
            && record_view(r.unwrap()) == corpus_contents(*c)[id],
        !corpus_contents(*c).contains_key(id) ==> r is None,
{
    let cell = libafl::corpus::Corpus::get(&c.corpus, libafl::corpus::CorpusId::from(id)).ok()?;
    let t = cell.try_borrow().ok()?;
    Some(TestcaseRecord {
        executions: *t.executions(),
        scheduled_count: t.scheduled_count(),
        parent_id: t.parent_id().map(usize::from),
        input: t.input().as_ref().map(|i| libafl::inputs::HasBytesVec::bytes(i).to_vec()),
    })
}

/// A read of a whole corpus: its size and each identifier with its testcase.
pub struct CorpusSnapshot {
    pub count: usize,
    pub entries: Vec<CorpusEntry>,
}

/// `e` is what a read of identifier `id` of `c` may give.
pub open spec fn entry_read_from(c: StoredCorpus, id: usize, e: CorpusEntry) -> bool {
    &&& e.id == id
    &&& e.testcase is Some ==> corpus_contents(c).contains_key(id)
        && record_view(e.testcase.unwrap()) == corpus_contents(c)[id]
    &&& !corpus_contents(c).contains_key(id) ==> e.testcase is None
}

/// Reads the size of `c` and each of its identifiers, in enumeration order,
/// with the testcase it resolves to.
pub fn snapshot(c: &StoredCorpus) -> (r: CorpusSnapshot)
    ensures
        r.count == corpus_contents(*c).dom().len(),
        r.entries@.len() == corpus_order(*c).len(),
        forall|i: int| 0 <= i < r.entries@.len() ==>
            entry_read_from(*c, corpus_order(*c)[i], #[trigger] r.entries@[i]),
{
    let count = stored_count(c);
    let ids = stored_ids(c);
    let mut entries: Vec<CorpusEntry> = Vec::new();
    let mut i: usize = 0;
    while i < ids.len()
        invariant
            ids@ == corpus_order(*c),
            i <= ids@.len(),
            entries@.len() == i,
            forall|k: int| 0 <= k < i ==> entry_read_from(*c, ids@[k], #[trigger] entries@[k]),
        decreases ids@.len() - i,
    {
        let id = ids[i];
        let testcase = stored_testcase(c, id);
        entries.push(CorpusEntry { id, testcase });
        i = i + 1;
    }
    CorpusSnapshot { count, entries }
}

/// `s` is what a read of every identifier of `c`, in enumeration order, may give.
pub open spec fn read_from(c: StoredCorpus, s: Seq<CorpusEntry>) -> bool {
    &&& s.len() == corpus_order(c).len()
    &&& forall|i: int| 0 <= i < s.len() ==> entry_read_from(c, corpus_order(c)[i], #[trigger] s[i])
}

/// The steps of exporting `c` into `output_dir`: those of [`plan_export`] on
/// a read of the whole corpus, reporting the number of stored testcases.
pub fn export_plan(c: &StoredCorpus, output_dir: &String) -> (r: ExportPlan)
    ensures
        exists|s: Seq<CorpusEntry>| #[trigger] read_from(*c, s)
            && actions_view(r.actions@) == plan_actions(
                corpus_contents(*c).dom().len() as usize,
                s,
                output_dir@,
            ) && r.outcome == plan_outcome(s),
{
    let snap = snapshot(c);
    let r = plan_export(snap.count, &snap.entries, output_dir);
    assert(read_from(*c, snap.entries@));
    r
}

} // verus!
