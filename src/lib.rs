//! Snapshot export of a fuzzing corpus: the decisions of an export (what is
//! logged, which file receives which bytes, where the export stops) as verified
//! functions over a plain model of the corpus.
pub mod decimal;
pub mod plan;
pub mod corpus;
pub mod laws;

pub use corpus::{export_plan, snapshot, CorpusSnapshot, StoredCorpus};
pub use decimal::{append_decimal, decimal_string};
pub use plan::{
    append_parent, count_summary, plan_export, summary, testcase_path, Action, CorpusEntry,
    ExportError, ExportPlan, TestcaseRecord,
};
