//! The full pipeline: which steps run, in which order, and on which files.

use vstd::prelude::*;

verus! {

/// One step of the full pipeline.
#[derive(Debug, Clone, Copy, PartialEq, Eq, Structural)]
pub enum Step {
    /// Filter the candidate table into the list of repository names.
    Filter,
    /// Fetch every listed repository.
    Fetch,
    /// Run the analyzers and write one record per repository.
    Analyze,
    /// Write the source dump.
    Collect,
}

/// The steps of a full run: all four in order where the candidate table is
/// present, and none at all where it is missing.
pub open spec fn steps_of(table_present: bool) -> Seq<Step> {
    if table_present {
        seq![Step::Filter, Step::Fetch, Step::Analyze, Step::Collect]
    } else {
        Seq::empty()
    }
}

/// Plans a full run.
pub fn full_run(table_present: bool) -> (steps: Vec<Step>)
    ensures
        steps@ == steps_of(table_present),
{
    let mut steps: Vec<Step> = Vec::new();
    if table_present {
        steps.push(Step::Filter);
        steps.push(Step::Fetch);
        steps.push(Step::Analyze);
        steps.push(Step::Collect);
    }
    assert(steps@ =~= steps_of(table_present));
    steps
}

/// The files and directories that a full run reads and writes.
#[derive(Debug, Clone, PartialEq, Eq)]
pub struct Layout {
    /// The candidate table.
    pub table: String,
    /// The list of names that the filter writes and the fetch reads.
    pub names: String,
    /// The directory that receives the repositories.
    pub repositories: String,
    /// The stream of analysis records.
    pub outputs: String,
    /// The source dump.
    pub code: String,
}

impl Layout {
    /// The layout of a full run in the current directory.
    pub fn standard() -> (layout: Layout)
        ensures
            layout.table@ == "input.csv"@,
            layout.names@ == "filtered_repos.txt"@,
            layout.repositories@ == "datasets"@,
            layout.outputs@ == "outputs.jsonl"@,
            layout.code@ == "code.jsonl"@,
    {
        Layout {
            table: "input.csv".to_owned(),
            names: "filtered_repos.txt".to_owned(),
            repositories: "datasets".to_owned(),
            outputs: "outputs.jsonl".to_owned(),
            code: "code.jsonl".to_owned(),
        }
    }
}

} // verus!
