//! The batch driver: one report per repository directory under a root,
//! each handed to the output sink before the next repository is visited.

use vstd::prelude::*;
use crate::invocation::Invocation;
use crate::registry::{AnalyzerSpec, Registry};
use crate::invocation::Timed;
use crate::report::{analyze_repo, produced_by, report_of, ReportView};
use crate::sink::{record_body, record_line, render_report};
use crate::text::is_line;

verus! {

/// One entry found directly under the root directory.
#[derive(Debug, Clone, PartialEq, Eq)]
pub struct RootEntry {
    /// The entry's file name, used verbatim as the repository's name.
    pub name: String,
    /// The entry's location, used as the analyzers' working directory.
    pub path: String,
    /// Whether the entry is a directory.
    pub is_dir: bool,
}

/// The entries that stand for repositories: the directories, in the order
/// in which they were listed. Everything else is ignored.
pub open spec fn repositories(entries: Seq<RootEntry>) -> Seq<RootEntry>
    decreases entries.len(),
{
    if entries.len() == 0 {
        Seq::empty()
    } else if entries.last().is_dir {
        repositories(entries.drop_last()).push(entries.last())
    } else {
        repositories(entries.drop_last())
    }
}

/// `line` is the output line of a report on `repository` that holds one
/// text and one timing for each of `names`, and it can be read back from
/// the stream on its own.
pub open spec fn is_record_of(
    line: Seq<char>,
    names: Seq<Seq<char>>,
    repository: Seq<char>,
) -> bool {
    exists|report: ReportView|
        {
            &&& report.name == repository
            &&& report.covers(names)
            &&& report.well_keyed()
            &&& is_line(record_body(report))
            &&& line == #[trigger] record_line(report)
        }
}

/// `line` is the output line of some report over `names`.
pub open spec fn is_record(line: Seq<char>, names: Seq<Seq<char>>) -> bool {
    exists|repository: Seq<char>| is_record_of(line, names, repository)
}

/// `report` is a report on the repository `entry` that follows from running
/// the analyzers `specs` through `run` in the entry's directory.
pub open spec fn is_analysis_of<F: Fn(&str, &AnalyzerSpec) -> Invocation>(
    run: F,
    specs: Seq<AnalyzerSpec>,
    entry: RootEntry,
    report: ReportView,
) -> bool {
    exists|path: &str, outcomes: Seq<Timed<Invocation>>|
        {
            &&& path@ == entry.path@
            &&& #[trigger] produced_by(run, path, specs, outcomes)
            &&& report == report_of(specs, entry.name@, outcomes)
        }
}

/// The sink answered `accepted` when it was handed the record of an
/// analysis of the repository `entry`.
pub open spec fn sink_answered<F: Fn(&str, &AnalyzerSpec) -> Invocation, G: Fn(&str) -> bool>(
    run: F,
    emit: G,
    specs: Seq<AnalyzerSpec>,
    entry: RootEntry,
    accepted: bool,
) -> bool {
    exists|line: &str, report: ReportView|
        #![trigger call_ensures(emit, (line,), accepted), record_line(report)]
        {
            &&& is_analysis_of(run, specs, entry, report)
            &&& line@ == record_line(report)
            &&& call_ensures(emit, (line,), accepted)
        }
}

/// The output sink refused a record, which ends the batch.
#[derive(Debug, PartialEq, Eq)]
pub struct SinkFailure {
    /// The number of records that had been written before the failure.
    pub written: usize,
}

/// Visits the repositories among `entries` in order. For each one it runs
/// every registered analyzer through `run`, encodes the report and hands the
/// line to `emit` before it goes on to the next repository.
///
/// `emit` answers whether the line was written. The first refusal ends the
/// batch; otherwise the batch ends when every repository has its record,
/// however many analyzer invocations failed on the way.
pub fn run_batch<F: Fn(&str, &AnalyzerSpec) -> Invocation, G: Fn(&str) -> bool>(
    registry: &Registry,
    entries: &Vec<RootEntry>,
    run: &F,
    emit: &G,
) -> (res: Result<usize, SinkFailure>)
    requires
        forall|path: &str, k: int, i: int|
            0 <= k < entries.len() && path@ == entries[k].path@ && 0 <= i < registry@.len()
                ==> call_requires(*run, (path, &registry@[i])),
        forall|line: &str| is_record(line@, registry.names()) ==> call_requires(*emit, (line,)),
    ensures
        match res {
            Ok(written) => {
                &&& written == repositories(entries@).len()
                &&& forall|k: int|
                    0 <= k < written ==> sink_answered(
                        *run,
                        *emit,
                        registry@,
                        #[trigger] repositories(entries@)[k],
                        true,
                    )
            },
            Err(failure) => {
                &&& failure.written < repositories(entries@).len()
                &&& forall|k: int|
                    0 <= k < failure.written ==> sink_answered(
                        *run,
                        *emit,
                        registry@,
                        #[trigger] repositories(entries@)[k],
                        true,
                    )
                &&& sink_answered(
                    *run,
                    *emit,
                    registry@,
                    repositories(entries@)[failure.written as int],
                    false,
                )
            },
        },
{
    let ghost names = registry.names();
    let ghost all = repositories(entries@);
    let mut written: usize = 0;
    let mut i: usize = 0;
    assert(entries@.take(0) =~= Seq::<RootEntry>::empty());
    while i < entries.len()
        invariant
            i <= entries.len(),
            names == registry.names(),
            all == repositories(entries@),
            forall|path: &str, k: int, j: int|
                0 <= k < entries.len() && path@ == entries[k].path@ && 0 <= j < registry@.len()
                    ==> call_requires(*run, (path, &registry@[j])),
            forall|line: &str| is_record(line@, names) ==> call_requires(*emit, (line,)),
            written == repositories(entries@.take(i as int)).len(),
            written <= i,
            forall|k: int|
                0 <= k < written ==> sink_answered(*run, *emit, registry@, #[trigger] all[k], true),
        decreases entries.len() - i,
    {
        proof {
            assert(entries@.take(i + 1).drop_last() =~= entries@.take(i as int));
            lemma_repositories_prefix(entries@, i + 1);
        }
        let entry = &entries[i];
        if entry.is_dir {
            assert(all[written as int] == *entry);
            let path = entry.path.as_str();
            let report = analyze_repo(registry, path, entry.name.as_str(), run);
            assert(is_analysis_of(*run, registry@, *entry, report@)) by {
                let outcomes = choose|outcomes: Seq<Timed<Invocation>>|
                    produced_by(*run, path, registry@, outcomes) && report@ == report_of(
                        registry@,
                        entry.name@,
                        outcomes,
                    );
                assert(produced_by(*run, path, registry@, outcomes));
            }
            let line = render_report(&report);
            assert(is_record_of(line@, names, entry.name@)) by {
                assert(line@ == record_line(report@));
            }
            let text = line.as_str();
            let accepted = emit(text);
            assert(sink_answered(*run, *emit, registry@, *entry, accepted)) by {
                assert(call_ensures(*emit, (text,), accepted));
                assert(text@ == record_line(report@));
            }
            if !accepted {
                return Err(SinkFailure { written });
            }
            written += 1;
        }
        i += 1;
    }
    assert(entries@.take(i as int) =~= entries@);
    Ok(written)
}

/// The repositories among the first `count` entries are the first
/// repositories among all entries.
pub proof fn lemma_repositories_prefix(entries: Seq<RootEntry>, count: int)
    requires
        0 <= count <= entries.len(),
    ensures
        repositories(entries.take(count)).len() <= repositories(entries).len(),
        forall|k: int|
            0 <= k < repositories(entries.take(count)).len() ==> repositories(
                entries.take(count),
            )[k] == repositories(entries)[k],
    decreases entries.len() - count,
{
    if count < entries.len() {
        lemma_repositories_prefix(entries, count + 1);
        assert(entries.take(count + 1).drop_last() =~= entries.take(count));
    } else {
        assert(entries.take(count) =~= entries);
    }
}

} // verus!
