//! The per-repository analyzer: runs every registered analyzer against one
//! repository and gathers texts and timings into one report.

use vstd::prelude::*;
use crate::invocation::{captured, timed, Invocation, Timed};
use crate::registry::{admissible, names_of, AnalyzerSpec, Registry};

verus! {

/// The text captured from one analyzer, under the analyzer's name.
#[derive(Debug, Clone, PartialEq, Eq)]
pub struct AnalyzerResult {
    pub name: String,
    pub text: String,
}

/// The time one analyzer took, under the analyzer's name.
#[derive(Debug, Clone, PartialEq, Eq)]
pub struct Timing {
    pub name: String,
    pub elapsed_ms: u128,
}

/// Elapsed milliseconds per analyzer, in registry order.
#[derive(Debug, Clone, PartialEq, Eq)]
pub struct TimingRecord {
    pub entries: Vec<Timing>,
}

/// Everything recorded for one repository: its name, one captured text per
/// registered analyzer and one timing per registered analyzer.
#[derive(Debug, Clone, PartialEq, Eq)]
pub struct RepositoryReport {
    pub name: String,
    pub results: Vec<AnalyzerResult>,
    pub timings: TimingRecord,
}

/// Mathematical content of an `AnalyzerResult`.
pub struct ResultView {
    pub name: Seq<char>,
    pub text: Seq<char>,
}

/// Mathematical content of a `Timing`.
pub struct TimingView {
    pub name: Seq<char>,
    pub elapsed_ms: u128,
}

/// Mathematical content of a `RepositoryReport`.
pub struct ReportView {
    pub name: Seq<char>,
    pub results: Seq<ResultView>,
    pub timings: Seq<TimingView>,
}

impl View for AnalyzerResult {
    type V = ResultView;

    open spec fn view(&self) -> ResultView {
        ResultView { name: self.name@, text: self.text@ }
    }
}

impl View for Timing {
    type V = TimingView;

    open spec fn view(&self) -> TimingView {
        TimingView { name: self.name@, elapsed_ms: self.elapsed_ms }
    }
}

impl View for TimingRecord {
    type V = Seq<TimingView>;

    open spec fn view(&self) -> Seq<TimingView> {
        self.entries@.map_values(|t: Timing| t@)
    }
}

impl View for RepositoryReport {
    type V = ReportView;

    open spec fn view(&self) -> ReportView {
        ReportView {
            name: self.name@,
            results: self.results@.map_values(|r: AnalyzerResult| r@),
            timings: self.timings@,
        }
    }
}

/// The report that follows from the outcomes of the analyzers `specs`, run
/// in order against the repository `repository`: slot `i` holds the name of
/// analyzer `i`, the text captured from its invocation and the time it took.
pub open spec fn report_of(
    specs: Seq<AnalyzerSpec>,
    repository: Seq<char>,
    outcomes: Seq<Timed<Invocation>>,
) -> ReportView {
    ReportView {
        name: repository,
        results: Seq::new(
            specs.len(),
            |i: int| ResultView { name: specs[i].name@, text: captured(outcomes[i].value) },
        ),
        timings: Seq::new(
            specs.len(),
            |i: int| TimingView { name: specs[i].name@, elapsed_ms: outcomes[i].elapsed_ms },
        ),
    }
}

impl ReportView {
    /// The names under which the captured texts stand, in order.
    pub open spec fn result_names(self) -> Seq<Seq<char>> {
        self.results.map_values(|r: ResultView| r.name)
    }

    /// The names under which the timings stand, in order.
    pub open spec fn timing_names(self) -> Seq<Seq<char>> {
        self.timings.map_values(|t: TimingView| t.name)
    }

    /// The fields of the report's record have distinct names: no analyzer
    /// name occurs twice or collides with a field of the record itself, and
    /// the timings stand under the same names as the texts.
    pub open spec fn well_keyed(self) -> bool {
        admissible(self.result_names()) && self.timing_names() == self.result_names()
    }

    /// The report has exactly one text and one timing for each of `names`,
    /// in that order.
    pub open spec fn covers(self, names: Seq<Seq<char>>) -> bool {
        &&& self.results.len() == names.len()
        &&& self.timings.len() == names.len()
        &&& forall|i: int| 0 <= i < names.len() ==> (#[trigger] self.results[i]).name == names[i]
        &&& forall|i: int| 0 <= i < names.len() ==> (#[trigger] self.timings[i]).name == names[i]
    }
}

/// Whatever the outcomes are, the report holds exactly one text and one
/// timing per analyzer, under the analyzers' names and in their order.
pub proof fn lemma_report_covers_registry(
    specs: Seq<AnalyzerSpec>,
    repository: Seq<char>,
    outcomes: Seq<Timed<Invocation>>,
)
    ensures
        report_of(specs, repository, outcomes).covers(names_of(specs)),
        report_of(specs, repository, outcomes).name == repository,
{
}

/// A report over the names of a registry has distinctly named fields.
pub proof fn lemma_covering_report_is_well_keyed(report: ReportView, names: Seq<Seq<char>>)
    requires
        admissible(names),
        report.covers(names),
    ensures
        report.well_keyed(),
        report.result_names() == names,
{
    assert(report.result_names() =~= names);
    assert(report.timing_names() =~= names);
}

/// An analyzer that could not be started, or was terminated, still has its
/// slot in the report: the empty placeholder under the analyzer's name.
pub proof fn lemma_failed_slot_holds_placeholder(
    specs: Seq<AnalyzerSpec>,
    repository: Seq<char>,
    outcomes: Seq<Timed<Invocation>>,
    slot: int,
)
    requires
        0 <= slot < specs.len(),
        !(outcomes[slot].value is Completed),
    ensures
        report_of(specs, repository, outcomes).results[slot] == (ResultView {
            name: specs[slot].name@,
            text: Seq::empty(),
        }),
{
}

/// What a slot holds depends on the outcome of its own analyzer alone: two
/// runs that agree on one analyzer's outcome agree on its slot, whatever
/// happened to the other analyzers.
pub proof fn lemma_slots_are_independent(
    specs: Seq<AnalyzerSpec>,
    repository: Seq<char>,
    first: Seq<Timed<Invocation>>,
    second: Seq<Timed<Invocation>>,
    slot: int,
)
    requires
        0 <= slot < specs.len(),
        first[slot] == second[slot],
    ensures
        report_of(specs, repository, first).results[slot] == report_of(
            specs,
            repository,
            second,
        ).results[slot],
        report_of(specs, repository, first).timings[slot] == report_of(
            specs,
            repository,
            second,
        ).timings[slot],
{
}

/// The time measured for an invocation is recorded under the analyzer's
/// name whether or not the invocation completed, and is never negative.
pub proof fn lemma_timing_is_always_recorded(
    specs: Seq<AnalyzerSpec>,
    repository: Seq<char>,
    outcomes: Seq<Timed<Invocation>>,
    slot: int,
)
    requires
        0 <= slot < specs.len(),
    ensures
        report_of(specs, repository, outcomes).timings[slot] == (TimingView {
            name: specs[slot].name@,
            elapsed_ms: outcomes[slot].elapsed_ms,
        }),
        report_of(specs, repository, outcomes).timings[slot].elapsed_ms >= 0,
{
}

/// `index` is the first slot that stands under `name`.
pub open spec fn is_first_under(names: Seq<Seq<char>>, name: Seq<char>, index: int) -> bool {
    &&& 0 <= index < names.len()
    &&& names[index] == name
    &&& forall|j: int| 0 <= j < index ==> names[j] != name
}

impl TimingRecord {
    /// The names under which the timings stand, in order.
    pub open spec fn names(&self) -> Seq<Seq<char>> {
        self@.map_values(|t: TimingView| t.name)
    }

    /// The elapsed milliseconds recorded under `analyzer`, if any.
    pub fn get(&self, analyzer: &str) -> (found: Option<u128>)
        ensures
            match found {
                Some(elapsed_ms) => exists|i: int|
                    is_first_under(self.names(), analyzer@, i) && self@[i].elapsed_ms
                        == elapsed_ms,
                None => !self.names().contains(analyzer@),
            },
    {
        let key = analyzer.to_owned();
        let n = self.entries.len();
        for i in 0..n
            invariant
                n == self.entries.len(),
                key@ == analyzer@,
                forall|j: int| 0 <= j < i ==> self.names()[j] != analyzer@,
        {
            if self.entries[i].name == key {
                assert(is_first_under(self.names(), analyzer@, i as int));
                return Some(self.entries[i].elapsed_ms);
            }
        }
        None
    }
}

impl RepositoryReport {
    /// The names under which the captured texts stand, in order.
    pub open spec fn result_names(&self) -> Seq<Seq<char>> {
        self@.result_names()
    }

    /// The text captured from `analyzer`, if the report has a slot for it.
    pub fn text_of(&self, analyzer: &str) -> (found: Option<&String>)
        ensures
            match found {
                Some(text) => exists|i: int|
                    is_first_under(self.result_names(), analyzer@, i) && self@.results[i].text
                        == text@,
                None => !self.result_names().contains(analyzer@),
            },
    {
        let key = analyzer.to_owned();
        let n = self.results.len();
        for i in 0..n
            invariant
                n == self.results.len(),
                key@ == analyzer@,
                forall|j: int| 0 <= j < i ==> self.result_names()[j] != analyzer@,
        {
            if self.results[i].name == key {
                assert(is_first_under(self.result_names(), analyzer@, i as int));
                return Some(&self.results[i].text);
            }
        }
        None
    }

    /// Builds the report of one repository from the outcomes of its
    /// analyzer invocations, which are given in registry order. There must
    /// be one outcome per registered analyzer; otherwise no report is made.
    pub fn assemble(
        registry: &Registry,
        repository: &str,
        outcomes: Vec<Timed<Invocation>>,
    ) -> (res: Option<RepositoryReport>)
        ensures
            res is Some <==> outcomes.len() == registry@.len(),
            res is Some ==> res->0@ == report_of(registry@, repository@, outcomes@),
            res is Some ==> res->0@.well_keyed(),
    {
        let n = registry.len();
        if outcomes.len() != n {
            return None;
        }
        let mut results: Vec<AnalyzerResult> = Vec::new();
        let mut entries: Vec<Timing> = Vec::new();
        let ghost want = report_of(registry@, repository@, outcomes@);
        for i in 0..n
            invariant
                n == registry@.len(),
                n == outcomes.len(),
                want == report_of(registry@, repository@, outcomes@),
                results.len() == i,
                entries.len() == i,
                forall|k: int| 0 <= k < i ==> (#[trigger] results[k])@ == want.results[k],
                forall|k: int| 0 <= k < i ==> (#[trigger] entries[k])@ == want.timings[k],
        {
            let spec = registry.get(i);
            let text = outcomes[i].value.captured_text();
            results.push(AnalyzerResult { name: spec.name.clone(), text });
            entries.push(Timing { name: spec.name.clone(), elapsed_ms: outcomes[i].elapsed_ms });
        }
        let report = RepositoryReport {
            name: repository.to_owned(),
            results,
            timings: TimingRecord { entries },
        };
        assert(report@.results =~= want.results);
        assert(report@.timings =~= want.timings);
        proof {
            lemma_covering_report_is_well_keyed(report@, registry.names());
        }
        Some(report)
    }
}

/// The outcomes are one possible result of calling `run` once per analyzer
/// of `specs`, each time with the working directory `path`.
pub open spec fn produced_by<F: Fn(&str, &AnalyzerSpec) -> Invocation>(
    run: F,
    path: &str,
    specs: Seq<AnalyzerSpec>,
    outcomes: Seq<Timed<Invocation>>,
) -> bool {
    &&& outcomes.len() == specs.len()
    &&& forall|i: int|
        0 <= i < specs.len() ==> call_ensures(
            run,
            (path, &specs[i]),
            (#[trigger] outcomes[i]).value,
        )
}

/// Runs every registered analyzer against the repository at `path`, in
/// registry order and one after the other, and returns the complete report
/// under the display name `name`.
///
/// `run` is the process runner: it is handed the working directory and the
/// analyzer to invoke and reports how the invocation ended. Each call is
/// timed, whatever its outcome, and an invocation that did not complete
/// leaves the empty placeholder text in its slot; it never keeps the
/// remaining analyzers from running.
pub fn analyze_repo<F: Fn(&str, &AnalyzerSpec) -> Invocation>(
    registry: &Registry,
    path: &str,
    name: &str,
    run: &F,
) -> (report: RepositoryReport)
    requires
        forall|i: int| 0 <= i < registry@.len() ==> call_requires(*run, (path, &registry@[i])),
    ensures
        exists|outcomes: Seq<Timed<Invocation>>|
            produced_by(*run, path, registry@, outcomes) && report@ == report_of(
                registry@,
                name@,
                outcomes,
            ),
        report@.covers(registry.names()),
        report@.well_keyed(),
{
    let n = registry.len();
    let mut outcomes: Vec<Timed<Invocation>> = Vec::new();
    for i in 0..n
        invariant
            n == registry@.len(),
            outcomes.len() == i,
            forall|k: int| 0 <= k < registry@.len() ==> call_requires(*run, (path, &registry@[k])),
            forall|k: int|
                0 <= k < i ==> call_ensures(
                    *run,
                    (path, &registry@[k]),
                    (#[trigger] outcomes[k]).value,
                ),
    {
        let spec = registry.get(i);
        let invoke = || -> (invocation: Invocation)
            requires
                call_requires(*run, (path, spec)),
            ensures
                call_ensures(*run, (path, spec), invocation),
            { run(path, spec) };
        outcomes.push(timed(invoke));
    }
    let ghost seen = outcomes@;
    assert(produced_by(*run, path, registry@, seen));
    RepositoryReport::assemble(registry, name, outcomes).unwrap()
}

} // verus!
