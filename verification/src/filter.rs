//! The candidate filter: from a table of candidate repositories to the list
//! of names that have both a manifest and a lockfile.

use vstd::prelude::*;
use crate::text::{terminated, texts};

verus! {

/// One row of the candidate table.
#[derive(Debug, Clone, PartialEq, Eq)]
pub struct CandidateRow {
    pub id: String,
    pub name: String,
    pub has_manifest: bool,
    pub has_lockfile: bool,
}

/// Mathematical content of a `CandidateRow`.
pub struct RowView {
    pub id: Seq<char>,
    pub name: Seq<char>,
    pub has_manifest: bool,
    pub has_lockfile: bool,
}

impl View for CandidateRow {
    type V = RowView;

    open spec fn view(&self) -> RowView {
        RowView {
            id: self.id@,
            name: self.name@,
            has_manifest: self.has_manifest,
            has_lockfile: self.has_lockfile,
        }
    }
}

/// The contents of rows.
pub open spec fn row_views(rows: Seq<CandidateRow>) -> Seq<RowView> {
    rows.map_values(|r: CandidateRow| r@)
}

/// The error type of `csv`.
#[verifier::external_type_specification]
#[verifier::external_body]
pub struct ExCsvError(csv::Error);

/// The rows that `csv` reads from a table with a header line and the four
/// columns identifier, name, manifest flag and lockfile flag; `None` where
/// it rejects the table.
pub uninterp spec fn csv_rows(input: Seq<u8>) -> Option<Seq<RowView>>;

/// Reads a table with `csv`: a reader with the default settings over the
/// bytes, deserializing every record after the header into a row and
/// stopping at the first record that is rejected. Rows and rejection are a
/// function of the bytes alone.
#[verifier::external_body]
fn read_rows(input: &[u8]) -> (res: Result<Vec<CandidateRow>, csv::Error>)
    ensures
        res is Ok ==> csv_rows(input@) == Some(row_views(res->Ok_0@)),
        res is Err ==> csv_rows(input@) is None,
{
    let mut reader = csv::ReaderBuilder::new().from_reader(input);
    reader.deserialize::<(String, String, bool, bool)>().map(
        |record| record.map(|(id, name, has_manifest, has_lockfile)| CandidateRow {
            id,
            name,
            has_manifest,
            has_lockfile,
        }),
    ).collect()
}

/// The message of a `csv` error, as its `Display` impl words it. Nothing is
/// claimed of the text.
#[verifier::external_body]
fn error_message(error: &csv::Error) -> String {
    error.to_string()
}

/// The table could not be read.
#[derive(Debug)]
pub struct MalformedTable {
    /// What the table reader reported.
    pub detail: String,
}

/// A row is kept if the repository has both a manifest and a lockfile.
pub open spec fn qualifies(row: RowView) -> bool {
    row.has_manifest && row.has_lockfile
}

/// The names of the rows that qualify, in table order.
pub open spec fn selected_names(rows: Seq<RowView>) -> Seq<Seq<char>>
    decreases rows.len(),
{
    if rows.len() == 0 {
        Seq::empty()
    } else if qualifies(rows.last()) {
        selected_names(rows.drop_last()).push(rows.last().name)
    } else {
        selected_names(rows.drop_last())
    }
}

/// Picks the names of the rows that have both flags set.
pub fn select_names(rows: &Vec<CandidateRow>) -> (names: Vec<String>)
    ensures
        texts(names@) == selected_names(row_views(rows@)),
{
    let ghost views = row_views(rows@);
    let mut names: Vec<String> = Vec::new();
    let n = rows.len();
    assert(views.take(0) =~= Seq::<RowView>::empty());
    assert(texts(names@) =~= Seq::<Seq<char>>::empty());
    for i in 0..n
        invariant
            n == rows.len(),
            views == row_views(rows@),
            texts(names@) == selected_names(views.take(i as int)),
    {
        assert(views.take(i + 1).drop_last() =~= views.take(i as int));
        assert(views.take(i + 1).last() == rows[i as int]@);
        if rows[i].has_manifest && rows[i].has_lockfile {
            let name = rows[i].name.clone();
            assert(texts(names@.push(name)) =~= texts(names@).push(name@));
            names.push(name);
        }
    }
    assert(views.take(n as int) =~= views);
    names
}

/// Writes a list of names as text, one name per line.
pub fn render_names(names: &Vec<String>) -> (list: String)
    ensures
        list@ == terminated(texts(names@)),
{
    let ghost lines = texts(names@);
    let mut list = String::new();
    let n = names.len();
    assert(lines.take(0) =~= Seq::<Seq<char>>::empty());
    for i in 0..n
        invariant
            n == names.len(),
            lines == texts(names@),
            list@ == terminated(lines.take(i as int)),
    {
        assert(lines.take(i + 1).drop_last() =~= lines.take(i as int));
        assert(lines.take(i + 1).last() == names[i as int]@);
        list.append(names[i].as_str());
        list.push('\n');
        assert(list@ =~= terminated(lines.take(i + 1)));
    }
    assert(lines.take(n as int) =~= lines);
    list
}

/// Filters a candidate table given as CSV text: the result lists, one per
/// line and in table order, the names of the repositories that have both a
/// manifest and a lockfile. A table that cannot be read yields no list.
pub fn filter_csv(input: &[u8]) -> (res: Result<String, MalformedTable>)
    ensures
        res is Ok <==> csv_rows(input@) is Some,
        res is Ok ==> res->Ok_0@ == terminated(selected_names(csv_rows(input@)->0)),
{
    match read_rows(input) {
        Ok(rows) => {
            let names = select_names(&rows);
            Ok(render_names(&names))
        },
        Err(error) => Err(MalformedTable { detail: error_message(&error) }),
    }
}

} // verus!
