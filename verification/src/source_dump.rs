//! The source dump: which files of a repository are recorded with their
//! text, and how such a record is written.

use vstd::prelude::*;
use vstd::string::StrSliceExecFns;
use crate::sink::{json_string, push_json_string};
use crate::text::is_line;

verus! {

/// The text of one source file of one repository.
#[derive(Debug, Clone, PartialEq, Eq)]
pub struct CodeFileEntry {
    /// The repository's name.
    pub name: String,
    /// The file's path relative to the repository root.
    pub path: String,
    /// The file's text.
    pub content: String,
}

/// Mathematical content of a `CodeFileEntry`.
pub struct EntryView {
    pub name: Seq<char>,
    pub path: Seq<char>,
    pub content: Seq<char>,
}

impl View for CodeFileEntry {
    type V = EntryView;

    open spec fn view(&self) -> EntryView {
        EntryView { name: self.name@, path: self.path@, content: self.content@ }
    }
}

/// Something the directory walk came across in a repository.
#[derive(Debug, Clone, PartialEq, Eq)]
pub struct FileCandidate {
    /// The path relative to the repository root, with `/` between its
    /// components.
    pub path: String,
    /// Whether it is a regular file.
    pub is_file: bool,
    /// The file's text, if it was read and is text.
    pub content: Option<String>,
}

/// `path` is the directory `directory` itself or lies below it.
pub open spec fn is_under(path: Seq<char>, directory: Seq<char>) -> bool {
    &&& directory.len() <= path.len()
    &&& path.take(directory.len() as int) == directory
    &&& (path.len() == directory.len() || path[directory.len() as int] == '/')
}

/// Paths that are never recorded: build output and editor settings at the
/// top of the repository.
pub open spec fn is_excluded(path: Seq<char>) -> bool {
    is_under(path, "target"@) || is_under(path, ".idea"@) || is_under(path, ".vscode"@)
}

/// Whether a candidate is recorded: a regular file outside the excluded
/// directories whose text could be read.
pub open spec fn is_recorded(candidate: FileCandidate) -> bool {
    candidate.is_file && !is_excluded(candidate.path@) && candidate.content is Some
}

/// The entries of the repository `name` that follow from what the walk came
/// across, in the order of the walk.
pub open spec fn entries_of(name: Seq<char>, candidates: Seq<FileCandidate>) -> Seq<EntryView>
    decreases candidates.len(),
{
    if candidates.len() == 0 {
        Seq::empty()
    } else if is_recorded(candidates.last()) {
        entries_of(name, candidates.drop_last()).push(
            EntryView {
                name,
                path: candidates.last().path@,
                content: candidates.last().content->0@,
            },
        )
    } else {
        entries_of(name, candidates.drop_last())
    }
}

/// The contents of entries.
pub open spec fn entry_views(entries: Seq<CodeFileEntry>) -> Seq<EntryView> {
    entries.map_values(|e: CodeFileEntry| e@)
}

/// Whether `path` is `directory` or lies below it.
pub fn path_is_under(path: &str, directory: &str) -> (under: bool)
    ensures
        under == is_under(path@, directory@),
{
    let n = path.unicode_len();
    let d = directory.unicode_len();
    if n < d {
        return false;
    }
    for i in 0..d
        invariant
            d == directory@.len(),
            n == path@.len(),
            d <= n,
            forall|k: int| 0 <= k < i ==> path@[k] == directory@[k],
    {
        if path.get_char(i) != directory.get_char(i) {
            assert(path@.take(d as int)[i as int] != directory@[i as int]);
            return false;
        }
    }
    assert(path@.take(d as int) =~= directory@);
    n == d || path.get_char(d) == '/'
}

/// Whether `path` lies in one of the directories that are never recorded.
pub fn path_is_excluded(path: &str) -> (excluded: bool)
    ensures
        excluded == is_excluded(path@),
{
    path_is_under(path, "target") || path_is_under(path, ".idea") || path_is_under(
        path,
        ".vscode",
    )
}

/// Whether the walk should read what it found at `path`: only regular files
/// outside the excluded directories are read.
pub fn wants_content(path: &str, is_file: bool) -> (wanted: bool)
    ensures
        wanted == (is_file && !is_excluded(path@)),
{
    is_file && !path_is_excluded(path)
}

/// Turns what the walk came across in the repository `name` into the
/// entries to record.
pub fn collect_code(name: &str, candidates: &Vec<FileCandidate>) -> (entries: Vec<CodeFileEntry>)
    ensures
        entry_views(entries@) == entries_of(name@, candidates@),
{
    let mut entries: Vec<CodeFileEntry> = Vec::new();
    let n = candidates.len();
    assert(candidates@.take(0) =~= Seq::<FileCandidate>::empty());
    assert(entry_views(entries@) =~= Seq::<EntryView>::empty());
    for i in 0..n
        invariant
            n == candidates.len(),
            entry_views(entries@) == entries_of(name@, candidates@.take(i as int)),
    {
        assert(candidates@.take(i + 1).drop_last() =~= candidates@.take(i as int));
        assert(candidates@.take(i + 1).last() == candidates[i as int]);
        let candidate = &candidates[i];
        if wants_content(candidate.path.as_str(), candidate.is_file) {
            match &candidate.content {
                Some(content) => {
                    let entry = CodeFileEntry {
                        name: name.to_owned(),
                        path: candidate.path.clone(),
                        content: content.clone(),
                    };
                    assert(entry_views(entries@.push(entry)) =~= entry_views(entries@).push(
                        entry@,
                    ));
                    entries.push(entry);
                },
                None => {},
            }
        }
    }
    assert(candidates@.take(n as int) =~= candidates@);
    entries
}

/// The record of an entry, without its line terminator: a JSON object that
/// holds the repository name, the path and the text.
pub open spec fn entry_body(entry: EntryView) -> Seq<char> {
    "{\"name\":"@ + json_string(entry.name) + ",\"path\":"@ + json_string(entry.path)
        + ",\"content\":"@ + json_string(entry.content) + "}"@
}

/// Encodes an entry as one line of the source dump.
pub fn render_code_entry(entry: &CodeFileEntry) -> (line: String)
    ensures
        line@ == entry_body(entry@).push('\n'),
        is_line(entry_body(entry@)),
{
    proof {
        reveal_strlit("{\"name\":");
        reveal_strlit(",\"path\":");
        reveal_strlit(",\"content\":");
        reveal_strlit("}");
    }
    let mut out = String::new();
    out.append("{\"name\":");
    push_json_string(&mut out, entry.name.as_str());
    out.append(",\"path\":");
    push_json_string(&mut out, entry.path.as_str());
    out.append(",\"content\":");
    push_json_string(&mut out, entry.content.as_str());
    out.append("}");
    assert(out@ =~= entry_body(entry@));
    assert(out@.last() == '}');
    out.push('\n');
    out
}

} // verus!
