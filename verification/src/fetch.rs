//! Planning of repository fetches: where each named repository comes from
//! and where it is placed.

use vstd::prelude::*;
use crate::text::{lines_of, split_lines, texts};

verus! {

/// What `sanitize` does to one character.
pub open spec fn sanitized_char(c: char) -> char {
    if c == '/' {
        '_'
    } else {
        c
    }
}

/// A repository name with every path separator replaced by an underscore.
pub open spec fn sanitized(name: Seq<char>) -> Seq<char> {
    name.map_values(|c: char| sanitized_char(c))
}

/// Turns a repository name into a single directory-name component by
/// replacing each `/` with `_`.
pub fn sanitize(name: &str) -> (out: String)
    ensures
        out@ == sanitized(name@),
{
    let mut out = String::new();
    for c in it: name.chars()
        invariant
            it.seq() == name@,
            out@ == sanitized(name@.take(it.index() as int)),
    {
        assert(name@.take(it.index() + 1) =~= name@.take(it.index() as int).push(c));
        if c == '/' {
            out.push('_');
        } else {
            out.push(c);
        }
        assert(out@ =~= sanitized(name@.take(it.index() + 1)));
    }
    assert(name@.take(name@.len() as int) =~= name@);
    out
}

/// Where one repository is fetched from and where it is placed.
#[derive(Debug, Clone, PartialEq, Eq)]
pub struct CloneTarget {
    /// The repository's name as listed.
    pub name: String,
    /// The address the repository is fetched from.
    pub url: String,
    /// The name of the directory, directly under the destination root, that
    /// receives the copy.
    pub directory: String,
}

/// Mathematical content of a `CloneTarget`.
pub struct TargetView {
    pub name: Seq<char>,
    pub url: Seq<char>,
    pub directory: Seq<char>,
}

impl View for CloneTarget {
    type V = TargetView;

    open spec fn view(&self) -> TargetView {
        TargetView { name: self.name@, url: self.url@, directory: self.directory@ }
    }
}

/// The target of the repository `name`: it is fetched from its address on
/// the hosting service and placed in the directory named by the prefix
/// `dataset_` and the sanitized name.
pub open spec fn target_of(name: Seq<char>) -> TargetView {
    TargetView {
        name,
        url: "https://github.com/"@ + name + ".git"@,
        directory: "dataset_"@ + sanitized(name),
    }
}

/// The targets of a list of names, in order.
pub open spec fn targets_of(names: Seq<Seq<char>>) -> Seq<TargetView> {
    names.map_values(|n: Seq<char>| target_of(n))
}

/// The contents of targets.
pub open spec fn target_views(targets: Seq<CloneTarget>) -> Seq<TargetView> {
    targets.map_values(|t: CloneTarget| t@)
}

/// Works out where the repository `name` comes from and where it goes.
pub fn clone_target(name: &str) -> (target: CloneTarget)
    ensures
        target@ == target_of(name@),
{
    let mut url = "https://github.com/".to_owned();
    url.append(name);
    url.append(".git");
    let mut directory = "dataset_".to_owned();
    directory.append(sanitize(name).as_str());
    CloneTarget { name: name.to_owned(), url, directory }
}

/// Plans the fetch of every repository named in `names`, a text with one
/// name per line.
pub fn plan_clones(names: &str) -> (targets: Vec<CloneTarget>)
    ensures
        target_views(targets@) == targets_of(lines_of(names@)),
{
    let lines = split_lines(names);
    let ghost wanted = targets_of(lines_of(names@));
    let mut targets: Vec<CloneTarget> = Vec::new();
    let n = lines.len();
    for i in 0..n
        invariant
            n == lines.len(),
            texts(lines@) == lines_of(names@),
            wanted == targets_of(lines_of(names@)),
            targets.len() == i,
            forall|k: int| 0 <= k < i ==> (#[trigger] targets[k])@ == wanted[k],
    {
        assert(texts(lines@)[i as int] == lines[i as int]@);
        targets.push(clone_target(lines[i].as_str()));
    }
    assert(target_views(targets@) =~= wanted);
    targets
}

/// The credential presented when a repository is fetched.
#[derive(Debug, Clone, PartialEq, Eq)]
pub struct Credential {
    pub username: String,
    pub secret: String,
}

impl Credential {
    /// The credential that presents `token` as a bearer token: the secret
    /// is the token, under the user name reserved for access tokens.
    pub fn bearer(token: &str) -> (credential: Credential)
        ensures
            credential.username@ == "x-access-token"@,
            credential.secret@ == token@,
    {
        Credential { username: "x-access-token".to_owned(), secret: token.to_owned() }
    }
}

} // verus!
