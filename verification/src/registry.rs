//! The analyzer registry: the ordered list of external checks that is run
//! against every repository.

use vstd::prelude::*;

verus! {

/// Description of one external check: its symbolic name, the executable to
/// invoke and the arguments handed to it. The working directory of every
/// invocation is the root of the repository under analysis.
#[derive(Debug, Clone, PartialEq, Eq)]
pub struct AnalyzerSpec {
    pub name: String,
    pub command: String,
    pub args: Vec<String>,
}

impl AnalyzerSpec {
    /// The argument vector as a sequence of texts.
    pub open spec fn args_view(&self) -> Seq<Seq<char>> {
        self.args@.map_values(|a: String| a@)
    }

    /// Describes the check `name`, which runs `command` with `args`.
    pub fn new(name: &str, command: &str, args: Vec<String>) -> (spec: AnalyzerSpec)
        ensures
            spec.name@ == name@,
            spec.command@ == command@,
            spec.args == args,
    {
        AnalyzerSpec { name: name.to_owned(), command: command.to_owned(), args }
    }
}

/// The symbolic names of a list of analyzer descriptions, in order.
pub open spec fn names_of(specs: Seq<AnalyzerSpec>) -> Seq<Seq<char>> {
    specs.map_values(|s: AnalyzerSpec| s.name@)
}

/// Field names that every record carries by itself and that no analyzer may
/// therefore use: the repository name and the timing sub-record.
pub open spec fn is_reserved(name: Seq<char>) -> bool {
    name == "name"@ || name == "time_ms"@
}

/// The name at `index` also occurs at an earlier position.
pub open spec fn repeats_earlier(names: Seq<Seq<char>>, index: int) -> bool {
    exists|j: int| 0 <= j < index && names[j] == names[index]
}

/// The name at `index` cannot be registered after the ones before it.
pub open spec fn rejected_at(names: Seq<Seq<char>>, index: int) -> bool {
    is_reserved(names[index]) || repeats_earlier(names, index)
}

/// No name is reserved and no two positions hold the same name.
pub open spec fn admissible(names: Seq<Seq<char>>) -> bool {
    forall|i: int| 0 <= i < names.len() ==> !rejected_at(names, i)
}

/// The executables of a list of analyzer descriptions, in order.
pub open spec fn commands_of(specs: Seq<AnalyzerSpec>) -> Seq<Seq<char>> {
    specs.map_values(|s: AnalyzerSpec| s.command@)
}

/// The argument vectors of a list of analyzer descriptions, in order.
pub open spec fn arguments_of(specs: Seq<AnalyzerSpec>) -> Seq<Seq<Seq<char>>> {
    specs.map_values(|s: AnalyzerSpec| s.args_view())
}

/// The names of the standard battery.
pub open spec fn standard_names() -> Seq<Seq<char>> {
    seq![
        "clippy"@,
        "fmt"@,
        "audit"@,
        "auditable"@,
        "deny"@,
        "semgrep"@,
        "geiger"@,
        "codeql"@,
        "tree"@,
        "ast"@,
    ]
}

/// The executables of the standard battery.
pub open spec fn standard_commands() -> Seq<Seq<char>> {
    seq![
        "cargo"@,
        "cargo"@,
        "cargo"@,
        "cargo"@,
        "cargo"@,
        "semgrep"@,
        "cargo"@,
        "codeql"@,
        "cargo"@,
        "rustc"@,
    ]
}

/// The argument vectors of the standard battery.
pub open spec fn standard_arguments() -> Seq<Seq<Seq<char>>> {
    seq![
        seq!["clippy"@, "--message-format=json"@],
        seq!["fmt"@, "--"@, "--check"@],
        seq!["audit"@],
        seq!["auditable"@],
        seq!["deny"@, "check"@],
        seq!["--config"@, "p/rust"@, "--json"@],
        seq!["geiger"@],
        seq!["database"@, "analyze"@, "--format=json"@],
        seq!["tree"@],
        seq!["--emit=ast"@, "-Z"@, "unpretty=ast"@],
    ]
}

/// The names of the standard battery can be registered together.
pub proof fn lemma_standard_names_admissible()
    ensures
        admissible(standard_names()),
{
    reveal_strlit("clippy");
    reveal_strlit("fmt");
    reveal_strlit("audit");
    reveal_strlit("auditable");
    reveal_strlit("deny");
    reveal_strlit("semgrep");
    reveal_strlit("geiger");
    reveal_strlit("codeql");
    reveal_strlit("tree");
    reveal_strlit("ast");
    reveal_strlit("name");
    reveal_strlit("time_ms");
    let names = standard_names();
    assert forall|i: int| 0 <= i < names.len() implies !rejected_at(names, i) by {
        assert(names[i].len() > 0);
        assert(!is_reserved(names[i])) by {
            assert(names[i][0] != 'n' || names[i].len() != 4 || names[i][1] != 'a');
            assert(names[i][0] != 't' || names[i].len() != 7);
        }
        assert forall|j: int| 0 <= j < i implies names[j] != names[i] by {
            assert(names[j].len() != names[i].len() || names[j][0] != names[i][0] || names[j][1]
                != names[i][1]);
        }
    }
}

/// Why a list of analyzer descriptions was not accepted as a registry.
/// `index` is the first position whose name cannot be registered.
#[derive(Debug, PartialEq, Eq)]
pub enum RegistryError {
    /// The name at `index` is one of the record's own field names.
    ReservedName { index: usize },
    /// The name at `index` was already registered at an earlier position.
    DuplicateName { index: usize },
}

/// The fixed, ordered list of analyzers. Analyzers run in this order, and
/// the fields of every record follow it.
#[derive(Debug)]
pub struct Registry {
    specs: Vec<AnalyzerSpec>,
}

impl View for Registry {
    type V = Seq<AnalyzerSpec>;

    closed spec fn view(&self) -> Seq<AnalyzerSpec> {
        self.specs@
    }
}

impl Registry {
    /// Every registry that exists holds admissible names.
    #[verifier::type_invariant]
    spec fn names_are_admissible(&self) -> bool {
        admissible(names_of(self.specs@))
    }

    /// The registered names, in order.
    pub open spec fn names(&self) -> Seq<Seq<char>> {
        names_of(self@)
    }

    /// The registry's invariant: names are unique and none is reserved.
    pub open spec fn wf(&self) -> bool {
        admissible(self.names())
    }

    /// The registry without any analyzer.
    pub fn new() -> (registry: Registry)
        ensures
            registry@ == Seq::<AnalyzerSpec>::empty(),
            registry.wf(),
    {
        Registry { specs: Vec::new() }
    }

    /// Appends `spec` as the last analyzer, unless its name is reserved or
    /// already registered; the registry is then left as it was. The error's
    /// index is the position that the analyzer would have taken.
    pub fn register(&mut self, spec: AnalyzerSpec) -> (res: Result<(), RegistryError>)
        ensures
            final(self).wf(),
            match res {
                Ok(()) => final(self)@ == old(self)@.push(spec),
                Err(RegistryError::ReservedName { index }) => {
                    &&& final(self)@ == old(self)@
                    &&& index == old(self)@.len()
                    &&& is_reserved(spec.name@)
                },
                Err(RegistryError::DuplicateName { index }) => {
                    &&& final(self)@ == old(self)@
                    &&& index == old(self)@.len()
                    &&& !is_reserved(spec.name@)
                    &&& old(self).names().contains(spec.name@)
                },
            },
    {
        proof {
            use_type_invariant(&*self);
        }
        let ghost before = names_of(self.specs@);
        let n = self.specs.len();
        let name_field = "name".to_owned();
        let timing_field = "time_ms".to_owned();
        if spec.name == name_field || spec.name == timing_field {
            return Err(RegistryError::ReservedName { index: n });
        }
        for j in 0..n
            invariant
                *self == *old(self),
                n == self.specs.len(),
                before == names_of(self.specs@),
                admissible(before),
                !is_reserved(spec.name@),
                forall|k: int| 0 <= k < j ==> before[k] != spec.name@,
        {
            if self.specs[j].name == spec.name {
                assert(before[j as int] == spec.name@);
                return Err(RegistryError::DuplicateName { index: n });
            }
        }
        let mut taken = Registry::new();
        std::mem::swap(self, &mut taken);
        let mut specs = taken.specs;
        specs.push(spec);
        proof {
            let after = names_of(specs@);
            assert(after =~= before.push(spec.name@));
            assert forall|i: int| 0 <= i < after.len() implies !rejected_at(after, i) by {
                if i < n {
                    assert(after[i] == before[i]);
                    assert(!rejected_at(before, i));
                    if repeats_earlier(after, i) {
                        let j = choose|j: int| 0 <= j < i && after[j] == after[i];
                        assert(before[j] == before[i]);
                    }
                }
            }
        }
        *self = Registry { specs };
        Ok(())
    }

    /// Accepts `specs` as a registry if every name can be registered, and
    /// otherwise reports the first position that cannot.
    pub fn from_specs(specs: Vec<AnalyzerSpec>) -> (res: Result<Registry, RegistryError>)
        ensures
            match res {
                Ok(registry) => registry@ == specs@ && registry.wf(),
                Err(RegistryError::ReservedName { index }) => {
                    &&& index < specs.len()
                    &&& is_reserved(names_of(specs@)[index as int])
                    &&& forall|k: int| 0 <= k < index ==> !rejected_at(names_of(specs@), k)
                },
                Err(RegistryError::DuplicateName { index }) => {
                    &&& index < specs.len()
                    &&& !is_reserved(names_of(specs@)[index as int])
                    &&& repeats_earlier(names_of(specs@), index as int)
                    &&& forall|k: int| 0 <= k < index ==> !rejected_at(names_of(specs@), k)
                },
            },
    {
        let ghost names = names_of(specs@);
        let name_field = "name".to_owned();
        let timing_field = "time_ms".to_owned();
        let mut i: usize = 0;
        while i < specs.len()
            invariant
                i <= specs.len(),
                names == names_of(specs@),
                name_field@ == "name"@,
                timing_field@ == "time_ms"@,
                forall|k: int| 0 <= k < i ==> !rejected_at(names, k),
            decreases specs.len() - i,
        {
            if specs[i].name == name_field || specs[i].name == timing_field {
                return Err(RegistryError::ReservedName { index: i });
            }
            let mut j: usize = 0;
            while j < i
                invariant
                    j <= i < specs.len(),
                    names == names_of(specs@),
                    !is_reserved(names[i as int]),
                    forall|k: int| 0 <= k < i ==> !rejected_at(names, k),
                    forall|k: int| 0 <= k < j ==> names[k] != names[i as int],
                decreases i - j,
            {
                if specs[j].name == specs[i].name {
                    assert(names[j as int] == names[i as int]);
                    return Err(RegistryError::DuplicateName { index: i });
                }
                j += 1;
            }
            i += 1;
        }
        assert(admissible(names));
        Ok(Registry { specs })
    }

    /// The standard battery: the lint, format, audit, licence, safety and
    /// structure checks that are run against every repository, in the order
    /// in which their fields appear in a record.
    pub fn standard() -> (registry: Registry)
        ensures
            registry.wf(),
            registry.names() == standard_names(),
            commands_of(registry@) == standard_commands(),
            arguments_of(registry@) == standard_arguments(),
    {
        let mut specs: Vec<AnalyzerSpec> = Vec::new();
        specs.push(
            AnalyzerSpec::new(
                "clippy",
                "cargo",
                vec!["clippy".to_owned(), "--message-format=json".to_owned()],
            ),
        );
        specs.push(
            AnalyzerSpec::new(
                "fmt",
                "cargo",
                vec!["fmt".to_owned(), "--".to_owned(), "--check".to_owned()],
            ),
        );
        specs.push(AnalyzerSpec::new("audit", "cargo", vec!["audit".to_owned()]));
        specs.push(AnalyzerSpec::new("auditable", "cargo", vec!["auditable".to_owned()]));
        specs.push(AnalyzerSpec::new("deny", "cargo", vec!["deny".to_owned(), "check".to_owned()]));
        specs.push(
            AnalyzerSpec::new(
                "semgrep",
                "semgrep",
                vec!["--config".to_owned(), "p/rust".to_owned(), "--json".to_owned()],
            ),
        );
        specs.push(AnalyzerSpec::new("geiger", "cargo", vec!["geiger".to_owned()]));
        specs.push(
            AnalyzerSpec::new(
                "codeql",
                "codeql",
                vec!["database".to_owned(), "analyze".to_owned(), "--format=json".to_owned()],
            ),
        );
        specs.push(AnalyzerSpec::new("tree", "cargo", vec!["tree".to_owned()]));
        specs.push(
            AnalyzerSpec::new(
                "ast",
                "rustc",
                vec!["--emit=ast".to_owned(), "-Z".to_owned(), "unpretty=ast".to_owned()],
            ),
        );
        proof {
            assert(names_of(specs@) =~= standard_names());
            assert(commands_of(specs@) =~= standard_commands());
            assert(arguments_of(specs@) =~~= standard_arguments());
            lemma_standard_names_admissible();
        }
        Registry { specs }
    }

    /// The number of registered analyzers. The call also recalls that the
    /// registry's invariant holds.
    pub fn len(&self) -> (n: usize)
        ensures
            n == self@.len(),
            self.wf(),
    {
        proof {
            use_type_invariant(self);
        }
        self.specs.len()
    }

    /// The analyzer at position `index`.
    pub fn get(&self, index: usize) -> (spec: &AnalyzerSpec)
        requires
            index < self@.len(),
        ensures
            *spec == self@[index as int],
    {
        &self.specs[index]
    }
}

} // verus!
