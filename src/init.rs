//! The decisions of project initialization: from the command-line choices to
//! the one initialization to perform, or the reason none can be.
use vstd::prelude::*;
use crate::dispatch::MemoryModel;
use crate::examples::{file_name_of, file_stem, find_example, matches_query, stem_of, ExampleContract};
use crate::ident::{kebab_case_of, to_kebab_case};
use crate::text::{chars_of, string_of};

verus! {

/// Where a new project's contract comes from.
#[derive(Clone, Copy, Debug, PartialEq, Eq)]
pub enum InitType {
    SolidityFile,
    Example,
    Blank,
}

/// The choices given on the command line.
#[derive(Clone, Debug)]
pub struct PvmContractArgs {
    pub init_type: Option<InitType>,
    pub example: Option<String>,
    pub memory_model: Option<MemoryModel>,
    pub name: Option<String>,
    pub sol_file: Option<String>,
    pub non_interactive: bool,
}

/// The initialization to perform.
#[derive(Clone, Debug, PartialEq, Eq)]
pub enum InitPlan {
    Blank { contract_name: String },
    Example { example: ExampleContract, contract_name: String, use_alloc: bool },
    SolidityFile { sol_file: String, contract_name: String, use_alloc: bool },
}

/// Why the choices do not determine an initialization.
#[derive(Clone, Debug, PartialEq, Eq)]
pub enum InitError {
    MissingInitType,
    /// A blank project needs a non-empty name.
    MissingName,
    NoExamples,
    MissingExample,
    UnknownExample { query: String },
    MissingMemoryModel,
    EmptyName,
    MissingSolFile,
    SolFileNotFound { path: String },
}

/// The project name a Solidity file suggests: its file stem, or `contract`.
pub open spec fn default_name_of(path: Seq<char>) -> Seq<char> {
    match file_name_of(path) {
        Some(f) => stem_of(f),
        None => "contract"@,
    }
}

/// The memory model asks for an allocator.
pub open spec fn uses_alloc(m: MemoryModel) -> bool {
    m == MemoryModel::AllocWithAlloy
}

/// The first example that matches the query is at `j`.
pub open spec fn first_match(examples: Seq<ExampleContract>, q: Seq<char>, j: int) -> bool {
    &&& 0 <= j < examples.len()
    &&& matches_query(examples[j]@, q)
    &&& forall|i: int| 0 <= i < j ==> !matches_query(#[trigger] examples[i]@, q)
}

fn is_alloc(m: MemoryModel) -> (r: bool)
    ensures
        r == uses_alloc(m),
{
    match m {
        MemoryModel::AllocWithAlloy => true,
        MemoryModel::NoAlloc => false,
    }
}

fn default_name(path: &str) -> (r: String)
    ensures
        r@ == default_name_of(path@),
{
    match file_stem(path) {
        Some(stem) => stem,
        None => string_of(&chars_of("contract")),
    }
}

/// Decides the initialization from command-line choices alone. `examples`
/// are the bundled examples; `sol_file_exists` tells whether the given
/// Solidity file exists.
pub fn init_command_non_interactive(
    args: &PvmContractArgs,
    examples: &[ExampleContract],
    sol_file_exists: bool,
) -> (r: Result<InitPlan, InitError>)
    ensures
        args.init_type is None ==> r matches Err(InitError::MissingInitType),
        args.init_type == Some(InitType::Blank) ==> match args.name {
            Some(n) if n@.len() > 0 => r matches Ok(InitPlan::Blank { contract_name }) && contract_name@ == n@,
            _ => r matches Err(InitError::MissingName),
        },
        args.init_type == Some(InitType::Example) ==> {
            if examples@.len() == 0 {
                r matches Err(InitError::NoExamples)
            } else if args.example is None {
                r matches Err(InitError::MissingExample)
            } else if forall|i: int| 0 <= i < examples@.len() ==> !matches_query(#[trigger] examples@[i]@, args.example->0@) {
                r matches Err(InitError::UnknownExample { query }) && query@ == args.example->0@
            } else if args.memory_model is None {
                r matches Err(InitError::MissingMemoryModel)
            } else {
                exists|j: int| #[trigger] first_match(examples@, args.example->0@, j) && {
                    let name = match args.name {
                        Some(n) => n@,
                        None => examples@[j].name@,
                    };
                    if name.len() == 0 {
                        r matches Err(InitError::EmptyName)
                    } else {
                        r matches Ok(InitPlan::Example { example, contract_name, use_alloc }) && example@
                            == examples@[j]@ && contract_name@ == name && use_alloc == uses_alloc(
                            args.memory_model->0,
                        )
                    }
                }
            }
        },
        args.init_type == Some(InitType::SolidityFile) ==> match args.sol_file {
            None => r matches Err(InitError::MissingSolFile),
            Some(path) => {
                let name = match args.name {
                    Some(n) => n@,
                    None => default_name_of(path@),
                };
                if !sol_file_exists {
                    r matches Err(InitError::SolFileNotFound { path: p }) && p@ == path@
                } else if name.len() == 0 {
                    r matches Err(InitError::EmptyName)
                } else if args.memory_model is None {
                    r matches Err(InitError::MissingMemoryModel)
                } else {
                    r matches Ok(InitPlan::SolidityFile { sol_file, contract_name, use_alloc }) && sol_file@
                        == path@ && contract_name@ == name && use_alloc == uses_alloc(args.memory_model->0)
                }
            },
        },
{
    let init_type = match args.init_type {
        Some(t) => t,
        None => return Err(InitError::MissingInitType),
    };
    match init_type {
        InitType::Blank => {
            match &args.name {
                Some(n) => {
                    if n.as_str().is_empty() {
                        Err(InitError::MissingName)
                    } else {
                        Ok(InitPlan::Blank { contract_name: n.clone() })
                    }
                },
                None => Err(InitError::MissingName),
            }
        },
        InitType::Example => {
            if examples.len() == 0 {
                return Err(InitError::NoExamples);
            }
            let query = match &args.example {
                Some(q) => q,
                None => return Err(InitError::MissingExample),
            };
            let example = match find_example(examples, query.as_str()) {
                Ok(e) => e,
                Err(_) => return Err(InitError::UnknownExample { query: query.clone() }),
            };
            let ghost j = choose|j: int| 0 <= j < examples@.len() && example@ == (#[trigger] examples@[j])@
                && matches_query(example@, query@) && forall|i: int| 0 <= i < j ==> !matches_query(#[trigger] examples@[i]@, query@);
            assert(first_match(examples@, query@, j));
            assert(example.name@ == examples@[j].name@);
            let memory_model = match args.memory_model {
                Some(m) => m,
                None => return Err(InitError::MissingMemoryModel),
            };
            let contract_name = match &args.name {
                Some(n) => n.clone(),
                None => example.name.clone(),
            };
            if contract_name.as_str().is_empty() {
                return Err(InitError::EmptyName);
            }
            Ok(InitPlan::Example { example, contract_name, use_alloc: is_alloc(memory_model) })
        },
        InitType::SolidityFile => {
            let path = match &args.sol_file {
                Some(p) => p,
                None => return Err(InitError::MissingSolFile),
            };
            if !sol_file_exists {
                return Err(InitError::SolFileNotFound { path: path.clone() });
            }
            let contract_name = match &args.name {
                Some(n) => n.clone(),
                None => default_name(path.as_str()),
            };
            if contract_name.as_str().is_empty() {
                return Err(InitError::EmptyName);
            }
            let memory_model = match args.memory_model {
                Some(m) => m,
                None => return Err(InitError::MissingMemoryModel),
            };
            Ok(InitPlan::SolidityFile { sol_file: path.clone(), contract_name, use_alloc: is_alloc(memory_model) })
        },
    }
}

/// The names a new project is laid out under.
#[derive(Clone, Debug, PartialEq, Eq)]
pub struct ProjectNames {
    /// The project directory and package name.
    pub package: String,
    /// The stem of the contract's source file under `src/`, which is also
    /// the binary's source.
    pub bin_source: String,
}

/// The names of a project requested as `requested_name` whose contract is
/// named `contract_name`: both in kebab case.
pub fn project_names(requested_name: &str, contract_name: &str) -> (r: ProjectNames)
    ensures
        r.package@ == kebab_case_of(requested_name@),
        r.bin_source@ == kebab_case_of(contract_name@),
{
    ProjectNames { package: to_kebab_case(requested_name), bin_source: to_kebab_case(contract_name) }
}

} // verus!
