//! The decisions of the PolkaVM build helper: which manifest to build, with
//! which profile and which binaries, where the artifacts go, how cargo is run
//! and how each binary is linked.
use vstd::prelude::*;
use crate::text::{chars_equal, chars_of, push_str, string_of, sub_chars};

verus! {

#[verifier::external_type_specification]
#[verifier::external_body]
pub struct ExDocumentMut(toml_edit::DocumentMut);

#[verifier::external_type_specification]
#[verifier::external_body]
pub struct ExTomlError(toml_edit::TomlError);

/// Whether toml_edit parses the text as a TOML document.
pub uninterp spec fn toml_parses(content: Seq<char>) -> bool;

/// The `name` entry of each `[[bin]]` table of the document that toml_edit
/// parses from the text, in order (absent where it is not a string); empty
/// when the text does not parse or has no such array of tables.
pub uninterp spec fn toml_bin_names(content: Seq<char>) -> Seq<Option<Seq<char>>>;

/// The string at `package.name` of the document that toml_edit parses from
/// the text; none when the text does not parse or holds no such string.
pub uninterp spec fn toml_package_name(content: Seq<char>) -> Option<Seq<char>>;

pub open spec fn opt_str(o: Option<String>) -> Option<Seq<char>> {
    match o {
        Some(s) => Some(s@),
        None => None,
    }
}

pub open spec fn opt_strings(v: Seq<Option<String>>) -> Seq<Option<Seq<char>>> {
    v.map_values(|o: Option<String>| opt_str(o))
}

/// Relies on toml_edit's `FromStr` for `DocumentMut`: parses a TOML document.
#[verifier::external_body]
fn parse_document(content: &str) -> (r: Result<toml_edit::DocumentMut, toml_edit::TomlError>)
    ensures
        r is Ok <==> toml_parses(content@),
{
    content.parse::<toml_edit::DocumentMut>()
}

/// Relies on toml_edit's `FromStr` for `DocumentMut`, `Table::get`,
/// `Item::as_array_of_tables` and `Item::as_str`: the `name` string of each
/// `[[bin]]` table, in order.
#[verifier::external_body]
fn manifest_bin_names(content: &str) -> (r: Vec<Option<String>>)
    ensures
        opt_strings(r@) == toml_bin_names(content@),
{
    let mut out = Vec::new();
    if let Ok(doc) = content.parse::<toml_edit::DocumentMut>() {
        if let Some(bins) = doc.get("bin").and_then(toml_edit::Item::as_array_of_tables) {
            for bin in bins.iter() {
                out.push(bin.get("name").and_then(toml_edit::Item::as_str).map(str::to_string));
            }
        }
    }
    out
}

/// Relies on toml_edit's `FromStr` for `DocumentMut`, `Table::get`,
/// `Item::get` and `Item::as_str`: the string at `package.name`.
#[verifier::external_body]
fn manifest_package_name(content: &str) -> (r: Option<String>)
    ensures
        opt_str(r) == toml_package_name(content@),
{
    let doc = content.parse::<toml_edit::DocumentMut>().ok()?;
    let name = doc.get("package")?.get("name")?;
    Some(name.as_str()?.to_string())
}

/// The binaries a manifest declares.
pub open spec fn manifest_bin_targets(manifest: Seq<char>) -> Seq<Seq<char>> {
    bin_targets_of(toml_bin_names(manifest), toml_package_name(manifest))
}

/// Why a build could not be planned.
#[derive(Debug)]
pub enum BuildError {
    /// The manifest is not a TOML document.
    ManifestParse(toml_edit::TomlError),
    /// The manifest has no `package.name`.
    NoPackageName,
    /// Neither a binary was asked for nor does the manifest declare one.
    NoBinTargets,
}

/// The path `dir` joined with the relative path `file`, with one separator.
pub open spec fn joined_path(dir: Seq<char>, file: Seq<char>) -> Seq<char> {
    if dir.len() == 0 {
        file
    } else if dir.last() == '/' {
        dir + file
    } else {
        dir + seq!['/'] + file
    }
}

/// Joins a relative path to a directory, as `Path::join` does.
pub fn join_path(dir: &str, file: &str) -> (r: String)
    ensures
        r@ == joined_path(dir@, file@),
{
    let mut p = chars_of(dir);
    if p.len() > 0 && p[p.len() - 1] != '/' {
        p.push('/');
    }
    push_str(&mut p, file);
    string_of(&p)
}

/// The builder for building a PolkaVM binary.
#[derive(Clone, Debug)]
pub struct PvmBuilder {
    /// The path to the `Cargo.toml` of the project that should be built.
    pub project_cargo_toml: String,
    /// Specific binary to build (none: all binaries).
    pub bin_name: Option<String>,
}

impl PvmBuilder {
    /// A builder for the project whose manifest directory is given.
    pub fn new(manifest_dir: &str) -> (r: Self)
        ensures
            r.project_cargo_toml@ == joined_path(manifest_dir@, "Cargo.toml"@),
            r.bin_name is None,
    {
        PvmBuilder { project_cargo_toml: join_path(manifest_dir, "Cargo.toml"), bin_name: None }
    }

    /// Builds only the named binary.
    pub fn with_bin(self, name: String) -> (r: Self)
        ensures
            r.project_cargo_toml == self.project_cargo_toml,
            r.bin_name == Some(name),
    {
        PvmBuilder { project_cargo_toml: self.project_cargo_toml, bin_name: Some(name) }
    }

    /// The binaries to build, given the project's manifest text: the one asked
    /// for, or else those the manifest declares.
    pub fn bins_to_build(&self, manifest: &str) -> (r: Result<Vec<String>, BuildError>)
        ensures
            self.bin_name matches Some(n) ==> r matches Ok(v) && v@.len() == 1 && v@[0] == n,
            self.bin_name is None ==> match r {
                Ok(v) => toml_parses(manifest@) && strings(v@) == manifest_bin_targets(manifest@) && v@.len() > 0,
                Err(e) => (e is ManifestParse && !toml_parses(manifest@)) || (e is NoBinTargets && toml_parses(
                    manifest@,
                ) && manifest_bin_targets(manifest@).len() == 0),
            },
    {
        match &self.bin_name {
            Some(n) => Ok(vec![n.clone()]),
            None => {
                let bins = get_bin_targets(manifest)?;
                if bins.len() == 0 {
                    Err(BuildError::NoBinTargets)
                } else {
                    Ok(bins)
                }
            },
        }
    }
}

pub open spec fn strings(v: Seq<String>) -> Seq<Seq<char>> {
    v.map_values(|s: String| s@)
}

/// The names that are present, in order.
pub open spec fn present_names(names: Seq<Option<Seq<char>>>) -> Seq<Seq<char>>
    decreases names.len(),
{
    if names.len() == 0 {
        Seq::empty()
    } else {
        let rest = present_names(names.drop_last());
        match names.last() {
            Some(n) => rest.push(n),
            None => rest,
        }
    }
}

/// The binaries a manifest declares: the names of its `[[bin]]` tables, or,
/// when none is named, the package's name if it has one.
pub open spec fn bin_targets_of(names: Seq<Option<Seq<char>>>, package: Option<Seq<char>>) -> Seq<Seq<char>> {
    if present_names(names).len() > 0 {
        present_names(names)
    } else {
        match package {
            Some(p) => seq![p],
            None => Seq::empty(),
        }
    }
}

/// Chooses the binary targets from the names of the `[[bin]]` tables and the
/// package name.
pub fn select_bin_targets(names: &Vec<Option<String>>, package: &Option<String>) -> (r: Vec<String>)
    ensures
        strings(r@) == bin_targets_of(opt_strings(names@), opt_str(*package)),
{
    let mut out: Vec<String> = Vec::new();
    let mut i: usize = 0;
    while i < names.len()
        invariant
            i <= names@.len(),
            strings(out@) == present_names(opt_strings(names@.take(i as int))),
        decreases names@.len() - i,
    {
        proof {
            assert(opt_strings(names@.take(i + 1)).drop_last() =~= opt_strings(names@.take(i as int)));
            assert(opt_strings(names@.take(i + 1)).last() == opt_str(names@[i as int]));
        }
        match &names[i] {
            Some(n) => {
                out.push(n.clone());
                assert(strings(out@) =~= present_names(opt_strings(names@.take(i + 1))));
            },
            None => {
                assert(strings(out@) =~= present_names(opt_strings(names@.take(i + 1))));
            },
        }
        i = i + 1;
    }
    assert(names@.take(names@.len() as int) =~= names@);
    if out.len() == 0 {
        match package {
            Some(p) => {
                out.push(p.clone());
                assert(strings(out@) =~= seq![p@]);
            },
            None => {},
        }
    }
    out
}

/// The binary targets of a manifest, given as text; an error exactly when
/// the text is not a TOML document.
pub fn get_bin_targets(manifest: &str) -> (r: Result<Vec<String>, BuildError>)
    ensures
        r is Err <==> !toml_parses(manifest@),
        r matches Ok(v) ==> strings(v@) == manifest_bin_targets(manifest@),
        r matches Err(e) ==> e is ManifestParse,
{
    match parse_document(manifest) {
        Ok(_) => {},
        Err(e) => return Err(BuildError::ManifestParse(e)),
    }
    let names = manifest_bin_names(manifest);
    let package = manifest_package_name(manifest);
    Ok(select_bin_targets(&names, &package))
}

/// The package name of a manifest, given as text.
pub fn get_crate_name(manifest: &str) -> (r: Result<String, BuildError>)
    ensures
        (r is Err && r->Err_0 is ManifestParse) <==> !toml_parses(manifest@),
        (r is Err && r->Err_0 is NoPackageName) <==> toml_parses(manifest@) && toml_package_name(manifest@) is None,
        r is Err ==> r->Err_0 is ManifestParse || r->Err_0 is NoPackageName,
        r matches Ok(n) ==> toml_package_name(manifest@) == Some(n@),
{
    match parse_document(manifest) {
        Ok(_) => {},
        Err(e) => return Err(BuildError::ManifestParse(e)),
    }
    match manifest_package_name(manifest) {
        Some(n) => Ok(n),
        None => Err(BuildError::NoPackageName),
    }
}

/// The build profile.
#[derive(Clone, Copy, Debug, PartialEq, Eq)]
pub enum Profile {
    Debug,
    Release,
}

impl Profile {
    /// The profile named by the value of `PROFILE`: release only for `release`.
    pub fn detect(profile: Option<&str>) -> (r: Self)
        ensures
            r == (if profile matches Some(p) && p@ == "release"@ {
                Profile::Release
            } else {
                Profile::Debug
            }),
    {
        match profile {
            Some(p) => {
                if chars_equal(&chars_of(p), &chars_of("release")) {
                    Profile::Release
                } else {
                    Profile::Debug
                }
            },
            None => Profile::Debug,
        }
    }

    /// The argument of cargo's `--profile` for this profile.
    pub fn cargo_arg(&self) -> (r: &'static str)
        ensures
            r@ == (match self {
                Profile::Debug => "dev"@,
                Profile::Release => "release"@,
            }),
    {
        match self {
            Profile::Debug => "dev",
            Profile::Release => "release",
        }
    }

    /// The directory cargo writes this profile's artifacts to.
    pub fn directory(&self) -> (r: &'static str)
        ensures
            r@ == (match self {
                Profile::Debug => "debug"@,
                Profile::Release => "release"@,
            }),
    {
        match self {
            Profile::Debug => "debug",
            Profile::Release => "release",
        }
    }
}

/// The first `k` characters of `p` form an ancestor of `p` whose last
/// component is `target`.
pub open spec fn is_target_prefix(p: Seq<char>, k: int) -> bool {
    &&& 6 <= k <= p.len()
    &&& p.subrange(k - 6, k) == seq!['t', 'a', 'r', 'g', 'e', 't']
    &&& (k == 6 || p[k - 7] == '/')
    &&& (k == p.len() || p[k] == '/')
}

/// The length of the longest prefix of `p`, of at most `k` characters, that
/// is such an ancestor.
pub open spec fn target_ancestor_len(p: Seq<char>, k: int) -> Option<int>
    decreases k,
{
    if k <= 0 {
        None
    } else if is_target_prefix(p, k) {
        Some(k)
    } else {
        target_ancestor_len(p, k - 1)
    }
}

/// Where PolkaVM builds go: `pvmbuild` in the nearest ancestor of the build
/// script's output directory named `target`, or in that directory itself.
pub open spec fn build_dir_of(out_dir: Seq<char>) -> Seq<char> {
    match target_ancestor_len(out_dir, out_dir.len() as int) {
        Some(k) => joined_path(out_dir.subrange(0, k), "pvmbuild"@),
        None => joined_path(out_dir, "pvmbuild"@),
    }
}

/// The build directory for a build script whose `OUT_DIR` is given. The path
/// is read as components separated by `/`.
pub fn get_build_dir(out_dir: &str) -> (r: String)
    ensures
        r@ == build_dir_of(out_dir@),
{
    let p = chars_of(out_dir);
    let n = p.len();
    let mut k: usize = n;
    while k > 0
        invariant
            k <= p@.len(),
            n == p@.len(),
            p@ == out_dir@,
            target_ancestor_len(p@, n as int) == target_ancestor_len(p@, k as int),
        decreases k,
    {
        let found = k >= 6 && p[k - 6] == 't' && p[k - 5] == 'a' && p[k - 4] == 'r' && p[k - 3] == 'g' && p[k - 2] == 'e'
            && p[k - 1] == 't' && (k == 6 || p[k - 7] == '/') && (k == n || p[k] == '/');
        proof {
            if k >= 6 {
                let w = p@.subrange(k - 6, k as int);
                if w == seq!['t', 'a', 'r', 'g', 'e', 't'] {
                    assert(w[0] == p@[k - 6] && w[1] == p@[k - 5] && w[2] == p@[k - 4] && w[3] == p@[k - 3] && w[4] == p@[k - 2] && w[5] == p@[k - 1]);
                }
                if p@[k - 6] == 't' && p@[k - 5] == 'a' && p@[k - 4] == 'r' && p@[k - 3] == 'g' && p@[k - 2] == 'e' && p@[k - 1] == 't' {
                    assert(w =~= seq!['t', 'a', 'r', 'g', 'e', 't']);
                }
            }
            assert(found == is_target_prefix(p@, k as int));
        }
        if found {
            let prefix = sub_chars(&p, 0, k);
            assert(target_ancestor_len(p@, k as int) == Some(k as int));
            return join_path(string_of(&prefix).as_str(), "pvmbuild");
        }
        k = k - 1;
    }
    join_path(out_dir, "pvmbuild")
}

/// The environment variable that marks the nested build, so that it does not
/// start another.
pub const INTERNAL_BUILD_ENV: &'static str = "CARGO_PVM_CONTRACT_INTERNAL";

/// Where the artifacts of one project's PolkaVM build go.
#[derive(Clone, Debug, PartialEq, Eq)]
pub struct BuildLayout {
    /// `<build dir>/<crate name>`: holds the linked `.polkavm` binaries.
    pub project_dir: String,
    /// `<project dir>/target`: cargo's target directory for the nested build.
    pub target_dir: String,
    /// Where cargo leaves the ELF binaries of the profile.
    pub elf_dir: String,
}

/// The layout of a build under `build_dir` of the crate, with the profile.
pub open spec fn layout_of(build_dir: Seq<char>, crate_name: Seq<char>, profile: Profile) -> (Seq<char>, Seq<char>, Seq<char>) {
    let project_dir = joined_path(build_dir, crate_name);
    let target_dir = joined_path(project_dir, "target"@);
    let triple_dir = joined_path(target_dir, "riscv64emac-unknown-none-polkavm"@);
    let profile_dir = match profile {
        Profile::Debug => "debug"@,
        Profile::Release => "release"@,
    };
    (project_dir, target_dir, joined_path(triple_dir, profile_dir))
}

impl BuildLayout {
    pub fn new(build_dir: &str, crate_name: &str, profile: Profile) -> (r: Self)
        ensures
            (r.project_dir@, r.target_dir@, r.elf_dir@) == layout_of(build_dir@, crate_name@, profile),
    {
        let project_dir = join_path(build_dir, crate_name);
        let target_dir = join_path(project_dir.as_str(), "target");
        let triple_dir = join_path(target_dir.as_str(), "riscv64emac-unknown-none-polkavm");
        let elf_dir = join_path(triple_dir.as_str(), profile.directory());
        BuildLayout { project_dir, target_dir, elf_dir }
    }

    /// The ELF binary that cargo builds for `bin`.
    pub fn elf_path(&self, bin: &str) -> (r: String)
        ensures
            r@ == joined_path(self.elf_dir@, bin@),
    {
        join_path(self.elf_dir.as_str(), bin)
    }

    /// The PolkaVM binary linked from `bin`: `<project dir>/<bin>.polkavm`.
    pub fn output_path(&self, bin: &str) -> (r: String)
        ensures
            r@ == joined_path(self.project_dir@, bin@ + ".polkavm"@),
    {
        let mut name = chars_of(bin);
        push_str(&mut name, ".polkavm");
        join_path(self.project_dir.as_str(), string_of(&name).as_str())
    }
}

/// A cargo run: its arguments, the environment it sets and the variables it
/// removes.
#[derive(Clone, Debug, PartialEq, Eq)]
pub struct CargoInvocation {
    pub args: Vec<String>,
    pub envs: Vec<(String, String)>,
    pub env_removes: Vec<String>,
}

/// The flags that make panics abort at once, when the toolchain supports it.
pub open spec fn rustflags_of(immediate_abort: bool) -> Seq<char> {
    if immediate_abort {
        "-Zunstable-options -Cpanic=immediate-abort"@
    } else {
        ""@
    }
}

/// `--bin <name>` for each binary, in order.
pub open spec fn bin_args(bins: Seq<Seq<char>>) -> Seq<Seq<char>>
    decreases bins.len(),
{
    if bins.len() == 0 {
        Seq::empty()
    } else {
        bin_args(bins.drop_last()) + seq!["--bin"@, bins.last()]
    }
}

/// The arguments of the nested `cargo build`.
pub open spec fn cargo_args_of(
    manifest_path: Seq<char>,
    profile: Profile,
    target_json: Seq<char>,
    bins: Seq<Seq<char>>,
    immediate_abort: bool,
) -> Seq<Seq<char>> {
    let profile_arg = match profile {
        Profile::Debug => "dev"@,
        Profile::Release => "release"@,
    };
    seq![
        "build"@,
        "--manifest-path"@,
        manifest_path,
        "--profile"@,
        profile_arg,
        "--target"@,
        target_json,
        "-Zbuild-std=core,alloc"@,
    ] + (if immediate_abort {
        seq!["-Zbuild-std-features=panic_immediate_abort"@]
    } else {
        Seq::empty()
    }) + bin_args(bins)
}

/// The environment the nested `cargo build` runs with.
pub open spec fn cargo_envs_of(target_dir: Seq<char>, immediate_abort: bool) -> Seq<(Seq<char>, Seq<char>)> {
    seq![
        ("RUSTFLAGS"@, rustflags_of(immediate_abort)),
        ("CARGO_TARGET_DIR"@, target_dir),
        ("CARGO_PROFILE_RELEASE_STRIP"@, "false"@),
        ("RUSTC_BOOTSTRAP"@, "1"@),
        (INTERNAL_BUILD_ENV@, "1"@),
    ]
}

fn owned(s: &str) -> (r: String)
    ensures
        r@ == s@,
{
    string_of(&chars_of(s))
}

fn env_pair(k: &str, v: &str) -> (r: (String, String))
    ensures
        r.0@ == k@ && r.1@ == v@,
{
    (owned(k), owned(v))
}

/// The cargo run that builds the binaries as ELF for PolkaVM. Stripping is
/// left to the linker, which needs the relocations.
pub fn cargo_build_invocation(
    manifest_path: &str,
    target_dir: &str,
    profile: Profile,
    target_json: &str,
    bins: &Vec<String>,
    immediate_abort: bool,
) -> (r: CargoInvocation)
    ensures
        strings(r.args@) == cargo_args_of(manifest_path@, profile, target_json@, strings(bins@), immediate_abort),
        r.envs@.map_values(|e: (String, String)| (e.0@, e.1@)) == cargo_envs_of(target_dir@, immediate_abort),
        strings(r.env_removes@) == seq!["CARGO_ENCODED_RUSTFLAGS"@, "RUSTC"@],
{
    let mut args: Vec<String> = Vec::new();
    args.push(owned("build"));
    args.push(owned("--manifest-path"));
    args.push(owned(manifest_path));
    args.push(owned("--profile"));
    args.push(owned(profile.cargo_arg()));
    args.push(owned("--target"));
    args.push(owned(target_json));
    args.push(owned("-Zbuild-std=core,alloc"));
    if immediate_abort {
        args.push(owned("-Zbuild-std-features=panic_immediate_abort"));
    }
    let ghost head = strings(args@);
    let mut i: usize = 0;
    while i < bins.len()
        invariant
            i <= bins@.len(),
            strings(args@) == head + bin_args(strings(bins@.take(i as int))),
        decreases bins@.len() - i,
    {
        let ghost prev = strings(args@);
        args.push(owned("--bin"));
        args.push(bins[i].clone());
        proof {
            assert(strings(args@) =~= prev + seq!["--bin"@, bins@[i as int]@]);
            let bs = strings(bins@.take(i + 1));
            assert(bs.last() == bins@[i as int]@);
            assert(bs.drop_last() =~= strings(bins@.take(i as int)));
            assert(strings(args@) =~= head + bin_args(bs));
        }
        i = i + 1;
    }
    assert(bins@.take(bins@.len() as int) =~= bins@);
    assert(strings(args@) =~= cargo_args_of(manifest_path@, profile, target_json@, strings(bins@), immediate_abort));
    let rustflags = if immediate_abort {
        "-Zunstable-options -Cpanic=immediate-abort"
    } else {
        ""
    };
    let envs: Vec<(String, String)> = vec![
        env_pair("RUSTFLAGS", rustflags),
        env_pair("CARGO_TARGET_DIR", target_dir),
        env_pair("CARGO_PROFILE_RELEASE_STRIP", "false"),
        env_pair("RUSTC_BOOTSTRAP", "1"),
        env_pair(INTERNAL_BUILD_ENV, "1"),
    ];
    assert(envs@.map_values(|e: (String, String)| (e.0@, e.1@)) =~= cargo_envs_of(target_dir@, immediate_abort));
    let env_removes: Vec<String> = vec![owned("CARGO_ENCODED_RUSTFLAGS"), owned("RUSTC")];
    assert(strings(env_removes@) =~= seq!["CARGO_ENCODED_RUSTFLAGS"@, "RUSTC"@]);
    CargoInvocation { args, envs, env_removes }
}

#[verifier::external_type_specification]
#[verifier::external_body]
pub struct ExProgramFromElfError(polkavm_linker::ProgramFromElfError);

/// Relies on polkavm_linker's `program_from_elf` with a default `Config` set
/// to strip and optimize, for `TargetInstructionSet::ReviveV1`: links an ELF
/// binary into a PolkaVM program.
#[verifier::external_body]
fn program_from_elf(elf: &[u8]) -> (r: Result<Vec<u8>, polkavm_linker::ProgramFromElfError>) {
    let mut config = polkavm_linker::Config::default();
    config.set_strip(true);
    config.set_optimize(true);
    polkavm_linker::program_from_elf(config, polkavm_linker::TargetInstructionSet::ReviveV1, elf)
}

/// Why an ELF binary could not be linked.
#[derive(Debug)]
pub enum LinkError {
    Linker(polkavm_linker::ProgramFromElfError),
}

/// Links an ELF binary into PolkaVM bytecode, stripped and optimized.
pub fn link_to_polkavm(elf: &[u8]) -> (r: Result<Vec<u8>, LinkError>)
    ensures
        r matches Err(e) ==> e is Linker,
{
    match program_from_elf(elf) {
        Ok(program) => Ok(program),
        Err(e) => Err(LinkError::Linker(e)),
    }
}

} // verus!
