use cargo_pvm_contract::builder::{
    cargo_build_invocation, get_bin_targets, get_build_dir,
    get_crate_name, link_to_polkavm, select_bin_targets, BuildError, BuildLayout, LinkError,
    Profile, PvmBuilder,
};
use cargo_pvm_contract::dispatch::MemoryModel;
use cargo_pvm_contract::toolchain::{check_immediate_abort_support, VersionError};
use cargo_pvm_contract::examples::{find_example, load_examples, ExampleContract, ExampleError};
use cargo_pvm_contract::init::{
    init_command_non_interactive, InitError, InitPlan, InitType, PvmContractArgs,
};

fn example(name: &str) -> ExampleContract {
    ExampleContract { name: name.to_string(), filename: format!("{name}.sol") }
}

fn args(init_type: Option<InitType>) -> PvmContractArgs {
    PvmContractArgs {
        init_type,
        example: None,
        memory_model: None,
        name: None,
        sol_file: None,
        non_interactive: true,
    }
}

#[test]
fn example_from_path() {
    assert_eq!(ExampleContract::from_path("examples/MyToken.sol"), Some(example("MyToken")));
    assert_eq!(ExampleContract::from_path("Fib.sol"), Some(example("Fib")));
    assert_eq!(
        ExampleContract::from_path("a/b.c.sol"),
        Some(ExampleContract { name: "b.c".to_string(), filename: "b.c.sol".to_string() })
    );
    assert_eq!(ExampleContract::from_path("examples/readme.md"), None);
    assert_eq!(ExampleContract::from_path("examples/.sol"), None);
    assert_eq!(ExampleContract::from_path("examples/noext"), None);
    assert_eq!(ExampleContract::from_path("examples/"), None);
    assert_eq!(ExampleContract::from_path(""), None);
}

#[test]
fn example_matching() {
    let e = example("MyToken");
    assert!(e.matches("mytoken"));
    assert!(e.matches("  MYTOKEN\t"));
    assert!(e.matches("mytoken.SOL"));
    assert!(!e.matches("my token"));
    assert!(!e.matches("mytok"));
}

#[test]
fn examples_are_sorted_by_name() {
    let paths: Vec<String> = ["examples/Zeta.sol", "examples/notes.txt", "examples/Alpha.sol", "examples/Mid.sol"]
        .iter()
        .map(|s| s.to_string())
        .collect();
    let loaded = load_examples(&paths).unwrap();
    let names: Vec<&str> = loaded.iter().map(|e| e.name.as_str()).collect();
    assert_eq!(names, vec!["Alpha", "Mid", "Zeta"]);
    assert_eq!(load_examples(&["x.txt".to_string()]), Err(ExampleError::NoExamples));
    assert_eq!(load_examples(&[]), Err(ExampleError::NoExamples));
}

#[test]
fn finding_examples() {
    let examples = vec![example("Fibonacci"), example("MyToken")];
    assert_eq!(find_example(&examples, " mytoken "), Ok(example("MyToken")));
    assert_eq!(
        find_example(&examples, "nope"),
        Err(ExampleError::UnknownExample { query: "nope".to_string() })
    );
}

#[test]
fn non_interactive_blank() {
    assert_eq!(init_command_non_interactive(&args(None), &[], false), Err(InitError::MissingInitType));
    let mut a = args(Some(InitType::Blank));
    assert_eq!(init_command_non_interactive(&a, &[], false), Err(InitError::MissingName));
    a.name = Some(String::new());
    assert_eq!(init_command_non_interactive(&a, &[], false), Err(InitError::MissingName));
    a.name = Some("flipper".to_string());
    assert_eq!(
        init_command_non_interactive(&a, &[], false),
        Ok(InitPlan::Blank { contract_name: "flipper".to_string() })
    );
}

#[test]
fn non_interactive_example() {
    let examples = vec![example("Fibonacci"), example("MyToken")];
    let mut a = args(Some(InitType::Example));
    assert_eq!(init_command_non_interactive(&a, &[], false), Err(InitError::NoExamples));
    assert_eq!(init_command_non_interactive(&a, &examples, false), Err(InitError::MissingExample));
    a.example = Some("Other".to_string());
    assert_eq!(
        init_command_non_interactive(&a, &examples, false),
        Err(InitError::UnknownExample { query: "Other".to_string() })
    );
    a.example = Some("MyToken".to_string());
    assert_eq!(init_command_non_interactive(&a, &examples, false), Err(InitError::MissingMemoryModel));
    a.memory_model = Some(MemoryModel::AllocWithAlloy);
    assert_eq!(
        init_command_non_interactive(&a, &examples, false),
        Ok(InitPlan::Example { example: example("MyToken"), contract_name: "MyToken".to_string(), use_alloc: true })
    );
    a.memory_model = Some(MemoryModel::NoAlloc);
    a.name = Some("mytoken-no-alloc".to_string());
    assert_eq!(
        init_command_non_interactive(&a, &examples, false),
        Ok(InitPlan::Example {
            example: example("MyToken"),
            contract_name: "mytoken-no-alloc".to_string(),
            use_alloc: false
        })
    );
    a.name = Some(String::new());
    assert_eq!(init_command_non_interactive(&a, &examples, false), Err(InitError::EmptyName));
}

#[test]
fn non_interactive_solidity_file() {
    let mut a = args(Some(InitType::SolidityFile));
    assert_eq!(init_command_non_interactive(&a, &[], true), Err(InitError::MissingSolFile));
    a.sol_file = Some("contracts/Vault.sol".to_string());
    assert_eq!(
        init_command_non_interactive(&a, &[], false),
        Err(InitError::SolFileNotFound { path: "contracts/Vault.sol".to_string() })
    );
    assert_eq!(init_command_non_interactive(&a, &[], true), Err(InitError::MissingMemoryModel));
    a.memory_model = Some(MemoryModel::NoAlloc);
    assert_eq!(
        init_command_non_interactive(&a, &[], true),
        Ok(InitPlan::SolidityFile {
            sol_file: "contracts/Vault.sol".to_string(),
            contract_name: "Vault".to_string(),
            use_alloc: false
        })
    );
    a.sol_file = Some("..".to_string());
    assert_eq!(
        init_command_non_interactive(&a, &[], true),
        Ok(InitPlan::SolidityFile { sol_file: "..".to_string(), contract_name: "contract".to_string(), use_alloc: false })
    );
    a.name = Some(String::new());
    assert_eq!(init_command_non_interactive(&a, &[], true), Err(InitError::EmptyName));
}

#[test]
fn builder_paths() {
    let b = PvmBuilder::new("/work/proj");
    assert_eq!(b.project_cargo_toml, "/work/proj/Cargo.toml");
    assert_eq!(b.bin_name, None);
    assert_eq!(PvmBuilder::new("/work/proj/").project_cargo_toml, "/work/proj/Cargo.toml");
    assert_eq!(PvmBuilder::new("").project_cargo_toml, "Cargo.toml");
    let b = b.with_bin("flipper".to_string());
    assert_eq!(b.bin_name, Some("flipper".to_string()));
    assert_eq!(b.project_cargo_toml, "/work/proj/Cargo.toml");
    assert_eq!(b.bins_to_build("not toml at all [").unwrap(), vec!["flipper".to_string()]);
}

#[test]
fn profiles() {
    assert_eq!(Profile::detect(Some("release")), Profile::Release);
    assert_eq!(Profile::detect(Some("debug")), Profile::Debug);
    assert_eq!(Profile::detect(None), Profile::Debug);
    assert_eq!(Profile::Debug.cargo_arg(), "dev");
    assert_eq!(Profile::Release.cargo_arg(), "release");
    assert_eq!(Profile::Debug.directory(), "debug");
    assert_eq!(Profile::Release.directory(), "release");
}

#[test]
fn manifest_bin_targets() {
    let with_bins = "[package]\nname = \"pkg\"\n\n[[bin]]\nname = \"first\"\npath = \"a.rs\"\n\n[[bin]]\npath = \"b.rs\"\n\n[[bin]]\nname = \"third\"\n";
    assert_eq!(get_bin_targets(with_bins).unwrap(), vec!["first".to_string(), "third".to_string()]);
    assert_eq!(get_bin_targets("[package]\nname = \"pkg\"\n").unwrap(), vec!["pkg".to_string()]);
    assert_eq!(get_bin_targets("[dependencies]\n").unwrap(), Vec::<String>::new());
    assert!(matches!(get_bin_targets("[package\n"), Err(BuildError::ManifestParse(_))));
    assert_eq!(get_crate_name("[package]\nname = \"pkg\"\n").unwrap(), "pkg");
    assert!(matches!(get_crate_name("[lib]\n"), Err(BuildError::NoPackageName)));
    let b = PvmBuilder::new("/p");
    assert!(matches!(b.bins_to_build("[dependencies]\n"), Err(BuildError::NoBinTargets)));
    assert_eq!(b.bins_to_build(with_bins).unwrap().len(), 2);
}

#[test]
fn bin_target_selection() {
    let names = vec![None, Some("a".to_string()), None];
    assert_eq!(select_bin_targets(&names, &Some("pkg".to_string())), vec!["a".to_string()]);
    assert_eq!(select_bin_targets(&vec![None], &Some("pkg".to_string())), vec!["pkg".to_string()]);
    assert_eq!(select_bin_targets(&vec![], &None), Vec::<String>::new());
}

#[test]
fn rustc_versions() {
    assert_eq!(check_immediate_abort_support("rustc 1.92.0 (ded5c06cf 2025-12-08)\n"), Ok(true));
    assert_eq!(check_immediate_abort_support("rustc 1.91.1 (ed61e7d7e 2025-11-07)"), Ok(false));
    assert_eq!(check_immediate_abort_support("rustc 1.93.0-nightly (abc 2025-12-01)"), Ok(true));
    assert_eq!(check_immediate_abort_support("  rustc   2.0.0"), Ok(true));
    assert_eq!(check_immediate_abort_support("rustc 0.99.0"), Ok(false));
    assert_eq!(check_immediate_abort_support("rustc"), Err(VersionError::UnexpectedFormat));
    assert_eq!(check_immediate_abort_support(""), Err(VersionError::UnexpectedFormat));
    assert_eq!(check_immediate_abort_support("rustc x.1"), Err(VersionError::InvalidMajor));
    assert_eq!(check_immediate_abort_support("rustc .92"), Err(VersionError::InvalidMajor));
    assert_eq!(check_immediate_abort_support("rustc 1"), Err(VersionError::MissingMinor));
    assert_eq!(check_immediate_abort_support("rustc 1.x"), Err(VersionError::InvalidMinor));
    assert_eq!(check_immediate_abort_support("rustc +1.92"), Ok(true));
    assert_eq!(check_immediate_abort_support("rustc 1.99999999999"), Err(VersionError::InvalidMinor));
}

#[test]
fn build_directories() {
    assert_eq!(get_build_dir("/p/target/debug/build/x-1/out"), "/p/target/pvmbuild");
    assert_eq!(get_build_dir("/p/target/a/target/b"), "/p/target/a/target/pvmbuild");
    assert_eq!(get_build_dir("/p/targets/out"), "/p/targets/out/pvmbuild");
    assert_eq!(get_build_dir("/p/my-target/out"), "/p/my-target/out/pvmbuild");
    assert_eq!(get_build_dir("target"), "target/pvmbuild");
    assert_eq!(get_build_dir("/x/target/"), "/x/target/pvmbuild");
}

#[test]
fn build_layout_paths() {
    let layout = BuildLayout::new("/p/target/pvmbuild", "flipper", Profile::Release);
    assert_eq!(layout.project_dir, "/p/target/pvmbuild/flipper");
    assert_eq!(layout.target_dir, "/p/target/pvmbuild/flipper/target");
    assert_eq!(layout.elf_dir, "/p/target/pvmbuild/flipper/target/riscv64emac-unknown-none-polkavm/release");
    assert_eq!(layout.elf_path("flip"), "/p/target/pvmbuild/flipper/target/riscv64emac-unknown-none-polkavm/release/flip");
    assert_eq!(layout.output_path("flip"), "/p/target/pvmbuild/flipper/flip.polkavm");
}

#[test]
fn cargo_invocation() {
    let bins = vec!["a".to_string(), "b".to_string()];
    let inv = cargo_build_invocation("/p/Cargo.toml", "/t", Profile::Debug, "/j.json", &bins, true);
    let args: Vec<&str> = inv.args.iter().map(|s| s.as_str()).collect();
    assert_eq!(
        args,
        vec![
            "build", "--manifest-path", "/p/Cargo.toml", "--profile", "dev", "--target", "/j.json",
            "-Zbuild-std=core,alloc", "-Zbuild-std-features=panic_immediate_abort", "--bin", "a", "--bin", "b"
        ]
    );
    assert_eq!(inv.envs[0], ("RUSTFLAGS".to_string(), "-Zunstable-options -Cpanic=immediate-abort".to_string()));
    assert_eq!(inv.envs[1], ("CARGO_TARGET_DIR".to_string(), "/t".to_string()));
    assert_eq!(inv.envs[4], ("CARGO_PVM_CONTRACT_INTERNAL".to_string(), "1".to_string()));
    assert_eq!(inv.env_removes, vec!["CARGO_ENCODED_RUSTFLAGS".to_string(), "RUSTC".to_string()]);
    let plain = cargo_build_invocation("/p/Cargo.toml", "/t", Profile::Release, "/j.json", &vec![], false);
    assert_eq!(plain.args.len(), 8);
    assert_eq!(plain.args[4], "release");
    assert_eq!(plain.envs[0], ("RUSTFLAGS".to_string(), String::new()));
}

#[test]
fn linking_rejects_garbage() {
    assert!(matches!(link_to_polkavm(&[1, 2, 3]), Err(LinkError::Linker(_))));
}
