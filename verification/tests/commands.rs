use cart::cli::{run as start, CartArgs, Command};
use cart::cmd::add::add;
use cart::cmd::building::{build, check_frozen, include_paths, rom_output_path};
use cart::cmd::check::check;
use cart::cmd::init::{init, validate_name};
use cart::cmd::install::{install_source, short_sha};
use cart::cmd::run::run;
use cart::cmd::test::{
    check_sentinel, is_test_source, run_outcome, summarize, test_job, test_profile_name, test_setup,
    SentinelCheck, TestOutcome,
};
use cart::cmd::update::{update_plan, UpdateStep};
use cart::config::{BuildConfig, GlobalConfig, RegistryConfig};
use cart::lockfile::{CartLock, LockedSource};
use cart::manifest::{
    CartManifest, Dependency, DetailedDependency, Features, Lib, Package, Rom, RunProfile,
    RunProfileSection, Sentinel, TargetSection, TestConfig,
};
use cart::namemap::NameMap;
use cart::opc::OpcStage;
use cart::resolver::{ResolvedGraph, ResolvedPackage};

fn manifest(name: &str) -> CartManifest {
    CartManifest {
        package: Package {
            name: name.to_string(),
            version: "0.1.0".to_string(),
            edition: "1".to_string(),
            authors: Vec::new(),
            license: None,
        },
        lib: None,
        rom: Vec::new(),
        dependencies: NameMap::new(),
        dev_dependencies: NameMap::new(),
        target: None,
        features: None,
        run: None,
        test: None,
        doc: None,
    }
}

fn rom(name: &str, target: &str) -> Rom {
    Rom {
        name: name.to_string(),
        path: None,
        target: target.to_string(),
        format: None,
    }
}

fn profile(name: &str, emulator: &str, args: &[&str]) -> RunProfile {
    RunProfile {
        name: name.to_string(),
        emulator: emulator.to_string(),
        args: args.iter().map(|a| a.to_string()).collect(),
        target: None,
    }
}

fn path_dep(path: &str) -> Dependency {
    Dependency::Detailed(DetailedDependency {
        version: None,
        git: None,
        branch: None,
        tag: None,
        rev: None,
        path: Some(path.to_string()),
        features: Vec::new(),
        optional: false,
        default_features: true,
    })
}

// ---------------------------------------------------------------- init

#[test]
fn init_rom_plan_matches_template() {
    let plan = init("demo", false, Some("rp2A03-nintendo-nes-ntsc")).expect("init");
    assert_eq!(plan.dir, "demo");
    assert_eq!(plan.entry_path, "src/cart.op");
    assert!(plan.entry_text.contains("//! demo"));
    assert!(plan.entry_text.contains("//! Project entry point."));
    assert!(plan.entry_text.contains("noreturn fn main()"));
    assert_eq!(plan.gitignore, "/target\n");
    let m = &plan.manifest;
    assert_eq!(m.package.name, "demo");
    assert_eq!(m.package.version, "0.1.0");
    assert_eq!(m.package.edition, "1");
    assert_eq!(m.rom.len(), 1);
    assert_eq!(m.rom[0].path.as_deref(), Some("src/cart.op"));
    assert_eq!(m.rom[0].target, "rp2A03-nintendo-nes-ntsc");
    assert_eq!(m.rom[0].format.as_deref(), Some("ines"));
    assert_eq!(m.target.as_ref().unwrap().default, "rp2A03-nintendo-nes-ntsc");
    assert!(m.features.is_some());
    assert!(m.lib.is_none());
}

#[test]
fn init_lib_plan_matches_template() {
    let plan = init("demolib", true, Some("rp2A03-nintendo-nes-nes")).expect("init");
    assert_eq!(plan.entry_path, "src/lib.op");
    assert!(plan.entry_text.starts_with("//! demolib lib"));
    assert!(plan.entry_text.contains("//! Bank entry point."));
    let m = &plan.manifest;
    assert_eq!(m.lib.as_ref().unwrap().name, "demolib");
    assert_eq!(m.lib.as_ref().unwrap().path.as_deref(), Some("src/lib.op"));
    assert!(m.rom.is_empty());
    assert!(m.features.is_some());
}

#[test]
fn init_default_target() {
    let plan = init("game", false, None).expect("init");
    assert_eq!(plan.manifest.rom[0].target, "mos6502-nintendo-nes-ntsc");
    assert_eq!(plan.manifest.rom[0].format.as_deref(), Some("ines"));
}

#[test]
fn init_sets_platform_format() {
    let lynx = init("g", false, Some("vl65nc02-atari-lynx")).unwrap();
    assert_eq!(lynx.manifest.rom[0].format.as_deref(), Some("lnx"));
    let genesis = init("g", false, Some("m68000-sega-genesis")).unwrap();
    assert_eq!(genesis.manifest.rom[0].format, None);
}

#[test]
fn init_rejects_invalid_name() {
    for bad in ["UPPER", "has space", "Caps", "", ".", ".."] {
        let err = match init(bad, false, None) {
            Err(e) => e,
            Ok(_) => panic!("expected error for name: {bad:?}"),
        };
        assert!(err.message.contains("E502"), "expected E502 for name: {bad:?}, got: {}", err.message);
    }
    assert!(validate_name("my-game_2").is_ok());
    assert_eq!(
        validate_name("Bad").unwrap_err().message,
        "E502: project name 'Bad' must contain only lowercase letters, digits, hyphens, and underscores"
    );
}

// ---------------------------------------------------------------- build

#[test]
fn build_rom_job() {
    let mut m = manifest("mygame");
    m.rom.push(rom("mygame", "rp2A03-nintendo-nes-ntsc"));
    let config = GlobalConfig::empty();
    let graph = ResolvedGraph::default();
    let jobs = build(&m, "/p", None, false, false, &Vec::new(), None, &config, &graph, "/c", "/std")
        .expect("build");
    assert_eq!(jobs.len(), 1);
    let j = &jobs[0];
    assert!(!j.is_lib);
    assert_eq!(j.output_dir, "/p/target/rp2A03-nintendo-nes-ntsc");
    assert_eq!(j.args.input, "/p/src/cart.op");
    assert_eq!(j.args.output.as_deref(), Some("/p/target/rp2A03-nintendo-nes-ntsc/mygame.bin"));
    assert_eq!(j.args.opt_level, 1);
    assert_eq!(j.args.include_dirs, vec!["/std/src"]);
}

#[test]
fn build_lib_job() {
    let mut m = manifest("mylib");
    m.lib = Some(Lib {
        name: "mylib".to_string(),
        path: None,
    });
    m.target = Some(TargetSection {
        default: "rp2A03-nintendo-nes-ntsc".to_string(),
    });
    let config = GlobalConfig::empty();
    let mut graph = ResolvedGraph::default();
    graph.packages.push(ResolvedPackage {
        name: "std".to_string(),
        version: "0.1.0".to_string(),
        source: LockedSource::Git {
            url: "u".to_string(),
            sha: String::new(),
        },
        checksum: "x".to_string(),
    });
    let jobs = build(&m, "/p", None, false, true, &vec!["dbg".to_string()], None, &config, &graph, "/c", "/std")
        .expect("build");
    let j = &jobs[0];
    assert!(j.is_lib);
    assert_eq!(j.args.output.as_deref(), Some("/p/target/rp2A03-nintendo-nes-ntsc/mylib.opb"));
    assert_eq!(j.args.format.as_deref(), Some("raw"));
    assert_eq!(j.args.opt_level, 0);
    assert_eq!(j.args.features, vec!["dbg"]);
    assert_eq!(j.args.include_dirs, vec!["/c/std/src", "/std/src"]);
}

#[test]
fn build_errors_when_no_target() {
    let mut m = manifest("empty");
    m.features = Some(Features { flags: NameMap::new() });
    let config = GlobalConfig::empty();
    let graph = ResolvedGraph::default();
    let err = match build(&m, ".", None, false, false, &Vec::new(), None, &config, &graph, "/c", "/s") {
        Err(e) => e,
        Ok(_) => panic!("expected E502"),
    };
    assert!(err.message.contains("E502"), "expected E502, got: {}", err.message);
}

#[test]
fn build_lib_without_target_is_e503() {
    let mut m = manifest("mylib");
    m.lib = Some(Lib {
        name: "mylib".to_string(),
        path: None,
    });
    let config = GlobalConfig::empty();
    let graph = ResolvedGraph::default();
    let err = match build(&m, ".", None, false, false, &Vec::new(), None, &config, &graph, "/c", "/s") {
        Err(e) => e,
        Ok(_) => panic!("expected E503"),
    };
    assert_eq!(err.code, 503);
    let mut config = GlobalConfig::empty();
    config.build = Some(BuildConfig {
        target: Some("z80-sega-genesis".to_string()),
        opt_level: Some(2),
    });
    let jobs = build(&m, ".", None, false, false, &Vec::new(), None, &config, &graph, "/c", "/s").unwrap();
    assert_eq!(jobs[0].target, "z80-sega-genesis");
    assert_eq!(jobs[0].args.opt_level, 2);
}

#[test]
fn build_rom_format_and_features() {
    let mut m = manifest("g");
    let mut r = rom("g", "rp2A03-nintendo-nes-ntsc");
    r.format = Some("ines".to_string());
    m.rom.push(r);
    let mut flags = NameMap::new();
    flags.insert("zeta".to_string(), Vec::new());
    flags.insert("alpha".to_string(), Vec::new());
    m.features = Some(Features { flags });
    let config = GlobalConfig::empty();
    let graph = ResolvedGraph::default();
    let jobs = build(&m, "p", None, true, false, &vec!["cli".to_string()], Some("raw"), &config, &graph, "/c", "/s")
        .unwrap();
    assert_eq!(jobs[0].args.format.as_deref(), Some("ines"));
    assert_eq!(jobs[0].args.output.as_deref(), Some("p/target/rp2A03-nintendo-nes-ntsc/g.nes"));
    assert_eq!(jobs[0].args.features, vec!["alpha", "zeta", "cli"]);
    assert_eq!(jobs[0].args.stage, OpcStage::Full);
}

#[test]
fn frozen_build_refuses_stale_lock() {
    let mut graph = ResolvedGraph::default();
    graph.packages.push(ResolvedPackage {
        name: "std".to_string(),
        version: "0.1.0".to_string(),
        source: LockedSource::Path { dir: "d".to_string() },
        checksum: "x".to_string(),
    });
    let stale = CartLock::new();
    let err = check_frozen(Some(&stale), &graph, true).unwrap_err();
    assert_eq!(err.code, 506);
    assert!(check_frozen(Some(&stale), &graph, false).is_ok());
    assert!(check_frozen(None, &graph, true).is_ok());
    let mut fresh = CartLock::new();
    fresh.update_from_graph(&graph);
    assert!(check_frozen(Some(&fresh), &graph, true).is_ok());
}

#[test]
fn include_paths_in_graph_order() {
    let mut graph = ResolvedGraph::default();
    graph.packages.push(ResolvedPackage {
        name: "a".to_string(),
        version: "1.0.0".to_string(),
        source: LockedSource::Path { dir: "../a".to_string() },
        checksum: String::new(),
    });
    assert_eq!(include_paths(&graph, "/c", "/std"), vec!["../a/src", "/std/src"]);
    assert_eq!(rom_output_path("/p", "t-u-v", "x", Some("lnx")), "/p/target/t-u-v/x.lnx");
}

// ---------------------------------------------------------------- check

#[test]
fn check_each_rom_target_parse_only() {
    let mut m = manifest("g");
    m.rom.push(rom("g", "rp2A03-nintendo-nes-ntsc"));
    m.rom.push(rom("g2", "z80-sega-genesis"));
    let runs = check(&m, "/p", None);
    assert_eq!(runs.len(), 2);
    assert_eq!(runs[0].target, "rp2A03-nintendo-nes-ntsc");
    assert_eq!(runs[1].target, "z80-sega-genesis");
    assert_eq!(runs[0].input, "/p/src/cart.op");
    assert_eq!(runs[0].stage, OpcStage::Parse);
    assert!(runs[0].to_args().contains(&"--parse".to_string()));
    let runs = check(&m, "/p", Some("z80-sega-mastersystem"));
    assert_eq!(runs.len(), 2);
    assert!(runs.iter().all(|r| r.target == "z80-sega-mastersystem"));
}

// ---------------------------------------------------------------- run

#[test]
fn run_plan_uses_profile_and_rom() {
    let mut m = manifest("g");
    m.rom.push(rom("g", "rp2A03-nintendo-nes-ntsc"));
    m.run = Some(RunProfileSection {
        profile: vec![profile("default", "mesen", &["--rom"])],
    });
    let config = GlobalConfig::empty();
    let plan = run(&m, &config, "/p", None, None).expect("run");
    assert_eq!(plan.emulator, "mesen");
    assert_eq!(plan.rom_path, "/p/target/rp2A03-nintendo-nes-ntsc/g.bin");
    assert_eq!(plan.emulator_args, vec!["--rom", "/p/target/rp2A03-nintendo-nes-ntsc/g.bin"]);
}

#[test]
fn run_missing_profile_is_e501() {
    let mut m = manifest("g");
    m.rom.push(rom("g", "rp2A03-nintendo-nes-ntsc"));
    let config = GlobalConfig::empty();
    let err = match run(&m, &config, "/p", None, Some("fast")) {
        Err(e) => e,
        Ok(_) => panic!("expected E501"),
    };
    assert_eq!(err.message, "E501: run profile 'fast' not found in Cart.toml or config");
}

#[test]
fn run_profile_from_config_and_no_rom() {
    let m = manifest("g");
    let mut config = GlobalConfig::empty();
    config.run = Some(RunProfileSection {
        profile: vec![profile("default", "emu", &[])],
    });
    let err = match run(&m, &config, "/p", None, None) {
        Err(e) => e,
        Ok(_) => panic!("expected E502"),
    };
    assert_eq!(err.message, "E502: no ROM targets in Cart.toml");
}

// ---------------------------------------------------------------- test

fn test_manifest() -> CartManifest {
    let mut m = manifest("g");
    m.rom.push(rom("g", "rp2A03-nintendo-nes-ntsc"));
    m.run = Some(RunProfileSection {
        profile: vec![profile("test", "emu", &["--headless"])],
    });
    let mut sentinel = NameMap::new();
    sentinel.insert(
        "nes".to_string(),
        Sentinel {
            address: 2,
            pass_value: 0xFF,
        },
    );
    m.test = Some(TestConfig {
        profile: None,
        sentinel,
    });
    m
}

#[test]
fn test_setup_and_job() {
    let m = test_manifest();
    let config = GlobalConfig::empty();
    assert_eq!(test_profile_name(&m, &config), "test");
    let plan = test_setup(&m, &config, "/p", None).expect("setup");
    assert_eq!(plan.output_dir, "/p/target/rp2A03-nintendo-nes-ntsc/tests");
    assert_eq!(plan.sentinel, Some(Sentinel { address: 2, pass_value: 0xFF }));
    let job = test_job(&plan, "/p/tests/t1.op", "t1");
    assert_eq!(job.output, "/p/target/rp2A03-nintendo-nes-ntsc/tests/t1.bin");
    assert_eq!(job.dump, "/p/target/rp2A03-nintendo-nes-ntsc/tests/t1.dump");
    assert_eq!(job.args.features, vec!["test"]);
    assert_eq!(job.args.opt_level, 0);
    assert_eq!(job.args.format.as_deref(), Some("raw"));
    assert_eq!(
        job.emulator_args,
        vec![
            "--headless",
            "/p/target/rp2A03-nintendo-nes-ntsc/tests/t1.bin",
            "--dump",
            "/p/target/rp2A03-nintendo-nes-ntsc/tests/t1.dump"
        ]
    );
}

#[test]
fn test_setup_errors() {
    let mut m = test_manifest();
    m.run = None;
    let config = GlobalConfig::empty();
    let err = match test_setup(&m, &config, "/p", None) {
        Err(e) => e,
        Ok(_) => panic!("expected E501"),
    };
    assert_eq!(err.message, "E501: test profile 'test' not found in Cart.toml or config");
    let mut m = test_manifest();
    m.rom.clear();
    let err = match test_setup(&m, &config, "/p", None) {
        Err(e) => e,
        Ok(_) => panic!("expected E502"),
    };
    assert_eq!(err.message, "E502: no ROM targets in Cart.toml for test build");
}

#[test]
fn test_other_machine_has_no_sentinel() {
    let m = test_manifest();
    let config = GlobalConfig::empty();
    let plan = test_setup(&m, &config, "/p", Some("z80-sega-genesis")).unwrap();
    assert_eq!(plan.rom_target, "z80-sega-genesis");
    assert_eq!(plan.sentinel, None);
}

#[test]
fn sentinel_checks() {
    let s = Sentinel {
        address: 2,
        pass_value: 0xFF,
    };
    assert_eq!(check_sentinel(&[0, 0, 0xFF], &s), SentinelCheck::Pass);
    assert_eq!(check_sentinel(&[0, 0, 0x01], &s), SentinelCheck::Mismatch { got: 1 });
    assert_eq!(check_sentinel(&[0, 0], &s), SentinelCheck::OutOfRange);
    let big = Sentinel {
        address: 0,
        pass_value: 0x1FF,
    };
    assert_eq!(check_sentinel(&[0xFF], &big), SentinelCheck::Mismatch { got: 0xFF });
}

#[test]
fn test_outcomes_and_summary() {
    let s = Sentinel {
        address: 0,
        pass_value: 7,
    };
    assert_eq!(run_outcome(None, None), TestOutcome::BuildOnly);
    assert_eq!(run_outcome(Some(&s), None), TestOutcome::MissingDump);
    assert_eq!(run_outcome(Some(&s), Some(&[7u8][..])), TestOutcome::Checked(SentinelCheck::Pass));
    let all_pass = summarize(&[TestOutcome::BuildOnly, TestOutcome::Checked(SentinelCheck::Pass)]);
    assert_eq!((all_pass.passed, all_pass.failed, all_pass.exit_code), (2, 0, 0));
    let some_fail = summarize(&[
        TestOutcome::BuildFailed,
        TestOutcome::Checked(SentinelCheck::OutOfRange),
        TestOutcome::BuildOnly,
    ]);
    assert_eq!((some_fail.passed, some_fail.failed, some_fail.exit_code), (1, 2, 2));
}

#[test]
fn test_sources_are_op_files() {
    assert!(is_test_source("basic.op"));
    assert!(!is_test_source("notes.txt"));
    assert!(!is_test_source(".op"));
    assert!(!is_test_source("op"));
    assert!(is_test_source("a.b.op"));
}

// ---------------------------------------------------------------- add, install, update

#[test]
fn add_git_dependency() {
    let mut m = manifest("g");
    let src = add(&mut m, "nes", Some("https://example.org/nes.git"), None, Some("1.0"))
        .expect("add")
        .expect("git source");
    assert_eq!(src.url, "https://example.org/nes.git");
    let dep = m.dependencies.get("nes").expect("entry");
    assert_eq!(dep.git(), Some("https://example.org/nes.git"));
    assert_eq!(dep.version_req(), Some("1.0"));
}

#[test]
fn add_path_dependency_installs_nothing() {
    let mut m = manifest("g");
    assert!(add(&mut m, "local", None, Some("../local"), Some("2.0")).unwrap().is_none());
    let dep = m.dependencies.get("local").expect("entry");
    assert_eq!(dep.path(), Some("../local"));
    assert_eq!(dep.version_req(), None);
}

#[test]
fn add_requires_git_or_path() {
    let mut m = manifest("g");
    let err = match add(&mut m, "std", None, None, Some("1.0")) {
        Err(e) => e,
        Ok(_) => panic!("expected E504"),
    };
    assert_eq!(err.message, "E504: dependency 'std' must specify `git` or `path`");
    assert!(m.dependencies.is_empty());
}

#[test]
fn install_sources() {
    let config = GlobalConfig::empty();
    assert_eq!(install_source("nes", Some("u"), &config).unwrap().url, "u");
    let err = install_source("nes", None, &config).unwrap_err();
    assert_eq!(err.message, "E510: no --git URL and no default-git-base in ~/.cart/config.toml");
    let mut config = GlobalConfig::empty();
    config.registry = Some(RegistryConfig {
        default_git_base: Some("https://github.com/op".to_string()),
    });
    assert_eq!(install_source("nes", None, &config).unwrap().url, "https://github.com/op/nes");
    assert_eq!(short_sha("0123456789abcdef"), "01234567");
    assert_eq!(short_sha("abc"), "abc");
}

#[test]
fn update_plan_skips_paths_and_stops_at_failure() {
    let mut m = manifest("g");
    m.dependencies.insert("b_local".to_string(), path_dep("../b"));
    m.dependencies.insert("a_simple".to_string(), Dependency::Simple("1.0".to_string()));
    let steps = update_plan(&m, Some("https://example.org"));
    assert_eq!(steps.len(), 2);
    match &steps[0] {
        UpdateStep::Fetch { name, source } => {
            assert_eq!(name, "a_simple");
            assert_eq!(source.url, "https://example.org/a_simple");
        }
        _ => panic!("expected fetch"),
    }
    assert!(matches!(&steps[1], UpdateStep::Skip { name } if name == "b_local"));
    let steps = update_plan(&m, None);
    assert_eq!(steps.len(), 1);
    match &steps[0] {
        UpdateStep::Abort { error } => assert_eq!(error.code, 510),
        _ => panic!("expected abort"),
    }
}

// ---------------------------------------------------------------- config, cli

#[test]
fn config_paths_under_home() {
    assert_eq!(GlobalConfig::config_path("/home/u"), "/home/u/.cart/config.toml");
    assert_eq!(GlobalConfig::carts_dir("/home/u"), "/home/u/.carts");
    assert_eq!(GlobalConfig::std_dir("/home/u"), "/home/u/.cart/std");
    let config = GlobalConfig::empty();
    assert_eq!(config.default_opt_level(), 1);
    assert_eq!(config.default_target(), None);
    assert_eq!(config.default_git_base(), None);
}

#[test]
fn cli_defaults_manifest_path() {
    let inv = start(CartArgs {
        manifest_path: None,
        quiet: false,
        verbose: false,
        color: None,
        frozen: true,
        command: Command::Clean,
    });
    assert_eq!(inv.manifest_path, "Cart.toml");
    assert!(inv.frozen);
    let inv = start(CartArgs {
        manifest_path: Some("x/Cart.toml".to_string()),
        quiet: false,
        verbose: false,
        color: None,
        frozen: false,
        command: Command::Doc,
    });
    assert_eq!(inv.manifest_path, "x/Cart.toml");
}

// ---------------------------------------------------------------- laws on values

#[test]
fn new_project_builds_for_its_target() {
    let plan = init("game", false, Some("z80-sega-genesis")).unwrap();
    assert_eq!(plan.manifest.default_target(None), Some("z80-sega-genesis".to_string()));
    let runs = check(&plan.manifest, "game", None);
    assert_eq!(runs.len(), 1);
    assert_eq!(runs[0].target, "z80-sega-genesis");

    let plan = init("mylib", true, Some("z80-sega-genesis")).unwrap();
    let mut config = GlobalConfig::empty();
    config.build = Some(BuildConfig {
        target: Some("rp2A03-nintendo-nes-ntsc".to_string()),
        opt_level: None,
    });
    let graph = ResolvedGraph::default();
    let jobs = build(&plan.manifest, "mylib", None, false, false, &Vec::new(), None, &config, &graph, "/c", "/s")
        .unwrap();
    assert_eq!(jobs[0].target, "z80-sega-genesis");
}

#[test]
fn run_launches_what_build_writes() {
    let mut m = manifest("g");
    let mut r = rom("g", "rp2A03-nintendo-nes-ntsc");
    r.format = Some("ines".to_string());
    m.rom.push(r);
    let mut p = profile("default", "mesen", &[]);
    p.target = Some("rp2A07-nintendo-nes-pal".to_string());
    m.run = Some(RunProfileSection { profile: vec![p] });
    let config = GlobalConfig::empty();
    let plan = run(&m, &config, "/p", None, None).unwrap();
    assert_eq!(plan.rom_target, "rp2A07-nintendo-nes-pal");
    let graph = ResolvedGraph::default();
    let jobs = build(&m, "/p", Some(&plan.rom_target), false, false, &Vec::new(), None, &config, &graph, "/c", "/s")
        .unwrap();
    assert_eq!(jobs[0].args.output.as_deref(), Some(plan.rom_path.as_str()));
    assert_eq!(plan.rom_path, "/p/target/rp2A07-nintendo-nes-pal/g.nes");
}

#[test]
fn added_dependency_can_be_located() {
    let mut m = manifest("g");
    add(&mut m, "nes", Some("https://example.org/nes.git"), None, None).unwrap();
    add(&mut m, "local", None, Some("../local"), None).unwrap();
    for name in ["nes", "local"] {
        let dep = m.dependencies.get(name).unwrap();
        assert!(cart::resolver::resolve_source_path(name, dep, "/c").is_ok());
    }
}
