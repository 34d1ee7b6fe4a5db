use cart::manifest::{
    CartManifest, Dependency, DetailedDependency, Package, Rom, RunProfile, RunProfileSection,
    Sentinel, TargetSection, TestConfig,
};
use cart::namemap::NameMap;

fn manifest_with_rom(name: &str, target: &str) -> CartManifest {
    CartManifest {
        package: Package {
            name: name.to_string(),
            version: "0.1.0".to_string(),
            edition: String::new(),
            authors: Vec::new(),
            license: None,
        },
        lib: None,
        rom: vec![Rom {
            name: name.to_string(),
            path: None,
            target: target.to_string(),
            format: None,
        }],
        dependencies: NameMap::new(),
        dev_dependencies: NameMap::new(),
        target: None,
        features: None,
        run: None,
        test: None,
        doc: None,
    }
}

fn profile(name: &str, emulator: &str, args: &[&str]) -> RunProfile {
    RunProfile {
        name: name.to_string(),
        emulator: emulator.to_string(),
        args: args.iter().map(|a| a.to_string()).collect(),
        target: None,
    }
}

#[test]
fn parse_run_profiles() {
    let mut manifest = manifest_with_rom("test", "rp2A03-nintendo-nes-ntsc");
    manifest.run = Some(RunProfileSection {
        profile: vec![
            profile("default", "mesen", &["--rom"]),
            profile("debug", "mesen", &["--rom", "--debugger"]),
        ],
    });
    assert_eq!(manifest.run.as_ref().unwrap().profile.len(), 2);
    let default = manifest.run_profile("default").expect("find default");
    assert_eq!(default.emulator, "mesen");
    assert_eq!(default.args, vec!["--rom"]);
}

#[test]
fn parse_test_config() {
    let mut manifest = manifest_with_rom("test", "rp2A03-nintendo-nes-ntsc");
    let mut sentinel = NameMap::new();
    sentinel.insert(
        "nes".to_string(),
        Sentinel {
            address: 0x6000,
            pass_value: 0xFF,
        },
    );
    manifest.test = Some(TestConfig {
        profile: Some("test".to_string()),
        sentinel,
    });
    let test = manifest.test.as_ref().expect("test config");
    assert_eq!(test.profile.as_deref(), Some("test"));
    let nes = test.sentinel.get("nes").expect("nes sentinel");
    assert_eq!(nes.address, 0x6000);
    assert_eq!(nes.pass_value, 0xFF);
}

#[test]
fn default_target_from_rom() {
    let manifest = manifest_with_rom("test", "rp2A03-nintendo-nes-ntsc");
    assert_eq!(
        manifest.default_target(None),
        Some("rp2A03-nintendo-nes-ntsc".to_string())
    );
}

#[test]
fn default_target_override() {
    let manifest = manifest_with_rom("test", "rp2A03-nintendo-nes-ntsc");
    assert_eq!(
        manifest.default_target(Some("z80-nintendo-gameboy")),
        Some("z80-nintendo-gameboy".to_string())
    );
}

#[test]
fn default_target_prefers_target_section_over_rom() {
    let mut manifest = manifest_with_rom("test", "rp2A03-nintendo-nes-ntsc");
    manifest.target = Some(TargetSection {
        default: "z80-sega-genesis".to_string(),
    });
    assert_eq!(manifest.default_target(None), Some("z80-sega-genesis".to_string()));
    manifest.target = Some(TargetSection {
        default: String::new(),
    });
    assert_eq!(
        manifest.default_target(None),
        Some("rp2A03-nintendo-nes-ntsc".to_string())
    );
    manifest.rom.clear();
    assert_eq!(manifest.default_target(None), None);
}

#[test]
fn run_profile_missing_is_none() {
    let manifest = manifest_with_rom("test", "rp2A03-nintendo-nes-ntsc");
    assert!(manifest.run_profile("default").is_none());
}

#[test]
fn run_profile_takes_first_of_a_name() {
    let mut manifest = manifest_with_rom("test", "rp2A03-nintendo-nes-ntsc");
    manifest.run = Some(RunProfileSection {
        profile: vec![profile("x", "first", &[]), profile("x", "second", &[])],
    });
    assert_eq!(manifest.run_profile("x").unwrap().emulator, "first");
}

#[test]
fn dependency_accessors() {
    let simple = Dependency::Simple("1.0".to_string());
    assert_eq!(simple.version_req(), Some("1.0"));
    assert_eq!(simple.git(), None);
    assert_eq!(simple.path(), None);
    assert!(simple.features().is_empty());

    let detailed = Dependency::Detailed(DetailedDependency {
        version: Some("1.0".to_string()),
        git: Some("https://github.com/op/nes".to_string()),
        branch: Some("main".to_string()),
        tag: None,
        rev: None,
        path: None,
        features: vec!["audio".to_string()],
        optional: false,
        default_features: true,
    });
    assert_eq!(detailed.version_req(), Some("1.0"));
    assert_eq!(detailed.git(), Some("https://github.com/op/nes"));
    assert_eq!(detailed.path(), None);
    assert_eq!(detailed.features(), &["audio".to_string()]);
}

#[test]
fn rom_format_accessor() {
    let mut rom = Rom {
        name: "g".to_string(),
        path: None,
        target: "t-u-v".to_string(),
        format: None,
    };
    assert_eq!(rom.format(), None);
    rom.format = Some("ines".to_string());
    assert_eq!(rom.format(), Some("ines"));
}

#[test]
fn serde_default_helpers() {
    assert!(cart::manifest::default_true());
    assert!(cart::manifest::is_false(&false));
    assert!(!cart::manifest::is_false(&true));
}
