//! `cart test`: which `.op` files are tests, how each is built and run in
//! the test profile's emulator, and how its memory dump is judged.

use vstd::prelude::*;
use crate::cmd::building::output_dir_spec;
use crate::cmd::run::{chosen_profile, find_profile};
use crate::config::GlobalConfig;
use crate::diagnostics::codes;
use crate::error::{error_text, CartError};
use crate::manifest::{opt_chars, CartManifest, Sentinel, TestConfig};
use crate::namemap::lookup;
use crate::opc::{views, OpcArgs, OpcStage};
use crate::scan::{extension_of, has_extension};
use crate::text::{join_path, join_path_spec, owned, push_str};
use crate::triplet::{machine_name, machine_of};

verus! {

/// Whether a file in `tests/` is a test: its extension is `op`.
pub fn is_test_source(file_name: &str) -> (r: bool)
    ensures
        r == (extension_of(file_name@) == Some("op"@)),
{
    has_extension(file_name, "op")
}

/// The `[test] profile` of a test section, if any.
pub open spec fn profile_of(t: Option<TestConfig>) -> Option<Seq<char>> {
    match t {
        Some(t) => opt_chars(t.profile),
        None => None,
    }
}

/// The run profile `cart test` uses: the manifest's `[test] profile`, else
/// the config's, else `test`.
pub open spec fn test_profile_name_spec(m: CartManifest, config: GlobalConfig) -> Seq<char> {
    match profile_of(m.test) {
        Some(p) => p,
        None => match profile_of(config.test) {
            Some(p) => p,
            None => "test"@,
        },
    }
}

/// The `[test] profile` of the manifest decides the test profile whenever
/// it is set, whatever the config says; only when the manifest sets none
/// does the config's `[test] profile` count, and `test` is the name when
/// neither sets one.
pub proof fn lemma_manifest_test_profile_wins(m: CartManifest, c1: GlobalConfig, c2: GlobalConfig)
    ensures
        (m.test is Some && m.test->0.profile is Some) ==> test_profile_name_spec(m, c1) == m.test->0.profile->0@,
        (m.test is Some && m.test->0.profile is Some) ==> test_profile_name_spec(m, c1) == test_profile_name_spec(m, c2),
        (!(m.test is Some && m.test->0.profile is Some) && c1.test is Some && c1.test->0.profile is Some)
            ==> test_profile_name_spec(m, c1) == c1.test->0.profile->0@,
        (!(m.test is Some && m.test->0.profile is Some) && !(c1.test is Some && c1.test->0.profile is Some))
            ==> test_profile_name_spec(m, c1) == "test"@,
{
}

/// The name of the run profile for tests.
pub fn test_profile_name<'a>(m: &'a CartManifest, config: &'a GlobalConfig) -> (r: &'a str)
    ensures
        r@ == test_profile_name_spec(*m, *config),
        (m.test is Some && m.test->0.profile is Some) ==> r@ == m.test->0.profile->0@,
{
    if let Some(t) = &m.test {
        if let Some(p) = &t.profile {
            return p.as_str();
        }
    }
    if let Some(t) = &config.test {
        if let Some(p) = &t.profile {
            return p.as_str();
        }
    }
    "test"
}

/// The sentinel of the manifest for the machine of `target`.
pub open spec fn sentinel_for(m: CartManifest, target: Seq<char>) -> Option<Sentinel> {
    match m.test {
        Some(t) => lookup(t.sentinel@, machine_of(target)),
        None => None,
    }
}

/// The directory test ROMs and dumps go into: `target/<triplet>/tests`.
pub open spec fn tests_output_dir(dir: Seq<char>, triplet: Seq<char>) -> Seq<char> {
    join_path_spec(output_dir_spec(dir, triplet), "tests"@)
}

/// What every test of a `cart test` run shares.
#[derive(Debug)]
pub struct TestPlan {
    pub rom_target: String,
    pub emulator: String,
    /// The test profile's arguments.
    pub profile_args: Vec<String>,
    /// The sentinel for the target's machine; without one a test that
    /// builds and runs passes.
    pub sentinel: Option<Sentinel>,
    pub output_dir: String,
}

/// The text of the error for a missing test profile.
pub open spec fn no_test_profile_text(name: Seq<char>) -> Seq<char> {
    "test profile '"@ + name + "' not found in Cart.toml or config"@
}

/// The text of the error for a project without ROMs to test.
pub open spec fn no_test_rom_text() -> Seq<char> {
    "no ROM targets in Cart.toml for test build"@
}

/// The plan of a `cart test` run: the test profile (E501 when neither the
/// manifest nor the config has it), the first `[[rom]]` (E502 without
/// one), built for `--target` or the ROM's target.
pub fn test_setup(manifest: &CartManifest, config: &GlobalConfig, manifest_dir: &str, target: Option<&str>) -> (r: Result<TestPlan, CartError>)
    ensures
        ({
            let name = test_profile_name_spec(*manifest, *config);
            match chosen_profile(*manifest, *config, name) {
                None => r matches Err(e) && e.code == codes::EMULATOR_NOT_FOUND && e.message@
                    == error_text(codes::EMULATOR_NOT_FOUND, no_test_profile_text(name)),
                Some(p) => if manifest.rom@.len() == 0 {
                    r matches Err(e) && e.code == codes::MANIFEST_PARSE && e.message@ == error_text(
                        codes::MANIFEST_PARSE,
                        no_test_rom_text(),
                    )
                } else {
                    let t = match target {
                        Some(t) => t@,
                        None => manifest.rom@[0].target@,
                    };
                    r matches Ok(plan) && plan.rom_target@ == t && plan.emulator@ == p.emulator@
                        && views(plan.profile_args@) == views(p.args@) && plan.sentinel
                        == sentinel_for(*manifest, t) && plan.output_dir@ == tests_output_dir(
                        manifest_dir@,
                        t,
                    )
                },
            }
        }),
{
    let name = test_profile_name(manifest, config);
    let profile = match find_profile(manifest, config, name) {
        Some(p) => p,
        None => {
            let mut t = owned("test profile '");
            push_str(&mut t, name);
            push_str(&mut t, "' not found in Cart.toml or config");
            return Err(CartError::new(codes::EMULATOR_NOT_FOUND, t.as_str()));
        },
    };
    if manifest.rom.len() == 0 {
        return Err(CartError::new(codes::MANIFEST_PARSE, "no ROM targets in Cart.toml for test build"));
    }
    let rom_target = match target {
        Some(t) => owned(t),
        None => manifest.rom[0].target.clone(),
    };
    let sentinel = match &manifest.test {
        Some(t) => {
            let machine = machine_name(rom_target.as_str());
            match t.sentinel.get(machine.as_str()) {
                Some(s) => Some(*s),
                None => None,
            }
        },
        None => None,
    };
    let base = join_path(join_path(manifest_dir, "target").as_str(), rom_target.as_str());
    let output_dir = join_path(base.as_str(), "tests");
    let profile_args = crate::manifest::clone_strings(&profile.args);
    assert(views(profile_args@) =~= views(profile.args@));
    Ok(TestPlan { rom_target, emulator: profile.emulator.clone(), profile_args, sentinel, output_dir })
}

/// How one test is built and run.
#[derive(Debug)]
pub struct TestJob {
    pub name: String,
    pub args: OpcArgs,
    /// The test ROM.
    pub output: String,
    /// Where the emulator writes its memory dump.
    pub dump: String,
    /// The profile's arguments, then the ROM, `--dump` and the dump path.
    pub emulator_args: Vec<String>,
}

/// The job for test `test_name` with source `input`: a raw ROM built at
/// opt level 0 with the `test` feature into the plan's output directory.
pub fn test_job(plan: &TestPlan, input: &str, test_name: &str) -> (j: TestJob)
    ensures
        j.name@ == test_name@,
        j.output@ == join_path_spec(plan.output_dir@, test_name@ + ".bin"@),
        j.dump@ == join_path_spec(plan.output_dir@, test_name@ + ".dump"@),
        j.args.input@ == input@,
        j.args.target@ == plan.rom_target@,
        views(j.args.features@) == seq!["test"@],
        j.args.opt_level == 0,
        opt_chars(j.args.format) == Some("raw"@),
        opt_chars(j.args.output) == Some(j.output@),
        j.args.stage == OpcStage::Full,
        j.args.include_dirs@.len() == 0,
        views(j.emulator_args@) == views(plan.profile_args@) + seq![j.output@, "--dump"@, j.dump@],
{
    let mut bin = owned(test_name);
    push_str(&mut bin, ".bin");
    let output = join_path(plan.output_dir.as_str(), bin.as_str());
    let mut dmp = owned(test_name);
    push_str(&mut dmp, ".dump");
    let dump = join_path(plan.output_dir.as_str(), dmp.as_str());
    let mut features: Vec<String> = Vec::new();
    features.push(owned("test"));
    assert(views(features@) =~= seq!["test"@]);
    let args = OpcArgs {
        input: owned(input),
        target: plan.rom_target.clone(),
        features,
        opt_level: 0,
        format: Some(owned("raw")),
        output: Some(output.clone()),
        stage: OpcStage::Full,
        include_dirs: Vec::new(),
    };
    let mut emulator_args = crate::manifest::clone_strings(&plan.profile_args);
    let ghost head = views(emulator_args@);
    assert(head =~= views(plan.profile_args@));
    emulator_args.push(output.clone());
    emulator_args.push(owned("--dump"));
    emulator_args.push(dump.clone());
    assert(views(emulator_args@) =~= head + seq![output@, "--dump"@, dump@]);
    TestJob { name: owned(test_name), args, output, dump, emulator_args }
}

/// What the sentinel byte of a memory dump says.
#[derive(Clone, Copy, Debug, PartialEq, Eq, Structural)]
pub enum SentinelCheck {
    /// The byte at the sentinel address is the pass value.
    Pass,
    /// The byte at the sentinel address is `got`.
    Mismatch { got: u8 },
    /// The dump ends before the sentinel address.
    OutOfRange,
}

/// The verdict on a dump for a sentinel.
pub open spec fn sentinel_check_spec(dump: Seq<u8>, s: Sentinel) -> SentinelCheck {
    if s.address >= dump.len() {
        SentinelCheck::OutOfRange
    } else if dump[s.address as int] as u64 == s.pass_value {
        SentinelCheck::Pass
    } else {
        SentinelCheck::Mismatch { got: dump[s.address as int] }
    }
}

/// Judge a memory dump by its sentinel byte.
pub fn check_sentinel(dump: &[u8], sentinel: &Sentinel) -> (r: SentinelCheck)
    ensures
        r == sentinel_check_spec(dump@, *sentinel),
{
    let len = dump.len() as u64;
    if sentinel.address >= len {
        return SentinelCheck::OutOfRange;
    }
    let got = dump[sentinel.address as usize];
    if got as u64 == sentinel.pass_value {
        SentinelCheck::Pass
    } else {
        SentinelCheck::Mismatch { got }
    }
}

/// How one test ended.
#[derive(Clone, Copy, Debug, PartialEq, Eq, Structural)]
pub enum TestOutcome {
    /// `opc` failed on the test.
    BuildFailed,
    /// The emulator exited with an error.
    EmulatorFailed,
    /// A sentinel is configured but the emulator wrote no dump.
    MissingDump,
    /// The dump was judged by the sentinel.
    Checked(SentinelCheck),
    /// No sentinel is configured: building and running is the test.
    BuildOnly,
}

/// Whether an outcome counts as passed.
pub open spec fn passes(o: TestOutcome) -> bool {
    match o {
        TestOutcome::Checked(c) => c == SentinelCheck::Pass,
        TestOutcome::BuildOnly => true,
        _ => false,
    }
}

/// The outcome of a test that built and ran, from the plan's sentinel and
/// the dump, if the emulator wrote one.
pub open spec fn run_outcome_spec(sentinel: Option<Sentinel>, dump: Option<Seq<u8>>) -> TestOutcome {
    match sentinel {
        None => TestOutcome::BuildOnly,
        Some(s) => match dump {
            None => TestOutcome::MissingDump,
            Some(d) => TestOutcome::Checked(sentinel_check_spec(d, s)),
        },
    }
}

/// Judge a test that built and ran. It passes exactly when no sentinel is
/// configured, or the dump holds the pass value at the sentinel address.
pub fn run_outcome(sentinel: Option<&Sentinel>, dump: Option<&[u8]>) -> (r: TestOutcome)
    ensures
        r == run_outcome_spec(
            match sentinel {
                Some(s) => Some(*s),
                None => None,
            },
            match dump {
                Some(d) => Some(d@),
                None => None,
            },
        ),
        passes(r) <==> match sentinel {
            None => true,
            Some(s) => dump is Some && s.address < dump->0@.len() && dump->0@[s.address as int]
                as u64 == s.pass_value,
        },
{
    match sentinel {
        None => TestOutcome::BuildOnly,
        Some(s) => match dump {
            None => TestOutcome::MissingDump,
            Some(d) => TestOutcome::Checked(check_sentinel(d, s)),
        },
    }
}

/// Whether an outcome counts as passed.
pub fn outcome_passes(o: &TestOutcome) -> (r: bool)
    ensures
        r == passes(*o),
{
    match o {
        TestOutcome::Checked(SentinelCheck::Pass) => true,
        TestOutcome::BuildOnly => true,
        _ => false,
    }
}

/// The number of passing outcomes in `s`.
pub open spec fn passed_count(s: Seq<TestOutcome>) -> nat
    decreases s.len(),
{
    if s.len() == 0 {
        0
    } else {
        passed_count(s.drop_last()) + if passes(s.last()) {
            1nat
        } else {
            0nat
        }
    }
}

/// The totals of a test run.
#[derive(Debug)]
pub struct TestSummary {
    pub passed: usize,
    pub failed: usize,
    /// 2 when a test failed, 0 otherwise.
    pub exit_code: i32,
}

/// Count the outcomes of a run.
pub fn summarize(outcomes: &[TestOutcome]) -> (r: TestSummary)
    ensures
        r.passed == passed_count(outcomes@),
        r.passed + r.failed == outcomes@.len(),
        r.exit_code == if r.failed > 0 {
            2i32
        } else {
            0i32
        },
{
    let mut passed: usize = 0;
    let mut failed: usize = 0;
    let mut i: usize = 0;
    while i < outcomes.len()
        invariant
            i <= outcomes@.len(),
            passed == passed_count(outcomes@.take(i as int)),
            passed + failed == i,
        decreases outcomes@.len() - i,
    {
        assert(outcomes@.take(i + 1).drop_last() =~= outcomes@.take(i as int));
        if outcome_passes(&outcomes[i]) {
            passed = passed + 1;
        } else {
            failed = failed + 1;
        }
        i = i + 1;
    }
    assert(outcomes@.take(outcomes@.len() as int) =~= outcomes@);
    let exit_code: i32 = if failed > 0 {
        2
    } else {
        0
    };
    TestSummary { passed, failed, exit_code }
}

} // verus!
