//! `cart run`: which ROM to launch, in which emulator, with which arguments.

use vstd::prelude::*;
use crate::cmd::building::{rom_job_ok, rom_output_path, rom_output_spec, BuildJob};
use crate::config::GlobalConfig;
use crate::diagnostics::codes;
use crate::error::{error_text, CartError};
use crate::manifest::{first_profile_named, opt_chars, profile_in, CartManifest, RunProfile, RunProfileSection};
use crate::opc::views;
use crate::text::{owned, push_str};

verus! {

/// The run profile named `name`: the manifest's, else the config's.
pub open spec fn chosen_profile(m: CartManifest, config: GlobalConfig, name: Seq<char>) -> Option<RunProfile> {
    match profile_in(m.run, name) {
        Some(p) => Some(p),
        None => profile_in(config.run, name),
    }
}

/// Whether an optional `[[run.profile]]` list has a profile named `name`.
pub open spec fn lists_profile(run: Option<RunProfileSection>, name: Seq<char>) -> bool {
    run is Some && exists|i: int| 0 <= i < run->0.profile@.len() && (#[trigger] run->0.profile@[i]).name@ == name
}

/// The profile of a name is the manifest's whenever the manifest lists
/// one, whatever the config holds: the first of that name in the
/// manifest's list. Only when the manifest lists none is the config's
/// list searched, and a profile picked always has the name asked for.
pub proof fn lemma_manifest_profile_wins(m: CartManifest, c1: GlobalConfig, c2: GlobalConfig, name: Seq<char>)
    ensures
        lists_profile(m.run, name) ==> chosen_profile(m, c1, name) == chosen_profile(m, c2, name),
        lists_profile(m.run, name) ==> exists|i: int|
            0 <= i < m.run->0.profile@.len() && (#[trigger] m.run->0.profile@[i]).name@ == name && (forall|j: int|
                0 <= j < i ==> m.run->0.profile@[j].name@ != name) && chosen_profile(m, c1, name) == Some(
                m.run->0.profile@[i],
            ),
        !lists_profile(m.run, name) ==> chosen_profile(m, c1, name) == profile_in(c1.run, name),
        !lists_profile(m.run, name) && !lists_profile(c1.run, name) ==> chosen_profile(m, c1, name) is None,
        (chosen_profile(m, c1, name) matches Some(p) ==> p.name@ == name),
{
    lemma_profile_in(m.run, name);
    lemma_profile_in(c1.run, name);
    lemma_profile_in(c2.run, name);
}

/// A list with a profile of the name at `w` has a first one.
proof fn lemma_first_named_exists(ps: Seq<RunProfile>, name: Seq<char>, w: int)
    requires
        0 <= w < ps.len(),
        ps[w].name@ == name,
    ensures
        exists|i: int| 0 <= i < ps.len() && ps[i].name@ == name && forall|j: int| 0 <= j < i ==> ps[j].name@ != name,
    decreases w,
{
    if exists|j: int| 0 <= j < w && (#[trigger] ps[j]).name@ == name {
        let j = choose|j: int| 0 <= j < w && (#[trigger] ps[j]).name@ == name;
        lemma_first_named_exists(ps, name, j);
    } else {
        assert(forall|j: int| 0 <= j < w ==> ps[j].name@ != name);
    }
}

/// What `profile_in` gives: the first profile of the name when the list
/// has one, else nothing.
proof fn lemma_profile_in(run: Option<RunProfileSection>, name: Seq<char>)
    ensures
        lists_profile(run, name) ==> exists|i: int|
            0 <= i < run->0.profile@.len() && (#[trigger] run->0.profile@[i]).name@ == name && (forall|j: int|
                0 <= j < i ==> run->0.profile@[j].name@ != name) && profile_in(run, name) == Some(
                run->0.profile@[i],
            ),
        !lists_profile(run, name) ==> profile_in(run, name) is None,
{
    if run is Some {
        let ps = run->0.profile@;
        if exists|i: int| 0 <= i < ps.len() && (#[trigger] ps[i]).name@ == name {
            let w = choose|i: int| 0 <= i < ps.len() && (#[trigger] ps[i]).name@ == name;
            lemma_first_named_exists(ps, name, w);
            let i = first_profile_named(ps, name)->0;
            assert(0 <= i < ps.len() && ps[i].name@ == name && forall|j: int| 0 <= j < i ==> ps[j].name@ != name);
        } else {
            assert(first_profile_named(ps, name) is None);
        }
    }
}

/// Find a run profile in the manifest, then in the config.
pub fn find_profile<'a>(m: &'a CartManifest, config: &'a GlobalConfig, name: &str) -> (r: Option<&'a RunProfile>)
    ensures
        match r {
            Some(p) => chosen_profile(*m, *config, name@) == Some(*p),
            None => chosen_profile(*m, *config, name@) is None,
        },
        lists_profile(m.run, name@) ==> (r matches Some(p) && profile_in(m.run, name@) == Some(*p)),
{
    match m.run_profile(name) {
        Some(p) => Some(p),
        None => config.run_profile(name),
    }
}

/// What `cart run` launches.
#[derive(Debug)]
pub struct RunPlan {
    pub rom_name: String,
    pub rom_target: String,
    /// The ROM image; built first when it does not exist.
    pub rom_path: String,
    pub emulator: String,
    /// The profile's arguments, then the ROM path.
    pub emulator_args: Vec<String>,
}

/// The text of the error for a missing run profile.
pub open spec fn no_profile_text(name: Seq<char>) -> Seq<char> {
    "run profile '"@ + name + "' not found in Cart.toml or config"@
}

/// The text of the error for a project without ROMs.
pub open spec fn no_rom_text() -> Seq<char> {
    "no ROM targets in Cart.toml"@
}

/// What `cart run` launches: the profile named `--profile` (`default`
/// without it; E501 when neither the manifest nor the config has it), the
/// first `[[rom]]` (E502 without one), built for `--target`, else the
/// profile's target, else the ROM's.
pub fn run(manifest: &CartManifest, config: &GlobalConfig, manifest_dir: &str, target: Option<&str>, profile: Option<&str>) -> (r: Result<RunPlan, CartError>)
    ensures
        ({
            let name = match profile {
                Some(p) => p@,
                None => "default"@,
            };
            match chosen_profile(*manifest, *config, name) {
                None => r matches Err(e) && e.code == codes::EMULATOR_NOT_FOUND && e.message@
                    == error_text(codes::EMULATOR_NOT_FOUND, no_profile_text(name)),
                Some(p) => if manifest.rom@.len() == 0 {
                    r matches Err(e) && e.code == codes::MANIFEST_PARSE && e.message@ == error_text(
                        codes::MANIFEST_PARSE,
                        no_rom_text(),
                    )
                } else {
                    let rom = manifest.rom@[0];
                    let t = match target {
                        Some(t) => t@,
                        None => match opt_chars(p.target) {
                            Some(t) => t,
                            None => rom.target@,
                        },
                    };
                    let path = rom_output_spec(manifest_dir@, t, rom.name@, opt_chars(rom.format));
                    r matches Ok(plan) && plan.rom_name@ == rom.name@ && plan.rom_target@ == t
                        && plan.rom_path@ == path && plan.emulator@ == p.emulator@ && views(
                        plan.emulator_args@,
                    ) == views(p.args@).push(path)
                }
            }
        }),
{
    let profile_name: &str = match profile {
        Some(p) => p,
        None => "default",
    };
    let run_profile = match find_profile(manifest, config, profile_name) {
        Some(p) => p,
        None => {
            let mut t = owned("run profile '");
            push_str(&mut t, profile_name);
            push_str(&mut t, "' not found in Cart.toml or config");
            return Err(CartError::new(codes::EMULATOR_NOT_FOUND, t.as_str()));
        },
    };
    if manifest.rom.len() == 0 {
        return Err(CartError::new(codes::MANIFEST_PARSE, "no ROM targets in Cart.toml"));
    }
    let rom = &manifest.rom[0];
    let rom_target = match target {
        Some(t) => owned(t),
        None => match &run_profile.target {
            Some(t) => t.clone(),
            None => rom.target.clone(),
        },
    };
    let fmt: Option<&str> = match &rom.format {
        Some(f) => Some(f.as_str()),
        None => None,
    };
    let rom_path = rom_output_path(manifest_dir, rom_target.as_str(), rom.name.as_str(), fmt);
    let mut emulator_args = crate::manifest::clone_strings(&run_profile.args);
    let ghost before = views(emulator_args@);
    assert(before =~= views(run_profile.args@));
    emulator_args.push(rom_path.clone());
    assert(views(emulator_args@) =~= before.push(rom_path@));
    Ok(RunPlan {
        rom_name: rom.name.clone(),
        rom_target,
        rom_path,
        emulator: run_profile.emulator.clone(),
        emulator_args,
    })
}

/// `cart run` launches the file that `cart build` writes: building the
/// first ROM for the triplet `t` that the run plan chose, without a
/// `--format`, outputs the plan's ROM path.
pub proof fn lemma_run_launches_built_rom(j: BuildJob, m: CartManifest, dir: Seq<char>, t: Seq<char>, opt: u32, feats: Seq<Seq<char>>, incs: Seq<Seq<char>>)
    requires
        m.rom@.len() > 0,
        rom_job_ok(j, m, 0, dir, Some(t), None, opt, feats, incs),
    ensures
        opt_chars(j.args.output) == Some(rom_output_spec(dir, t, m.rom@[0].name@, opt_chars(m.rom@[0].format))),
{
}

} // verus!
