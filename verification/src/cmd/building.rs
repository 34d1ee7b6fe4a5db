//! `cart build`: what to compile, and with which `opc` arguments.
//!
//! A ROM project builds each `[[rom]]` into
//! `target/<triplet>/<rom-name>.<ext>`; a lib project builds its `[lib]`
//! into `target/<triplet>/<lib-name>.opb`.

use vstd::prelude::*;
use crate::config::GlobalConfig;
use crate::diagnostics::codes;
use crate::error::{error_text, CartError};
use crate::lockfile::{CartLock, LockedSource};
use crate::manifest::{opt_chars, opt_str_chars, CartManifest};
use crate::namemap::names_of;
use crate::opc::{output_extension, output_extension_spec, views, OpcArgs, OpcStage};
use crate::resolver::{ResolvedGraph, ResolvedPackage};
use crate::text::{join_path, join_path_spec, owned, push_str};

verus! {

/// The text of the error for a frozen build with a stale lockfile.
pub open spec fn stale_lock_text() -> Seq<char> {
    "Cart.lock is out of date. Run `cart build` without --frozen to update it."@
}

/// In frozen mode an existing lockfile must be fresh for the graph; E506
/// otherwise. Without `--frozen`, or without a lockfile, the check passes.
pub fn check_frozen(existing: Option<&CartLock>, graph: &ResolvedGraph, frozen: bool) -> (r: Result<
    (),
    CartError,
>)
    ensures
        match existing {
            Some(lock) if frozen && !lock.fresh_for(*graph) => r matches Err(e) && e.code
                == codes::LOCKFILE_OUT_OF_DATE && e.message@ == error_text(
                codes::LOCKFILE_OUT_OF_DATE,
                stale_lock_text(),
            ),
            _ => r is Ok,
        },
{
    if frozen {
        if let Some(lock) = existing {
            if !lock.is_fresh(graph) {
                return Err(
                    CartError::new(
                        codes::LOCKFILE_OUT_OF_DATE,
                        "Cart.lock is out of date. Run `cart build` without --frozen to update it.",
                    ),
                );
            }
        }
    }
    Ok(())
}

/// The source directory of a resolved package: `<dir>/src` for a path
/// source, `<carts_dir>/<name>/src` for a git one.
pub open spec fn package_src_dir(pkg: ResolvedPackage, carts_dir: Seq<char>) -> Seq<char> {
    match pkg.source {
        LockedSource::Path { dir } => dir@ + "/src"@,
        LockedSource::Git { .. } => carts_dir + "/"@ + pkg.name@ + "/src"@,
    }
}

/// The include directories of a build: each package's source directory in
/// graph order, then the std lib's `src`.
pub open spec fn include_dirs_spec(graph: Seq<ResolvedPackage>, carts_dir: Seq<char>, std_dir: Seq<char>) -> Seq<Seq<char>> {
    graph.map_values(|p: ResolvedPackage| package_src_dir(p, carts_dir)) + seq![join_path_spec(std_dir, "src"@)]
}

/// Collect include paths from resolved dependencies, then the std lib.
pub fn include_paths(graph: &ResolvedGraph, carts_dir: &str, std_dir: &str) -> (r: Vec<String>)
    ensures
        views(r@) == include_dirs_spec(graph.packages@, carts_dir@, std_dir@),
{
    let mut r: Vec<String> = Vec::new();
    let mut i: usize = 0;
    while i < graph.packages.len()
        invariant
            i <= graph.packages@.len(),
            views(r@) == graph.packages@.take(i as int).map_values(|p: ResolvedPackage| package_src_dir(p, carts_dir@)),
        decreases graph.packages@.len() - i,
    {
        let pkg = &graph.packages[i];
        let s = match &pkg.source {
            LockedSource::Path { dir } => {
                let mut s = dir.clone();
                push_str(&mut s, "/src");
                s
            },
            LockedSource::Git { .. } => {
                let mut s = owned(carts_dir);
                push_str(&mut s, "/");
                push_str(&mut s, pkg.name.as_str());
                push_str(&mut s, "/src");
                s
            },
        };
        let ghost before = views(r@);
        r.push(s);
        proof {
            assert(views(r@) =~= before.push(package_src_dir(graph.packages@[i as int], carts_dir@)));
            assert(graph.packages@.take(i + 1) =~= graph.packages@.take(i as int).push(graph.packages@[i as int]));
            assert(graph.packages@.take(i + 1).map_values(|p: ResolvedPackage| package_src_dir(p, carts_dir@))
                =~= graph.packages@.take(i as int).map_values(|p: ResolvedPackage| package_src_dir(p, carts_dir@)).push(package_src_dir(graph.packages@[i as int], carts_dir@)));
        }
        i = i + 1;
    }
    let ghost before = views(r@);
    r.push(join_path(std_dir, "src"));
    proof {
        assert(graph.packages@.take(graph.packages@.len() as int) =~= graph.packages@);
        assert(views(r@) =~= before.push(join_path_spec(std_dir@, "src"@)));
    }
    r
}

/// The optimization level: 0 for `--debug`, 1 for `--release`, else the
/// config's default.
pub open spec fn opt_level_spec(debug: bool, release: bool, config: GlobalConfig) -> u32 {
    if debug {
        0
    } else if release {
        1
    } else {
        config.default_opt_level_spec()
    }
}

/// Pick the optimization level.
pub fn opt_level(debug: bool, release: bool, config: &GlobalConfig) -> (r: u32)
    ensures
        r == opt_level_spec(debug, release, *config),
{
    if debug {
        0
    } else if release {
        1
    } else {
        config.default_opt_level()
    }
}

/// The features a build enables: the manifest's `[features]` in name
/// order, then the `--feature` flags.
pub open spec fn features_spec(m: CartManifest, cli: Seq<String>) -> Seq<Seq<char>> {
    (match m.features {
        Some(f) => names_of(f.flags@),
        None => Seq::empty(),
    }) + views(cli)
}

/// Collect the enabled features.
pub fn all_features(m: &CartManifest, cli: &Vec<String>) -> (r: Vec<String>)
    ensures
        views(r@) == features_spec(*m, cli@),
{
    let mut r: Vec<String> = Vec::new();
    if let Some(f) = &m.features {
        let n = f.flags.len();
        let mut i: usize = 0;
        while i < n
            invariant
                n == f.flags@.len(),
                i <= n,
                views(r@) == names_of(f.flags@.take(i as int)),
            decreases n - i,
        {
            let ghost before = views(r@);
            r.push(f.flags.name_at(i).clone());
            proof {
                assert(views(r@) =~= before.push(f.flags@[i as int].0));
                assert(f.flags@.take(i + 1) =~= f.flags@.take(i as int).push(f.flags@[i as int]));
                assert(names_of(f.flags@.take(i + 1)) =~= names_of(f.flags@.take(i as int)).push(f.flags@[i as int].0));
            }
            i = i + 1;
        }
        assert(f.flags@.take(n as int) =~= f.flags@);
    }
    let ghost head = views(r@);
    let mut j: usize = 0;
    while j < cli.len()
        invariant
            j <= cli@.len(),
            views(r@) == head + views(cli@.take(j as int)),
        decreases cli@.len() - j,
    {
        let ghost before = views(r@);
        r.push(cli[j].clone());
        proof {
            assert(views(r@) =~= before.push(cli@[j as int]@));
            assert(views(cli@.take(j + 1)) =~= views(cli@.take(j as int)).push(cli@[j as int]@));
        }
        j = j + 1;
    }
    proof {
        assert(cli@.take(cli@.len() as int) =~= cli@);
        assert(head == match m.features {
            Some(f) => names_of(f.flags@),
            None => Seq::<Seq<char>>::empty(),
        });
    }
    r
}

/// The target of a lib build: `--target`, then a non-empty
/// `[target] default`, then the config's `[build] target`.
pub open spec fn lib_target_spec(m: CartManifest, target: Option<Seq<char>>, config: GlobalConfig) -> Option<Seq<char>> {
    match target {
        Some(t) => Some(t),
        None => if m.target is Some && m.target->0.default@.len() > 0 {
            Some(m.target->0.default@)
        } else {
            config.default_target_spec()
        },
    }
}

/// A lib is built for the `--target` given, whatever `[target] default`
/// or the config say; without `--target`, for a non-empty `[target]
/// default`, else for the config's `[build] target`, and for none when
/// neither is set.
pub proof fn lemma_target_flag_wins(m: CartManifest, config: GlobalConfig, t: Seq<char>)
    ensures
        lib_target_spec(m, Some(t), config) == Some(t),
        (m.target is Some && m.target->0.default@.len() > 0) ==> lib_target_spec(m, None, config) == Some(
            m.target->0.default@,
        ),
        !(m.target is Some && m.target->0.default@.len() > 0) ==> lib_target_spec(m, None, config)
            == config.default_target_spec(),
{
}

/// `target/<triplet>` under the project directory.
pub open spec fn output_dir_spec(dir: Seq<char>, triplet: Seq<char>) -> Seq<char> {
    join_path_spec(join_path_spec(dir, "target"@), triplet)
}

/// The output path of a ROM: `target/<triplet>/<rom-name>.<ext>`, where the
/// extension follows the format, `bin` without one.
pub open spec fn rom_output_spec(dir: Seq<char>, triplet: Seq<char>, rom_name: Seq<char>, format: Option<Seq<char>>) -> Seq<char> {
    join_path_spec(
        output_dir_spec(dir, triplet),
        rom_name + "."@ + match format {
            Some(f) => output_extension_spec(f),
            None => "bin"@,
        },
    )
}

/// Get the output path for a ROM target. Used by `cart run`.
pub fn rom_output_path(manifest_dir: &str, target: &str, rom_name: &str, format: Option<&str>) -> (r: String)
    ensures
        r@ == rom_output_spec(manifest_dir@, target@, rom_name@, opt_str_chars(format)),
{
    let ext = match format {
        Some(f) => output_extension(f),
        None => "bin",
    };
    let out_dir = join_path(join_path(manifest_dir, "target").as_str(), target);
    let mut file = owned(rom_name);
    push_str(&mut file, ".");
    push_str(&mut file, ext);
    join_path(out_dir.as_str(), file.as_str())
}

/// One compilation: the ROM or lib it builds and the `opc` arguments.
#[derive(Debug)]
pub struct BuildJob {
    pub name: String,
    pub is_lib: bool,
    pub target: String,
    /// The directory the output goes into.
    pub output_dir: String,
    pub args: OpcArgs,
}

/// The job that builds a lib for `triplet`.
pub open spec fn lib_job_ok(j: BuildJob, m: CartManifest, dir: Seq<char>, triplet: Seq<char>, opt: u32, feats: Seq<Seq<char>>, incs: Seq<Seq<char>>) -> bool {
    let lib = m.lib->0;
    &&& j.name@ == lib.name@
    &&& j.is_lib
    &&& j.target@ == triplet
    &&& j.output_dir@ == output_dir_spec(dir, triplet)
    &&& j.args.input@ == join_path_spec(dir, match lib.path { Some(p) => p@, None => "src/lib.op"@ })
    &&& j.args.target@ == triplet
    &&& views(j.args.features@) == feats
    &&& j.args.opt_level == opt
    &&& opt_chars(j.args.format) == Some("raw"@)
    &&& opt_chars(j.args.output) == Some(join_path_spec(output_dir_spec(dir, triplet), lib.name@ + ".opb"@))
    &&& j.args.stage == OpcStage::Full
    &&& views(j.args.include_dirs@) == incs
}

/// The job that builds ROM `rom` of the manifest.
pub open spec fn rom_job_ok(j: BuildJob, m: CartManifest, i: int, dir: Seq<char>, target: Option<Seq<char>>, format: Option<Seq<char>>, opt: u32, feats: Seq<Seq<char>>, incs: Seq<Seq<char>>) -> bool {
    let rom = m.rom@[i];
    let triplet = match target { Some(t) => t, None => rom.target@ };
    let fmt = match opt_chars(rom.format) { Some(f) => Some(f), None => format };
    &&& j.name@ == rom.name@
    &&& !j.is_lib
    &&& j.target@ == triplet
    &&& j.output_dir@ == output_dir_spec(dir, triplet)
    &&& j.args.input@ == join_path_spec(dir, match rom.path { Some(p) => p@, None => "src/cart.op"@ })
    &&& j.args.target@ == triplet
    &&& views(j.args.features@) == feats
    &&& j.args.opt_level == opt
    &&& opt_chars(j.args.format) == fmt
    &&& opt_chars(j.args.output) == Some(rom_output_spec(dir, triplet, rom.name@, fmt))
    &&& j.args.stage == OpcStage::Full
    &&& views(j.args.include_dirs@) == incs
}

/// The text of the error for a lib without a target.
pub open spec fn no_lib_target_text() -> Seq<char> {
    "no target triplet for lib build"@
}

/// The text of the error for a manifest with neither lib nor ROM.
pub open spec fn nothing_to_build_text() -> Seq<char> {
    "no lib or rom target in Cart.toml"@
}

fn clone_strings_of(v: &Vec<String>) -> (r: Vec<String>)
    ensures
        views(r@) == views(v@),
{
    let r = crate::manifest::clone_strings(v);
    assert(views(r@) =~= views(v@));
    r
}

/// What `cart build` compiles for the project in `manifest_dir`. With
/// `[[rom]]` sections, one job per ROM, in order; otherwise one job for the
/// `[lib]` (E503 when it has no target), and E502 when there is neither.
pub fn build(
    manifest: &CartManifest,
    manifest_dir: &str,
    target: Option<&str>,
    release: bool,
    debug: bool,
    features: &Vec<String>,
    format: Option<&str>,
    config: &GlobalConfig,
    graph: &ResolvedGraph,
    carts_dir: &str,
    std_dir: &str,
) -> (r: Result<Vec<BuildJob>, CartError>)
    ensures
        (manifest.rom@.len() == 0 && manifest.lib is Some && target is Some) ==> (r matches Ok(jobs)
            && jobs@.len() == 1 && jobs@[0].target@ == target->0@ && jobs@[0].args.target@ == target->0@),
        ({
            let opt = opt_level_spec(debug, release, *config);
            let feats = features_spec(*manifest, features@);
            let incs = include_dirs_spec(graph.packages@, carts_dir@, std_dir@);
            if manifest.rom@.len() > 0 {
                r matches Ok(jobs) && jobs@.len() == manifest.rom@.len() && forall|i: int|
                    0 <= i < jobs@.len() ==> rom_job_ok(
                        #[trigger] jobs@[i],
                        *manifest,
                        i,
                        manifest_dir@,
                        opt_str_chars(target),
                        opt_str_chars(format),
                        opt,
                        feats,
                        incs,
                    )
            } else if manifest.lib is Some {
                match lib_target_spec(*manifest, opt_str_chars(target), *config) {
                    Some(t) => r matches Ok(jobs) && jobs@.len() == 1 && lib_job_ok(
                        jobs@[0],
                        *manifest,
                        manifest_dir@,
                        t,
                        opt,
                        feats,
                        incs,
                    ),
                    None => r matches Err(e) && e.code == codes::TRIPLET_MALFORMED && e.message@
                        == error_text(codes::TRIPLET_MALFORMED, no_lib_target_text()),
                }
            } else {
                r matches Err(e) && e.code == codes::MANIFEST_PARSE && e.message@ == error_text(
                    codes::MANIFEST_PARSE,
                    nothing_to_build_text(),
                )
            }
        }),
{
    let incs = include_paths(graph, carts_dir, std_dir);
    let opt = opt_level(debug, release, config);
    let feats = all_features(manifest, features);
    let mut jobs: Vec<BuildJob> = Vec::new();
    if manifest.rom.len() == 0 {
        if let Some(lib) = &manifest.lib {
            let lib_target = match target {
                Some(t) => owned(t),
                None => {
                    let from_manifest = match &manifest.target {
                        Some(t) if !t.default.as_str().is_empty() => Some(t.default.clone()),
                        _ => None,
                    };
                    match from_manifest {
                        Some(t) => t,
                        None => match config.default_target() {
                            Some(t) => owned(t),
                            None => {
                                return Err(
                                    CartError::new(
                                        codes::TRIPLET_MALFORMED,
                                        "no target triplet for lib build",
                                    ),
                                );
                            },
                        },
                    }
                },
            };
            let input = match &lib.path {
                Some(p) => join_path(manifest_dir, p.as_str()),
                None => join_path(manifest_dir, "src/lib.op"),
            };
            let output_dir = join_path(join_path(manifest_dir, "target").as_str(), lib_target.as_str());
            let mut file = lib.name.clone();
            push_str(&mut file, ".opb");
            let output = join_path(output_dir.as_str(), file.as_str());
            let args = OpcArgs {
                input,
                target: lib_target.clone(),
                features: feats,
                opt_level: opt,
                format: Some(owned("raw")),
                output: Some(output),
                stage: OpcStage::Full,
                include_dirs: incs,
            };
            jobs.push(BuildJob { name: lib.name.clone(), is_lib: true, target: lib_target, output_dir, args });
            return Ok(jobs);
        }
        return Err(CartError::new(codes::MANIFEST_PARSE, "no lib or rom target in Cart.toml"));
    }
    let ghost opt_s = opt_level_spec(debug, release, *config);
    let ghost feats_s = features_spec(*manifest, features@);
    let ghost incs_s = include_dirs_spec(graph.packages@, carts_dir@, std_dir@);
    let mut i: usize = 0;
    while i < manifest.rom.len()
        invariant
            i <= manifest.rom@.len(),
            jobs@.len() == i,
            opt == opt_s,
            views(feats@) == feats_s,
            views(incs@) == incs_s,
            forall|k: int|
                0 <= k < i ==> rom_job_ok(
                    #[trigger] jobs@[k],
                    *manifest,
                    k,
                    manifest_dir@,
                    opt_str_chars(target),
                    opt_str_chars(format),
                    opt_s,
                    feats_s,
                    incs_s,
                ),
        decreases manifest.rom@.len() - i,
    {
        let rom = &manifest.rom[i];
        let rom_target = match target {
            Some(t) => owned(t),
            None => rom.target.clone(),
        };
        let input = match &rom.path {
            Some(p) => join_path(manifest_dir, p.as_str()),
            None => join_path(manifest_dir, "src/cart.op"),
        };
        let fmt: Option<&str> = match &rom.format {
            Some(f) => Some(f.as_str()),
            None => format,
        };
        let output_dir = join_path(join_path(manifest_dir, "target").as_str(), rom_target.as_str());
        let output = rom_output_path(manifest_dir, rom_target.as_str(), rom.name.as_str(), fmt);
        let args = OpcArgs {
            input,
            target: rom_target.clone(),
            features: clone_strings_of(&feats),
            opt_level: opt,
            format: crate::manifest::to_opt_string(fmt),
            output: Some(output),
            stage: OpcStage::Full,
            include_dirs: clone_strings_of(&incs),
        };
        jobs.push(BuildJob { name: rom.name.clone(), is_lib: false, target: rom_target, output_dir, args });
        i = i + 1;
    }
    Ok(jobs)
}

} // verus!
