//! `cart check`: run the lexer and parser of `opc` on the project.

use vstd::prelude::*;
use crate::manifest::{opt_str_chars, CartManifest};
use crate::opc::{views, OpcArgs, OpcStage};
use crate::text::{join_path, join_path_spec, owned};

verus! {

/// The targets `cart check` checks: one per `[[rom]]`, each the
/// `--target` when one is given, else the ROM's own target; for a project
/// without ROMs, the default target (empty when there is none).
pub open spec fn check_targets(m: CartManifest, target: Option<Seq<char>>) -> Seq<Seq<char>> {
    if m.rom@.len() == 0 {
        seq![
            match m.default_target_spec(target) {
                Some(t) => t,
                None => Seq::empty(),
            },
        ]
    } else {
        m.rom@.map_values(
            |r: crate::manifest::Rom|
                match target {
                    Some(t) => t,
                    None => r.target@,
                },
        )
    }
}

/// The file `cart check` parses: the lib's root for a project without
/// ROMs, else the first ROM's root.
pub open spec fn check_input(m: CartManifest, dir: Seq<char>) -> Seq<char> {
    if m.rom@.len() == 0 {
        join_path_spec(
            dir,
            match m.lib {
                Some(l) => match l.path {
                    Some(p) => p@,
                    None => "src/lib.op"@,
                },
                None => "src/lib.op"@,
            },
        )
    } else {
        join_path_spec(
            dir,
            match m.rom@[0].path {
                Some(p) => p@,
                None => "src/cart.op"@,
            },
        )
    }
}

/// The parse-only `opc` runs of `cart check`, one per target, in order.
pub fn check(manifest: &CartManifest, manifest_dir: &str, target: Option<&str>) -> (r: Vec<OpcArgs>)
    ensures
        r@.len() == check_targets(*manifest, opt_str_chars(target)).len(),
        forall|i: int|
            0 <= i < r@.len() ==> {
                let a = #[trigger] r@[i];
                &&& a.target@ == check_targets(*manifest, opt_str_chars(target))[i]
                &&& a.input@ == check_input(*manifest, manifest_dir@)
                &&& a.features@.len() == 0
                &&& a.opt_level == 0
                &&& a.format is None
                &&& a.output is None
                &&& a.stage == OpcStage::Parse
                &&& a.include_dirs@.len() == 0
            },
{
    let mut targets: Vec<String> = Vec::new();
    if manifest.rom.len() == 0 {
        match manifest.default_target(target) {
            Some(t) => targets.push(t),
            None => targets.push(String::new()),
        }
        assert(views(targets@) =~= check_targets(*manifest, opt_str_chars(target)));
    } else {
        let mut i: usize = 0;
        while i < manifest.rom.len()
            invariant
                i <= manifest.rom@.len(),
                views(targets@) == manifest.rom@.take(i as int).map_values(
                    |r: crate::manifest::Rom|
                        match opt_str_chars(target) {
                            Some(t) => t,
                            None => r.target@,
                        },
                ),
            decreases manifest.rom@.len() - i,
        {
            let ghost before = views(targets@);
            let t = match target {
                Some(t) => owned(t),
                None => manifest.rom[i].target.clone(),
            };
            targets.push(t);
            proof {
                let f = |r: crate::manifest::Rom|
                    match opt_str_chars(target) {
                        Some(t) => t,
                        None => r.target@,
                    };
                assert(views(targets@) =~= before.push(f(manifest.rom@[i as int])));
                assert(manifest.rom@.take(i + 1) =~= manifest.rom@.take(i as int).push(manifest.rom@[i as int]));
                assert(manifest.rom@.take(i + 1).map_values(f) =~= manifest.rom@.take(i as int).map_values(f).push(
                    f(manifest.rom@[i as int]),
                ));
            }
            i = i + 1;
        }
        assert(manifest.rom@.take(manifest.rom@.len() as int) =~= manifest.rom@);
    }
    let input_rel: &str = if manifest.rom.len() == 0 {
        match &manifest.lib {
            Some(l) => match &l.path {
                Some(p) => p.as_str(),
                None => "src/lib.op",
            },
            None => "src/lib.op",
        }
    } else {
        match &manifest.rom[0].path {
            Some(p) => p.as_str(),
            None => "src/cart.op",
        }
    };
    let ghost tv = views(targets@);
    let mut r: Vec<OpcArgs> = Vec::new();
    let mut i: usize = 0;
    while i < targets.len()
        invariant
            i <= targets@.len(),
            views(targets@) == tv,
            tv == check_targets(*manifest, opt_str_chars(target)),
            input_rel@ == (if manifest.rom@.len() == 0 {
                match manifest.lib {
                    Some(l) => match l.path {
                        Some(p) => p@,
                        None => "src/lib.op"@,
                    },
                    None => "src/lib.op"@,
                }
            } else {
                match manifest.rom@[0].path {
                    Some(p) => p@,
                    None => "src/cart.op"@,
                }
            }),
            r@.len() == i,
            forall|k: int|
                0 <= k < i ==> {
                    let a = #[trigger] r@[k];
                    &&& a.target@ == tv[k]
                    &&& a.input@ == check_input(*manifest, manifest_dir@)
                    &&& a.features@.len() == 0
                    &&& a.opt_level == 0
                    &&& a.format is None
                    &&& a.output is None
                    &&& a.stage == OpcStage::Parse
                    &&& a.include_dirs@.len() == 0
                },
        decreases targets@.len() - i,
    {
        assert(tv[i as int] == targets@[i as int]@);
        r.push(
            OpcArgs {
                input: join_path(manifest_dir, input_rel),
                target: targets[i].clone(),
                features: Vec::new(),
                opt_level: 0,
                format: None,
                output: None,
                stage: OpcStage::Parse,
                include_dirs: Vec::new(),
            },
        );
        i = i + 1;
    }
    r
}

} // verus!
