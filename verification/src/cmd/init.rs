//! `cart init`: the files of a new Op project.

use vstd::prelude::*;
use crate::cmd::building::lib_target_spec;
use crate::cmd::check::check_targets;
use crate::config::GlobalConfig;
use crate::diagnostics::codes;
use crate::error::{error_text, CartError};
use crate::manifest::{CartManifest, Features, Lib, Package, Rom, TargetSection};
use crate::manifest::opt_chars;
use crate::namemap::NameMap;
use crate::triplet::{machine_name, machine_of};
use crate::text::{chars_of, owned, push_str, same_text};

verus! {

/// The `.gitignore` of a new project.
pub const GITIGNORE: &'static str = "/target\n";

/// The target a new project is set up for when `--target` is not given.
pub const DEFAULT_TARGET: &'static str = "mos6502-nintendo-nes-ntsc";

/// A character allowed in a project name: a lowercase ASCII letter, an
/// ASCII digit, `_` or `-`.
pub open spec fn name_char_ok(c: char) -> bool {
    ('a' <= c && c <= 'z') || ('0' <= c && c <= '9') || c == '_' || c == '-'
}

/// The text of the error for an empty name.
pub open spec fn empty_name_text() -> Seq<char> {
    "project name must not be empty"@
}

/// The text of the error for `.` or `..`.
pub open spec fn dot_name_text() -> Seq<char> {
    "project name must not be '.' or '..'"@
}

/// The text of the error for a name with other characters.
pub open spec fn bad_chars_text(name: Seq<char>) -> Seq<char> {
    "project name '"@ + name
        + "' must contain only lowercase letters, digits, hyphens, and underscores"@
}

/// What is wrong with a project name, if anything: it is empty, `.` or
/// `..`, or holds a character other than lowercase letters, digits,
/// hyphens and underscores.
pub open spec fn name_problem(name: Seq<char>) -> Option<Seq<char>> {
    if name.len() == 0 {
        Some(empty_name_text())
    } else if name == "."@ || name == ".."@ {
        Some(dot_name_text())
    } else if forall|i: int| 0 <= i < name.len() ==> name_char_ok(#[trigger] name[i]) {
        None
    } else {
        Some(bad_chars_text(name))
    }
}

/// Checks a project name (see `name_problem`); E502 when it is wrong.
pub fn validate_name(name: &str) -> (r: Result<(), CartError>)
    ensures
        match name_problem(name@) {
            None => r is Ok,
            Some(t) => r matches Err(e) && e.code == codes::MANIFEST_PARSE && e.message@
                == error_text(codes::MANIFEST_PARSE, t),
        },
{
    if name.is_empty() {
        return Err(CartError::new(codes::MANIFEST_PARSE, "project name must not be empty"));
    }
    if same_text(name, ".") || same_text(name, "..") {
        return Err(CartError::new(codes::MANIFEST_PARSE, "project name must not be '.' or '..'"));
    }
    let cs = chars_of(name);
    let mut i: usize = 0;
    while i < cs.len()
        invariant
            cs@ == name@,
            name@.len() > 0,
            name@ != "."@ && name@ != ".."@,
            i <= cs@.len(),
            forall|j: int| 0 <= j < i ==> name_char_ok(#[trigger] name@[j]),
        decreases cs@.len() - i,
    {
        let c = cs[i];
        let ok = ('a' <= c && c <= 'z') || ('0' <= c && c <= '9') || c == '_' || c == '-';
        if !ok {
            assert(!name_char_ok(name@[i as int]));
            let mut t = owned("project name '");
            push_str(&mut t, name);
            push_str(&mut t, "' must contain only lowercase letters, digits, hyphens, and underscores");
            return Err(CartError::new(codes::MANIFEST_PARSE, t.as_str()));
        }
        i = i + 1;
    }
    Ok(())
}

/// The entry file of a ROM project.
pub open spec fn rom_entry_text(name: Seq<char>) -> Seq<char> {
    "//! "@ + name + "\n//!\n//! Project entry point.\n\nnoreturn fn main() {\n    loop {\n    }\n}\n"@
}

/// The entry file of a lib project.
pub open spec fn lib_entry_text(name: Seq<char>) -> Seq<char> {
    "//! "@ + name + " lib\n//!\n//! Bank entry point.\n"@
}

/// What `cart init` writes, inside the new directory named after the
/// project.
#[derive(Debug)]
pub struct InitPlan {
    /// The project directory.
    pub dir: String,
    pub manifest: CartManifest,
    /// The entry file, relative to the project directory.
    pub entry_path: String,
    pub entry_text: String,
    pub gitignore: String,
}

/// The manifest of a new project: version 0.1.0, edition 1, the target as
/// `[target] default`, an empty `[features]` table, and a `[lib]` or one
/// `[[rom]]` named after the project, in the format of its platform.
pub open spec fn new_manifest_ok(m: CartManifest, name: Seq<char>, lib: bool, target: Seq<char>) -> bool {
    &&& m.package.name@ == name
    &&& m.package.version@ == "0.1.0"@
    &&& m.package.edition@ == "1"@
    &&& m.package.authors@.len() == 0
    &&& m.package.license is None
    &&& m.dependencies@.len() == 0
    &&& m.dev_dependencies@.len() == 0
    &&& m.target matches Some(t) && t.default@ == target
    &&& m.features matches Some(f) && f.flags@.len() == 0
    &&& m.run is None
    &&& m.test is None
    &&& m.doc is None
    &&& if lib {
        &&& m.lib matches Some(l) && l.name@ == name && opt_chars(l.path) == Some("src/lib.op"@)
        &&& m.rom@.len() == 0
    } else {
        &&& m.lib is None
        &&& m.rom@.len() == 1
        &&& m.rom@[0].name@ == name
        &&& opt_chars(m.rom@[0].path) == Some("src/cart.op"@)
        &&& m.rom@[0].target@ == target
        &&& opt_chars(m.rom@[0].format) == platform_format(target)
    }
}

/// The output format a new ROM project gets from its target's platform:
/// `ines` for the NES, `lnx` for the Atari Lynx, none for the others.
pub open spec fn platform_format(target: Seq<char>) -> Option<Seq<char>> {
    if machine_of(target) == "nes"@ {
        Some("ines"@)
    } else if machine_of(target) == "lynx"@ {
        Some("lnx"@)
    } else {
        None
    }
}

/// The output format for a new ROM project built for `target`.
pub fn platform_format_for(target: &str) -> (r: Option<String>)
    ensures
        opt_chars(r) == platform_format(target@),
{
    let machine = machine_name(target);
    if same_text(machine.as_str(), "nes") {
        Some(owned("ines"))
    } else if same_text(machine.as_str(), "lynx") {
        Some(owned("lnx"))
    } else {
        None
    }
}

/// The files of a new project named `name`: a lib project when `lib`
/// holds, else a ROM project; set up for `target`, or for
/// `mos6502-nintendo-nes-ntsc` when none is given. E502 for a bad name.
pub fn init(name: &str, lib: bool, target: Option<&str>) -> (r: Result<InitPlan, CartError>)
    ensures
        match r {
            Ok(p) => {
                &&& name_problem(name@) is None
                &&& p.dir@ == name@
                &&& new_manifest_ok(
                    p.manifest,
                    name@,
                    lib,
                    match target {
                        Some(t) => t@,
                        None => DEFAULT_TARGET@,
                    },
                )
                &&& p.entry_path@ == if lib { "src/lib.op"@ } else { "src/cart.op"@ }
                &&& p.entry_text@ == if lib { lib_entry_text(name@) } else { rom_entry_text(name@) }
                &&& p.gitignore@ == GITIGNORE@
            },
            Err(e) => name_problem(name@) matches Some(t) && e.code == codes::MANIFEST_PARSE
                && e.message@ == error_text(codes::MANIFEST_PARSE, t),
        },
{
    validate_name(name)?;
    let default_target = match target {
        Some(t) => owned(t),
        None => owned(DEFAULT_TARGET),
    };
    let package = Package {
        name: owned(name),
        version: owned("0.1.0"),
        edition: owned("1"),
        authors: Vec::new(),
        license: None,
    };
    let features = Some(Features { flags: NameMap::new() });
    let (manifest, entry_path, entry_text) = if lib {
        let mut text = owned("//! ");
        push_str(&mut text, name);
        push_str(&mut text, " lib\n//!\n//! Bank entry point.\n");
        let m = CartManifest {
            package,
            lib: Some(Lib { name: owned(name), path: Some(owned("src/lib.op")) }),
            rom: Vec::new(),
            dependencies: NameMap::new(),
            dev_dependencies: NameMap::new(),
            target: Some(TargetSection { default: default_target }),
            features,
            run: None,
            test: None,
            doc: None,
        };
        (m, owned("src/lib.op"), text)
    } else {
        let mut text = owned("//! ");
        push_str(&mut text, name);
        push_str(
            &mut text,
            "\n//!\n//! Project entry point.\n\nnoreturn fn main() {\n    loop {\n    }\n}\n",
        );
        let mut rom: Vec<Rom> = Vec::new();
        rom.push(
            Rom {
                name: owned(name),
                path: Some(owned("src/cart.op")),
                target: default_target.clone(),
                format: platform_format_for(default_target.as_str()),
            },
        );
        let m = CartManifest {
            package,
            lib: None,
            rom,
            dependencies: NameMap::new(),
            dev_dependencies: NameMap::new(),
            target: Some(TargetSection { default: default_target }),
            features,
            run: None,
            test: None,
            doc: None,
        };
        (m, owned("src/cart.op"), text)
    };
    Ok(InitPlan { dir: owned(name), manifest, entry_path, entry_text, gitignore: owned(GITIGNORE) })
}

/// A new project is built for the target it was created with: that target
/// is its default target, `cart check` checks a new ROM project for it,
/// and a new lib project builds for it whatever the config says.
pub proof fn lemma_new_project_target(m: CartManifest, name: Seq<char>, lib: bool, target: Seq<char>, config: GlobalConfig)
    requires
        new_manifest_ok(m, name, lib, target),
        lib ==> target.len() > 0,
    ensures
        m.default_target_spec(None) == Some(target),
        lib ==> lib_target_spec(m, None, config) == Some(target),
        !lib ==> check_targets(m, None) == seq![target],
{
    if !lib {
        assert(check_targets(m, None) =~= seq![target]);
    }
}

} // verus!
