use cart::checksum::{compute_checksum, path_lt, SourceFile};
use cart::cmd::doc::{doc_index, doc_output_dir, doc_root, extract_decl_name, module_doc};
use cart::diagnostics::{Diagnostic, Diagnostics, Severity};
use cart::manifest::{CartManifest, DocConfig, Lib, Package, Rom};
use cart::namemap::NameMap;
use cart::registry::{install, resolve_source, update, GitSource, GitStep};
use cart::scan::{file_stem, has_extension, split_lines, trim, trim_start};
use cart::text::{decimal, hex_encode, join_path, padded, str_lt};

fn file(path: &[&str], data: &[u8]) -> SourceFile {
    SourceFile {
        path: path.iter().map(|p| p.to_string()).collect(),
        data: data.to_vec(),
    }
}

fn chars(s: &str) -> Vec<char> {
    s.chars().collect()
}

fn manifest(name: &str) -> CartManifest {
    CartManifest {
        package: Package {
            name: name.to_string(),
            version: "0.1.0".to_string(),
            edition: "1".to_string(),
            authors: Vec::new(),
            license: None,
        },
        lib: None,
        rom: Vec::new(),
        dependencies: NameMap::new(),
        dev_dependencies: NameMap::new(),
        target: None,
        features: None,
        run: None,
        test: None,
        doc: None,
    }
}

// ---------------------------------------------------------------- checksum

#[test]
fn checksum_of_known_tree() {
    let files = vec![
        file(&["src", "lib.op"], b"//! lib\n"),
        file(&["Cart.toml"], b"[package]\n"),
        file(&["src", "a", "b.op"], b"x"),
    ];
    assert_eq!(
        compute_checksum(files),
        "bd2655236c867624ba62b83632d66258b860ca8d1fa5c736274a2d9853902962"
    );
}

#[test]
fn checksum_does_not_depend_on_listing_order() {
    let a = vec![file(&["x"], b"1"), file(&["y", "z"], b"2")];
    let b = vec![file(&["y", "z"], b"2"), file(&["x"], b"1")];
    assert_eq!(compute_checksum(a), compute_checksum(b));
}

#[test]
fn checksum_of_empty_tree_is_sha256_of_nothing() {
    assert_eq!(
        compute_checksum(Vec::new()),
        "e3b0c44298fc1c149afbf4c8996fb92427ae41e4649b934ca495991b7852b855"
    );
}

#[test]
fn path_order_is_by_component() {
    let s = |v: &[&str]| v.iter().map(|p| p.to_string()).collect::<Vec<String>>();
    assert!(path_lt(&s(&["a"]), &s(&["a.b"])));
    assert!(path_lt(&s(&["a", "z"]), &s(&["a.b"])));
    assert!(path_lt(&s(&["a"]), &s(&["a", "b"])));
    assert!(!path_lt(&s(&["b"]), &s(&["a", "z"])));
    assert!(!path_lt(&s(&["a"]), &s(&["a"])));
}

// ---------------------------------------------------------------- doc

#[test]
fn module_doc_sections_and_submodules() {
    let source = "//! The cpu module.\n//! Second line.\n\n/// Adds.\n/// Two lines.\nfn add(a, b) {}\n\n/// A point.\nstruct Point_2 {}\nmod regs;\nmod  mod flags ;\n";
    let d = module_doc("cpu", source);
    assert_eq!(
        d.markdown,
        "The cpu module.\nSecond line.\n\n# Module: cpu\n\n## add\n\nAdds.\nTwo lines.\n\n## Point_2\n\nA point.\n\n"
    );
    assert_eq!(d.submodules, vec!["regs", "mod flags"]);
}

#[test]
fn module_doc_without_module_docs() {
    let d = module_doc("m", "/// Orphan\n\nconst X = 1;\r\n");
    assert_eq!(d.markdown, "# Module: m\n\n");
    let d = module_doc("m", "/// Kept\n    inline fn go() {}\r\n");
    assert_eq!(d.markdown, "# Module: m\n\n## go\n\nKept\n\n");
    assert!(d.submodules.is_empty());
}

#[test]
fn doc_text_waits_for_a_declaration() {
    let d = module_doc("m", "/// First\nlet x = 1;\n/// Second\ntype T = u8;\n");
    assert_eq!(d.markdown, "# Module: m\n\n## T\n\nFirst\nSecond\n\n");
}

#[test]
fn decl_names() {
    assert_eq!(extract_decl_name("fn main() {}").as_deref(), Some("main"));
    assert_eq!(extract_decl_name("inline fn fast()").as_deref(), Some("fast"));
    assert_eq!(extract_decl_name("enum Color { }").as_deref(), Some("Color"));
    assert_eq!(extract_decl_name("mod video;").as_deref(), Some("video"));
    assert_eq!(extract_decl_name("fn (").as_deref(), None);
    assert_eq!(extract_decl_name("let x = 1;").as_deref(), None);
    assert_eq!(extract_decl_name("const é_1 = 2;").as_deref(), Some("é_1"));
}

#[test]
fn doc_index_lists_everything() {
    let mut m = manifest("proj");
    m.lib = Some(Lib {
        name: "proj".to_string(),
        path: None,
    });
    m.rom.push(Rom {
        name: "game".to_string(),
        path: None,
        target: "t-u-v".to_string(),
        format: None,
    });
    let index = doc_index(&m, &vec!["cpu".to_string(), "lib".to_string()]);
    assert_eq!(
        index,
        "# proj\n\nLib: proj\n\nROM: game (target: t-u-v)\n\n## Modules\n\n- [cpu](cpu.md)\n- [lib](lib.md)\n"
    );
}

#[test]
fn doc_root_and_output() {
    let mut m = manifest("proj");
    let err = match doc_root(&m, "/p") {
        Err(e) => e,
        Ok(_) => panic!("expected E502"),
    };
    assert_eq!(err.message, "E502: no lib or rom target in Cart.toml");
    m.rom.push(Rom {
        name: "game".to_string(),
        path: None,
        target: "t-u-v".to_string(),
        format: None,
    });
    assert_eq!(doc_root(&m, "/p").unwrap(), "/p/src/cart.op");
    m.lib = Some(Lib {
        name: "proj".to_string(),
        path: None,
    });
    assert_eq!(doc_root(&m, "/p").unwrap(), "/p/src/lib.op");
    assert_eq!(doc_output_dir(&m, "/p"), "/p/target/doc/proj");
    m.doc = Some(DocConfig {
        output: Some("out/docs".to_string()),
    });
    assert_eq!(doc_output_dir(&m, "/p"), "out/docs");
}

// ---------------------------------------------------------------- scan

#[test]
fn lines_like_str_lines() {
    let text = "a\r\nb\n\nc\r";
    let got: Vec<String> = split_lines(text)
        .into_iter()
        .map(|l| l.into_iter().collect())
        .collect();
    let want: Vec<String> = text.lines().map(|l| l.to_string()).collect();
    assert_eq!(got, want);
    assert!(split_lines("").is_empty());
    assert_eq!(split_lines("x\n").len(), 1);
}

#[test]
fn trimming_like_str_trim() {
    for s in ["  a b \t", "\u{3000}x\u{00A0}", "", "   ", "\u{2003}y"] {
        let t: String = trim(&chars(s)).into_iter().collect();
        assert_eq!(t, s.trim());
        let t: String = trim_start(&chars(s)).into_iter().collect();
        assert_eq!(t, s.trim_start());
    }
}

#[test]
fn stems_and_extensions() {
    assert_eq!(file_stem("basic.op"), "basic");
    assert_eq!(file_stem(".hidden"), ".hidden");
    assert_eq!(file_stem("a.b.c"), "a.b");
    assert_eq!(file_stem("noext"), "noext");
    assert!(has_extension("x.md", "md"));
    assert!(!has_extension("x.md", "m"));
    assert!(has_extension("x.", ""));
}

// ---------------------------------------------------------------- text

#[test]
fn numbers_and_paths() {
    assert_eq!(decimal(0), "0");
    assert_eq!(decimal(18446744073709551615), "18446744073709551615");
    assert_eq!(padded(7, 3), "007");
    assert_eq!(padded(1234, 3), "1234");
    assert_eq!(hex_encode(&[0x00, 0xab, 0x0f]), "00ab0f");
    assert_eq!(join_path("a", "b"), "a/b");
    assert_eq!(join_path("a/", "b"), "a/b");
    assert_eq!(join_path("", "b"), "b");
    assert_eq!(join_path("a", "/abs"), "/abs");
    assert!(str_lt("abc", "abd"));
    assert!(str_lt("ab", "abc"));
    assert!(!str_lt("b", "abc"));
}

#[test]
fn name_map_keeps_names_sorted_and_replaces() {
    let mut m: NameMap<u32> = NameMap::new();
    m.insert("zeta".to_string(), 1);
    m.insert("alpha".to_string(), 2);
    m.insert("mid".to_string(), 3);
    m.insert("alpha".to_string(), 4);
    assert_eq!(m.len(), 3);
    assert_eq!(m.name_at(0), "alpha");
    assert_eq!(m.name_at(1), "mid");
    assert_eq!(m.name_at(2), "zeta");
    assert_eq!(m.get("alpha"), Some(&4));
    assert_eq!(m.get("beta"), None);
    assert!(m.contains("mid"));
    assert_eq!(m.position("zeta"), Some(2));
    assert_eq!(m.into_values(), vec![4, 3, 1]);
}

// ---------------------------------------------------------------- diagnostics

#[test]
fn diagnostic_rendering() {
    let d = Diagnostic::error(2, "cart.op", 3, 7, "bad thing");
    assert_eq!(d.severity, Severity::Error);
    assert_eq!(
        d.render(Some("let x = ;")),
        "error[E002]: bad thing\n  --> cart.op:3:7\n   |\n   | let x = ;\n   |\n"
    );
    let w = Diagnostic::warning(510, "Cart.toml", 1, 1, "hm");
    assert_eq!(w.render(None), "warning[E510]: hm\n  --> Cart.toml:1:1\n   |\n");
}

#[test]
fn diagnostics_error_limit() {
    let mut ds = Diagnostics::new(2);
    assert!(!ds.has_errors());
    assert!(!ds.push(Diagnostic::warning(1, "f", 1, 1, "w")));
    assert!(!ds.has_errors());
    assert!(!ds.push(Diagnostic::error(1, "f", 1, 1, "e1")));
    assert!(ds.has_errors());
    assert!(ds.push(Diagnostic::error(1, "f", 1, 1, "e2")));
    assert_eq!(ds.error_count, 2);
    assert_eq!(Diagnostics::default().error_limit, 20);
    let mut sources = NameMap::new();
    sources.insert("f".to_string(), "line one".to_string());
    let all = ds.render_all(&sources);
    assert!(all.starts_with("warning[E001]: w\n  --> f:1:1\n   |\n   | line one\n   |\n"));
    assert!(all.ends_with("error[E001]: e2\n  --> f:1:1\n   |\n   | line one\n   |\n"));
}

// ---------------------------------------------------------------- registry

#[test]
fn registry_plans() {
    let src = GitSource {
        url: "u".to_string(),
        branch: Some("main".to_string()),
        tag: Some("v1".to_string()),
        rev: None,
    };
    let plan = install("nes", &src, "/c", false);
    assert_eq!(plan.dest, "/c/nes");
    assert_eq!(plan.steps.len(), 2);
    assert!(matches!(&plan.steps[0], GitStep::Clone { url, dest, branch } if url == "u" && dest == "/c/nes" && branch.as_deref() == Some("main")));
    assert!(matches!(&plan.steps[1], GitStep::CheckoutTag { name } if name == "v1"));
    assert_eq!(plan.head.as_deref(), Some("v1"));
    let plan = install("nes", &src, "/c", true);
    assert!(matches!(&plan.steps[0], GitStep::Fetch { dest } if dest == "/c/nes"));
    assert!(matches!(&plan.steps[1], GitStep::CheckoutBranch { name } if name == "main"));
    assert_eq!(plan.head.as_deref(), Some("refs/heads/main"));
    let pinned = GitSource {
        url: "u".to_string(),
        branch: None,
        tag: Some("v1".to_string()),
        rev: Some("abc123".to_string()),
    };
    let plan = install("nes", &pinned, "/c", false);
    assert_eq!(plan.steps.len(), 3);
    assert!(matches!(&plan.steps[2], GitStep::CheckoutRev { name } if name == "abc123"));
    assert_eq!(plan.head.as_deref(), Some("abc123"));
    let plan = update("nes", &pinned, "/c", true).unwrap();
    assert_eq!(plan.steps.len(), 2);
    assert_eq!(plan.head.as_deref(), Some("v1"));
    let bare = GitSource { url: "u".to_string(), branch: None, tag: None, rev: None };
    assert_eq!(install("nes", &bare, "/c", false).head, None);
    let err = match update("nes", &src, "/c", false) {
        Err(e) => e,
        Ok(_) => panic!("expected E510"),
    };
    assert_eq!(err.message, "E510: lib 'nes' not found in /c");
}

#[test]
fn registry_resolve_source() {
    let simple = cart::manifest::Dependency::Simple("1.0".to_string());
    assert_eq!(resolve_source("nes", &simple, Some("https://g")).unwrap().url, "https://g/nes");
    let err = resolve_source("nes", &simple, None).unwrap_err();
    assert_eq!(err.message, "E510: no git URL for 'nes' and no default-git-base");
}
