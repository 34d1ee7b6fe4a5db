//! `cart doc`: the Markdown written for each module from its `//!` and
//! `///` comments, the modules it declares with `mod <name>;`, and the
//! index of the project.

use vstd::prelude::*;
use crate::diagnostics::codes;
use crate::error::{error_text, CartError};
use crate::manifest::{CartManifest, Rom};
use crate::opc::views;
use crate::scan::{
    after, has_prefix, ident_at, ident_prefix, split_lines, lines_of, starts_with, strip_all_prefix,
    strip_all_suffix, sub_chars, trim, trim_end_char, trim_start, trim_start_matches, trim_start_ws,
    trim_ws,
};
use crate::text::{chars_of, join_path, join_path_spec, owned, push_char, push_str, string_of};

verus! {

/// The first of two optional names that is present.
pub open spec fn or_else(a: Option<Seq<char>>, b: Option<Seq<char>>) -> Option<Seq<char>> {
    if a is Some {
        a
    } else {
        b
    }
}

/// The name declared after keyword `kw` at the start of `t`: the
/// identifier characters that follow, when there is at least one.
pub open spec fn name_after(t: Seq<char>, kw: Seq<char>) -> Option<Seq<char>> {
    if starts_with(t, kw) && ident_prefix(after(t, kw)).len() > 0 {
        Some(ident_prefix(after(t, kw)))
    } else {
        None
    }
}

/// The name a line declares, trying `const `, `fn `, `inline fn `,
/// `struct `, `enum `, `type ` and `mod ` in turn.
pub open spec fn decl_name(t: Seq<char>) -> Option<Seq<char>> {
    or_else(
        name_after(t, "const "@),
        or_else(
            name_after(t, "fn "@),
            or_else(
                name_after(t, "inline fn "@),
                or_else(
                    name_after(t, "struct "@),
                    or_else(
                        name_after(t, "enum "@),
                        or_else(name_after(t, "type "@), name_after(t, "mod "@)),
                    ),
                ),
            ),
        ),
    )
}

/// Whether a line declares a submodule: `mod ...;`.
pub open spec fn is_mod_line(t: Seq<char>) -> bool {
    starts_with(t, "mod "@) && t.len() > 0 && t.last() == ';'
}

/// The submodule a `mod <name>;` line names.
pub open spec fn mod_name_of(t: Seq<char>) -> Seq<char> {
    trim_ws(trim_end_char(trim_start_matches(t, "mod "@), ';'))
}

/// What the walk over a module's lines has gathered.
pub struct DocState {
    /// The `## <name>` sections written so far.
    pub sections: Seq<char>,
    /// Doc text not yet attached to a declaration.
    pub pending: Seq<char>,
    /// Whether the previous line was a `///` comment.
    pub in_doc: bool,
    /// The text of the `//!` comments.
    pub module_docs: Seq<char>,
    /// The names of the `mod <name>;` declarations, in order.
    pub submodules: Seq<Seq<char>>,
}

/// The state before the first line.
pub open spec fn doc_start() -> DocState {
    DocState {
        sections: Seq::empty(),
        pending: Seq::empty(),
        in_doc: false,
        module_docs: Seq::empty(),
        submodules: Seq::empty(),
    }
}

/// What one line adds. A `//!` line adds to the module docs, a `///` line
/// to the pending doc text. The first other line after `///` lines ends the
/// comment: when it declares a name, the pending text becomes the section
/// of that name; otherwise the text waits for the next declaration. A
/// `mod <name>;` line also names a submodule.
pub open spec fn doc_step(st: DocState, line: Seq<char>) -> DocState {
    let t = trim_start_ws(line);
    if starts_with(t, "//!"@) {
        DocState {
            module_docs: st.module_docs + trim_start_ws(after(t, "//!"@)).push('\n'),
            ..st
        }
    } else if starts_with(t, "///"@) {
        DocState { pending: st.pending + trim_start_ws(after(t, "///"@)).push('\n'), in_doc: true, ..st }
    } else {
        let st1 = if st.in_doc {
            match decl_name(t) {
                Some(n) => DocState {
                    sections: st.sections + "## "@ + n + "\n\n"@ + st.pending.push('\n'),
                    pending: Seq::empty(),
                    in_doc: false,
                    ..st
                },
                None => DocState { in_doc: false, ..st },
            }
        } else {
            st
        };
        if is_mod_line(t) {
            DocState { submodules: st1.submodules.push(mod_name_of(t)), ..st1 }
        } else {
            st1
        }
    }
}

/// The walk over the lines, first to last.
pub open spec fn doc_walk(lines: Seq<Seq<char>>) -> DocState
    decreases lines.len(),
{
    if lines.len() == 0 {
        doc_start()
    } else {
        doc_step(doc_walk(lines.drop_last()), lines.last())
    }
}

/// The Markdown of module `name` with source `source`: its module docs and
/// a blank line when it has any, the `# Module: <name>` heading, then its
/// sections.
pub open spec fn module_markdown(name: Seq<char>, source: Seq<char>) -> Seq<char> {
    let st = doc_walk(lines_of(source));
    let body = "# Module: "@ + name + "\n\n"@ + st.sections;
    if st.module_docs.len() > 0 {
        st.module_docs + "\n"@ + body
    } else {
        body
    }
}

/// The text after prefix `p`.
fn after_prefix(t: &Vec<char>, p: &str) -> (r: Vec<char>)
    requires
        starts_with(t@, p@),
    ensures
        r@ == after(t@, p@),
{
    let n = chars_of(p).len();
    sub_chars(t, n, t.len())
}

/// The name after keyword `kw`, if `t` starts with it.
fn name_after_kw(t: &Vec<char>, kw: &str) -> (r: Option<Vec<char>>)
    ensures
        match r {
            Some(n) => name_after(t@, kw@) == Some(n@),
            None => name_after(t@, kw@) is None,
        },
{
    if has_prefix(t, kw) {
        let n = chars_of(kw).len();
        let name = ident_at(t, n);
        if name.len() > 0 {
            return Some(name);
        }
    }
    None
}

/// The name a line declares.
fn decl_of(t: &Vec<char>) -> (r: Option<Vec<char>>)
    ensures
        match r {
            Some(n) => decl_name(t@) == Some(n@),
            None => decl_name(t@) is None,
        },
{
    if let Some(n) = name_after_kw(t, "const ") {
        return Some(n);
    }
    if let Some(n) = name_after_kw(t, "fn ") {
        return Some(n);
    }
    if let Some(n) = name_after_kw(t, "inline fn ") {
        return Some(n);
    }
    if let Some(n) = name_after_kw(t, "struct ") {
        return Some(n);
    }
    if let Some(n) = name_after_kw(t, "enum ") {
        return Some(n);
    }
    if let Some(n) = name_after_kw(t, "type ") {
        return Some(n);
    }
    name_after_kw(t, "mod ")
}

/// The name declared by a line that starts with a declaration keyword.
pub fn extract_decl_name(line: &str) -> (r: Option<String>)
    ensures
        match r {
            Some(n) => decl_name(line@) == Some(n@),
            None => decl_name(line@) is None,
        },
{
    let t = chars_of(line);
    match decl_of(&t) {
        Some(n) => Some(string_of(n.as_slice())),
        None => None,
    }
}

/// The walk's state, held in strings.
struct DocBuilder {
    sections: String,
    pending: String,
    in_doc: bool,
    module_docs: String,
    submodules: Vec<String>,
}

impl DocBuilder {
    spec fn state(&self) -> DocState {
        DocState {
            sections: self.sections@,
            pending: self.pending@,
            in_doc: self.in_doc,
            module_docs: self.module_docs@,
            submodules: views(self.submodules@),
        }
    }

    fn line(&mut self, line: &Vec<char>)
        ensures
            final(self).state() == doc_step(old(self).state(), line@),
    {
        let t = trim_start(line);
        if has_prefix(&t, "//!") {
            let rest = trim_start(&after_prefix(&t, "//!"));
            push_str(&mut self.module_docs, string_of(rest.as_slice()).as_str());
            push_char(&mut self.module_docs, '\n');
            return;
        }
        if has_prefix(&t, "///") {
            let rest = trim_start(&after_prefix(&t, "///"));
            push_str(&mut self.pending, string_of(rest.as_slice()).as_str());
            push_char(&mut self.pending, '\n');
            self.in_doc = true;
            return;
        }
        if self.in_doc {
            self.in_doc = false;
            if let Some(n) = decl_of(&t) {
                push_str(&mut self.sections, "## ");
                push_str(&mut self.sections, string_of(n.as_slice()).as_str());
                push_str(&mut self.sections, "\n\n");
                push_str(&mut self.sections, self.pending.as_str());
                push_char(&mut self.sections, '\n');
                self.pending = String::new();
            }
        }
        let n = t.len();
        if has_prefix(&t, "mod ") && n > 0 && t[n - 1] == ';' {
            let name = trim(&strip_all_suffix(&strip_all_prefix(&t, "mod "), ';'));
            let ghost before = views(self.submodules@);
            self.submodules.push(string_of(name.as_slice()));
            assert(views(self.submodules@) =~= before.push(name@));
        }
    }
}

/// A module's documentation page and the submodules it declares.
#[derive(Debug)]
pub struct ModuleDoc {
    pub markdown: String,
    /// The names of the `mod <name>;` declarations, in order; the caller
    /// documents `<name>.op` beside the module when it exists.
    pub submodules: Vec<String>,
}

/// Document module `module_name` from its source text.
pub fn module_doc(module_name: &str, source: &str) -> (r: ModuleDoc)
    ensures
        r.markdown@ == module_markdown(module_name@, source@),
        views(r.submodules@) == doc_walk(lines_of(source@)).submodules,
{
    let lines = split_lines(source);
    let ghost ls = lines_of(source@);
    let mut b = DocBuilder {
        sections: String::new(),
        pending: String::new(),
        in_doc: false,
        module_docs: String::new(),
        submodules: Vec::new(),
    };
    assert(b.state().submodules =~= doc_start().submodules);
    let mut i: usize = 0;
    while i < lines.len()
        invariant
            ls == lines_of(source@),
            lines@.len() == ls.len(),
            forall|j: int| 0 <= j < lines@.len() ==> (#[trigger] lines@[j])@ == ls[j],
            i <= lines@.len(),
            b.state() == doc_walk(ls.take(i as int)),
        decreases lines@.len() - i,
    {
        assert(ls.take(i + 1).drop_last() =~= ls.take(i as int));
        assert(lines@[i as int]@ == ls[i as int]);
        b.line(&lines[i]);
        i = i + 1;
    }
    assert(ls.take(lines@.len() as int) =~= ls);
    let mut md = owned("# Module: ");
    push_str(&mut md, module_name);
    push_str(&mut md, "\n\n");
    push_str(&mut md, b.sections.as_str());
    let markdown = if !b.module_docs.as_str().is_empty() {
        let mut m = b.module_docs;
        push_str(&mut m, "\n");
        push_str(&mut m, md.as_str());
        m
    } else {
        md
    };
    ModuleDoc { markdown, submodules: b.submodules }
}

/// The `ROM:` lines of the index.
pub open spec fn rom_lines(roms: Seq<Rom>) -> Seq<char>
    decreases roms.len(),
{
    if roms.len() == 0 {
        Seq::empty()
    } else {
        rom_lines(roms.drop_last()) + "ROM: "@ + roms.last().name@ + " (target: "@ + roms.last().target@
            + ")\n\n"@
    }
}

/// The module links of the index.
pub open spec fn module_links(modules: Seq<Seq<char>>) -> Seq<char>
    decreases modules.len(),
{
    if modules.len() == 0 {
        Seq::empty()
    } else {
        module_links(modules.drop_last()) + "- ["@ + modules.last() + "]("@ + modules.last()
            + ".md)\n"@
    }
}

/// The `index.md` of a project: its name, its lib, its ROMs and targets,
/// and a link to each module page.
pub open spec fn index_markdown(m: CartManifest, modules: Seq<Seq<char>>) -> Seq<char> {
    "# "@ + m.package.name@ + "\n\n"@ + match m.lib {
        Some(l) => "Lib: "@ + l.name@ + "\n\n"@,
        None => Seq::empty(),
    } + rom_lines(m.rom@) + "## Modules\n\n"@ + module_links(modules)
}

/// The line of the index that names a ROM and its target.
pub open spec fn rom_line(r: Rom) -> Seq<char> {
    "ROM: "@ + r.name@ + " (target: "@ + r.target@ + ")\n\n"@
}

/// Adding a `[[rom]]` to a manifest adds exactly its line to the index,
/// after the lines of the ROMs before it and before the module list, and
/// changes nothing else: the index lists every ROM of the manifest once,
/// in manifest order.
pub proof fn lemma_index_adds_rom_line(m: CartManifest, m2: CartManifest, modules: Seq<Seq<char>>, r: Rom)
    requires
        m2.package.name@ == m.package.name@,
        m2.lib == m.lib,
        m2.rom@ == m.rom@.push(r),
    ensures
        ({
            let idx = index_markdown(m, modules);
            let tail = "## Modules\n\n"@ + module_links(modules);
            let k = idx.len() - tail.len();
            &&& k >= 0
            &&& idx.skip(k) == tail
            &&& index_markdown(m2, modules) == idx.take(k) + rom_line(r) + tail
        }),
{
    let head = "# "@ + m.package.name@ + "\n\n"@ + match m.lib {
        Some(l) => "Lib: "@ + l.name@ + "\n\n"@,
        None => Seq::empty(),
    };
    let tail = "## Modules\n\n"@ + module_links(modules);
    assert(m2.rom@.drop_last() =~= m.rom@);
    assert(m2.rom@.last() == r);
    assert(rom_lines(m2.rom@) == rom_lines(m.rom@) + rom_line(r));
    let idx = index_markdown(m, modules);
    assert(idx =~= (head + rom_lines(m.rom@)) + tail);
    let k = idx.len() - tail.len();
    assert(idx.take(k) =~= head + rom_lines(m.rom@));
    assert(idx.skip(k) =~= tail);
    assert(index_markdown(m2, modules) =~= (head + rom_lines(m.rom@)) + rom_line(r) + tail);
}

/// A manifest without `[[rom]]` sections gets no ROM line: its index is
/// the title, the lib line when there is a lib, and the module list.
pub proof fn lemma_index_without_roms(m: CartManifest, modules: Seq<Seq<char>>)
    requires
        m.rom@.len() == 0,
    ensures
        index_markdown(m, modules) == "# "@ + m.package.name@ + "\n\n"@ + match m.lib {
            Some(l) => "Lib: "@ + l.name@ + "\n\n"@,
            None => Seq::empty(),
        } + "## Modules\n\n"@ + module_links(modules),
{
    assert(rom_lines(m.rom@) =~= Seq::<char>::empty());
    assert(index_markdown(m, modules) =~= "# "@ + m.package.name@ + "\n\n"@ + match m.lib {
        Some(l) => "Lib: "@ + l.name@ + "\n\n"@,
        None => Seq::empty(),
    } + "## Modules\n\n"@ + module_links(modules));
}

/// Write the index of the documented modules.
pub fn doc_index(manifest: &CartManifest, modules: &Vec<String>) -> (r: String)
    ensures
        r@ == index_markdown(*manifest, views(modules@)),
{
    let mut s = owned("# ");
    push_str(&mut s, manifest.package.name.as_str());
    push_str(&mut s, "\n\n");
    if let Some(l) = &manifest.lib {
        push_str(&mut s, "Lib: ");
        push_str(&mut s, l.name.as_str());
        push_str(&mut s, "\n\n");
    }
    let ghost head = s@;
    let mut i: usize = 0;
    while i < manifest.rom.len()
        invariant
            i <= manifest.rom@.len(),
            s@ == head + rom_lines(manifest.rom@.take(i as int)),
        decreases manifest.rom@.len() - i,
    {
        assert(manifest.rom@.take(i + 1).drop_last() =~= manifest.rom@.take(i as int));
        let rom = &manifest.rom[i];
        push_str(&mut s, "ROM: ");
        push_str(&mut s, rom.name.as_str());
        push_str(&mut s, " (target: ");
        push_str(&mut s, rom.target.as_str());
        push_str(&mut s, ")\n\n");
        i = i + 1;
        assert(s@ =~= head + rom_lines(manifest.rom@.take(i as int)));
    }
    assert(manifest.rom@.take(manifest.rom@.len() as int) =~= manifest.rom@);
    push_str(&mut s, "## Modules\n\n");
    let ghost head2 = s@;
    let ghost ms = views(modules@);
    let mut j: usize = 0;
    while j < modules.len()
        invariant
            ms == views(modules@),
            j <= modules@.len(),
            s@ == head2 + module_links(ms.take(j as int)),
        decreases modules@.len() - j,
    {
        assert(ms.take(j + 1).drop_last() =~= ms.take(j as int));
        let m = modules[j].as_str();
        push_str(&mut s, "- [");
        push_str(&mut s, m);
        push_str(&mut s, "](");
        push_str(&mut s, m);
        push_str(&mut s, ".md)\n");
        j = j + 1;
        assert(s@ =~= head2 + module_links(ms.take(j as int)));
    }
    assert(ms.take(ms.len() as int) =~= ms);
    assert(s@ =~= index_markdown(*manifest, ms));
    s
}

/// The text of the error for a project with nothing to document.
pub open spec fn no_doc_root_text() -> Seq<char> {
    "no lib or rom target in Cart.toml"@
}

/// The root source file to document: the lib's (`src/lib.op` by default),
/// else the first ROM's (`src/cart.op` by default); E502 without either.
pub fn doc_root(manifest: &CartManifest, manifest_dir: &str) -> (r: Result<String, CartError>)
    ensures
        match manifest.lib {
            Some(l) => r matches Ok(p) && p@ == join_path_spec(
                manifest_dir@,
                match l.path {
                    Some(q) => q@,
                    None => "src/lib.op"@,
                },
            ),
            None => if manifest.rom@.len() > 0 {
                r matches Ok(p) && p@ == join_path_spec(
                    manifest_dir@,
                    match manifest.rom@[0].path {
                        Some(q) => q@,
                        None => "src/cart.op"@,
                    },
                )
            } else {
                r matches Err(e) && e.code == codes::MANIFEST_PARSE && e.message@ == error_text(
                    codes::MANIFEST_PARSE,
                    no_doc_root_text(),
                )
            },
        },
{
    if let Some(l) = &manifest.lib {
        return match &l.path {
            Some(q) => Ok(join_path(manifest_dir, q.as_str())),
            None => Ok(join_path(manifest_dir, "src/lib.op")),
        };
    }
    if manifest.rom.len() > 0 {
        return match &manifest.rom[0].path {
            Some(q) => Ok(join_path(manifest_dir, q.as_str())),
            None => Ok(join_path(manifest_dir, "src/cart.op")),
        };
    }
    Err(CartError::new(codes::MANIFEST_PARSE, "no lib or rom target in Cart.toml"))
}

/// The directory documentation goes into: `[doc] output`, else
/// `target/doc/<project>`.
pub fn doc_output_dir(manifest: &CartManifest, manifest_dir: &str) -> (r: String)
    ensures
        r@ == match manifest.doc {
            Some(d) if d.output is Some => d.output->0@,
            _ => join_path_spec(
                join_path_spec(join_path_spec(manifest_dir@, "target"@), "doc"@),
                manifest.package.name@,
            ),
        },
{
    if let Some(d) = &manifest.doc {
        if let Some(o) = &d.output {
            return o.clone();
        }
    }
    let t = join_path(manifest_dir, "target");
    let d = join_path(t.as_str(), "doc");
    join_path(d.as_str(), manifest.package.name.as_str())
}

} // verus!
