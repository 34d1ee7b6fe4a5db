//! `opc` compiler invocation.
//!
//! The `cart` tool shells out to the `opc` compiler to compile projects.
//! This module builds the command-line arguments; running the process is
//! left to the caller.

use vstd::prelude::*;
use crate::manifest::opt_chars;
use crate::text::{decimal, decimal_chars, owned};

verus! {

/// Arguments passed to `opc`.
#[derive(Debug)]
pub struct OpcArgs {
    pub input: String,
    pub target: String,
    pub features: Vec<String>,
    pub opt_level: u32,
    pub format: Option<String>,
    pub output: Option<String>,
    pub stage: OpcStage,
    pub include_dirs: Vec<String>,
}

/// The pipeline stage to run.
#[derive(Clone, Copy, Debug, PartialEq, Eq, Structural)]
pub enum OpcStage {
    /// Run all stages and write the final ROM image.
    Full,
    /// Run the lexer and parser only. Writes a `.opa` file.
    Parse,
}

/// The result of an `opc` invocation.
#[derive(Debug)]
pub struct OpcResult {
    pub success: bool,
    pub stderr: String,
}

/// The program the tool runs.
pub const OPC_PROGRAM: &'static str = "opc";

/// `flag item` for each item, in order.
pub open spec fn flag_pairs(flag: Seq<char>, items: Seq<String>) -> Seq<Seq<char>>
    decreases items.len(),
{
    if items.len() == 0 {
        Seq::empty()
    } else {
        flag_pairs(flag, items.drop_last()) + seq![flag, items.last()@]
    }
}

/// `flag value` when a value is present.
pub open spec fn optional_flag(flag: Seq<char>, value: Option<Seq<char>>) -> Seq<Seq<char>> {
    match value {
        Some(v) => seq![flag, v],
        None => Seq::empty(),
    }
}

/// The arguments `opc` is given, after the program name: the target, each
/// feature, the optimization level, the format and output when set, each
/// include directory, `--parse` for the parse stage, and the input last.
pub open spec fn opc_argv(a: OpcArgs) -> Seq<Seq<char>> {
    seq!["--target"@, a.target@] + flag_pairs("--feature"@, a.features@) + seq![
        "-O"@,
        decimal_chars(a.opt_level as nat),
    ] + optional_flag("--format"@, opt_chars(a.format)) + optional_flag(
        "-o"@,
        opt_chars(a.output),
    ) + flag_pairs("-I"@, a.include_dirs@) + match a.stage {
        OpcStage::Full => Seq::<Seq<char>>::empty(),
        OpcStage::Parse => seq!["--parse"@],
    } + seq![a.input@]
}

/// The views of a list of strings.
pub open spec fn views(v: Seq<String>) -> Seq<Seq<char>> {
    v.map_values(|s: String| s@)
}

fn push_arg(argv: &mut Vec<String>, a: &str)
    ensures
        views(final(argv)@) == views(old(argv)@).push(a@),
{
    let ghost before = views(argv@);
    argv.push(owned(a));
    assert(views(argv@) =~= before.push(a@));
}

fn push_flag_pairs(argv: &mut Vec<String>, flag: &str, items: &Vec<String>)
    ensures
        views(final(argv)@) == views(old(argv)@) + flag_pairs(flag@, items@),
{
    let ghost start = views(argv@);
    let mut i: usize = 0;
    while i < items.len()
        invariant
            i <= items@.len(),
            views(argv@) == start + flag_pairs(flag@, items@.take(i as int)),
        decreases items@.len() - i,
    {
        push_arg(argv, flag);
        push_arg(argv, items[i].as_str());
        i = i + 1;
        assert(items@.take(i as int).drop_last() =~= items@.take(i - 1));
        assert(views(argv@) =~= start + flag_pairs(flag@, items@.take(i as int)));
    }
    assert(items@.take(items@.len() as int) =~= items@);
}

impl OpcArgs {
    /// The program name and arguments of the `opc` command.
    pub fn to_args(&self) -> (r: Vec<String>)
        ensures
            views(r@) == opc_argv(*self),
    {
        let mut argv: Vec<String> = Vec::new();
        push_arg(&mut argv, "--target");
        push_arg(&mut argv, self.target.as_str());
        let ghost s1 = views(argv@);
        push_flag_pairs(&mut argv, "--feature", &self.features);
        push_arg(&mut argv, "-O");
        let level = decimal(self.opt_level as u64);
        push_arg(&mut argv, level.as_str());
        let ghost s2 = views(argv@);
        if let Some(fmt) = &self.format {
            push_arg(&mut argv, "--format");
            push_arg(&mut argv, fmt.as_str());
        }
        let ghost s3 = views(argv@);
        if let Some(out) = &self.output {
            push_arg(&mut argv, "-o");
            push_arg(&mut argv, out.as_str());
        }
        let ghost s4 = views(argv@);
        push_flag_pairs(&mut argv, "-I", &self.include_dirs);
        let ghost s5 = views(argv@);
        match self.stage {
            OpcStage::Full => {},
            OpcStage::Parse => {
                push_arg(&mut argv, "--parse");
            },
        }
        let ghost s6 = views(argv@);
        push_arg(&mut argv, self.input.as_str());
        proof {
            assert(s2 =~= seq!["--target"@, self.target@] + flag_pairs("--feature"@, self.features@)
                + seq!["-O"@, decimal_chars(self.opt_level as nat)]);
            assert(s3 =~= s2 + optional_flag("--format"@, opt_chars(self.format)));
            assert(s4 =~= s3 + optional_flag("-o"@, opt_chars(self.output)));
            assert(s6 =~= s5 + match self.stage {
                OpcStage::Full => Seq::<Seq<char>>::empty(),
                OpcStage::Parse => seq!["--parse"@],
            });
            assert(views(argv@) =~= opc_argv(*self));
        }
        argv
    }
}

/// The output extension for a target output format.
pub open spec fn output_extension_spec(format: Seq<char>) -> Seq<char> {
    if format == "ines"@ {
        "nes"@
    } else if format == "lnx"@ {
        "lnx"@
    } else if format == "raw"@ {
        "bin"@
    } else if format == "hex"@ {
        "hex"@
    } else {
        "bin"@
    }
}

/// Get the output extension for a target output format.
pub fn output_extension(format: &str) -> (r: &'static str)
    ensures
        r@ == output_extension_spec(format@),
{
    if crate::text::same_text(format, "ines") {
        "nes"
    } else if crate::text::same_text(format, "lnx") {
        "lnx"
    } else if crate::text::same_text(format, "raw") {
        "bin"
    } else if crate::text::same_text(format, "hex") {
        "hex"
    } else {
        "bin"
    }
}

} // verus!
