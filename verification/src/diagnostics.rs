//! Diagnostic reporting for the `cart` build tool.
//!
//! A [`Diagnostic`] has a severity, a file path, a line, a column, a
//! message, and an error code. The tool prints diagnostics to stderr in
//! the structured format:
//!
//! ```text
//! error[E502]: message text
//!   --> file.op:line:col
//!    |
//!    | source line text
//!    |
//! ```

pub mod codes;

use vstd::prelude::*;
use crate::namemap::{lookup, NameMap};
use crate::text::{decimal, decimal_chars, owned, padded, padded_decimal, push_str};

verus! {

/// The severity of a diagnostic.
#[derive(Clone, Copy, Debug, PartialEq, Eq, Structural)]
pub enum Severity {
    Error,
    Warning,
    Note,
}

/// A diagnostic message.
#[derive(Debug)]
pub struct Diagnostic {
    pub severity: Severity,
    pub code: u32,
    pub file: String,
    pub line: u32,
    pub col: u32,
    pub message: String,
}

/// The default number of errors after which the tool stops.
pub const DEFAULT_ERROR_LIMIT: usize = 20;

/// The word a severity is printed with.
pub open spec fn level_chars(s: Severity) -> Seq<char> {
    match s {
        Severity::Error => "error"@,
        Severity::Warning => "warning"@,
        Severity::Note => "note"@,
    }
}

/// The structured text of a diagnostic, each line ending in a newline.
pub open spec fn rendered(d: Diagnostic, source: Option<Seq<char>>) -> Seq<char> {
    level_chars(d.severity) + "[E"@ + padded_decimal(d.code as nat, 3) + "]: "@ + d.message@
        + "\n"@ + "  --> "@ + d.file@ + ":"@ + decimal_chars(d.line as nat) + ":"@
        + decimal_chars(d.col as nat) + "\n"@ + "   |\n"@ + match source {
        Some(line) => "   | "@ + line + "\n"@ + "   |\n"@,
        None => Seq::empty(),
    }
}

impl Diagnostic {
    /// A diagnostic of severity `Error`.
    pub fn error(code: u32, file: &str, line: u32, col: u32, message: &str) -> (r: Self)
        ensures
            r.severity == Severity::Error,
            r.code == code,
            r.file@ == file@,
            r.line == line,
            r.col == col,
            r.message@ == message@,
    {
        Diagnostic {
            severity: Severity::Error,
            code,
            file: owned(file),
            line,
            col,
            message: owned(message),
        }
    }

    /// A diagnostic of severity `Warning`.
    pub fn warning(code: u32, file: &str, line: u32, col: u32, message: &str) -> (r: Self)
        ensures
            r.severity == Severity::Warning,
            r.code == code,
            r.file@ == file@,
            r.line == line,
            r.col == col,
            r.message@ == message@,
    {
        Diagnostic {
            severity: Severity::Warning,
            code,
            file: owned(file),
            line,
            col,
            message: owned(message),
        }
    }

    /// The text `print` writes to stderr for this diagnostic, with the
    /// source line when one is given.
    pub fn render(&self, source: Option<&str>) -> (r: String)
        ensures
            r@ == rendered(
                *self,
                match source {
                    Some(s) => Some(s@),
                    None => None,
                },
            ),
    {
        let mut r = String::new();
        match self.severity {
            Severity::Error => push_str(&mut r, "error"),
            Severity::Warning => push_str(&mut r, "warning"),
            Severity::Note => push_str(&mut r, "note"),
        }
        push_str(&mut r, "[E");
        let code = padded(self.code as u64, 3);
        push_str(&mut r, code.as_str());
        push_str(&mut r, "]: ");
        push_str(&mut r, self.message.as_str());
        push_str(&mut r, "\n");
        push_str(&mut r, "  --> ");
        push_str(&mut r, self.file.as_str());
        push_str(&mut r, ":");
        let line = decimal(self.line as u64);
        push_str(&mut r, line.as_str());
        push_str(&mut r, ":");
        let col = decimal(self.col as u64);
        push_str(&mut r, col.as_str());
        push_str(&mut r, "\n");
        push_str(&mut r, "   |\n");
        let ghost head = r@;
        if let Some(text) = source {
            push_str(&mut r, "   | ");
            push_str(&mut r, text);
            push_str(&mut r, "\n");
            push_str(&mut r, "   |\n");
            assert(r@ =~= head + ("   | "@ + text@ + "\n"@ + "   |\n"@));
        } else {
            assert(r@ =~= head + Seq::<char>::empty());
        }
        r
    }
}

/// A collection of diagnostics with an error count.
#[derive(Debug)]
pub struct Diagnostics {
    pub items: Vec<Diagnostic>,
    pub error_count: usize,
    pub error_limit: usize,
}

impl Diagnostics {
    /// An empty collection that stops at `error_limit` errors.
    pub fn new(error_limit: usize) -> (r: Self)
        ensures
            r.items@.len() == 0,
            r.error_count == 0,
            r.error_limit == error_limit,
    {
        Diagnostics { items: Vec::new(), error_count: 0, error_limit }
    }

    /// An empty collection with the default limit of 20 errors.
    pub fn default() -> (r: Self)
        ensures
            r.items@.len() == 0,
            r.error_count == 0,
            r.error_limit == DEFAULT_ERROR_LIMIT,
    {
        Self::new(DEFAULT_ERROR_LIMIT)
    }

    /// Push a diagnostic. Returns `true` if the error limit was reached.
    pub fn push(&mut self, diag: Diagnostic) -> (reached: bool)
        requires
            diag.severity == Severity::Error ==> old(self).error_count < usize::MAX,
        ensures
            final(self).items@ == old(self).items@.push(diag),
            final(self).error_limit == old(self).error_limit,
            final(self).error_count == if diag.severity == Severity::Error {
                old(self).error_count + 1
            } else {
                old(self).error_count as int
            },
            reached == (diag.severity == Severity::Error && final(self).error_count
                >= final(self).error_limit),
    {
        let is_error = diag.severity == Severity::Error;
        self.items.push(diag);
        if is_error {
            self.error_count = self.error_count + 1;
            self.error_count >= self.error_limit
        } else {
            false
        }
    }

    /// Whether any error was pushed.
    pub fn has_errors(&self) -> (r: bool)
        ensures
            r == (self.error_count > 0),
    {
        self.error_count > 0
    }

    /// The text of every diagnostic in order, each with the source text
    /// recorded for its file, if any.
    pub open spec fn rendered_all(self, sources: Seq<(Seq<char>, String)>) -> Seq<char>
        decreases self.items@.len(),
    {
        rendered_prefix(self.items@, sources, self.items@.len() as int)
    }

    /// Render every diagnostic, with the source recorded for its file.
    pub fn render_all(&self, sources: &NameMap<String>) -> (r: String)
        ensures
            r@ == self.rendered_all(sources@),
    {
        let mut r = String::new();
        let mut i: usize = 0;
        while i < self.items.len()
            invariant
                i <= self.items@.len(),
                r@ == rendered_prefix(self.items@, sources@, i as int),
            decreases self.items@.len() - i,
        {
            let d = &self.items[i];
            let text = match sources.get(d.file.as_str()) {
                Some(s) => d.render(Some(s.as_str())),
                None => d.render(None),
            };
            push_str(&mut r, text.as_str());
            i = i + 1;
        }
        r
    }
}

/// The text of the first `n` diagnostics.
pub open spec fn rendered_prefix(
    items: Seq<Diagnostic>,
    sources: Seq<(Seq<char>, String)>,
    n: int,
) -> Seq<char>
    decreases n,
{
    if n <= 0 {
        Seq::empty()
    } else {
        rendered_prefix(items, sources, n - 1) + rendered(
            items[n - 1],
            match lookup(sources, items[n - 1].file@) {
                Some(s) => Some(s@),
                None => None,
            },
        )
    }
}

} // verus!
