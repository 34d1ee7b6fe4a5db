//! `cart install`: where a lib is installed from, and how its commit is
//! shown.

use vstd::prelude::*;
use crate::config::GlobalConfig;
use crate::diagnostics::codes;
use crate::error::{error_text, CartError};
use crate::registry::{base_url, url_only, GitSource};
use crate::text::{chars_of, owned, push_str, string_of};

verus! {

/// The text of the error for an install with no URL to clone.
pub open spec fn no_install_url_text() -> Seq<char> {
    "no --git URL and no default-git-base in ~/.cart/config.toml"@
}

/// The source `cart install <name>` clones: the `--git` URL, else
/// `<default-git-base>/<name>`; E510 without either.
pub fn install_source(name: &str, git: Option<&str>, config: &GlobalConfig) -> (r: Result<GitSource, CartError>)
    ensures
        match git {
            Some(u) => r matches Ok(s) && url_only(s, u@),
            None => match config.default_git_base_spec() {
                Some(b) => r matches Ok(s) && url_only(s, base_url(b, name@)),
                None => r matches Err(e) && e.code == codes::GIT_FAILURE && e.message@ == error_text(
                    codes::GIT_FAILURE,
                    no_install_url_text(),
                ),
            },
        },
{
    let url = match git {
        Some(u) => owned(u),
        None => match config.default_git_base() {
            Some(base) => {
                let mut url = owned(base);
                push_str(&mut url, "/");
                push_str(&mut url, name);
                url
            },
            None => {
                return Err(
                    CartError::new(
                        codes::GIT_FAILURE,
                        "no --git URL and no default-git-base in ~/.cart/config.toml",
                    ),
                );
            },
        },
    };
    Ok(GitSource { url, branch: None, tag: None, rev: None })
}

/// The commit as it is shown: its first eight characters, or all of it
/// when it is shorter.
pub fn short_sha(sha: &str) -> (r: String)
    ensures
        r@ == sha@.take(if sha@.len() < 8 { sha@.len() as int } else { 8 }),
{
    let v = chars_of(sha);
    let n: usize = if v.len() < 8 {
        v.len()
    } else {
        8
    };
    let mut head: Vec<char> = Vec::new();
    let mut i: usize = 0;
    while i < n
        invariant
            v@ == sha@,
            n <= v@.len(),
            i <= n,
            head@ == v@.take(i as int),
        decreases n - i,
    {
        head.push(v[i]);
        i = i + 1;
        assert(head@ =~= v@.take(i as int));
    }
    string_of(head.as_slice())
}

} // verus!
