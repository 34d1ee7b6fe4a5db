//! Scanning text as `str`'s methods do it: lines, whitespace trimming,
//! prefixes and repeated affixes, identifiers, and the stem and extension
//! of a file name.

use vstd::prelude::*;
use crate::text::{chars_of, owned, string_of};

verus! {

/// `char::is_whitespace`: the characters with the Unicode `White_Space`
/// property.
pub open spec fn is_ws(c: char) -> bool {
    let n = c as u32;
    ||| 9 <= n <= 13
    ||| n == 32
    ||| n == 0x85
    ||| n == 0xA0
    ||| n == 0x1680
    ||| 0x2000 <= n <= 0x200A
    ||| n == 0x2028
    ||| n == 0x2029
    ||| n == 0x202F
    ||| n == 0x205F
    ||| n == 0x3000
}

/// Whether a character is whitespace.
pub fn is_whitespace(c: char) -> (r: bool)
    ensures
        r == is_ws(c),
{
    let n = c as u32;
    (9 <= n && n <= 13) || n == 32 || n == 0x85 || n == 0xA0 || n == 0x1680 || (0x2000 <= n && n
        <= 0x200A) || n == 0x2028 || n == 0x2029 || n == 0x202F || n == 0x205F || n == 0x3000
}

/// What `char::is_alphanumeric` returns: whether the character is
/// alphabetic or numeric in the Unicode tables of the standard library.
pub uninterp spec fn char_is_alphanumeric(c: char) -> bool;

/// Calls `char::is_alphanumeric`; its result is named by
/// `char_is_alphanumeric`, and nothing more is said of the Unicode tables.
#[verifier::external_body]
fn is_alphanumeric(c: char) -> (r: bool)
    ensures
        r == char_is_alphanumeric(c),
{
    c.is_alphanumeric()
}

/// The characters `s[lo..hi]`.
pub fn sub_chars(s: &Vec<char>, lo: usize, hi: usize) -> (r: Vec<char>)
    requires
        lo <= hi <= s@.len(),
    ensures
        r@ == s@.subrange(lo as int, hi as int),
{
    let mut r: Vec<char> = Vec::new();
    let mut i: usize = lo;
    while i < hi
        invariant
            lo <= i <= hi <= s@.len(),
            r@ == s@.subrange(lo as int, i as int),
        decreases hi - i,
    {
        r.push(s[i]);
        i = i + 1;
        assert(r@ =~= s@.subrange(lo as int, i as int));
    }
    r
}

/// `str::trim_start`: the text without its leading whitespace.
pub open spec fn trim_start_ws(s: Seq<char>) -> Seq<char>
    decreases s.len(),
{
    if s.len() > 0 && is_ws(s[0]) {
        trim_start_ws(s.drop_first())
    } else {
        s
    }
}

/// `str::trim_end`: the text without its trailing whitespace.
pub open spec fn trim_end_ws(s: Seq<char>) -> Seq<char>
    decreases s.len(),
{
    if s.len() > 0 && is_ws(s.last()) {
        trim_end_ws(s.drop_last())
    } else {
        s
    }
}

/// `str::trim`: the text without leading or trailing whitespace.
pub open spec fn trim_ws(s: Seq<char>) -> Seq<char> {
    trim_end_ws(trim_start_ws(s))
}

/// Drop the leading whitespace.
pub fn trim_start(s: &Vec<char>) -> (r: Vec<char>)
    ensures
        r@ == trim_start_ws(s@),
{
    let n = s.len();
    let mut k: usize = 0;
    assert(s@.subrange(0, n as int) =~= s@);
    while k < n && is_whitespace(s[k])
        invariant
            n == s@.len(),
            k <= n,
            trim_start_ws(s@.subrange(k as int, n as int)) == trim_start_ws(s@),
        decreases n - k,
    {
        assert(s@.subrange(k as int, n as int).drop_first() =~= s@.subrange(k + 1, n as int));
        k = k + 1;
    }
    assert(s@.subrange(0, n as int) =~= s@);
    sub_chars(s, k, n)
}

/// Drop the trailing whitespace.
pub fn trim_end(s: &Vec<char>) -> (r: Vec<char>)
    ensures
        r@ == trim_end_ws(s@),
{
    let n = s.len();
    let mut k: usize = n;
    assert(s@.subrange(0, n as int) =~= s@);
    while k > 0 && is_whitespace(s[k - 1])
        invariant
            n == s@.len(),
            k <= n,
            trim_end_ws(s@.subrange(0, k as int)) == trim_end_ws(s@),
        decreases k,
    {
        assert(s@.subrange(0, k as int).drop_last() =~= s@.subrange(0, k - 1));
        k = k - 1;
    }
    assert(s@.subrange(0, n as int) =~= s@);
    sub_chars(s, 0, k)
}

/// Drop whitespace at both ends.
pub fn trim(s: &Vec<char>) -> (r: Vec<char>)
    ensures
        r@ == trim_ws(s@),
{
    let t = trim_start(s);
    trim_end(&t)
}

/// `str::starts_with`.
pub open spec fn starts_with(s: Seq<char>, p: Seq<char>) -> bool {
    p.len() <= s.len() && s.subrange(0, p.len() as int) == p
}

/// What follows a prefix of length `p.len()`.
pub open spec fn after(s: Seq<char>, p: Seq<char>) -> Seq<char> {
    s.subrange(p.len() as int, s.len() as int)
}

/// Whether `s` starts with `p`.
pub fn has_prefix(s: &Vec<char>, p: &str) -> (r: bool)
    ensures
        r == starts_with(s@, p@),
{
    let q = chars_of(p);
    if q.len() > s.len() {
        return false;
    }
    let mut i: usize = 0;
    while i < q.len()
        invariant
            q@ == p@,
            q@.len() <= s@.len(),
            i <= q@.len(),
            forall|j: int| 0 <= j < i ==> s@[j] == q@[j],
        decreases q@.len() - i,
    {
        if s[i] != q[i] {
            assert(s@.subrange(0, q@.len() as int)[i as int] != q@[i as int]);
            return false;
        }
        i = i + 1;
    }
    assert(s@.subrange(0, q@.len() as int) =~= q@);
    true
}

/// `str::trim_start_matches` with a text pattern: `p` removed from the
/// front as long as the text starts with it.
pub open spec fn trim_start_matches(s: Seq<char>, p: Seq<char>) -> Seq<char>
    decreases s.len(),
{
    if p.len() > 0 && starts_with(s, p) {
        trim_start_matches(after(s, p), p)
    } else {
        s
    }
}

/// `str::trim_end_matches` with a character: `c` removed from the end as
/// long as the text ends with it.
pub open spec fn trim_end_char(s: Seq<char>, c: char) -> Seq<char>
    decreases s.len(),
{
    if s.len() > 0 && s.last() == c {
        trim_end_char(s.drop_last(), c)
    } else {
        s
    }
}

/// Remove every leading repetition of `p`.
pub fn strip_all_prefix(s: &Vec<char>, p: &str) -> (r: Vec<char>)
    ensures
        r@ == trim_start_matches(s@, p@),
{
    let plen = chars_of(p).len();
    let mut cur = sub_chars(s, 0, s.len());
    assert(cur@ =~= s@);
    if plen == 0 {
        return cur;
    }
    while has_prefix(&cur, p)
        invariant
            plen == p@.len(),
            plen > 0,
            trim_start_matches(cur@, p@) == trim_start_matches(s@, p@),
        decreases cur@.len(),
    {
        let n = cur.len();
        cur = sub_chars(&cur, plen, n);
    }
    cur
}

/// Remove every trailing `c`.
pub fn strip_all_suffix(s: &Vec<char>, c: char) -> (r: Vec<char>)
    ensures
        r@ == trim_end_char(s@, c),
{
    let n = s.len();
    let mut k: usize = n;
    assert(s@.subrange(0, n as int) =~= s@);
    while k > 0 && s[k - 1] == c
        invariant
            n == s@.len(),
            k <= n,
            trim_end_char(s@.subrange(0, k as int), c) == trim_end_char(s@, c),
        decreases k,
    {
        assert(s@.subrange(0, k as int).drop_last() =~= s@.subrange(0, k - 1));
        k = k - 1;
    }
    assert(s@.subrange(0, n as int) =~= s@);
    sub_chars(s, 0, k)
}

/// A character that may stand in a declaration name: alphanumeric or `_`.
pub open spec fn is_ident_char(c: char) -> bool {
    char_is_alphanumeric(c) || c == '_'
}

/// The longest prefix of identifier characters.
pub open spec fn ident_prefix(s: Seq<char>) -> Seq<char>
    decreases s.len(),
{
    if s.len() > 0 && is_ident_char(s[0]) {
        seq![s[0]] + ident_prefix(s.drop_first())
    } else {
        Seq::empty()
    }
}

proof fn lemma_ident_prefix(s: Seq<char>, k: int)
    requires
        0 <= k <= s.len(),
        forall|j: int| 0 <= j < k ==> is_ident_char(#[trigger] s[j]),
        k == s.len() || !is_ident_char(s[k]),
    ensures
        ident_prefix(s) == s.subrange(0, k),
    decreases k,
{
    if k == 0 {
        assert(s.subrange(0, 0) =~= Seq::<char>::empty());
    } else {
        let t = s.drop_first();
        assert forall|j: int| 0 <= j < k - 1 implies is_ident_char(#[trigger] t[j]) by {
            assert(t[j] == s[j + 1]);
        }
        if k - 1 < t.len() {
            assert(t[k - 1] == s[k]);
        }
        lemma_ident_prefix(t, k - 1);
        assert(seq![s[0]] + t.subrange(0, k - 1) =~= s.subrange(0, k));
    }
}

/// The characters of `s` from `from` on that form an identifier.
pub fn ident_at(s: &Vec<char>, from: usize) -> (r: Vec<char>)
    requires
        from <= s@.len(),
    ensures
        r@ == ident_prefix(s@.subrange(from as int, s@.len() as int)),
{
    let n = s.len();
    let ghost rest = s@.subrange(from as int, n as int);
    let mut k: usize = from;
    while k < n && (is_alphanumeric(s[k]) || s[k] == '_')
        invariant
            n == s@.len(),
            from <= k <= n,
            rest == s@.subrange(from as int, n as int),
            forall|j: int| 0 <= j < k - from ==> is_ident_char(#[trigger] rest[j]),
        decreases n - k,
    {
        assert(rest[k - from] == s@[k as int]);
        k = k + 1;
    }
    proof {
        if k < n {
            assert(rest[k - from] == s@[k as int]);
        }
        lemma_ident_prefix(rest, k - from);
        assert(rest.subrange(0, k - from) =~= s@.subrange(from as int, k as int));
    }
    sub_chars(s, from, k)
}

/// A line without the `\r` of a `\r\n` ending.
pub open spec fn strip_cr(l: Seq<char>) -> Seq<char> {
    if l.len() > 0 && l.last() == '\r' {
        l.drop_last()
    } else {
        l
    }
}

/// The lines ended so far, and the line being read.
pub open spec fn line_scan(s: Seq<char>) -> (Seq<Seq<char>>, Seq<char>)
    decreases s.len(),
{
    if s.len() == 0 {
        (Seq::empty(), Seq::empty())
    } else {
        let prev = line_scan(s.drop_last());
        if s.last() == '\n' {
            (prev.0.push(strip_cr(prev.1)), Seq::empty())
        } else {
            (prev.0, prev.1.push(s.last()))
        }
    }
}

/// `str::lines`: the text cut at each `\n`, a `\r` before it dropped, with
/// no empty line after a final `\n`.
pub open spec fn lines_of(s: Seq<char>) -> Seq<Seq<char>> {
    let sc = line_scan(s);
    if sc.1.len() > 0 {
        sc.0.push(sc.1)
    } else {
        sc.0
    }
}

/// The lines of a text, each as characters.
pub fn split_lines(s: &str) -> (r: Vec<Vec<char>>)
    ensures
        r@.len() == lines_of(s@).len(),
        forall|i: int| 0 <= i < r@.len() ==> (#[trigger] r@[i])@ == lines_of(s@)[i],
{
    let v = chars_of(s);
    let mut done: Vec<Vec<char>> = Vec::new();
    let mut cur: Vec<char> = Vec::new();
    let mut i: usize = 0;
    while i < v.len()
        invariant
            v@ == s@,
            i <= v@.len(),
            done@.len() == line_scan(v@.take(i as int)).0.len(),
            forall|j: int| 0 <= j < done@.len() ==> (#[trigger] done@[j])@ == line_scan(v@.take(i as int)).0[j],
            cur@ == line_scan(v@.take(i as int)).1,
        decreases v@.len() - i,
    {
        assert(v@.take(i + 1).drop_last() =~= v@.take(i as int));
        if v[i] == '\n' {
            if cur.len() > 0 && cur[cur.len() - 1] == '\r' {
                cur.pop();
            }
            done.push(cur);
            cur = Vec::new();
        } else {
            cur.push(v[i]);
        }
        i = i + 1;
    }
    assert(v@.take(v@.len() as int) =~= v@);
    if cur.len() > 0 {
        done.push(cur);
    }
    done
}

/// The index of the last `c` in `s`, or -1.
pub open spec fn last_index_of(s: Seq<char>, c: char) -> int
    decreases s.len(),
{
    if s.len() == 0 {
        -1
    } else if s.last() == c {
        s.len() - 1
    } else {
        last_index_of(s.drop_last(), c)
    }
}

proof fn lemma_last_index_of(s: Seq<char>, c: char)
    ensures
        -1 <= last_index_of(s, c) < s.len(),
        last_index_of(s, c) >= 0 ==> s[last_index_of(s, c)] == c,
        forall|j: int| last_index_of(s, c) < j < s.len() ==> s[j] != c,
    decreases s.len(),
{
    if s.len() > 0 && s.last() != c {
        lemma_last_index_of(s.drop_last(), c);
        assert forall|j: int| last_index_of(s, c) < j < s.len() implies s[j] != c by {
            if j < s.len() - 1 {
                assert(s[j] == s.drop_last()[j]);
            }
        }
    }
}

/// The extension of a file name as `Path::extension` gives it: what follows
/// the last `.`, when that `.` is not the first character.
pub open spec fn extension_of(name: Seq<char>) -> Option<Seq<char>> {
    let i = last_index_of(name, '.');
    if i > 0 {
        Some(name.subrange(i + 1, name.len() as int))
    } else {
        None
    }
}

/// The stem of a file name as `Path::file_stem` gives it: what precedes the
/// last `.`, when that `.` is not the first character; else the whole name.
pub open spec fn stem_of(name: Seq<char>) -> Seq<char> {
    let i = last_index_of(name, '.');
    if i > 0 {
        name.subrange(0, i)
    } else {
        name
    }
}

/// The position of the last `.` of a name, if it is not the first character.
fn extension_dot(name: &Vec<char>) -> (r: Option<usize>)
    ensures
        match r {
            Some(i) => i as int == last_index_of(name@, '.') && 0 < i < name@.len(),
            None => last_index_of(name@, '.') <= 0,
        },
{
    let mut i: usize = name.len();
    while i > 0
        invariant
            i <= name@.len(),
            forall|j: int| i <= j < name@.len() ==> name@[j] != '.',
        decreases i,
    {
        if name[i - 1] == '.' {
            let d = i - 1;
            proof {
                assert(d as int == last_index_of(name@, '.')) by {
                    lemma_last_index_of(name@, '.');
                    if last_index_of(name@, '.') != d as int {
                        assert(name@[d as int] == '.');
                    }
                }
            }
            if d > 0 {
                return Some(d);
            }
            return None;
        }
        i = i - 1;
    }
    assert(last_index_of(name@, '.') < 0) by {
        lemma_last_index_of(name@, '.');
        if last_index_of(name@, '.') >= 0 {
            assert(name@[last_index_of(name@, '.')] == '.');
        }
    }
    None
}

/// Whether the extension of a file name is `ext`.
pub fn has_extension(file_name: &str, ext: &str) -> (r: bool)
    ensures
        r == (extension_of(file_name@) == Some(ext@)),
{
    let v = chars_of(file_name);
    match extension_dot(&v) {
        Some(d) => {
            let n = v.len();
            let tail = sub_chars(&v, d + 1, n);
            let e = chars_of(ext);
            assert(extension_of(file_name@) == Some(tail@));
            if tail.len() != e.len() {
                assert(tail@ != e@);
                return false;
            }
            let mut i: usize = 0;
            while i < e.len()
                invariant
                    e@ == ext@,
                    extension_of(file_name@) == Some(tail@),
                    tail@.len() == e@.len(),
                    i <= e@.len(),
                    forall|j: int| 0 <= j < i ==> tail@[j] == e@[j],
                decreases e@.len() - i,
            {
                if tail[i] != e[i] {
                    assert(tail@[i as int] != e@[i as int]);
                    return false;
                }
                i = i + 1;
            }
            assert(tail@ =~= e@);
            true
        },
        None => false,
    }
}

/// The stem of a file name.
pub fn file_stem(file_name: &str) -> (r: String)
    ensures
        r@ == stem_of(file_name@),
{
    let v = chars_of(file_name);
    match extension_dot(&v) {
        Some(d) => {
            let head = sub_chars(&v, 0, d);
            string_of(head.as_slice())
        },
        None => owned(file_name),
    }
}

} // verus!
