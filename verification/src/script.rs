use vstd::prelude::*;
use vstd::string::StrSliceExecFns;
use vstd::string::StringExecFns;

use crate::errors::PackError;
use crate::manifest::{default_manifest, spec_apply_all, FxManifest};
use crate::strutil::str_eq;

verus! {

// The configuration script is attacker-controlled, so it is never executed:
// a restricted grammar of declarative statements is parsed instead. A
// statement is `key <value>` or the call form `key(<value>)`, where the
// value is a string literal, a boolean keyword, or a brace-delimited array
// of string literals (which may span lines); `--` comments run to the end
// of their line. Only a statement whose value is a single string forwards a
// `(key, value)` directive; boolean- and array-valued statements parse and
// declare nothing, so unrelated configuration directives of any of these
// forms are ignored.

pub open spec fn is_space_char(c: char) -> bool {
    c == ' ' || c == '\t' || c == '\r'
}

pub open spec fn is_blank_char(c: char) -> bool {
    is_space_char(c) || c == '\n'
}

pub open spec fn is_quote_char(c: char) -> bool {
    c == '\'' || c == '"'
}

pub open spec fn is_ident_start_char(c: char) -> bool {
    ('a' <= c && c <= 'z') || ('A' <= c && c <= 'Z') || c == '_'
}

pub open spec fn is_ident_char(c: char) -> bool {
    is_ident_start_char(c) || ('0' <= c && c <= '9')
}

/// Clamps a scan position into `[lo, hi]`. The scans this guards never in
/// fact leave that range; the clamp keeps termination checking syntactic.
pub open spec fn clampi(x: int, lo: int, hi: int) -> int {
    if x < lo {
        lo
    } else if x > hi {
        hi
    } else {
        x
    }
}

/// First index at or after `i` whose character is not horizontal whitespace,
/// or the length when all of the rest is whitespace.
pub open spec fn spec_skip_ws(l: Seq<char>, i: int) -> int
    decreases l.len() - i,
{
    if i < 0 || i >= l.len() {
        i
    } else if is_space_char(l[i]) {
        spec_skip_ws(l, i + 1)
    } else {
        i
    }
}

/// First index at or after `i` past the identifier characters.
pub open spec fn spec_ident_end(l: Seq<char>, i: int) -> int
    decreases l.len() - i,
{
    if i < 0 || i >= l.len() {
        i
    } else if is_ident_char(l[i]) {
        spec_ident_end(l, i + 1)
    } else {
        i
    }
}

/// First index at or after `i` holding `c`, or the length when there is none.
pub open spec fn spec_find_char(l: Seq<char>, i: int, c: char) -> int
    decreases l.len() - i,
{
    if i < 0 || i >= l.len() {
        l.len() as int
    } else if l[i] == c {
        i
    } else {
        spec_find_char(l, i + 1, c)
    }
}

/// First index at or after `i` that lies neither in whitespace (newlines
/// included) nor in a `--` comment, or the length when nothing follows.
pub open spec fn spec_skip_blank(s: Seq<char>, i: int) -> int
    decreases s.len() - i,
{
    if i < 0 || i >= s.len() {
        i
    } else if is_blank_char(s[i]) {
        spec_skip_blank(s, i + 1)
    } else if i + 1 < s.len() && s[i] == '-' && s[i + 1] == '-' {
        spec_skip_blank(s, clampi(spec_find_char(s, i + 2, '\n'), i + 2, s.len() as int))
    } else {
        i
    }
}

/// Index just past a brace-delimited array of string literals, scanning
/// right after its opening brace, or `None` when the array is malformed.
/// Elements are separated by commas; a trailing comma and comments between
/// elements are accepted.
pub open spec fn spec_array_end(s: Seq<char>, k: int) -> Option<int>
    decreases s.len() - k,
{
    let b = clampi(spec_skip_blank(s, k), k, s.len() as int);
    if b >= s.len() {
        None
    } else if s[b] == '}' {
        Some(b + 1)
    } else if is_quote_char(s[b]) {
        let m = clampi(spec_find_char(s, b + 1, s[b]), b + 1, s.len() as int);
        if m >= s.len() {
            None
        } else {
            let b2 = clampi(spec_skip_blank(s, m + 1), m + 1, s.len() as int);
            if b2 >= s.len() {
                None
            } else if s[b2] == ',' {
                spec_array_end(s, b2 + 1)
            } else if s[b2] == '}' {
                Some(b2 + 1)
            } else {
                None
            }
        }
    } else {
        None
    }
}

/// One value without surrounding parentheses: a string literal (whose text
/// is the directive's value), a boolean keyword, or an array of string
/// literals (which declares no single value). The result pairs the string
/// text, when there is one, with the index just past the value.
pub open spec fn spec_plain_value(s: Seq<char>, k: int) -> Option<(Option<Seq<char>>, int)> {
    if k < 0 || k >= s.len() {
        None
    } else if is_quote_char(s[k]) {
        let m = clampi(spec_find_char(s, k + 1, s[k]), k + 1, s.len() as int);
        if m >= s.len() {
            None
        } else {
            Some((Some(s.subrange(k + 1, m)), m + 1))
        }
    } else if s[k] == '{' {
        match spec_array_end(s, k + 1) {
            None => None,
            Some(e) => Some((None::<Seq<char>>, e)),
        }
    } else if is_ident_start_char(s[k]) {
        let j = clampi(spec_ident_end(s, k + 1), k + 1, s.len() as int);
        if s.subrange(k, j) == "true"@ || s.subrange(k, j) == "false"@ {
            Some((None::<Seq<char>>, j))
        } else {
            None
        }
    } else {
        None
    }
}

/// One declarative right-hand side: a plain value, or one wrapped in a
/// single pair of parentheses (the call form `key('value')`).
pub open spec fn spec_value(s: Seq<char>, k: int) -> Option<(Option<Seq<char>>, int)> {
    if 0 <= k && k < s.len() && s[k] == '(' {
        let k2 = clampi(spec_skip_ws(s, k + 1), k + 1, s.len() as int);
        match spec_plain_value(s, k2) {
            None => None,
            Some((sv, e0)) => {
                let e = clampi(e0, k2, s.len() as int);
                let t = clampi(spec_skip_ws(s, e), e, s.len() as int);
                if t < s.len() && s[t] == ')' {
                    Some((sv, t + 1))
                } else {
                    None
                }
            },
        }
    } else {
        spec_plain_value(s, k)
    }
}

/// The string-valued directives the script declares from position `i` on,
/// statement by statement in source order, or `None` when some statement
/// follows no declarative form. Each statement ends at the end of its line
/// (an optional trailing comment is allowed); only an array value may span
/// lines.
pub open spec fn spec_parse_stmts(s: Seq<char>, i: int) -> Option<Seq<(Seq<char>, Seq<char>)>>
    decreases s.len() - i,
{
    let b = clampi(spec_skip_blank(s, i), i, s.len() as int);
    if i < 0 || b >= s.len() {
        Some(Seq::empty())
    } else if !is_ident_start_char(s[b]) {
        None
    } else {
        let j = clampi(spec_ident_end(s, b + 1), b + 1, s.len() as int);
        let key = s.subrange(b, j);
        let k = clampi(spec_skip_ws(s, j), j, s.len() as int);
        match spec_value(s, k) {
            None => None,
            Some((sv, e0)) => {
                let e = clampi(e0, k, s.len() as int);
                let t = clampi(spec_skip_ws(s, e), e, s.len() as int);
                let next = if t >= s.len() {
                    s.len() as int
                } else if s[t] == '\n' {
                    t + 1
                } else if t + 1 < s.len() && s[t] == '-' && s[t + 1] == '-' {
                    clampi(spec_find_char(s, t + 2, '\n'), t + 2, s.len() as int)
                } else {
                    -1
                };
                if next < 0 {
                    None
                } else {
                    match spec_parse_stmts(s, next) {
                        None => None,
                        Some(rest) => match sv {
                            Some(v) => Some(seq![(key, v)] + rest),
                            None => Some(rest),
                        },
                    }
                }
            },
        }
    }
}

/// The string-valued directives a whole configuration script declares.
pub open spec fn spec_parse(s: Seq<char>) -> Option<Seq<(Seq<char>, Seq<char>)>> {
    spec_parse_stmts(s, 0)
}

fn skip_ws(l: &str, from: usize, n: usize) -> (r: usize)
    requires
        n == l@.len(),
        from <= n,
    ensures
        r == spec_skip_ws(l@, from as int),
        from <= r <= n,
{
    let mut j = from;
    while j < n
        invariant
            n == l@.len(),
            from <= j <= n,
            spec_skip_ws(l@, from as int) == spec_skip_ws(l@, j as int),
        decreases n - j,
    {
        let c = l.get_char(j);
        if !(c == ' ' || c == '\t' || c == '\r') {
            assert(spec_skip_ws(l@, j as int) == j as int);
            return j;
        }
        assert(spec_skip_ws(l@, j as int) == spec_skip_ws(l@, j as int + 1));
        j += 1;
    }
    assert(spec_skip_ws(l@, j as int) == j as int);
    j
}

fn ident_end(l: &str, from: usize, n: usize) -> (r: usize)
    requires
        n == l@.len(),
        from <= n,
    ensures
        r == spec_ident_end(l@, from as int),
        from <= r <= n,
{
    let mut j = from;
    while j < n
        invariant
            n == l@.len(),
            from <= j <= n,
            spec_ident_end(l@, from as int) == spec_ident_end(l@, j as int),
        decreases n - j,
    {
        let c = l.get_char(j);
        let ident = ('a' <= c && c <= 'z') || ('A' <= c && c <= 'Z') || c == '_' || ('0' <= c && c
            <= '9');
        if !ident {
            assert(spec_ident_end(l@, j as int) == j as int);
            return j;
        }
        assert(spec_ident_end(l@, j as int) == spec_ident_end(l@, j as int + 1));
        j += 1;
    }
    assert(spec_ident_end(l@, j as int) == j as int);
    j
}

fn find_char(l: &str, from: usize, n: usize, c: char) -> (r: usize)
    requires
        n == l@.len(),
        from <= n,
    ensures
        r == spec_find_char(l@, from as int, c),
        from <= r <= n,
{
    let mut j = from;
    while j < n
        invariant
            n == l@.len(),
            from <= j <= n,
            spec_find_char(l@, from as int, c) == spec_find_char(l@, j as int, c),
        decreases n - j,
    {
        if l.get_char(j) == c {
            assert(spec_find_char(l@, j as int, c) == j as int);
            return j;
        }
        assert(spec_find_char(l@, j as int, c) == spec_find_char(l@, j as int + 1, c));
        j += 1;
    }
    assert(spec_find_char(l@, j as int, c) == l@.len() as int);
    j
}

fn skip_blank(l: &str, from: usize, n: usize) -> (r: usize)
    requires
        n == l@.len(),
        from <= n,
    ensures
        r == spec_skip_blank(l@, from as int),
        from <= r <= n,
{
    let mut j = from;
    while j < n
        invariant
            n == l@.len(),
            from <= j <= n,
            spec_skip_blank(l@, from as int) == spec_skip_blank(l@, j as int),
        decreases n - j,
    {
        let c = l.get_char(j);
        if c == ' ' || c == '\t' || c == '\r' || c == '\n' {
            assert(spec_skip_blank(l@, j as int) == spec_skip_blank(l@, j as int + 1));
            j += 1;
        } else if c == '-' && j + 1 < n && l.get_char(j + 1) == '-' {
            let nl = find_char(l, j + 2, n, '\n');
            assert(spec_skip_blank(l@, j as int) == spec_skip_blank(l@, nl as int));
            j = nl;
        } else {
            assert(spec_skip_blank(l@, j as int) == j as int);
            return j;
        }
    }
    assert(spec_skip_blank(l@, j as int) == j as int);
    j
}

fn array_end(l: &str, from: usize, n: usize) -> (r: Result<usize, PackError>)
    requires
        n == l@.len(),
        from <= n,
    ensures
        (r is Ok) == (spec_array_end(l@, from as int) is Some),
        r matches Ok(e) ==> Some(e as int) == spec_array_end(l@, from as int) && from <= e <= n,
        r is Err ==> r->Err_0 == PackError::ScriptSyntax,
{
    let mut k = from;
    while k < n
        invariant
            n == l@.len(),
            from <= k <= n,
            spec_array_end(l@, from as int) == spec_array_end(l@, k as int),
        decreases n - k,
    {
        let b = skip_blank(l, k, n);
        if b >= n {
            return Err(PackError::ScriptSyntax);
        }
        let c = l.get_char(b);
        if c == '}' {
            assert(spec_array_end(l@, k as int) == Some(b as int + 1));
            return Ok(b + 1);
        }
        if !(c == '\'' || c == '"') {
            return Err(PackError::ScriptSyntax);
        }
        let m = find_char(l, b + 1, n, c);
        if m >= n {
            return Err(PackError::ScriptSyntax);
        }
        let b2 = skip_blank(l, m + 1, n);
        if b2 >= n {
            return Err(PackError::ScriptSyntax);
        }
        let c2 = l.get_char(b2);
        if c2 == ',' {
            assert(spec_array_end(l@, k as int) == spec_array_end(l@, b2 as int + 1));
            k = b2 + 1;
        } else if c2 == '}' {
            assert(spec_array_end(l@, k as int) == Some(b2 as int + 1));
            return Ok(b2 + 1);
        } else {
            return Err(PackError::ScriptSyntax);
        }
    }
    assert(spec_array_end(l@, k as int) is None);
    Err(PackError::ScriptSyntax)
}

fn plain_value(l: &str, k: usize, n: usize) -> (r: Result<(Option<String>, usize), PackError>)
    requires
        n == l@.len(),
        k <= n,
    ensures
        (r is Ok) == (spec_plain_value(l@, k as int) is Some),
        r matches Ok(v) ==> spec_plain_value(l@, k as int) == Some(
            ((match v.0 {
                Some(sv) => Some(sv@),
                None => None::<Seq<char>>,
            }), v.1 as int),
        ) && k <= v.1 <= n,
        r is Err ==> r->Err_0 == PackError::ScriptSyntax,
{
    if k >= n {
        return Err(PackError::ScriptSyntax);
    }
    let c = l.get_char(k);
    if c == '\'' || c == '"' {
        let m = find_char(l, k + 1, n, c);
        if m >= n {
            return Err(PackError::ScriptSyntax);
        }
        let v = String::from_str(l.substring_char(k + 1, m));
        return Ok((Some(v), m + 1));
    }
    if c == '{' {
        match array_end(l, k + 1, n) {
            Err(er) => return Err(er),
            Ok(e) => return Ok((None, e)),
        }
    }
    let ident_start = ('a' <= c && c <= 'z') || ('A' <= c && c <= 'Z') || c == '_';
    if ident_start {
        let j = ident_end(l, k + 1, n);
        let w = l.substring_char(k, j);
        if str_eq(w, "true") || str_eq(w, "false") {
            return Ok((None, j));
        }
        return Err(PackError::ScriptSyntax);
    }
    Err(PackError::ScriptSyntax)
}

fn parse_value(l: &str, k: usize, n: usize) -> (r: Result<(Option<String>, usize), PackError>)
    requires
        n == l@.len(),
        k <= n,
    ensures
        (r is Ok) == (spec_value(l@, k as int) is Some),
        r matches Ok(v) ==> spec_value(l@, k as int) == Some(
            ((match v.0 {
                Some(sv) => Some(sv@),
                None => None::<Seq<char>>,
            }), v.1 as int),
        ) && k <= v.1 <= n,
        r is Err ==> r->Err_0 == PackError::ScriptSyntax,
{
    if k < n && l.get_char(k) == '(' {
        let k2 = skip_ws(l, k + 1, n);
        match plain_value(l, k2, n) {
            Err(er) => Err(er),
            Ok((sv, e)) => {
                let t = skip_ws(l, e, n);
                if t < n && l.get_char(t) == ')' {
                    Ok((sv, t + 1))
                } else {
                    Err(PackError::ScriptSyntax)
                }
            },
        }
    } else {
        plain_value(l, k, n)
    }
}

/// Reads a whole configuration script: every statement is parsed, and the
/// recognized string-valued directives are applied to the default manifest
/// in source order. A statement that follows no declarative form fails the
/// whole read.
pub fn read_manifest_source(content: &str) -> (r: Result<FxManifest, PackError>)
    ensures
        (r is Ok) == (spec_parse(content@) is Some),
        r matches Ok(m) ==> m@ == spec_apply_all(default_manifest(), spec_parse(content@)->Some_0),
        r is Err ==> r->Err_0 == PackError::ScriptSyntax,
{
    let ghost s = content@;
    let n = content.unicode_len();
    let mut m = FxManifest::new();
    let ghost mut dirs: Seq<(Seq<char>, Seq<char>)> = Seq::empty();
    let mut i: usize = 0;
    while i < n
        invariant
            n == s.len(),
            s == content@,
            i <= n,
            m@ == spec_apply_all(default_manifest(), dirs),
            spec_parse_stmts(s, 0) == (match spec_parse_stmts(s, i as int) {
                Option::None => Option::<Seq<(Seq<char>, Seq<char>)>>::None,
                Option::Some(rest) => Option::Some(dirs + rest),
            }),
        decreases n - i,
    {
        let b = skip_blank(content, i, n);
        if b >= n {
            proof {
                assert(spec_parse_stmts(s, i as int) == Some(Seq::<(Seq<char>, Seq<char>)>::empty()));
                assert(dirs + Seq::<(Seq<char>, Seq<char>)>::empty() =~= dirs);
            }
            return Ok(m);
        }
        let c0 = content.get_char(b);
        let ident_start = ('a' <= c0 && c0 <= 'z') || ('A' <= c0 && c0 <= 'Z') || c0 == '_';
        if !ident_start {
            proof {
                assert(spec_parse_stmts(s, i as int) is None);
            }
            return Err(PackError::ScriptSyntax);
        }
        let j = ident_end(content, b + 1, n);
        let k = skip_ws(content, j, n);
        match parse_value(content, k, n) {
            Err(er) => {
                proof {
                    assert(spec_parse_stmts(s, i as int) is None);
                }
                return Err(er);
            },
            Ok((sv, e)) => {
                let t = skip_ws(content, e, n);
                let next: usize;
                if t >= n {
                    next = n;
                } else {
                    let ct = content.get_char(t);
                    if ct == '\n' {
                        next = t + 1;
                    } else if ct == '-' && t + 1 < n && content.get_char(t + 1) == '-' {
                        next = find_char(content, t + 2, n, '\n');
                    } else {
                        proof {
                            assert(spec_parse_stmts(s, i as int) is None);
                        }
                        return Err(PackError::ScriptSyntax);
                    }
                }
                match sv {
                    Some(v) => {
                        let key = String::from_str(content.substring_char(b, j));
                        m.apply_directive(key.as_str(), v.as_str());
                        proof {
                            crate::manifest::lemma_apply_all_snoc(
                                default_manifest(),
                                dirs,
                                (key@, v@),
                            );
                            let rest_next = spec_parse_stmts(s, next as int);
                            assert(rest_next is None ==> spec_parse_stmts(s, i as int) is None);
                            assert(rest_next matches Some(rest) ==> spec_parse_stmts(s, i as int)
                                == Some(seq![(key@, v@)] + rest));
                            if rest_next is Some {
                                let rest = rest_next->Some_0;
                                assert(dirs + (seq![(key@, v@)] + rest) =~= dirs.push((key@, v@))
                                    + rest);
                            }
                            dirs = dirs.push((key@, v@));
                        }
                    },
                    None => {
                        proof {
                            assert(spec_parse_stmts(s, i as int) == spec_parse_stmts(
                                s,
                                next as int,
                            ));
                        }
                    },
                }
                i = next;
            },
        }
    }
    proof {
        assert(spec_parse_stmts(s, i as int) == Some(Seq::<(Seq<char>, Seq<char>)>::empty()));
        assert(dirs + Seq::<(Seq<char>, Seq<char>)>::empty() =~= dirs);
    }
    Ok(m)
}

} // verus!
