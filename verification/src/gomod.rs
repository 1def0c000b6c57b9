//! The Go module major-version rule: majors 0 and 1 never appear in the
//! module path; for major 2 and above the path's final segment must be
//! `v<major>` — appended when absent, replaced when different, and the
//! file left untouched when already correct.

use vstd::prelude::*;

use crate::errors::StepError;
use crate::text::{
    chars_of, dec_rep, find_in, find_spec, format_u64, parse_u64_range, parse_u64_spec,
    string_from_chars, subrange_chars,
};
use crate::version::{stable_of, Version};

verus! {

/// The keyword opening a module directive, including its separator.
pub open spec fn module_kw() -> Seq<char> {
    seq!['m', 'o', 'd', 'u', 'l', 'e', ' ']
}

/// Horizontal whitespace inside a module line.
pub open spec fn is_ws(c: char) -> bool {
    c == ' ' || c == '\t'
}

/// Whether a line beginning at `i` opens with `module `.
pub open spec fn starts_module_at(s: Seq<char>, i: int) -> bool {
    (i == 0 || s[i - 1] == '\n') && i + 7 <= s.len() && s.subrange(i, i + 7) == module_kw()
}

/// The start of the first line that opens with `module `, scanning from
/// `i`.
pub open spec fn find_module_start(s: Seq<char>, i: int) -> Option<int>
    decreases s.len() - i,
    when 0 <= i <= s.len()
{
    if i >= s.len() {
        None
    } else if starts_module_at(s, i) {
        Some(i)
    } else {
        find_module_start(s, i + 1)
    }
}

/// Where the line beginning at `start` ends: the next newline, or the
/// end of the text.
pub open spec fn line_end_spec(s: Seq<char>, start: int) -> int {
    match find_spec(s.skip(start), '\n') {
        Some(i) => start + i,
        None => s.len() as int,
    }
}

/// The first non-whitespace position in `[i, end)`, or `end`.
pub open spec fn skip_ws_spec(s: Seq<char>, i: int, end: int) -> int
    decreases end - i,
    when i <= end
{
    if i >= end {
        end
    } else if is_ws(s[i]) {
        skip_ws_spec(s, i + 1, end)
    } else {
        i
    }
}

/// The end of the token beginning at `i`: the next whitespace in
/// `[i, end)`, or `end`.
pub open spec fn token_end_spec(s: Seq<char>, i: int, end: int) -> int
    decreases end - i,
    when i <= end
{
    if i >= end {
        end
    } else if is_ws(s[i]) {
        i
    } else {
        token_end_spec(s, i + 1, end)
    }
}

/// The index of the last occurrence of `c` in `s`, if any.
pub open spec fn find_last_spec(s: Seq<char>, c: char) -> Option<int>
    decreases s.len(),
{
    if s.len() == 0 {
        None
    } else if s.last() == c {
        Some(s.len() - 1)
    } else {
        find_last_spec(s.drop_last(), c)
    }
}

/// The major version a path segment encodes: `v` followed by a decimal
/// number.
pub open spec fn v_suffix_val(part: Seq<char>) -> Option<u64> {
    if part.len() >= 1 && part[0] == 'v' {
        parse_u64_spec(part.skip(1))
    } else {
        None
    }
}

/// What the rule decides for a module file text and a new major version.
pub enum GoModOutcome {
    /// The file is left byte-identical.
    Unchanged,
    /// The file's module line is rewritten to this new text.
    Replaced(Seq<char>),
    /// No line opens with `module `.
    MissingModule,
    /// The module line has no path token after the keyword.
    Malformed(Seq<char>),
}

/// The Go module rule, in full: majors 0 and 1 leave the file alone;
/// otherwise the first `module ` line's path gets its final `v<n>`
/// segment checked, replaced, or appended, and the rest of the file is
/// carried over unchanged.
pub open spec fn go_mod_spec(s: Seq<char>, major: u64) -> GoModOutcome {
    if major == 0 || major == 1 {
        GoModOutcome::Unchanged
    } else {
        match find_module_start(s, 0) {
            None => GoModOutcome::MissingModule,
            Some(m) => {
                let le = line_end_spec(s, m);
                let ts = skip_ws_spec(s, m + 7, le);
                if ts >= le {
                    GoModOutcome::Malformed(s.subrange(m, le))
                } else {
                    let te = token_end_spec(s, ts, le);
                    let token = s.subrange(ts, te);
                    let last = match find_last_spec(token, '/') {
                        Some(k) => token.skip(k + 1),
                        None => token,
                    };
                    match v_suffix_val(last) {
                        Some(n) => if n == major {
                            GoModOutcome::Unchanged
                        } else {
                            let prefix = match find_last_spec(token, '/') {
                                Some(k) => token.take(k + 1),
                                None => Seq::empty(),
                            };
                            GoModOutcome::Replaced(
                                s.take(m) + module_kw() + prefix + seq!['v'] + dec_rep(
                                    major as nat,
                                ) + s.skip(le),
                            )
                        },
                        None => GoModOutcome::Replaced(
                            s.take(m) + module_kw() + token + seq!['/', 'v'] + dec_rep(major as nat)
                                + s.skip(le),
                        ),
                    }
                }
            },
        }
    }
}

/// Whether a path names a Go module file.
pub open spec fn path_is_go_mod(path: Seq<char>) -> bool {
    path.len() >= 6 && path.skip(path.len() - 6) == seq!['g', 'o', '.', 'm', 'o', 'd']
}

/// Whether `path`'s last six characters spell `go.mod`.
pub fn is_go_mod_path(path: &Vec<char>) -> (r: bool)
    ensures
        r == path_is_go_mod(path@),
{
    if path.len() < 6 {
        return false;
    }
    let base = path.len() - 6;
    let ghost tail = path@.skip(path@.len() - 6);
    proof {
        assert(tail =~= path@.subrange(base as int, path@.len() as int));
    }
    let ok = path[base] == 'g' && path[base + 1] == 'o' && path[base + 2] == '.' && path[base + 3]
        == 'm' && path[base + 4] == 'o' && path[base + 5] == 'd';
    proof {
        if ok {
            assert(tail =~= seq!['g', 'o', '.', 'm', 'o', 'd']);
        } else {
            assert(tail != seq!['g', 'o', '.', 'm', 'o', 'd']) by {
                if tail == seq!['g', 'o', '.', 'm', 'o', 'd'] {
                    assert(path@[base as int] == tail[0]);
                    assert(path@[base + 1] == tail[1]);
                    assert(path@[base + 2] == tail[2]);
                    assert(path@[base + 3] == tail[3]);
                    assert(path@[base + 4] == tail[4]);
                    assert(path@[base + 5] == tail[5]);
                }
            }
        }
    }
    ok
}

/// Whether the line beginning at `i` opens with `module `.
fn is_module_at(v: &Vec<char>, i: usize) -> (r: bool)
    requires
        i < v@.len(),
    ensures
        r == starts_module_at(v@, i as int),
{
    if i != 0 && v[i - 1] != '\n' {
        return false;
    }
    if v.len() - i < 7 {
        return false;
    }
    let ghost sub = v@.subrange(i as int, i + 7);
    let ok = v[i] == 'm' && v[i + 1] == 'o' && v[i + 2] == 'd' && v[i + 3] == 'u' && v[i + 4]
        == 'l' && v[i + 5] == 'e' && v[i + 6] == ' ';
    proof {
        if ok {
            assert(sub =~= module_kw());
        } else {
            assert(sub != module_kw()) by {
                if sub == module_kw() {
                    assert(v@[i as int] == sub[0]);
                    assert(v@[i + 1] == sub[1]);
                    assert(v@[i + 2] == sub[2]);
                    assert(v@[i + 3] == sub[3]);
                    assert(v@[i + 4] == sub[4]);
                    assert(v@[i + 5] == sub[5]);
                    assert(v@[i + 6] == sub[6]);
                }
            }
        }
    }
    ok
}

/// The start of the first `module ` line, if any.
fn find_module_line(v: &Vec<char>) -> (r: Option<usize>)
    ensures
        match r {
            Some(m) => find_module_start(v@, 0) == Some(m as int) && m < v@.len()
                && starts_module_at(v@, m as int),
            None => find_module_start(v@, 0) is None,
        },
{
    let mut i: usize = 0;
    while i < v.len()
        invariant
            i <= v@.len(),
            find_module_start(v@, 0) == find_module_start(v@, i as int),
        decreases v@.len() - i,
    {
        if is_module_at(v, i) {
            return Some(i);
        }
        i = i + 1;
    }
    None
}

/// The first non-whitespace position in `[i, end)`, or `end`.
fn skip_ws(v: &Vec<char>, i: usize, end: usize) -> (r: usize)
    requires
        i <= end <= v@.len(),
    ensures
        i <= r <= end,
        r as int == skip_ws_spec(v@, i as int, end as int),
{
    let mut j: usize = i;
    while j < end
        invariant
            i <= j <= end <= v@.len(),
            skip_ws_spec(v@, i as int, end as int) == skip_ws_spec(v@, j as int, end as int),
        decreases end - j,
    {
        let c = v[j];
        if c != ' ' && c != '\t' {
            return j;
        }
        j = j + 1;
    }
    j
}

/// The end of the token beginning at `i`, bounded by `end`.
fn token_end(v: &Vec<char>, i: usize, end: usize) -> (r: usize)
    requires
        i <= end <= v@.len(),
    ensures
        i <= r <= end,
        r as int == token_end_spec(v@, i as int, end as int),
{
    let mut j: usize = i;
    while j < end
        invariant
            i <= j <= end <= v@.len(),
            token_end_spec(v@, i as int, end as int) == token_end_spec(v@, j as int, end as int),
        decreases end - j,
    {
        let c = v[j];
        if c == ' ' || c == '\t' {
            return j;
        }
        j = j + 1;
    }
    j
}

/// The index of the last occurrence of `c`, if any.
fn find_last(v: &Vec<char>, c: char) -> (r: Option<usize>)
    ensures
        match r {
            Some(k) => find_last_spec(v@, c) == Some(k as int) && k < v@.len(),
            None => find_last_spec(v@, c) is None,
        },
{
    let mut j: usize = v.len();
    proof {
        assert(v@.take(v@.len() as int) =~= v@);
    }
    while j > 0
        invariant
            j <= v@.len(),
            find_last_spec(v@, c) == find_last_spec(v@.take(j as int), c),
        decreases j,
    {
        let ghost cur = v@.take(j as int);
        proof {
            assert(cur.last() == v@[j - 1]);
            assert(cur.drop_last() =~= v@.take(j - 1));
        }
        if v[j - 1] == c {
            return Some(j - 1);
        }
        j = j - 1;
    }
    None
}

/// Applies the Go module rule to a module file's text for the major
/// component of `new_version`, yielding the new text.
///
/// Majors 0 and 1 leave the text byte-identical; otherwise the first
/// `module ` line's path has its final `v<n>` segment checked,
/// replaced, or appended. Fails when no module line exists or the line
/// carries no path.
#[verifier::rlimit(60)]
pub fn set_version(go_mod: String, new_version: &Version) -> (r: Result<String, StepError>)
    ensures
        match go_mod_spec(go_mod@, stable_of(new_version@).major) {
            GoModOutcome::Unchanged => r matches Ok(out) && out@ == go_mod@,
            GoModOutcome::Replaced(n) => r matches Ok(out) && out@ == n,
            GoModOutcome::MissingModule => r == Err::<String, StepError>(
                StepError::MissingModuleLine,
            ),
            GoModOutcome::Malformed(l) => r matches Err(StepError::MalformedModuleLine(m)) && m@
                == l,
        },
{
    let major = new_version.stable_component().major;
    if major == 0 || major == 1 {
        return Ok(go_mod);
    }
    let v = chars_of(&go_mod);
    let m = match find_module_line(&v) {
        None => {
            return Err(StepError::MissingModuleLine);
        },
        Some(m) => m,
    };
    let n = v.len();
    proof {
        assert(v@.subrange(m as int, n as int) =~= v@.skip(m as int));
    }
    let le = match find_in(&v, m, n, '\n') {
        Some(off) => m + off,
        None => n,
    };
    proof {
        assert(le as int == line_end_spec(v@, m as int));
        let tail = v@.subrange(m as int, n as int);
        crate::text::lemma_find_spec(tail, '\n');
        assert(m + 7 <= le) by {
            if le < m + 7 {
                assert(tail[le - m] == '\n');
                assert(v@[m + (le - m)] == v@.subrange(m as int, m + 7)[le - m]);
                assert(module_kw()[le - m] != '\n');
            }
        }
    }
    let ts = skip_ws(&v, m + 7, le);
    if ts >= le {
        let line_chars = subrange_chars(&v, m, le);
        let line = string_from_chars(&line_chars);
        return Err(StepError::MalformedModuleLine(line));
    }
    let te = token_end(&v, ts, le);
    let token = subrange_chars(&v, ts, te);
    let slash = find_last(&token, '/');
    let last_lo: usize = match slash {
        Some(k) => k + 1,
        None => 0,
    };
    let ghost last_seq = match find_last_spec(token@, '/') {
        Some(k) => token@.skip(k + 1),
        None => token@,
    };
    proof {
        assert(token@.subrange(last_lo as int, token@.len() as int) =~= last_seq);
    }
    let existing: Option<u64> = if last_lo < token.len() && token[last_lo] == 'v' {
        proof {
            assert(last_seq[0] == token@[last_lo as int]);
            assert(last_seq.skip(1) =~= token@.subrange(last_lo + 1, token@.len() as int));
        }
        parse_u64_range(&token, last_lo + 1, token.len())
    } else {
        proof {
            if last_lo < token@.len() {
                assert(last_seq[0] == token@[last_lo as int]);
            }
        }
        None
    };
    proof {
        assert(existing == v_suffix_val(last_seq));
    }
    match existing {
        Some(found) if found == major => Ok(go_mod),
        Some(_) => {
            let mut out = subrange_chars(&v, 0, m);
            let mut kw = module_kw_chars();
            out.append(&mut kw);
            let mut prefix = subrange_chars(&token, 0, last_lo);
            proof {
                match find_last_spec(token@, '/') {
                    Some(k) => {
                        assert(prefix@ =~= token@.take(k + 1));
                    },
                    None => {
                        assert(prefix@ =~= Seq::<char>::empty());
                    },
                }
            }
            out.append(&mut prefix);
            out.push('v');
            let mut digits = format_u64(major);
            out.append(&mut digits);
            let mut rest = subrange_chars(&v, le, n);
            proof {
                assert(rest@ =~= v@.skip(le as int));
            }
            out.append(&mut rest);
            proof {
                assert(out@ =~= v@.take(m as int) + module_kw() + (match find_last_spec(
                    token@,
                    '/',
                ) {
                    Some(k) => token@.take(k + 1),
                    None => Seq::<char>::empty(),
                }) + seq!['v'] + dec_rep(major as nat) + v@.skip(le as int));
            }
            Ok(string_from_chars(&out))
        },
        None => {
            let mut out = subrange_chars(&v, 0, m);
            let mut kw = module_kw_chars();
            out.append(&mut kw);
            let mut tok = subrange_chars(&token, 0, token.len());
            proof {
                assert(tok@ =~= token@);
            }
            out.append(&mut tok);
            out.push('/');
            out.push('v');
            let mut digits = format_u64(major);
            out.append(&mut digits);
            let mut rest = subrange_chars(&v, le, n);
            proof {
                assert(rest@ =~= v@.skip(le as int));
            }
            out.append(&mut rest);
            proof {
                assert(out@ =~= v@.take(m as int) + module_kw() + token@ + seq!['/', 'v'] + dec_rep(
                    major as nat,
                ) + v@.skip(le as int));
            }
            Ok(string_from_chars(&out))
        },
    }
}

/// The characters of the module keyword.
fn module_kw_chars() -> (r: Vec<char>)
    ensures
        r@ == module_kw(),
{
    let mut v: Vec<char> = Vec::new();
    v.push('m');
    v.push('o');
    v.push('d');
    v.push('u');
    v.push('l');
    v.push('e');
    v.push(' ');
    proof {
        assert(v@ =~= module_kw());
    }
    v
}

} // verus!
