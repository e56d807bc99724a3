//! Secrets: the dotenv-style envfile format, its permission rule, and what
//! is made of a keychain answer.

use vstd::prelude::*;

use crate::env_map::EnvMap;
use crate::error::{Failure, SiloError};
use crate::text::{
    chars_of, find_char, first_pos, has_prefix, line_bounds, lines, push_char, range_starts_with,
    string_of_range, trim, trim_bounds, trim_str, views,
};

verus! {

/// `s` with the escapes `\n`, `\t`, `\\` and `\"` replaced by what they stand
/// for; any other backslash is kept with the character after it, and a
/// final lone backslash is kept.
pub open spec fn unescape(s: Seq<char>) -> Seq<char>
    decreases s.len(),
{
    if s.len() == 0 {
        Seq::empty()
    } else if s[0] == '\\' {
        if s.len() == 1 {
            seq!['\\']
        } else {
            let c = s[1];
            let out = if c == 'n' {
                seq!['\n']
            } else if c == 't' {
                seq!['\t']
            } else if c == '\\' {
                seq!['\\']
            } else if c == '"' {
                seq!['"']
            } else {
                seq!['\\', c]
            };
            out + unescape(s.skip(2))
        }
    } else {
        seq![s[0]] + unescape(s.skip(1))
    }
}

/// The value of an envfile entry: between double quotes it is unescaped,
/// between single quotes it is taken as written, otherwise as it stands.
pub open spec fn envfile_value(v: Seq<char>) -> Seq<char> {
    if v.len() >= 2 && v[0] == '"' && v.last() == '"' {
        unescape(v.subrange(1, v.len() - 1))
    } else if v.len() >= 2 && v[0] == '\'' && v.last() == '\'' {
        v.subrange(1, v.len() - 1)
    } else {
        v
    }
}

/// What one line of an envfile says.
pub enum EnvfileLine {
    /// Blank or a comment.
    Skip,
    /// Not of the form `KEY=value`.
    Invalid,
    /// A variable and its value.
    Entry(Seq<char>, Seq<char>),
}

/// `t` without a leading `export `.
pub open spec fn strip_export(t: Seq<char>) -> Seq<char> {
    if has_prefix(t, "export "@) {
        t.skip("export "@.len() as int)
    } else {
        t
    }
}

/// Reads one envfile line: blank lines and lines starting with `#` are
/// skipped; an optional `export ` prefix is dropped; the rest splits at the
/// first `=` into a trimmed name and a trimmed, unquoted value.
pub open spec fn envfile_line(line: Seq<char>) -> EnvfileLine {
    let t = trim(line);
    if t.len() == 0 || t[0] == '#' {
        EnvfileLine::Skip
    } else {
        let u = strip_export(t);
        let i = first_pos(u, '=');
        if i >= u.len() {
            EnvfileLine::Invalid
        } else {
            EnvfileLine::Entry(trim(u.take(i)), envfile_value(trim(u.skip(i + 1))))
        }
    }
}

/// The variables a sequence of envfile lines defines (a later line wins), or
/// the first line that is not valid.
pub open spec fn envfile_entries(ls: Seq<Seq<char>>) -> Result<
    Map<Seq<char>, Seq<char>>,
    Seq<char>,
>
    decreases ls.len(),
{
    if ls.len() == 0 {
        Ok(Map::empty())
    } else {
        match envfile_entries(ls.drop_last()) {
            Err(line) => Err(line),
            Ok(m) => match envfile_line(ls.last()) {
                EnvfileLine::Skip => Ok(m),
                EnvfileLine::Invalid => Err(ls.last()),
                EnvfileLine::Entry(k, v) => Ok(m.insert(k, v)),
            },
        }
    }
}

/// The variables an envfile defines, or its first invalid line.
pub open spec fn parse_envfile_spec(raw: Seq<char>) -> Result<Map<Seq<char>, Seq<char>>, Seq<char>> {
    envfile_entries(lines(raw))
}

/// The first of `items` that `m` lacks.
pub open spec fn first_missing(items: Seq<Seq<char>>, m: Map<Seq<char>, Seq<char>>) -> Option<
    Seq<char>,
>
    decreases items.len(),
{
    if items.len() == 0 {
        None
    } else if !m.contains_key(items[0]) {
        Some(items[0])
    } else {
        first_missing(items.drop_first(), m)
    }
}

/// `m` cut down to the names in `items`.
pub open spec fn select(items: Seq<Seq<char>>, m: Map<Seq<char>, Seq<char>>) -> Map<
    Seq<char>,
    Seq<char>,
> {
    Map::new(|k: Seq<char>| items.contains(k), |k: Seq<char>| m[k])
}

/// Whether permission bits give group or others any access.
pub open spec fn too_open(mode: u32) -> bool {
    mode & 0o077u32 != 0
}

/// The keychain's answer without one trailing `"\n"` or `"\r\n"`.
pub open spec fn strip_newline(s: Seq<char>) -> Seq<char> {
    if s.len() > 0 && s.last() == '\n' {
        let t = s.drop_last();
        if t.len() > 0 && t.last() == '\r' {
            t.drop_last()
        } else {
            t
        }
    } else {
        s
    }
}

proof fn lemma_envfile_entries_err_extends(ls: Seq<Seq<char>>, k: int, line: Seq<char>)
    requires
        0 <= k <= ls.len(),
        envfile_entries(ls.take(k)) == Err::<Map<Seq<char>, Seq<char>>, Seq<char>>(line),
    ensures
        envfile_entries(ls) == Err::<Map<Seq<char>, Seq<char>>, Seq<char>>(line),
    decreases ls.len() - k,
{
    if k < ls.len() {
        assert(ls.take(k + 1).drop_last() =~= ls.take(k));
        lemma_envfile_entries_err_extends(ls, k + 1, line);
    } else {
        assert(ls.take(k) =~= ls);
    }
}

/// Whether the envfile's permissions are strict enough: no access for group
/// or others.
pub fn check_file_permissions(path: &str, mode: u32) -> (r: Result<(), SiloError>)
    ensures
        r is Ok <==> !too_open(mode),
        r matches Err(e) ==> e@ == (Failure::EnvfilePermissions { path: path@, mode }),
{
    if mode & 0o077u32 != 0 {
        Err(SiloError::EnvfilePermissions { path: path.to_owned(), mode })
    } else {
        Ok(())
    }
}

/// Replaces the escapes of a double-quoted value (see `unescape`).
pub fn unescape_double_quoted(s: &str) -> (out: String)
    ensures
        out@ == unescape(s@),
{
    let v = chars_of(s);
    let n = v.len();
    let mut out = String::new();
    let mut i: usize = 0;
    assert(v@.skip(0) =~= v@);
    while i < n
        invariant
            n == v.len(),
            v@ == s@,
            0 <= i <= n,
            out@ + unescape(v@.skip(i as int)) == unescape(v@),
        decreases n - i,
    {
        let ghost rest = v@.skip(i as int);
        let ghost before = out@;
        let c = v[i];
        assert(rest[0] == c);
        if c == '\\' {
            if i + 1 < n {
                let d = v[i + 1];
                assert(rest[1] == d);
                assert(rest.skip(2) =~= v@.skip(i + 2));
                if d == 'n' {
                    push_char(&mut out, '\n');
                } else if d == 't' {
                    push_char(&mut out, '\t');
                } else if d == '\\' {
                    push_char(&mut out, '\\');
                } else if d == '"' {
                    push_char(&mut out, '"');
                } else {
                    push_char(&mut out, '\\');
                    push_char(&mut out, d);
                    assert(out@ =~= before + seq!['\\', d]);
                }
                assert(out@ + unescape(v@.skip(i + 2)) =~= before + unescape(rest));
                i = i + 2;
            } else {
                push_char(&mut out, '\\');
                assert(v@.skip(i + 1) =~= Seq::<char>::empty());
                assert(out@ + unescape(v@.skip(i + 1)) =~= before + unescape(rest));
                i = i + 1;
            }
        } else {
            push_char(&mut out, c);
            assert(rest.skip(1) =~= v@.skip(i + 1));
            assert(out@ + unescape(v@.skip(i + 1)) =~= before + unescape(rest));
            i = i + 1;
        }
    }
    assert(v@.skip(n as int) =~= Seq::<char>::empty());
    assert(out@ + unescape(v@.skip(n as int)) =~= out@);
    out
}

/// The value of an envfile entry (see `envfile_value`).
pub fn parse_envfile_value(value: &str) -> (out: String)
    ensures
        out@ == envfile_value(value@),
{
    let v = chars_of(value);
    let n = v.len();
    if n >= 2 && v[0] == '"' && v[n - 1] == '"' {
        let inner = string_of_range(&v, 1, n - 1);
        unescape_double_quoted(inner.as_str())
    } else if n >= 2 && v[0] == '\'' && v[n - 1] == '\'' {
        string_of_range(&v, 1, n - 1)
    } else {
        value.to_owned()
    }
}

/// Reads the entries of an envfile (see `parse_envfile_spec`); the error
/// names the first line that is not valid.
pub fn parse_envfile(raw: &str) -> (r: Result<EnvMap, SiloError>)
    ensures
        match r {
            Ok(m) => parse_envfile_spec(raw@) == Ok::<Map<Seq<char>, Seq<char>>, Seq<char>>(m@),
            Err(e) => exists|line: Seq<char>|
                parse_envfile_spec(raw@) == Err::<Map<Seq<char>, Seq<char>>, Seq<char>>(line)
                    && e@ == (Failure::InvalidEnvfileLine { line }),
        },
{
    let v = chars_of(raw);
    let bounds = line_bounds(&v);
    let ghost ls = lines(v@);
    let mut parsed = EnvMap::new();
    let mut k: usize = 0;
    proof {
        reveal_strlit("export ");
        assert(ls.take(0) =~= Seq::<Seq<char>>::empty());
    }
    while k < bounds.len()
        invariant
            0 <= k <= bounds.len(),
            v@ == raw@,
            ls == lines(v@),
            bounds.len() == ls.len(),
            forall|j: int|
                #![trigger bounds@[j]]
                0 <= j < bounds.len() ==> {
                    &&& bounds@[j].0 <= bounds@[j].1 <= v.len()
                    &&& v@.subrange(bounds@[j].0 as int, bounds@[j].1 as int) == ls[j]
                },
            envfile_entries(ls.take(k as int)) == Ok::<Map<Seq<char>, Seq<char>>, Seq<char>>(
                parsed@,
            ),
            "export "@.len() == 7,
        decreases bounds.len() - k,
    {
        let (a, b) = bounds[k];
        let ghost line = ls[k as int];
        assert(v@.subrange(a as int, b as int) == line);
        assert(ls.take(k + 1).drop_last() =~= ls.take(k as int));
        assert(ls.take(k + 1).last() == line);
        let (t0, t1) = trim_bounds(&v, a, b);
        let ghost t = trim(line);
        assert(v@.subrange(t0 as int, t1 as int) == t);
        if t0 == t1 || v[t0] == '#' {
            assert(t0 < t1 ==> t[0] == v@[t0 as int]);
            k = k + 1;
            continue;
        }
        assert(t[0] == v@[t0 as int]);
        let mut u0 = t0;
        if range_starts_with(&v, t0, t1, "export ") {
            u0 = t0 + 7;
            assert(v@.subrange(u0 as int, t1 as int) =~= t.skip(7));
        }
        let ghost u = strip_export(t);
        assert(v@.subrange(u0 as int, t1 as int) == u);
        let i = find_char(&v, u0, t1, '=');
        if i == t1 - u0 {
            let bad = string_of_range(&v, a, b);
            proof {
                assert(envfile_entries(ls.take(k + 1)) == Err::<Map<Seq<char>, Seq<char>>, Seq<char>>(line));
                lemma_envfile_entries_err_extends(ls, k + 1, line);
            }
            return Err(SiloError::InvalidEnvfileLine { line: bad });
        }
        let (k0, k1) = trim_bounds(&v, u0, u0 + i);
        assert(v@.subrange(u0 as int, u0 + i) =~= u.take(i as int));
        let (w0, w1) = trim_bounds(&v, u0 + i + 1, t1);
        assert(v@.subrange(u0 + i + 1, t1 as int) =~= u.skip(i + 1));
        let key = string_of_range(&v, k0, k1);
        let raw_value = string_of_range(&v, w0, w1);
        let value = parse_envfile_value(raw_value.as_str());
        parsed.insert(key, value);
        k = k + 1;
    }
    proof {
        assert(ls.take(bounds.len() as int) =~= ls);
    }
    Ok(parsed)
}

/// The requested secrets from an envfile's text: the file's permissions
/// (`mode`) must give group and others no access, every line must be valid,
/// and every item must be defined; the result holds exactly the items.
#[verifier::loop_isolation(false)]
pub fn resolve_from_envfile(path: &str, mode: u32, raw: &str, items: &Vec<String>) -> (r: Result<
    EnvMap,
    SiloError,
>)
    ensures
        too_open(mode) ==> (r matches Err(e) && e@ == (Failure::EnvfilePermissions {
            path: path@,
            mode,
        })),
        !too_open(mode) ==> match parse_envfile_spec(raw@) {
            Err(line) => r matches Err(e) && e@ == (Failure::InvalidEnvfileLine { line }),
            Ok(parsed) => match first_missing(views(items@), parsed) {
                Some(item) => r matches Err(e) && e@ == (Failure::MissingSecret { item }),
                None => r matches Ok(m) && m@ == select(views(items@), parsed),
            },
        },
{
    check_file_permissions(path, mode)?;
    let parsed = match parse_envfile(raw) {
        Ok(m) => m,
        Err(e) => {
            return Err(e);
        },
    };
    let ghost pm = parsed@;
    let ghost iv = views(items@);
    let mut selected = EnvMap::new();
    let mut j: usize = 0;
    assert(iv.skip(0) =~= iv);
    while j < items.len()
        invariant
            0 <= j <= items.len(),
            pm == parsed@,
            iv == views(items@),
            first_missing(iv, pm) == first_missing(iv.skip(j as int), pm),
            selected@ == select(iv.take(j as int), pm),
        decreases items.len() - j,
    {
        let item = items[j].as_str();
        assert(iv.skip(j as int)[0] == item@);
        match parsed.get(item) {
            None => {
                return Err(SiloError::MissingSecret { item: items[j].clone() });
            },
            Some(value) => {
                let ghost before = selected@;
                selected.insert(items[j].clone(), value.clone());
                assert(iv.skip(j as int).drop_first() =~= iv.skip(j + 1));
                assert(iv.take(j + 1) =~= iv.take(j as int).push(item@));
                assert forall|k: Seq<char>| #[trigger] iv.take(j + 1).contains(k) <==> (iv.take(
                    j as int,
                ).contains(k) || k == item@) by {
                    if iv.take(j + 1).contains(k) {
                        let x = choose|x: int| 0 <= x < j + 1 && #[trigger] iv.take(j + 1)[x] == k;
                        if x < j {
                            assert(iv.take(j as int)[x] == k);
                        }
                    }
                    if iv.take(j as int).contains(k) {
                        let x = choose|x: int| 0 <= x < j && #[trigger] iv.take(j as int)[x] == k;
                        assert(iv.take(j + 1)[x] == k);
                    }
                    if k == item@ {
                        assert(iv.take(j + 1)[j as int] == k);
                    }
                }
                assert(selected@ =~= select(iv.take(j + 1), pm));
            },
        }
        j = j + 1;
    }
    assert(iv.skip(j as int) =~= Seq::<Seq<char>>::empty());
    assert(iv.take(j as int) =~= iv);
    Ok(selected)
}

/// What is made of the keychain's answer for one item: a failed lookup is an
/// error that quotes what the keychain printed (trimmed); an answer that is
/// not UTF-8 is an error with the decoder's description; otherwise the
/// answer without its final newline.
pub fn keychain_secret(
    service: &str,
    item: &str,
    success: bool,
    stdout: Result<String, String>,
    stderr: &str,
) -> (r: Result<String, SiloError>)
    ensures
        !success ==> (r matches Err(e) && e@ == (Failure::KeychainRead {
            item: item@,
            service: service@,
            stderr: trim(stderr@),
        })),
        success ==> match stdout {
            Err(detail) => r matches Err(e) && e@ == (Failure::KeychainOutput { detail: detail@ }),
            Ok(out) => r matches Ok(v) && v@ == strip_newline(out@),
        },
{
    if !success {
        return Err(
            SiloError::KeychainRead {
                item: item.to_owned(),
                service: service.to_owned(),
                stderr: trim_str(stderr),
            },
        );
    }
    match stdout {
        Err(detail) => Err(SiloError::KeychainOutput { detail }),
        Ok(out) => {
            let v = chars_of(out.as_str());
            let mut n = v.len();
            if n > 0 && v[n - 1] == '\n' {
                n = n - 1;
                if n > 0 && v[n - 1] == '\r' {
                    n = n - 1;
                }
            }
            let s = string_of_range(&v, 0, n);
            proof {
                let w = v@;
                if w.len() > 0 && w.last() == '\n' {
                    let t = w.drop_last();
                    if t.len() > 0 && t.last() == '\r' {
                        assert(w.subrange(0, n as int) =~= t.drop_last());
                    } else {
                        assert(w.subrange(0, n as int) =~= t);
                    }
                } else {
                    assert(w.subrange(0, n as int) =~= w);
                }
            }
            Ok(s)
        },
    }
}

/// Only the requested secrets are injected: the selection holds exactly the
/// listed items, each with the envfile's value.
pub proof fn law_only_requested_secrets(items: Seq<Seq<char>>, parsed: Map<Seq<char>, Seq<char>>)
    requires
        first_missing(items, parsed) is None,
    ensures
        forall|k: Seq<char>| #[trigger] select(items, parsed).contains_key(k) <==> items.contains(k),
        forall|k: Seq<char>| items.contains(k) ==> #[trigger] select(items, parsed)[k] == parsed[k],
{
}

/// A requested secret that the envfile lacks is reported, not skipped.
pub proof fn law_missing_secret_is_reported(items: Seq<Seq<char>>, parsed: Map<Seq<char>, Seq<char>>)
    requires
        exists|i: int| 0 <= i < items.len() && !parsed.contains_key(#[trigger] items[i]),
    ensures
        first_missing(items, parsed) is Some,
        !parsed.contains_key(first_missing(items, parsed)->0),
        items.contains(first_missing(items, parsed)->0),
    decreases items.len(),
{
    if parsed.contains_key(items[0]) {
        let i = choose|i: int| 0 <= i < items.len() && !parsed.contains_key(#[trigger] items[i]);
        assert(items.drop_first()[i - 1] == items[i]);
        law_missing_secret_is_reported(items.drop_first(), parsed);
        let x = first_missing(items, parsed)->0;
        let j = choose|j: int| 0 <= j < items.drop_first().len() && items.drop_first()[j] == x;
        assert(items[j + 1] == x);
    } else {
        assert(items[0] == first_missing(items, parsed)->0);
    }
}

} // verus!
