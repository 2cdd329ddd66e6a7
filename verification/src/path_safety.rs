//! Lexical validation of local paths and decisions over filesystem identities.
//!
//! Validation is lexical only: it never touches the filesystem. Identity records
//! compare identifiers; they do not prove continuity between processes.
use vstd::prelude::*;

pub use crate::error::PathError;
use crate::error::AppError;
use crate::text::{chars_of, owned, string_from_chars, str_equal};

verus! {

/// The error text for a path that is not a local absolute path.
pub open spec fn local_reason() -> Seq<char> {
    "expected a local absolute path without parent traversal"@
}

/// Progress of a left-to-right scan over path components.
pub struct Scan {
    pub names: Seq<Seq<char>>,
    pub cur: Seq<char>,
    pub bad: bool,
}

pub open spec fn is_sep(c: char, windows: bool, verbatim: bool) -> bool {
    c == '\\' && windows || c == '/' && !verbatim
}

/// A Windows component naming an alternate data stream.
pub open spec fn windows_bad_name(n: Seq<char>) -> bool {
    exists|i: int| 0 <= i < n.len() && n[i] == ':'
}

/// Ends the current component: empty and `.` components vanish, `..` is refused,
/// other names are kept (on Windows, names with `:` are refused).
pub open spec fn finish(st: Scan, windows: bool) -> Scan {
    if st.bad {
        st
    } else if st.cur.len() == 0 || st.cur == seq!['.'] {
        Scan { names: st.names, cur: Seq::empty(), bad: false }
    } else if st.cur == seq!['.', '.'] || (windows && windows_bad_name(st.cur)) {
        Scan { names: st.names, cur: Seq::empty(), bad: true }
    } else {
        Scan { names: st.names.push(st.cur), cur: Seq::empty(), bad: false }
    }
}

pub open spec fn scan(s: Seq<char>, windows: bool, verbatim: bool) -> Scan
    decreases s.len(),
{
    if s.len() == 0 {
        Scan { names: Seq::empty(), cur: Seq::empty(), bad: false }
    } else {
        let st = scan(s.drop_last(), windows, verbatim);
        if is_sep(s.last(), windows, verbatim) {
            finish(st, windows)
        } else {
            Scan { names: st.names, cur: st.cur.push(s.last()), bad: st.bad }
        }
    }
}

/// The components of `s` once the scan is finished.
pub open spec fn components(s: Seq<char>, windows: bool, verbatim: bool) -> Scan {
    finish(scan(s, windows, verbatim), windows)
}

/// `names` joined, each preceded by nothing for the first and `sep` after it.
pub open spec fn join(names: Seq<Seq<char>>, sep: char) -> Seq<char>
    decreases names.len(),
{
    if names.len() == 0 {
        Seq::empty()
    } else if names.len() == 1 {
        names[0]
    } else {
        join(names.drop_last(), sep) + seq![sep] + names.last()
    }
}

pub open spec fn has_nul(s: Seq<char>) -> bool {
    exists|i: int| 0 <= i < s.len() && s[i] == '\0'
}

/// The component names of a Unix local path, `None` when it is refused: it must be
/// absolute, not start with `//`, hold no NUL and no `..` component.
pub open spec fn unix_names(s: Seq<char>) -> Option<Seq<Seq<char>>> {
    if s.len() == 0 || s[0] != '/' || (s.len() >= 2 && s[1] == '/') || has_nul(s) {
        None
    } else {
        let c = components(s, false, false);
        if c.bad {
            None
        } else {
            Some(c.names)
        }
    }
}

/// The normalized form of a Unix local path, `None` when it is refused.
pub open spec fn spec_local_path(s: Seq<char>) -> Option<Seq<char>> {
    match unix_names(s) {
        Some(names) => Some(seq!['/'] + join(names, '/')),
        None => None,
    }
}

/// Scans `v` (from index `from`) into components.
fn scan_exec(v: &[char], from: usize, windows: bool, verbatim: bool) -> (r: (Vec<Vec<char>>, bool))
    requires
        from <= v@.len(),
    ensures
        ({
            let c = components(v@.subrange(from as int, v@.len() as int), windows, verbatim);
            r.1 == c.bad && (!c.bad ==> r.0@.map_values(|x: Vec<char>| x@) == c.names)
        }),
{
    let ghost s = v@.subrange(from as int, v@.len() as int);
    let mut names: Vec<Vec<char>> = Vec::new();
    let mut cur: Vec<char> = Vec::new();
    let mut bad = false;
    let mut i = from;
    assert(s.take(0) =~= Seq::<char>::empty());
    while i < v.len()
        invariant
            from <= i <= v@.len(),
            s == v@.subrange(from as int, v@.len() as int),
            ({
                let st = scan(s.take(i - from), windows, verbatim);
                bad == st.bad && (!bad ==> names@.map_values(|x: Vec<char>| x@) == st.names
                    && cur@ == st.cur)
            }),
        decreases v@.len() - i,
    {
        let c = v[i];
        proof {
            assert(s.take(i + 1 - from).drop_last() =~= s.take(i - from));
            assert(s.take(i + 1 - from).last() == c);
        }
        let sep = (c == '\\' && windows) || (c == '/' && !verbatim);
        if sep {
            if !bad {
                let (nb, nn) = finish_exec(&mut names, cur, windows);
                bad = nb;
                cur = nn;
            }
        } else {
            if !bad {
                cur.push(c);
            }
        }
        i = i + 1;
    }
    proof {
        assert(s.take(v@.len() - from) =~= s);
    }
    if !bad {
        let (nb, _nn) = finish_exec(&mut names, cur, windows);
        bad = nb;
    }
    (names, bad)
}

fn name_is_windows_bad(n: &Vec<char>) -> (r: bool)
    ensures
        r == windows_bad_name(n@),
{
    let mut i: usize = 0;
    while i < n.len()
        invariant
            i <= n@.len(),
            forall|k: int| 0 <= k < i ==> n@[k] != ':',
        decreases n@.len() - i,
    {
        if n[i] == ':' {
            return true;
        }
        i = i + 1;
    }
    false
}

/// Ends the current component, pushing it when kept; returns the new `bad` flag and
/// the emptied current component.
fn finish_exec(names: &mut Vec<Vec<char>>, cur: Vec<char>, windows: bool) -> (r: (bool, Vec<char>))
    ensures
        ({
            let st = finish(
                Scan { names: old(names)@.map_values(|x: Vec<char>| x@), cur: cur@, bad: false },
                windows,
            );
            r.0 == st.bad && r.1@ == Seq::<char>::empty() && (!st.bad ==> final(names)@.map_values(
                |x: Vec<char>| x@,
            ) == st.names)
        }),
{
    let ghost before = names@.map_values(|x: Vec<char>| x@);
    if cur.len() == 0 || (cur.len() == 1 && cur[0] == '.') {
        proof {
            if cur@.len() == 1 {
                assert(cur@ =~= seq!['.']);
            }
        }
        return (false, Vec::new());
    }
    proof {
        if cur@ == seq!['.'] {
            assert(cur@[0] == '.');
        }
    }
    if cur.len() == 2 && cur[0] == '.' && cur[1] == '.' {
        assert(cur@ =~= seq!['.', '.']);
        return (true, Vec::new());
    }
    proof {
        if cur@ == seq!['.', '.'] {
            assert(cur@[0] == '.' && cur@[1] == '.');
        }
    }
    if windows && name_is_windows_bad(&cur) {
        return (true, Vec::new());
    }
    names.push(cur);
    proof {
        assert(names@.map_values(|x: Vec<char>| x@) =~= before.push(cur@));
    }
    (false, Vec::new())
}

fn push_chars(out: &mut Vec<char>, s: &Vec<char>)
    ensures
        final(out)@ == old(out)@ + s@,
{
    let ghost start = out@;
    let mut i: usize = 0;
    while i < s.len()
        invariant
            i <= s@.len(),
            out@ == start + s@.take(i as int),
        decreases s@.len() - i,
    {
        out.push(s[i]);
        proof {
            assert(s@.take(i + 1) =~= s@.take(i as int).push(s@[i as int]));
        }
        i = i + 1;
    }
    assert(s@.take(s@.len() as int) =~= s@);
}

/// Appends `names` joined by `sep`.
pub(crate) fn push_join(out: &mut Vec<char>, names: &Vec<Vec<char>>, sep: char)
    ensures
        final(out)@ == old(out)@ + join(names@.map_values(|x: Vec<char>| x@), sep),
{
    let ghost start = out@;
    let ghost all = names@.map_values(|x: Vec<char>| x@);
    let mut i: usize = 0;
    assert(all.take(0) =~= Seq::<Seq<char>>::empty());
    while i < names.len()
        invariant
            i <= names@.len(),
            all == names@.map_values(|x: Vec<char>| x@),
            out@ == start + join(all.take(i as int), sep),
        decreases names@.len() - i,
    {
        proof {
            assert(all.take(i + 1).drop_last() =~= all.take(i as int));
            assert(all.take(i + 1).last() == names@[i as int]@);
        }
        if i > 0 {
            out.push(sep);
        }
        push_chars(out, &names[i]);
        proof {
            if i == 0 {
                assert(all.take(1).len() == 1);
                assert(out@ =~= start + join(all.take(1), sep));
            } else {
                assert(out@ =~= start + join(all.take(i + 1), sep));
            }
        }
        i = i + 1;
    }
    assert(all.take(names@.len() as int) =~= all);
}

fn has_nul_exec(v: &[char]) -> (r: bool)
    ensures
        r == has_nul(v@),
{
    let mut i: usize = 0;
    while i < v.len()
        invariant
            i <= v@.len(),
            forall|k: int| 0 <= k < i ==> v@[k] != '\0',
        decreases v@.len() - i,
    {
        if v[i] == '\0' {
            return true;
        }
        i = i + 1;
    }
    false
}

fn local_error() -> (e: PathError)
    ensures
        e matches PathError::PathIdentity(r) && r@ == local_reason(),
{
    PathError::PathIdentity(owned("expected a local absolute path without parent traversal"))
}

fn unix_names_exec(path: &str) -> (r: Option<Vec<Vec<char>>>)
    ensures
        match unix_names(path@) {
            Some(n) => r matches Some(v) && v@.map_values(|x: Vec<char>| x@) == n,
            None => r is None,
        },
{
    let v = chars_of(path);
    if v.len() == 0 || v[0] != '/' || (v.len() >= 2 && v[1] == '/') || has_nul_exec(v.as_slice()) {
        return None;
    }
    let (names, bad) = scan_exec(v.as_slice(), 0, false, false);
    assert(v@.subrange(0, v@.len() as int) =~= v@);
    if bad {
        None
    } else {
        Some(names)
    }
}

/// Lexical validation of a Unix local path. Never consults the filesystem.
pub fn local_path(path: &str) -> (r: Result<String, PathError>)
    ensures
        match spec_local_path(path@) {
            Some(p) => r matches Ok(t) && t@ == p,
            None => r matches Err(PathError::PathIdentity(reason)) && reason@ == local_reason(),
        },
{
    match unix_names_exec(path) {
        None => Err(local_error()),
        Some(names) => {
            let mut out: Vec<char> = Vec::new();
            out.push('/');
            push_join(&mut out, &names, '/');
            Ok(string_from_chars(out.as_slice()))
        },
    }
}

pub open spec fn is_letter(c: char) -> bool {
    ('a' <= c && c <= 'z') || ('A' <= c && c <= 'Z')
}

pub open spec fn upper(c: char) -> char {
    if 'a' <= c && c <= 'z' {
        ((c as u32) - 32) as char
    } else {
        c
    }
}

/// The drive letter and component names of a Windows local path, `None` when it is
/// refused. Only a drive path (`C:\…`) or a verbatim drive path (`\\?\C:\…`) is
/// local; UNC, device and relative paths are refused, as are `..` and alternate data
/// streams.
pub open spec fn windows_parts(s: Seq<char>) -> Option<(char, Seq<Seq<char>>)> {
    if s.len() == 0 || (s.len() >= 2 && s[0] == '/' && s[1] == '/') || has_nul(s) {
        None
    } else {
        let verbatim = s.len() >= 7 && s[0] == '\\' && s[1] == '\\' && s[2] == '?' && s[3] == '\\'
            && is_letter(s[4]) && s[5] == ':' && s[6] == '\\';
        let disk = s.len() >= 3 && is_letter(s[0]) && s[1] == ':' && (s[2] == '\\' || s[2] == '/');
        if !verbatim && !disk {
            None
        } else {
            let drive = if verbatim { s[4] } else { s[0] };
            let start: int = if verbatim { 6 } else { 2 };
            let c = components(s.subrange(start, s.len() as int), true, verbatim);
            if c.bad {
                None
            } else {
                Some((drive, c.names))
            }
        }
    }
}

/// The normalized form of a Windows local path, `None` when it is refused. The drive
/// letter is upper-cased.
pub open spec fn spec_local_path_windows(s: Seq<char>) -> Option<Seq<char>> {
    match windows_parts(s) {
        Some((drive, names)) => Some(seq![upper(drive), ':', '\\'] + join(names, '\\')),
        None => None,
    }
}

fn letter(c: char) -> (b: bool)
    ensures
        b == is_letter(c),
{
    ('a' <= c && c <= 'z') || ('A' <= c && c <= 'Z')
}

fn windows_parts_exec(path: &str) -> (r: Option<(char, Vec<Vec<char>>)>)
    ensures
        match windows_parts(path@) {
            Some((d, n)) => r matches Some((e, v)) && e == d && v@.map_values(|x: Vec<char>| x@)
                == n,
            None => r is None,
        },
{
    let v = chars_of(path);
    if v.len() == 0 || (v.len() >= 2 && v[0] == '/' && v[1] == '/') || has_nul_exec(v.as_slice()) {
        return None;
    }
    let verbatim = v.len() >= 7 && v[0] == '\\' && v[1] == '\\' && v[2] == '?' && v[3] == '\\'
        && letter(v[4]) && v[5] == ':' && v[6] == '\\';
    let disk = v.len() >= 3 && letter(v[0]) && v[1] == ':' && (v[2] == '\\' || v[2] == '/');
    if !verbatim && !disk {
        return None;
    }
    let drive = if verbatim {
        v[4]
    } else {
        v[0]
    };
    let start: usize = if verbatim {
        6
    } else {
        2
    };
    let (names, bad) = scan_exec(v.as_slice(), start, true, verbatim);
    if bad {
        None
    } else {
        Some((drive, names))
    }
}

fn upper_exec(c: char) -> (r: char)
    ensures
        r == upper(c),
{
    if 'a' <= c && c <= 'z' {
        match c {
            'a' => 'A', 'b' => 'B', 'c' => 'C', 'd' => 'D', 'e' => 'E', 'f' => 'F', 'g' => 'G',
            'h' => 'H', 'i' => 'I', 'j' => 'J', 'k' => 'K', 'l' => 'L', 'm' => 'M', 'n' => 'N',
            'o' => 'O', 'p' => 'P', 'q' => 'Q', 'r' => 'R', 's' => 'S', 't' => 'T', 'u' => 'U',
            'v' => 'V', 'w' => 'W', 'x' => 'X', 'y' => 'Y', _ => 'Z',
        }
    } else {
        c
    }
}

/// Lexical validation of a Windows local path. Never consults the filesystem.
pub fn local_path_windows(path: &str) -> (r: Result<String, PathError>)
    ensures
        match spec_local_path_windows(path@) {
            Some(p) => r matches Ok(t) && t@ == p,
            None => r matches Err(PathError::PathIdentity(reason)) && reason@ == local_reason(),
        },
{
    match windows_parts_exec(path) {
        None => Err(local_error()),
        Some((drive, names)) => {
            let mut out: Vec<char> = Vec::new();
            out.push(upper_exec(drive));
            out.push(':');
            out.push('\\');
            push_join(&mut out, &names, '\\');
            Ok(string_from_chars(out.as_slice()))
        },
    }
}

/// Characters a kept Unix component can hold: neither separator nor NUL.
pub open spec fn plain_chars(n: Seq<char>) -> bool {
    forall|j: int| 0 <= j < n.len() ==> n[j] != '/' && n[j] != '\0'
}

/// A component name that a Unix scan keeps unchanged.
pub open spec fn plain_name(n: Seq<char>) -> bool {
    &&& n.len() > 0
    &&& n != seq!['.']
    &&& n != seq!['.', '.']
    &&& plain_chars(n)
}

proof fn lemma_scan_plain(s: Seq<char>)
    requires
        !has_nul(s),
    ensures
        plain_chars(scan(s, false, false).cur),
        forall|i: int|
            0 <= i < scan(s, false, false).names.len() ==> plain_name(
                #[trigger] scan(s, false, false).names[i],
            ),
    decreases s.len(),
{
    if s.len() > 0 {
        let p = s.drop_last();
        assert(!has_nul(p)) by {
            if has_nul(p) {
                let i = choose|i: int| 0 <= i < p.len() && p[i] == '\0';
                assert(s[i] == '\0');
            }
        }
        lemma_scan_plain(p);
        let st = scan(p, false, false);
        assert(s.last() != '\0') by {
            if s.last() == '\0' {
                assert(s[s.len() - 1] == '\0');
            }
        }
        if s.last() != '/' {
            let c = st.cur.push(s.last());
            assert(plain_chars(c)) by {
                assert forall|j: int| 0 <= j < c.len() implies c[j] != '/' && c[j] != '\0' by {
                    if j < st.cur.len() {
                        assert(c[j] == st.cur[j]);
                    }
                }
            }
        }
    }
}

proof fn lemma_components_plain(s: Seq<char>)
    requires
        !has_nul(s),
        !components(s, false, false).bad,
    ensures
        forall|i: int|
            0 <= i < components(s, false, false).names.len() ==> plain_name(
                #[trigger] components(s, false, false).names[i],
            ),
{
    lemma_scan_plain(s);
}

proof fn lemma_append_plain(s: Seq<char>, t: Seq<char>)
    requires
        plain_chars(t),
    ensures
        scan(s + t, false, false) == (Scan {
            names: scan(s, false, false).names,
            cur: scan(s, false, false).cur + t,
            bad: scan(s, false, false).bad,
        }),
    decreases t.len(),
{
    if t.len() == 0 {
        assert(s + t =~= s);
        assert(scan(s, false, false).cur + t =~= scan(s, false, false).cur);
    } else {
        let u = t.drop_last();
        assert(plain_chars(u)) by {
            assert forall|j: int| 0 <= j < u.len() implies u[j] != '/' && u[j] != '\0' by {
                assert(u[j] == t[j]);
            }
        }
        lemma_append_plain(s, u);
        assert((s + t).drop_last() =~= s + u);
        assert((s + t).last() == t.last());
        assert(t.last() != '/') by {
            assert(t[t.len() - 1] != '/');
        }
        assert((scan(s, false, false).cur + u).push(t.last()) =~= scan(s, false, false).cur + t);
    }
}

proof fn lemma_scan_root()
    ensures
        scan(seq!['/'], false, false) == (Scan {
            names: Seq::<Seq<char>>::empty(),
            cur: Seq::<char>::empty(),
            bad: false,
        }),
{
    let root: Seq<char> = seq!['/'];
    let e = Seq::<char>::empty();
    assert(root.drop_last() =~= e);
    assert(root.last() == '/');
    assert(scan(e, false, false) == (Scan {
        names: Seq::<Seq<char>>::empty(),
        cur: Seq::<char>::empty(),
        bad: false,
    }));
    assert(scan(root, false, false) == finish(scan(e, false, false), false));
}

proof fn lemma_join_scan(names: Seq<Seq<char>>, k: int)
    requires
        1 <= k <= names.len(),
        forall|i: int| 0 <= i < names.len() ==> plain_name(#[trigger] names[i]),
    ensures
        scan(seq!['/'] + join(names.take(k), '/'), false, false) == (Scan {
            names: names.take(k - 1),
            cur: names[k - 1],
            bad: false,
        }),
    decreases k,
{
    let root: Seq<char> = seq!['/'];
    lemma_scan_root();
    assert(plain_name(names[k - 1]));
    if k == 1 {
        assert(names.take(1).len() == 1);
        assert(join(names.take(1), '/') == names.take(1)[0]);
        lemma_append_plain(root, names[0]);
        assert(Seq::<char>::empty() + names[0] =~= names[0]);
        assert(names.take(0) =~= Seq::<Seq<char>>::empty());
    } else {
        lemma_join_scan(names, k - 1);
        let prev = root + join(names.take(k - 1), '/');
        assert(names.take(k).drop_last() =~= names.take(k - 1));
        assert(names.take(k).last() == names[k - 1]);
        assert(join(names.take(k), '/') == join(names.take(k - 1), '/') + seq!['/'] + names[k - 1]);
        let with_sep = prev.push('/');
        assert(root + join(names.take(k), '/') =~= with_sep + names[k - 1]);
        assert(with_sep.drop_last() =~= prev);
        assert(scan(with_sep, false, false) == finish(scan(prev, false, false), false));
        assert(plain_name(names[k - 2]));
        assert(names.take(k - 2).push(names[k - 2]) =~= names.take(k - 1));
        lemma_append_plain(with_sep, names[k - 1]);
        assert(Seq::<char>::empty() + names[k - 1] =~= names[k - 1]);
    }
}

proof fn lemma_join_chars(names: Seq<Seq<char>>)
    requires
        names.len() > 0,
        forall|i: int| 0 <= i < names.len() ==> plain_name(#[trigger] names[i]),
    ensures
        !has_nul(join(names, '/')),
        join(names, '/').len() >= names[0].len(),
        forall|j: int| 0 <= j < names[0].len() ==> join(names, '/')[j] == names[0][j],
    decreases names.len(),
{
    assert(plain_name(names[0]));
    if names.len() > 1 {
        let d = names.drop_last();
        assert(forall|i: int| 0 <= i < d.len() ==> plain_name(#[trigger] d[i]) ) by {
            assert forall|i: int| 0 <= i < d.len() implies plain_name(#[trigger] d[i]) by {
                assert(d[i] == names[i]);
            }
        }
        lemma_join_chars(d);
        let l = names.last();
        assert(plain_name(names[names.len() - 1]));
        let j = join(names, '/');
        assert(j == join(d, '/') + seq!['/'] + l);
        assert(!has_nul(j)) by {
            if has_nul(j) {
                let i = choose|i: int| 0 <= i < j.len() && j[i] == '\0';
                let a = join(d, '/');
                if i < a.len() {
                    assert(j[i] == a[i]);
                    assert(has_nul(a));
                } else if i > a.len() {
                    assert(j[i] == l[i - a.len() - 1]);
                }
            }
        }
    } else {
        assert(!has_nul(names[0])) by {
            if has_nul(names[0]) {
                let i = choose|i: int| 0 <= i < names[0].len() && names[0][i] == '\0';
            }
        }
    }
}

/// A local path that passed validation is already in normal form: validating it
/// again accepts it with the same components, so the result is unchanged.
pub proof fn law_local_path_idempotent(s: Seq<char>)
    requires
        spec_local_path(s) is Some,
    ensures
        unix_names(spec_local_path(s).unwrap()) == unix_names(s),
        spec_local_path(spec_local_path(s).unwrap()) == spec_local_path(s),
{
    let names = unix_names(s).unwrap();
    lemma_components_plain(s);
    let out = seq!['/'] + join(names, '/');
    assert(spec_local_path(s).unwrap() == out);
    if names.len() == 0 {
        assert(join(names, '/') == Seq::<char>::empty());
        assert(out =~= seq!['/']);
        lemma_scan_root();
        assert(!has_nul(out)) by {
            if has_nul(out) {
                let i = choose|i: int| 0 <= i < out.len() && out[i] == '\0';
            }
        }
        assert(components(out, false, false).names =~= names);
    } else {
        let n = names.len() as int;
        lemma_join_scan(names, n);
        assert(names.take(n) =~= names);
        assert(names.take(n - 1).push(names[n - 1]) =~= names);
        assert(plain_name(names[n - 1]));
        assert(plain_name(names[0]));
        lemma_join_chars(names);
        assert(out[1] == names[0][0]);
        assert(!has_nul(out)) by {
            if has_nul(out) {
                let i = choose|i: int| 0 <= i < out.len() && out[i] == '\0';
                assert(out[i] == join(names, '/')[i - 1]);
            }
        }
    }
}

pub open spec fn database_local_reason() -> Seq<char> {
    "source and destination require local absolute paths without traversal or device/network prefixes"@
}

pub open spec fn database_trailing_reason() -> Seq<char> {
    "Windows database paths must not contain components ending in dots or spaces"@
}

pub open spec fn database_file_reason() -> Seq<char> {
    "database paths must end with an explicit filename, not a separator or dot component"@
}

/// A name that Win32 and SQLite would silently normalize.
pub open spec fn ends_in_dot_or_space(n: Seq<char>) -> bool {
    n.len() > 0 && (n.last() == '.' || n.last() == ' ')
}

/// The component names of a local path on the given platform, `None` when refused.
pub open spec fn platform_names(s: Seq<char>, windows: bool) -> Option<Seq<Seq<char>>> {
    if windows {
        match windows_parts(s) {
            Some((_, names)) => Some(names),
            None => None,
        }
    } else {
        unix_names(s)
    }
}

/// Why an offline database path is refused, `None` when it is accepted: it must be a
/// local path and, on Windows, no component may end in a dot or space.
pub open spec fn database_path_problem(s: Seq<char>, windows: bool) -> Option<Seq<char>> {
    match platform_names(s, windows) {
        None => Some(database_local_reason()),
        Some(names) => if windows && exists|i: int| 0 <= i < names.len() && ends_in_dot_or_space(
            names[i],
        ) {
            Some(database_trailing_reason())
        } else {
            None
        },
    }
}

pub open spec fn ends_with(s: Seq<char>, t: Seq<char>) -> bool {
    s.len() >= t.len() && s.subrange(s.len() - t.len(), s.len() as int) == t
}

/// Whether a local path fails to end with an explicit file name.
pub open spec fn lacks_file_name(s: Seq<char>, names: Seq<Seq<char>>, windows: bool) -> bool {
    ||| names.len() == 0
    ||| ends_with(s, seq!['/'])
    ||| ends_with(s, seq!['/', '.'])
    ||| windows && (ends_with(s, seq!['\\']) || ends_with(s, seq!['\\', '.']))
}

/// Why an offline database file path is refused, `None` when it is accepted.
pub open spec fn database_file_problem(s: Seq<char>, windows: bool) -> Option<Seq<char>> {
    match database_path_problem(s, windows) {
        Some(reason) => Some(reason),
        None => if lacks_file_name(s, platform_names(s, windows).unwrap(), windows) {
            Some(database_file_reason())
        } else {
            None
        },
    }
}

fn platform_names_exec(path: &str, windows: bool) -> (r: Option<Vec<Vec<char>>>)
    ensures
        match platform_names(path@, windows) {
            Some(n) => r matches Some(v) && v@.map_values(|x: Vec<char>| x@) == n,
            None => r is None,
        },
{
    if windows {
        match windows_parts_exec(path) {
            Some((_, names)) => Some(names),
            None => None,
        }
    } else {
        unix_names_exec(path)
    }
}

fn any_dot_or_space(names: &Vec<Vec<char>>) -> (r: bool)
    ensures
        r == exists|i: int| 0 <= i < names@.len() && ends_in_dot_or_space(#[trigger] names@[i]@),
{
    let mut i: usize = 0;
    while i < names.len()
        invariant
            i <= names@.len(),
            forall|k: int| 0 <= k < i ==> !ends_in_dot_or_space(#[trigger] names@[k]@),
        decreases names@.len() - i,
    {
        let n = &names[i];
        if n.len() > 0 && (n[n.len() - 1] == '.' || n[n.len() - 1] == ' ') {
            return true;
        }
        i = i + 1;
    }
    false
}

/// Refuses an offline database path that is not local or that Windows would
/// normalize into another file. Lexical only.
pub fn local_database_path(path: &str, windows: bool) -> (r: Result<(), AppError>)
    ensures
        match database_path_problem(path@, windows) {
            Some(reason) => r matches Err(e) && e.is_invalid("database"@, reason),
            None => r is Ok,
        },
{
    match platform_names_exec(path, windows) {
        None => Err(
            AppError::invalid(
                "database",
                "source and destination require local absolute paths without traversal or device/network prefixes",
            ),
        ),
        Some(names) => {
            let bad = windows && any_dot_or_space(&names);
            proof {
                let n = platform_names(path@, windows).unwrap();
                assert(n == names@.map_values(|x: Vec<char>| x@));
                assert(forall|i: int| 0 <= i < names@.len() ==> n[i] == #[trigger] names@[i]@);
            }
            if bad {
                Err(
                    AppError::invalid(
                        "database",
                        "Windows database paths must not contain components ending in dots or spaces",
                    ),
                )
            } else {
                Ok(())
            }
        },
    }
}

fn chars_end_with(v: &Vec<char>, t: &[char]) -> (r: bool)
    ensures
        r == ends_with(v@, t@),
{
    if v.len() < t.len() {
        return false;
    }
    let off = v.len() - t.len();
    let mut i: usize = 0;
    while i < t.len()
        invariant
            off + t.len() == v.len(),
            off == v@.len() - t@.len(),
            i <= t@.len(),
            forall|k: int| 0 <= k < i ==> v@[off + k] == t@[k],
        decreases t@.len() - i,
    {
        if v[off + i] != t[i] {
            assert(v@.subrange(off as int, v@.len() as int)[i as int] != t@[i as int]);
            return false;
        }
        i = i + 1;
    }
    assert(v@.subrange(off as int, v@.len() as int) =~= t@);
    true
}

/// Refuses an offline database path that is not a local path naming a file
/// explicitly (no trailing separator or dot component). Lexical only.
pub fn local_database_file_path(path: &str, windows: bool) -> (r: Result<(), AppError>)
    ensures
        match database_file_problem(path@, windows) {
            Some(reason) => r matches Err(e) && e.is_invalid("database"@, reason),
            None => r is Ok,
        },
{
    local_database_path(path, windows)?;
    let names = platform_names_exec(path, windows);
    let v = chars_of(path);
    let none = match &names {
        Some(n) => n.len() == 0,
        None => true,
    };
    let sl = ['/'];
    let sl_dot = ['/', '.'];
    let bs = ['\\'];
    let bs_dot = ['\\', '.'];
    let lacks = none || chars_end_with(&v, &sl) || chars_end_with(&v, &sl_dot) || (windows && (
    chars_end_with(&v, &bs) || chars_end_with(&v, &bs_dot)));
    proof {
        assert(sl@ =~= seq!['/']);
        assert(sl_dot@ =~= seq!['/', '.']);
        assert(bs@ =~= seq!['\\']);
        assert(bs_dot@ =~= seq!['\\', '.']);
    }
    if lacks {
        Err(
            AppError::invalid(
                "database",
                "database paths must end with an explicit filename, not a separator or dot component",
            ),
        )
    } else {
        Ok(())
    }
}

/// The identifiers of a filesystem object (device and inode, or volume and index).
#[derive(Debug, Clone, Copy, PartialEq, Eq, Structural)]
pub struct FileObjectId {
    pub first: u64,
    pub second: u64,
}

/// A persisted comparison record: a canonical path and the object identifiers seen
/// there. It is not proof of continuity since the observation.
#[derive(Debug, Clone)]
pub struct ExistingPathIdentityRecord {
    pub canonical_path: String,
    pub object: FileObjectId,
}

impl ExistingPathIdentityRecord {
    /// Whether a current observation shows the same object identifiers. Identifier
    /// agreement only; a record cannot retain a prior process's pin.
    pub fn same_object(&self, current: FileObjectId) -> (r: bool)
        ensures
            r == (self.object == current),
    {
        self.object.first == current.first && self.object.second == current.second
    }

    /// Whether two records are equal (same canonical path and object).
    pub fn same_record(&self, other: &ExistingPathIdentityRecord) -> (r: bool)
        ensures
            r == (self.canonical_path@ == other.canonical_path@ && self.object == other.object),
    {
        str_equal(self.canonical_path.as_str(), other.canonical_path.as_str()) && self.object
            == other.object
    }
}

/// Refuses a path whose identity changed after it was checked.
pub fn verify_same_identity(label: &str, unchanged: bool) -> (r: Result<(), PathError>)
    ensures
        unchanged ==> r is Ok,
        !unchanged ==> (r matches Err(PathError::PathIdentity(m)) && m@ == label@
            + " changed after it was checked"@),
{
    if unchanged {
        Ok(())
    } else {
        Err(PathError::PathIdentity(owned(label).concat(" changed after it was checked")))
    }
}

/// Two locations are equivalent when their canonical target spellings are equal or
/// when both exist as the same filesystem object.
pub open spec fn spec_paths_equivalent(
    left_target: Seq<char>,
    right_target: Seq<char>,
    left_object: Option<FileObjectId>,
    right_object: Option<FileObjectId>,
) -> bool {
    left_target == right_target || (left_object is Some && right_object is Some && left_object
        == right_object)
}

/// Path equivalence does not depend on the order of the two paths, and every path
/// is equivalent to itself; when either path is missing only equal canonical
/// spellings are equivalent, and two existing paths are equivalent exactly when they
/// are spelled alike or name the same file object.
pub proof fn law_paths_equivalent_symmetric(
    left_target: Seq<char>,
    right_target: Seq<char>,
    left_object: Option<FileObjectId>,
    right_object: Option<FileObjectId>,
)
    ensures
        spec_paths_equivalent(left_target, right_target, left_object, right_object)
            == spec_paths_equivalent(right_target, left_target, right_object, left_object),
        spec_paths_equivalent(left_target, left_target, left_object, left_object),
        left_object is None || right_object is None ==> spec_paths_equivalent(
            left_target,
            right_target,
            left_object,
            right_object,
        ) == (left_target == right_target),
        left_object is Some && right_object is Some ==> spec_paths_equivalent(
            left_target,
            right_target,
            left_object,
            right_object,
        ) == (left_target == right_target || left_object == right_object),
{
}

/// Whether two paths denote the same location: equal canonical target spellings,
/// or, when both exist, the same filesystem object. A missing path has no object
/// identity, so only the exact canonical spelling can establish equality.
pub fn paths_equivalent(left_target: &str, right_target: &str, left_object: Option<FileObjectId>, right_object: Option<FileObjectId>) -> (r: bool)
    ensures
        r == spec_paths_equivalent(left_target@, right_target@, left_object, right_object),
{
    if str_equal(left_target, right_target) {
        return true;
    }
    match (left_object, right_object) {
        (Some(a), Some(b)) => a == b,
        _ => false,
    }
}

/// The canonical spelling of a target: the canonical existing ancestor followed by
/// the missing components, which must be plain names.
pub open spec fn spec_target(ancestor: Seq<char>, missing: Seq<Seq<char>>) -> Option<Seq<char>> {
    if exists|i: int| 0 <= i < missing.len() && (missing[i].len() == 0 || missing[i] == seq!['.']
        || missing[i] == seq!['.', '.']) {
        None
    } else if missing.len() == 0 {
        Some(ancestor)
    } else if ancestor.len() > 0 && ancestor.last() == '/' {
        Some(ancestor + join(missing, '/'))
    } else {
        Some(ancestor + seq!['/'] + join(missing, '/'))
    }
}

/// Composes the canonical target from the canonical nearest existing ancestor and the
/// missing components below it, in order.
pub fn canonicalize_target(canonical_ancestor: &str, missing: &Vec<String>) -> (r: Result<String, PathError>)
    ensures
        match spec_target(canonical_ancestor@, missing@.map_values(|x: String| x@)) {
            Some(t) => r matches Ok(s) && s@ == t,
            None => r matches Err(PathError::PathIdentity(m)) && m@ == "invalid target component"@,
        },
{
    let ghost ms = missing@.map_values(|x: String| x@);
    let mut names: Vec<Vec<char>> = Vec::new();
    let mut i: usize = 0;
    while i < missing.len()
        invariant
            i <= missing@.len(),
            ms == missing@.map_values(|x: String| x@),
            names@.len() == i,
            names@.map_values(|x: Vec<char>| x@) == ms.take(i as int),
            forall|k: int| 0 <= k < i ==> !(ms[k].len() == 0 || ms[k] == seq!['.'] || ms[k] == seq!['.', '.']),
        decreases missing@.len() - i,
    {
        let n = chars_of(missing[i].as_str());
        let dots = n.len() == 0 || (n.len() == 1 && n[0] == '.') || (n.len() == 2 && n[0] == '.'
            && n[1] == '.');
        proof {
            assert(ms[i as int] == n@);
            if n@.len() == 1 {
                if n@[0] == '.' {
                    assert(n@ =~= seq!['.']);
                } else {
                    assert(n@ != seq!['.']);
                }
            }
            if n@.len() == 2 {
                if n@[0] == '.' && n@[1] == '.' {
                    assert(n@ =~= seq!['.', '.']);
                } else {
                    assert(n@ != seq!['.', '.']) by {
                        if n@ == seq!['.', '.'] {
                            assert(n@[0] == '.' && n@[1] == '.');
                        }
                    }
                }
            }
            if n@.len() != 1 {
                assert(n@ != seq!['.']) by {
                    if n@ == seq!['.'] {
                        assert(n@.len() == 1);
                    }
                }
            }
            if n@.len() != 2 {
                assert(n@ != seq!['.', '.']) by {
                    if n@ == seq!['.', '.'] {
                        assert(n@.len() == 2);
                    }
                }
            }
        }
        if dots {
            return Err(PathError::PathIdentity(owned("invalid target component")));
        }
        let ghost prev = names@;
        let ghost nv = n@;
        names.push(n);
        proof {
            assert(names@ == prev.push(names@[i as int]));
            assert(names@[i as int]@ == nv);
            let mv = names@.map_values(|x: Vec<char>| x@);
            let pv = prev.map_values(|x: Vec<char>| x@);
            assert forall|k: int| 0 <= k < i + 1 implies #[trigger] mv[k] == ms.take(i + 1)[k] by {
                if k < i {
                    assert(pv[k] == ms.take(i as int)[k]);
                    assert(prev[k] == names@[k]);
                }
            }
            assert(mv =~= ms.take(i + 1));
        }
        i = i + 1;
    }
    assert(ms.take(missing@.len() as int) =~= ms);
    let a = chars_of(canonical_ancestor);
    let mut out: Vec<char> = Vec::new();
    push_chars(&mut out, &a);
    if names.len() > 0 {
        if !(a.len() > 0 && a[a.len() - 1] == '/') {
            out.push('/');
        }
        push_join(&mut out, &names, '/');
    }
    Ok(string_from_chars(out.as_slice()))
}

} // verus!
