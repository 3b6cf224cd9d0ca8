//! Finding the user who owns the graphical session, from what `loginctl`
//! prints, and recognising niri's IPC socket by its file name.

use crate::text::{
    chars_of, first_word, first_word_bounds, has_prefix, has_suffix, line_bounds, lines,
    parse_unsigned, parse_unsigned_at, starts_with_at, trim, trim_bounds,
};
use vstd::prelude::*;

verus! {

broadcast use vstd::string::group_string_axioms;

/// A detected graphical session user.
pub struct SessionUser {
    pub uid: u32,
    pub username: String,
}

/// The session IDs in `loginctl list-sessions --no-legend` output, given as
/// lines: the first word of every line that has one.
pub open spec fn session_ids(ls: Seq<Seq<char>>) -> Seq<Seq<char>>
    decreases ls.len(),
{
    if ls.len() == 0 {
        Seq::empty()
    } else {
        let rest = session_ids(ls.drop_last());
        match first_word(ls.last()) {
            Some(w) => rest.push(w),
            None => rest,
        }
    }
}

pub open spec fn type_key() -> Seq<char> {
    seq!['T', 'y', 'p', 'e', '=']
}

pub open spec fn name_key() -> Seq<char> {
    seq!['N', 'a', 'm', 'e', '=']
}

pub open spec fn user_key() -> Seq<char> {
    seq!['U', 's', 'e', 'r', '=']
}

/// The `Type`, `Name` and `User` properties in `loginctl show-session` output,
/// given as lines. Each line is trimmed; the last line carrying a key decides
/// that key's value, and a `User` value that is not a `u32` leaves no uid.
pub open spec fn session_props(ls: Seq<Seq<char>>) -> (Option<Seq<char>>, Option<Seq<char>>, Option<u32>)
    decreases ls.len(),
{
    if ls.len() == 0 {
        (None, None, None)
    } else {
        let (t, n, u) = session_props(ls.drop_last());
        let l = trim(ls.last());
        if has_prefix(l, type_key()) {
            (Some(l.subrange(5, l.len() as int)), n, u)
        } else if has_prefix(l, name_key()) {
            (t, Some(l.subrange(5, l.len() as int)), u)
        } else if has_prefix(l, user_key()) {
            (
                t,
                n,
                match parse_unsigned(l.subrange(5, l.len() as int), u32::MAX as int) {
                    Some(v) => Some(v as u32),
                    None => None,
                },
            )
        } else {
            (t, n, u)
        }
    }
}

/// Extract session IDs from `loginctl list-sessions --no-legend` output.
/// Each line starts with a session ID as the first whitespace-delimited field.
pub fn parse_session_list(output: &str) -> (ids: Vec<String>)
    ensures
        ids@.map_values(|s: String| s@) == session_ids(lines(output@)),
{
    let cs = chars_of(output);
    let spans = line_bounds(&cs);
    let mut ids: Vec<String> = Vec::new();
    let mut k: usize = 0;
    while k < spans.len()
        invariant
            cs@ == output@,
            spans@.len() == lines(cs@).len(),
            forall|j: int|
                0 <= j < spans@.len() ==> 0 <= (#[trigger] spans@[j]).0 <= spans@[j].1 <= cs@.len()
                    && cs@.subrange(spans@[j].0 as int, spans@[j].1 as int) == lines(cs@)[j],
            0 <= k <= spans@.len(),
            ids@.map_values(|s: String| s@) == session_ids(lines(cs@).take(k as int)),
        decreases spans@.len() - k,
    {
        let (a, b) = spans[k];
        let ghost ls = lines(cs@);
        assert(ls.take(k + 1).drop_last() =~= ls.take(k as int));
        assert(ls.take(k + 1).last() == ls[k as int]);
        match first_word_bounds(&cs, a, b) {
            Some((lo, hi)) => {
                let w = output.substring_char(lo, hi).to_owned();
                ids.push(w);
                assert(ids@.map_values(|s: String| s@) =~= session_ids(ls.take(k as int)).push(
                    w@,
                ));
            },
            None => {},
        }
        k = k + 1;
    }
    assert(lines(cs@).take(k as int) =~= lines(cs@));
    ids
}

/// Parse `loginctl show-session <id> -p Type -p Name -p User` output.
/// Expects `Key=Value` lines (without `--value`). Order-independent (see
/// [`lemma_session_props_any_order`]).
/// Returns `(session_type, username, uid)` if all three properties are found.
pub fn parse_session_properties(output: &str) -> (r: Option<(String, String, u32)>)
    ensures
        match r {
            Some((t, n, u)) => session_props(lines(output@)) == (Some(t@), Some(n@), Some(u)),
            None => !(session_props(lines(output@)).0 is Some && session_props(lines(output@)).1 is Some
                && session_props(lines(output@)).2 is Some),
        },
{
    let cs = chars_of(output);
    let spans = line_bounds(&cs);
    let mut session_type: Option<(usize, usize)> = None;
    let mut username: Option<(usize, usize)> = None;
    let mut uid: Option<u32> = None;
    let mut k: usize = 0;
    while k < spans.len()
        invariant
            cs@ == output@,
            spans@.len() == lines(cs@).len(),
            forall|j: int|
                0 <= j < spans@.len() ==> 0 <= (#[trigger] spans@[j]).0 <= spans@[j].1 <= cs@.len()
                    && cs@.subrange(spans@[j].0 as int, spans@[j].1 as int) == lines(cs@)[j],
            0 <= k <= spans@.len(),
            session_type matches Some(b) ==> b.0 <= b.1 <= cs@.len(),
            username matches Some(b) ==> b.0 <= b.1 <= cs@.len(),
            session_props(lines(cs@).take(k as int)) == (
                match session_type {
                    Some(b) => Some(cs@.subrange(b.0 as int, b.1 as int)),
                    None => None,
                },
                match username {
                    Some(b) => Some(cs@.subrange(b.0 as int, b.1 as int)),
                    None => None,
                },
                uid,
            ),
        decreases spans@.len() - k,
    {
        let (a, b) = spans[k];
        let ghost ls = lines(cs@);
        assert(ls.take(k + 1).drop_last() =~= ls.take(k as int));
        assert(ls.take(k + 1).last() == ls[k as int]);
        let (lo, hi) = trim_bounds(&cs, a, b);
        let ghost l = cs@.subrange(lo as int, hi as int);
        if starts_with_at(&cs, lo, hi, &['T', 'y', 'p', 'e', '=']) {
            session_type = Some((lo + 5, hi));
            assert(l.subrange(5, l.len() as int) =~= cs@.subrange(lo + 5, hi as int));
        } else if starts_with_at(&cs, lo, hi, &['N', 'a', 'm', 'e', '=']) {
            username = Some((lo + 5, hi));
            assert(l.subrange(5, l.len() as int) =~= cs@.subrange(lo + 5, hi as int));
        } else if starts_with_at(&cs, lo, hi, &['U', 's', 'e', 'r', '=']) {
            assert(l.subrange(5, l.len() as int) =~= cs@.subrange(lo + 5, hi as int));
            uid = match parse_unsigned_at(&cs, lo + 5, hi, 0xFFFF_FFFF) {
                Some(v) => Some(v as u32),
                None => None,
            };
        }
        k = k + 1;
    }
    assert(lines(cs@).take(k as int) =~= lines(cs@));
    match (session_type, username, uid) {
        (Some((ta, tb)), Some((na, nb)), Some(u)) => Some(
            (output.substring_char(ta, tb).to_owned(), output.substring_char(na, nb).to_owned(), u),
        ),
        _ => None,
    }
}

pub open spec fn graphical_type(t: Seq<char>) -> bool {
    t == seq!['w', 'a', 'y', 'l', 'a', 'n', 'd'] || t == seq!['x', '1', '1']
}

/// The session user described by `loginctl show-session` output, when the
/// session is a graphical one (`wayland` or `x11`).
pub fn graphical_session_user(props: &str) -> (r: Option<SessionUser>)
    ensures
        match r {
            Some(u) => session_props(lines(props@)) == (Some(session_props(lines(props@)).0->0), Some(u.username@), Some(u.uid))
                && graphical_type(session_props(lines(props@)).0->0),
            None => !(session_props(lines(props@)).0 is Some && session_props(lines(props@)).1 is Some
                && session_props(lines(props@)).2 is Some && graphical_type(session_props(lines(props@)).0->0)),
        },
{
    match parse_session_properties(props) {
        Some((session_type, username, uid)) => {
            let tc = crate::text::chars_of(session_type.as_str());
            let is_wayland = tc.len() == 7 && starts_with_at(&tc, 0, 7, &['w', 'a', 'y', 'l', 'a', 'n', 'd']);
            let is_x11 = tc.len() == 3 && starts_with_at(&tc, 0, 3, &['x', '1', '1']);
            proof {
                assert(tc@.subrange(0, tc@.len() as int) =~= tc@);
            }
            if is_wayland || is_x11 {
                Some(SessionUser { uid, username })
            } else {
                None
            }
        },
        None => None,
    }
}

pub open spec fn niri_prefix() -> Seq<char> {
    seq!['n', 'i', 'r', 'i', '.']
}

pub open spec fn sock_suffix() -> Seq<char> {
    seq!['.', 's', 'o', 'c', 'k']
}

/// Whether `name` is the file name of a niri IPC socket (`niri.*.sock`).
pub fn is_niri_socket_name(name: &str) -> (b: bool)
    ensures
        b == (has_prefix(name@, niri_prefix()) && has_suffix(name@, sock_suffix())),
{
    let cs = chars_of(name);
    let n = cs.len();
    if !starts_with_at(&cs, 0, n, &['n', 'i', 'r', 'i', '.']) {
        assert(cs@.subrange(0, n as int) =~= cs@);
        return false;
    }
    assert(cs@.subrange(0, n as int) =~= cs@);
    if n < 5 {
        return false;
    }
    let ok = starts_with_at(&cs, n - 5, n, &['.', 's', 'o', 'c', 'k']);
    assert(cs@.subrange(n - 5, n as int).subrange(0, 5) =~= cs@.subrange(n - 5, n as int));
    ok
}


/// Which key a `show-session` line sets: 1 for `Type`, 2 for `Name`, 3 for
/// `User`, 0 for none.
pub open spec fn line_key(line: Seq<char>) -> int {
    let l = trim(line);
    if has_prefix(l, type_key()) {
        1
    } else if has_prefix(l, name_key()) {
        2
    } else if has_prefix(l, user_key()) {
        3
    } else {
        0
    }
}

/// The properties after one more line.
pub open spec fn props_step(
    acc: (Option<Seq<char>>, Option<Seq<char>>, Option<u32>),
    line: Seq<char>,
) -> (Option<Seq<char>>, Option<Seq<char>>, Option<u32>) {
    let (t, n, u) = acc;
    let l = trim(line);
    if has_prefix(l, type_key()) {
        (Some(l.subrange(5, l.len() as int)), n, u)
    } else if has_prefix(l, name_key()) {
        (t, Some(l.subrange(5, l.len() as int)), u)
    } else if has_prefix(l, user_key()) {
        (
            t,
            n,
            match parse_unsigned(l.subrange(5, l.len() as int), u32::MAX as int) {
                Some(v) => Some(v as u32),
                None => None,
            },
        )
    } else {
        (t, n, u)
    }
}

/// The properties after the lines `ls`, starting from `acc`.
pub open spec fn props_after(
    acc: (Option<Seq<char>>, Option<Seq<char>>, Option<u32>),
    ls: Seq<Seq<char>>,
) -> (Option<Seq<char>>, Option<Seq<char>>, Option<u32>)
    decreases ls.len(),
{
    if ls.len() == 0 {
        acc
    } else {
        props_step(props_after(acc, ls.drop_last()), ls.last())
    }
}

proof fn lemma_props_is_fold(ls: Seq<Seq<char>>)
    ensures
        session_props(ls) == props_after((None, None, None), ls),
    decreases ls.len(),
{
    if ls.len() > 0 {
        lemma_props_is_fold(ls.drop_last());
    }
}

proof fn lemma_props_after_concat(
    acc: (Option<Seq<char>>, Option<Seq<char>>, Option<u32>),
    x: Seq<Seq<char>>,
    y: Seq<Seq<char>>,
)
    ensures
        props_after(acc, x + y) == props_after(props_after(acc, x), y),
    decreases y.len(),
{
    if y.len() == 0 {
        assert(x + y =~= x);
    } else {
        lemma_props_after_concat(acc, x, y.drop_last());
        assert((x + y).drop_last() =~= x + y.drop_last());
        assert((x + y).last() == y.last());
    }
}

/// The properties do not depend on the order of the lines: swapping two
/// adjacent lines that set different keys (or where one sets none) gives the
/// same type, name and uid.
pub proof fn lemma_session_props_order_independent(
    pre: Seq<Seq<char>>,
    a: Seq<char>,
    b: Seq<char>,
    post: Seq<Seq<char>>,
)
    requires
        line_key(a) != line_key(b) || line_key(a) == 0,
    ensures
        session_props(pre + seq![a, b] + post) == session_props(pre + seq![b, a] + post),
{
    let z = (None, None, None);
    lemma_props_is_fold(pre + seq![a, b] + post);
    lemma_props_is_fold(pre + seq![b, a] + post);
    lemma_props_after_concat(z, pre + seq![a, b], post);
    lemma_props_after_concat(z, pre + seq![b, a], post);
    lemma_props_after_concat(z, pre, seq![a, b]);
    lemma_props_after_concat(z, pre, seq![b, a]);
    let acc = props_after(z, pre);
    assert(seq![a, b].drop_last() =~= seq![a]);
    assert(seq![b, a].drop_last() =~= seq![b]);
    assert(seq![a].drop_last() =~= Seq::<Seq<char>>::empty());
    assert(seq![b].drop_last() =~= Seq::<Seq<char>>::empty());
    assert(props_after(acc, Seq::<Seq<char>>::empty()) == acc);
    assert(props_after(acc, seq![a]) == props_step(acc, a));
    assert(props_after(acc, seq![b]) == props_step(acc, b));
    assert(seq![a, b].last() == b);
    assert(seq![b, a].last() == a);
    assert(props_after(acc, seq![a, b]) == props_step(props_step(acc, a), b));
    assert(props_after(acc, seq![b, a]) == props_step(props_step(acc, b), a));
}

/// No two lines set the same key.
pub open spec fn keys_unique(ls: Seq<Seq<char>>) -> bool {
    forall|i: int, j: int|
        0 <= i < ls.len() && 0 <= j < ls.len() && i != j && line_key(ls[i]) != 0 ==> line_key(
            #[trigger] ls[i],
        ) != line_key(#[trigger] ls[j])
}

/// The value a `Key=value` line gives (after trimming).
pub open spec fn line_value(line: Seq<char>) -> Seq<char> {
    trim(line).subrange(5, trim(line).len() as int)
}

/// The uid a `User=` line with this value gives.
pub open spec fn uid_value(v: Seq<char>) -> Option<u32> {
    match parse_unsigned(v, u32::MAX as int) {
        Some(x) => Some(x as u32),
        None => None,
    }
}

/// Whether every line of `ls` that sets key `k` is `u`, and one does.
pub open spec fn all_key_lines_are(ls: Seq<Seq<char>>, k: int, u: Seq<char>) -> bool {
    &&& exists|i: int| 0 <= i < ls.len() && line_key(#[trigger] ls[i]) == k
    &&& forall|i: int| 0 <= i < ls.len() && line_key(#[trigger] ls[i]) == k ==> ls[i] == u
}

/// Whether no line of `ls` sets key `k`.
pub open spec fn no_key_line(ls: Seq<Seq<char>>, k: int) -> bool {
    forall|i: int| 0 <= i < ls.len() ==> line_key(#[trigger] ls[i]) != k
}

proof fn lemma_props_by_key_lines(ls: Seq<Seq<char>>, u1: Seq<char>, u2: Seq<char>, u3: Seq<char>)
    ensures
        no_key_line(ls, 1) ==> session_props(ls).0 is None,
        all_key_lines_are(ls, 1, u1) ==> session_props(ls).0 == Some(line_value(u1)),
        no_key_line(ls, 2) ==> session_props(ls).1 is None,
        all_key_lines_are(ls, 2, u2) ==> session_props(ls).1 == Some(line_value(u2)),
        no_key_line(ls, 3) ==> session_props(ls).2 is None,
        all_key_lines_are(ls, 3, u3) ==> session_props(ls).2 == uid_value(line_value(u3)),
    decreases ls.len(),
{
    if ls.len() > 0 {
        let d = ls.drop_last();
        let n = ls.len() - 1;
        lemma_props_by_key_lines(d, u1, u2, u3);
        assert(ls[n] == ls.last());
        assert forall|k: int| 1 <= k <= 3 && no_key_line(ls, k) implies no_key_line(d, k) by {
            assert forall|i: int| 0 <= i < d.len() implies line_key(#[trigger] d[i]) != k by {
                assert(d[i] == ls[i]);
            }
        }
        assert forall|k: int, u: Seq<char>|
            1 <= k <= 3 && all_key_lines_are(ls, k, u) && line_key(ls.last()) != k implies all_key_lines_are(
            d,
            k,
            u,
        ) by {
            let i = choose|i: int| 0 <= i < ls.len() && line_key(#[trigger] ls[i]) == k;
            assert(i < n);
            assert(d[i] == ls[i]);
            assert forall|j: int| 0 <= j < d.len() && line_key(#[trigger] d[j]) == k implies d[j] == u by {
                assert(d[j] == ls[j]);
            }
        }
        assert(line_key(ls.last()) == 1 ==> (all_key_lines_are(ls, 1, u1) ==> ls[n] == u1));
        assert(line_key(ls.last()) == 2 ==> (all_key_lines_are(ls, 2, u2) ==> ls[n] == u2));
        assert(line_key(ls.last()) == 3 ==> (all_key_lines_are(ls, 3, u3) ==> ls[n] == u3));
    }
}

proof fn lemma_key_lines_match(ls: Seq<Seq<char>>, p: Seq<Seq<char>>, k: int) -> (u: Seq<char>)
    requires
        1 <= k <= 3,
        keys_unique(ls),
        forall|x: Seq<char>| p.contains(x) <==> ls.contains(x),
    ensures
        (no_key_line(ls, k) && no_key_line(p, k)) || (all_key_lines_are(ls, k, u) && all_key_lines_are(
            p,
            k,
            u,
        )),
{
    if exists|a: int| 0 <= a < ls.len() && line_key(#[trigger] ls[a]) == k {
        let a = choose|a: int| 0 <= a < ls.len() && line_key(#[trigger] ls[a]) == k;
        let u = ls[a];
        assert forall|b: int| 0 <= b < ls.len() && line_key(#[trigger] ls[b]) == k implies ls[b] == u by {
            if b != a {
                assert(line_key(ls[a]) != line_key(ls[b]));
            }
        }
        assert(ls.contains(u));
        assert(p.contains(u));
        let pi = choose|pi: int| 0 <= pi < p.len() && p[pi] == u;
        assert(line_key(p[pi]) == k);
        assert forall|j: int| 0 <= j < p.len() && line_key(#[trigger] p[j]) == k implies p[j] == u by {
            assert(p.contains(p[j]));
            assert(ls.contains(p[j]));
            let b = choose|b: int| 0 <= b < ls.len() && ls[b] == p[j];
            assert(line_key(ls[b]) == k);
        }
        u
    } else {
        assert forall|j: int| 0 <= j < p.len() implies line_key(#[trigger] p[j]) != k by {
            assert(p.contains(p[j]));
            assert(ls.contains(p[j]));
            let b = choose|b: int| 0 <= b < ls.len() && ls[b] == p[j];
            if line_key(p[j]) == k {
                assert(line_key(ls[b]) == k);
            }
        }
        Seq::empty()
    }
}

/// The properties do not depend on the order of the lines: when no two
/// lines set the same key, any reordering of them (the same lines, each as
/// often) gives the same type, name and uid.
pub proof fn lemma_session_props_any_order(ls: Seq<Seq<char>>, p: Seq<Seq<char>>)
    requires
        keys_unique(ls),
        p.to_multiset() == ls.to_multiset(),
    ensures
        session_props(p) == session_props(ls),
{
    broadcast use vstd::seq_lib::group_to_multiset_ensures;

    assert forall|x: Seq<char>| p.contains(x) <==> ls.contains(x) by {
        assert(p.contains(x) <==> p.to_multiset().count(x) > 0);
        assert(ls.contains(x) <==> ls.to_multiset().count(x) > 0);
    }
    let u1 = lemma_key_lines_match(ls, p, 1);
    let u2 = lemma_key_lines_match(ls, p, 2);
    let u3 = lemma_key_lines_match(ls, p, 3);
    lemma_props_by_key_lines(ls, u1, u2, u3);
    lemma_props_by_key_lines(p, u1, u2, u3);
}

} // verus!
