//! Why every placeholder of the icon template is filled in.
//!
//! A template is text and `{{NAME}}` placeholders in turn. Replacing one
//! placeholder by text that cannot start or complete another one leaves the
//! rest of the template as it was, so after the eight replacements `svg_for`
//! makes, nothing of the form `{{` is left.

use vstd::prelude::*;
use vstd::string::*;
use crate::text::{is_prefix, spec_replace};

verus! {

/// Two `{` in a row at `k`.
pub open spec fn double_brace_at(t: Seq<char>, k: int) -> bool {
    t[k] == '{' && t[k + 1] == '{'
}

/// Text that holds no `{{` and does not end in `{`, so that it can neither
/// hold a placeholder nor begin one with what follows it.
pub open spec fn brace_safe(t: Seq<char>) -> bool {
    &&& forall|k: int| 0 <= k < t.len() - 1 ==> !#[trigger] double_brace_at(t, k)
    &&& (t.len() == 0 || t.last() != '{')
}

/// A placeholder name: upper-case ASCII letters.
pub open spec fn is_name(n: Seq<char>) -> bool {
    n.len() > 0 && forall|k: int| 0 <= k < n.len() ==> 65 <= (#[trigger] n[k] as u32) <= 90
}

/// The placeholder for `name`.
pub open spec fn hole(name: Seq<char>) -> Seq<char> {
    "{{"@ + name + "}}"@
}

/// A piece of a template.
pub enum Piece {
    Text(Seq<char>),
    Hole(Seq<char>),
}

pub open spec fn piece_text(p: Piece) -> Seq<char> {
    match p {
        Piece::Text(t) => t,
        Piece::Hole(n) => hole(n),
    }
}

/// The text of a template given as pieces.
pub open spec fn flatten(ps: Seq<Piece>) -> Seq<char>
    decreases ps.len(),
{
    if ps.len() == 0 {
        Seq::empty()
    } else {
        flatten(ps.drop_last()) + piece_text(ps.last())
    }
}

proof fn lemma_flatten_front(ps: Seq<Piece>)
    requires
        ps.len() > 0,
    ensures
        flatten(ps) == piece_text(ps[0]) + flatten(ps.drop_first()),
    decreases ps.len(),
{
    if ps.len() == 1 {
        assert(flatten(ps.drop_first()) == Seq::<char>::empty());
        assert(flatten(ps.drop_last()) == Seq::<char>::empty());
        assert(ps.last() == ps[0]);
        assert(flatten(ps) =~= piece_text(ps[0]) + flatten(ps.drop_first()));
    } else {
        lemma_flatten_front(ps.drop_last());
        assert(ps.drop_last().drop_first() =~= ps.drop_first().drop_last());
        assert(ps.drop_first().last() == ps.last());
        assert(ps.drop_last()[0] == ps[0]);
        assert(flatten(ps) =~= piece_text(ps[0]) + flatten(ps.drop_first()));
    }
}

/// Every text piece is brace-safe and every placeholder well named.
pub open spec fn well_formed(ps: Seq<Piece>) -> bool {
    forall|i: int| 0 <= i < ps.len() ==> match #[trigger] ps[i] {
        Piece::Text(t) => brace_safe(t),
        Piece::Hole(n) => is_name(n),
    }
}

pub open spec fn fill_piece(p: Piece, name: Seq<char>, with: Seq<char>) -> Piece {
    if p == Piece::Hole(name) {
        Piece::Text(with)
    } else {
        p
    }
}

/// The pieces with the placeholder `name` filled in by `with`.
pub open spec fn fill(ps: Seq<Piece>, name: Seq<char>, with: Seq<char>) -> Seq<Piece> {
    ps.map_values(|p: Piece| fill_piece(p, name, with))
}

/// Text without `{` is brace-safe.
pub proof fn lemma_brace_free(t: Seq<char>)
    requires
        forall|k: int| 0 <= k < t.len() ==> t[k] != '{',
    ensures
        brace_safe(t),
{
    assert forall|k: int| 0 <= k < t.len() - 1 implies !#[trigger] double_brace_at(t, k) by {
        assert(t[k] != '{');
    }
}

proof fn lemma_brace_safe_tail(t: Seq<char>)
    requires
        brace_safe(t),
        t.len() > 0,
    ensures
        brace_safe(t.drop_first()),
{
    let u = t.drop_first();
    assert forall|k: int| 0 <= k < u.len() - 1 implies !#[trigger] double_brace_at(u, k) by {
        assert(!double_brace_at(t, k + 1));
    }
}

/// Concatenating brace-safe texts gives brace-safe text.
pub proof fn lemma_brace_safe_concat(a: Seq<char>, b: Seq<char>)
    requires
        brace_safe(a),
        brace_safe(b),
    ensures
        brace_safe(a + b),
{
    let s = a + b;
    assert forall|k: int| 0 <= k < s.len() - 1 implies !#[trigger] double_brace_at(s, k) by {
        if k + 1 < a.len() {
            assert(!double_brace_at(a, k));
        } else if k + 1 == a.len() {
            assert(s[k] == a.last());
        } else {
            assert(!double_brace_at(b, k - a.len()));
        }
    }
    if b.len() == 0 {
        assert(s =~= a);
    }
}

/// No match of a placeholder can start inside brace-safe text.
proof fn lemma_replace_skips(t: Seq<char>, b: Seq<char>, pat: Seq<char>, with: Seq<char>)
    requires
        brace_safe(t),
        pat.len() >= 2,
        pat[0] == '{',
        pat[1] == '{',
    ensures
        spec_replace(t + b, pat, with) == t + spec_replace(b, pat, with),
    decreases t.len(),
{
    if t.len() == 0 {
        assert(t + b =~= b);
    } else {
        let s = t + b;
        if is_prefix(pat, s) {
            assert(s[0] == s.subrange(0, pat.len() as int)[0]);
            assert(s[1] == s.subrange(0, pat.len() as int)[1]);
            if t.len() == 1 {
                assert(t.last() == s[0]);
            } else {
                assert(double_brace_at(t, 0));
            }
        }
        lemma_brace_safe_tail(t);
        assert(s.drop_first() =~= t.drop_first() + b);
        lemma_replace_skips(t.drop_first(), b, pat, with);
        assert(seq![t[0]] + (t.drop_first() + spec_replace(b, pat, with)) =~= t + spec_replace(b, pat, with));
    }
}

proof fn lemma_names_differ(m: Seq<char>, n: Seq<char>, b: Seq<char>)
    requires
        is_name(m),
        is_name(n),
        m != n,
    ensures
        !is_prefix(hole(m), hole(n) + b),
{
    reveal_strlit("{{");
    reveal_strlit("}}");
    let p = hole(m);
    let s = hole(n) + b;
    if is_prefix(p, s) {
        let q = s.subrange(0, p.len() as int);
        if m.len() == n.len() {
            assert(!(m =~= n));
            let j = choose|j: int| 0 <= j < m.len() && m[j] != n[j];
            assert(p[j + 2] == m[j]);
            assert(s[j + 2] == n[j]);
            assert(q[j + 2] == s[j + 2]);
        } else if m.len() < n.len() {
            let k: int = (m.len() + 2) as int;
            assert(p[k] == '}');
            assert(s[k] == n[m.len() as int]);
            assert(65 <= (n[m.len() as int] as u32));
            assert(q[k] == s[k]);
        } else {
            let k: int = (n.len() + 2) as int;
            assert(s[k] == '}');
            assert(p[k] == m[n.len() as int]);
            assert(65 <= (m[n.len() as int] as u32));
            assert(q[k] == s[k]);
        }
    }
}

/// A placeholder other than the one replaced is kept as it is.
proof fn lemma_replace_keeps_hole(n: Seq<char>, name: Seq<char>, b: Seq<char>, with: Seq<char>)
    requires
        is_name(n),
        is_name(name),
        n != name,
    ensures
        spec_replace(hole(n) + b, hole(name), with) == hole(n) + spec_replace(b, hole(name), with),
{
    reveal_strlit("{{");
    reveal_strlit("}}");
    let pat = hole(name);
    let s = hole(n) + b;
    lemma_names_differ(name, n, b);
    let s1 = s.drop_first();
    if is_prefix(pat, s1) {
        assert(s1[1] == s1.subrange(0, pat.len() as int)[1]);
        assert(s1[1] == n[0]);
        assert(65 <= (n[0] as u32));
    }
    let s2 = s1.drop_first();
    let tail = n + "}}"@;
    assert(s2 =~= tail + b);
    assert forall|k: int| 0 <= k < tail.len() implies tail[k] != '{' by {
        if k < n.len() {
            assert(65 <= (n[k] as u32));
        }
    }
    assert forall|k: int| 0 <= k < tail.len() - 1 implies !#[trigger] double_brace_at(tail, k) by {}
    lemma_replace_skips(tail, b, pat, with);
    assert(s[0] == '{' && s1[0] == '{');
    assert(pat.len() > 0);
    assert(spec_replace(s2, pat, with) == tail + spec_replace(b, pat, with));
    assert(spec_replace(s1, pat, with) == seq![s1[0]] + spec_replace(s2, pat, with));
    assert(spec_replace(s, pat, with) == seq![s[0]] + spec_replace(s1, pat, with));
    assert(seq!['{'] + (seq!['{'] + (tail + spec_replace(b, pat, with))) =~= hole(n) + spec_replace(b, pat, with));
}

/// Replacing one placeholder of a well-formed template by brace-safe text
/// fills that placeholder in and leaves the rest of the template as it was.
pub proof fn lemma_replace_fills(ps: Seq<Piece>, name: Seq<char>, with: Seq<char>)
    requires
        well_formed(ps),
        is_name(name),
        brace_safe(with),
    ensures
        spec_replace(flatten(ps), hole(name), with) == flatten(fill(ps, name, with)),
        well_formed(fill(ps, name, with)),
    decreases ps.len(),
{
    reveal_strlit("{{");
    let pat = hole(name);
    let f = fill(ps, name, with);
    assert forall|i: int| 0 <= i < f.len() implies match #[trigger] f[i] {
        Piece::Text(t) => brace_safe(t),
        Piece::Hole(n) => is_name(n),
    } by {
        assert(f[i] == fill_piece(ps[i], name, with));
        let _ = ps[i];
    }
    if ps.len() > 0 {
        let rest = ps.drop_first();
        assert(well_formed(rest)) by {
            assert forall|i: int| 0 <= i < rest.len() implies match #[trigger] rest[i] {
                Piece::Text(t) => brace_safe(t),
                Piece::Hole(n) => is_name(n),
            } by {
                assert(rest[i] == ps[i + 1]);
            }
        }
        lemma_replace_fills(rest, name, with);
        lemma_flatten_front(ps);
        lemma_flatten_front(f);
        assert(f.drop_first() =~= fill(rest, name, with));
        assert(f[0] == fill_piece(ps[0], name, with));
        let b = flatten(rest);
        let p0 = ps[0];
        assert(well_formed(ps) ==> match ps[0] {
            Piece::Text(t) => brace_safe(t),
            Piece::Hole(n) => is_name(n),
        });
        match p0 {
            Piece::Text(t) => {
                lemma_replace_skips(t, b, pat, with);
            },
            Piece::Hole(n) => {
                if n == name {
                    assert(is_prefix(pat, pat + b)) by {
                        assert((pat + b).subrange(0, pat.len() as int) =~= pat);
                    }
                    assert((pat + b).skip(pat.len() as int) =~= b);
                } else {
                    lemma_replace_keeps_hole(n, name, b, with);
                }
            },
        }
    }
}

/// A template of brace-safe text alone is brace-safe.
pub proof fn lemma_texts_safe(ps: Seq<Piece>)
    requires
        forall|i: int| 0 <= i < ps.len() ==> (#[trigger] ps[i] matches Piece::Text(t) && brace_safe(t)),
    ensures
        brace_safe(flatten(ps)),
    decreases ps.len(),
{
    if ps.len() > 0 {
        let rest = ps.drop_first();
        assert forall|i: int| 0 <= i < rest.len() implies (#[trigger] rest[i] matches Piece::Text(t)
            && brace_safe(t)) by {
            assert(rest[i] == ps[i + 1]);
        }
        lemma_texts_safe(rest);
        lemma_flatten_front(ps);
        let _ = ps[0];
        lemma_brace_safe_concat(piece_text(ps[0]), flatten(rest));
    }
}

} // verus!
