//! The template renderer: produces the user-facing string for a counter.
//!
//! A template holds markers delimited by `{` and `}`. A bare marker `{}`
//! stands for the counter's own count; a named marker `{other}` stands for
//! the rendering of the counter `other`. Rendering first replaces every
//! bare marker by the count, then walks the result once from left to
//! right, replacing each named marker by the named counter's rendering
//! (which is not rescanned). The chain of names currently being rendered
//! travels down the recursion: a name that reappears in its own chain is a
//! configuration mistake and fails the rendering rather than recursing
//! forever.

use crate::database::Connection;
use crate::errors::RenderError;
use crate::models::{sql_get, Rec};
use crate::num::{i64_digits, i64_to_string};
use vstd::prelude::*;
use vstd::set_lib::lemma_len_subset;

verus! {

/// The position of the first `c` in `s`, or `s.len()` when `c` does not
/// occur.
pub open spec fn find_char(s: Seq<char>, c: char) -> int
    decreases s.len(),
{
    if s.len() == 0 {
        0
    } else if s[0] == c {
        0
    } else {
        1 + find_char(s.skip(1), c)
    }
}

/// What `find_char` returns: a position no further than the length, with
/// `c` there (if anywhere) and nowhere earlier.
pub proof fn lemma_find_char(s: Seq<char>, c: char)
    ensures
        0 <= find_char(s, c) <= s.len(),
        find_char(s, c) < s.len() ==> s[find_char(s, c)] == c,
        forall|k: int| 0 <= k < find_char(s, c) ==> s[k] != c,
    decreases s.len(),
{
    if s.len() > 0 && s[0] != c {
        lemma_find_char(s.skip(1), c);
        assert forall|k: int| 0 <= k < find_char(s, c) implies s[k] != c by {
            if k > 0 {
                assert(s.skip(1)[k - 1] != c);
            }
        }
    }
}

/// `find_char` is pinned down by those three properties.
pub proof fn lemma_find_char_at(s: Seq<char>, c: char, i: int)
    requires
        0 <= i <= s.len(),
        forall|k: int| 0 <= k < i ==> s[k] != c,
        i < s.len() ==> s[i] == c,
    ensures
        find_char(s, c) == i,
    decreases s.len(),
{
    if s.len() > 0 && s[0] != c {
        assert forall|k: int| 0 <= k < i - 1 implies s.skip(1)[k] != c by {
            assert(s[k + 1] != c);
        }
        lemma_find_char_at(s.skip(1), c, i - 1);
    }
}

/// `s` with every bare marker `{}` replaced by `val`, scanning left to
/// right without revisiting the substituted text.
pub open spec fn subst_self(s: Seq<char>, val: Seq<char>) -> Seq<char>
    decreases s.len(),
{
    if s.len() < 2 {
        s
    } else if s[0] == '{' && s[1] == '}' {
        val + subst_self(s.skip(2), val)
    } else {
        seq![s[0]] + subst_self(s.skip(1), val)
    }
}

/// A well-formed render chain over the counter map `m`: no name repeats,
/// and every name in it is a live counter.
pub open spec fn chain_ok(m: Map<Seq<char>, Rec>, chain: Seq<Seq<char>>) -> bool {
    &&& m.dom().finite()
    &&& chain.no_duplicates()
    &&& forall|i: int| 0 <= i < chain.len() ==> m.dom().contains(#[trigger] chain[i])
}

/// A well-formed chain cannot hold more names than there are counters.
pub proof fn lemma_chain_len(m: Map<Seq<char>, Rec>, chain: Seq<Seq<char>>)
    requires
        chain_ok(m, chain),
    ensures
        chain.len() <= m.dom().len(),
{
    chain.unique_seq_to_set();
    assert(chain.to_set().subset_of(m.dom())) by {
        assert forall|x: Seq<char>| chain.to_set().contains(x) implies m.dom().contains(x) by {
            let i = choose|i: int| 0 <= i < chain.len() && chain[i] == x;
            assert(m.dom().contains(chain[i]));
        }
    }
    lemma_len_subset(chain.to_set(), m.dom());
}

/// Pushing a live, not-yet-seen name keeps a chain well formed.
pub proof fn lemma_push_chain_ok(m: Map<Seq<char>, Rec>, chain: Seq<Seq<char>>, name: Seq<char>)
    requires
        chain_ok(m, chain),
        !chain.contains(name),
        m.dom().contains(name),
    ensures
        chain_ok(m, chain.push(name)),
{
    let c2 = chain.push(name);
    assert forall|i: int, j: int|
        0 <= i < c2.len() && 0 <= j < c2.len() && i != j implies c2[i] != c2[j] by {
        if i < chain.len() && j < chain.len() {
            assert(chain[i] != chain[j]);
        } else if i < chain.len() {
            if chain[i] == name {
                assert(chain.contains(name));
            }
        } else {
            if chain[j] == name {
                assert(chain.contains(name));
            }
        }
    }
}

/// What rendering the counter `name` over the counter map `m` produces,
/// with `chain` the names already being rendered, outermost first: the
/// rendered text, or the error the rendering runs into.
pub open spec fn spec_render(
    m: Map<Seq<char>, Rec>,
    chain: Seq<Seq<char>>,
    name: Seq<char>,
) -> Result<Seq<char>, RenderError>
    decreases m.dom().len() - chain.len(), 0int, 0int,
    when chain_ok(m, chain)
{
    if chain.contains(name) {
        Err(RenderError::CycleDetected)
    } else if !m.dom().contains(name) {
        Err(RenderError::UnknownCounter)
    } else {
        let chain2 = chain.push(name);
        proof {
            lemma_push_chain_ok(m, chain, name);
            lemma_chain_len(m, chain2);
        }
        spec_render_markers(
            m,
            chain2,
            subst_self(m[name].template, i64_digits(m[name].count as int)),
        )
    }
}

/// One left-to-right pass over `s`: each span from a `{` to the next `}`
/// names a counter whose rendering replaces the span, and the replacement
/// is not rescanned. A `{` with no `}` after it stands as it is.
pub open spec fn spec_render_markers(
    m: Map<Seq<char>, Rec>,
    chain: Seq<Seq<char>>,
    s: Seq<char>,
) -> Result<Seq<char>, RenderError>
    decreases m.dom().len() - chain.len(), 1int, s.len(),
    when chain_ok(m, chain)
{
    let i = find_char(s, '{');
    if i == s.len() {
        Ok(s)
    } else {
        let rest = s.skip(i + 1);
        let j = find_char(rest, '}');
        if j == rest.len() {
            Ok(s)
        } else {
            proof {
                lemma_find_char(s, '{');
                lemma_find_char(rest, '}');
                lemma_chain_len(m, chain);
            }
            match spec_render(m, chain, rest.take(j)) {
                Ok(sub) => match spec_render_markers(m, chain, rest.skip(j + 1)) {
                    Ok(tail) => Ok(s.take(i) + sub + tail),
                    Err(e) => Err(e),
                },
                Err(e) => Err(e),
            }
        }
    }
}

/// Holds when `s` has no bare marker `{}` anywhere.
pub open spec fn no_bare_marker(s: Seq<char>) -> bool {
    forall|i: int| 0 <= i < s.len() - 1 ==> !((#[trigger] s[i]) == '{' && s[i + 1] == '}')
}

/// `subst_self` leaves a string without bare markers unchanged.
pub proof fn lemma_subst_self_absent(s: Seq<char>, val: Seq<char>)
    requires
        no_bare_marker(s),
    ensures
        subst_self(s, val) == s,
    decreases s.len(),
{
    if s.len() >= 2 {
        assert(!(s[0] == '{' && s[1] == '}'));
        assert forall|i: int| 0 <= i < s.skip(1).len() - 1 implies !((#[trigger] s.skip(1)[i])
            == '{' && s.skip(1)[i + 1] == '}') by {
            assert(s.skip(1)[i] == s[i + 1]);
            assert(s.skip(1)[i + 1] == s[i + 2]);
        }
        lemma_subst_self_absent(s.skip(1), val);
        assert(subst_self(s, val) =~= s);
    }
}

/// The cycle guard: two counters whose templates reference each other are
/// rejected — rendering one of them fails with `CycleDetected` instead of
/// recursing without bound. The names must be non-empty and hold no brace
/// character (a braced name could never be written as a marker); the law
/// covers a counter referencing itself, as `a` and `b` may coincide. The
/// symmetric statement for `b` is this lemma with the names swapped.
pub proof fn lemma_mutual_reference_cycle(m: Map<Seq<char>, Rec>, a: Seq<char>, b: Seq<char>)
    requires
        m.dom().finite(),
        m.dom().contains(a),
        m.dom().contains(b),
        a.len() > 0,
        b.len() > 0,
        forall|i: int| 0 <= i < a.len() ==> (#[trigger] a[i]) != '{' && a[i] != '}',
        forall|i: int| 0 <= i < b.len() ==> (#[trigger] b[i]) != '{' && b[i] != '}',
        m[a].template == seq!['{'] + b + seq!['}'],
        m[b].template == seq!['{'] + a + seq!['}'],
    ensures
        spec_render(m, Seq::empty(), a) == Err::<Seq<char>, RenderError>(
            RenderError::CycleDetected,
        ),
{
    let e0 = Seq::<Seq<char>>::empty();
    let c1 = e0.push(a);
    let c2 = c1.push(b);
    let sa = seq!['{'] + b + seq!['}'];
    let sb = seq!['{'] + a + seq!['}'];
    assert(!e0.contains(a));
    assert(chain_ok(m, e0));
    lemma_push_chain_ok(m, e0, a);
    assert(no_bare_marker(sa)) by {
        assert forall|i: int| 0 <= i < sa.len() - 1 implies !((#[trigger] sa[i]) == '{' && sa[i
            + 1] == '}') by {
            if i == 0 {
                assert(sa[1] == b[0]);
            } else {
                assert(sa[i] == b[i - 1]);
            }
        }
    }
    lemma_subst_self_absent(sa, i64_digits(m[a].count as int));
    lemma_find_char_at(sa, '{', 0);
    let rest_a = sa.skip(1);
    assert forall|k: int| 0 <= k < b.len() implies (#[trigger] rest_a[k]) != '}' by {
        assert(rest_a[k] == b[k]);
    }
    lemma_find_char_at(rest_a, '}', b.len() as int);
    assert(rest_a.take(b.len() as int) =~= b);
    if c1.contains(b) {
        assert(c1[0] == a);
        assert(spec_render(m, c1, b) == Err::<Seq<char>, RenderError>(RenderError::CycleDetected));
    } else {
        lemma_push_chain_ok(m, c1, b);
        assert(no_bare_marker(sb)) by {
            assert forall|i: int| 0 <= i < sb.len() - 1 implies !((#[trigger] sb[i]) == '{' && sb[i
                + 1] == '}') by {
                if i == 0 {
                    assert(sb[1] == a[0]);
                } else {
                    assert(sb[i] == a[i - 1]);
                }
            }
        }
        lemma_subst_self_absent(sb, i64_digits(m[b].count as int));
        lemma_find_char_at(sb, '{', 0);
        let rest_b = sb.skip(1);
        assert forall|k: int| 0 <= k < a.len() implies (#[trigger] rest_b[k]) != '}' by {
            assert(rest_b[k] == a[k]);
        }
        lemma_find_char_at(rest_b, '}', a.len() as int);
        assert(rest_b.take(a.len() as int) =~= a);
        assert(c2.contains(a)) by {
            assert(c2[0] == a);
        }
        assert(spec_render(m, c2, a) == Err::<Seq<char>, RenderError>(RenderError::CycleDetected));
        assert(spec_render_markers(m, c2, sb) == Err::<Seq<char>, RenderError>(
            RenderError::CycleDetected,
        ));
        assert(spec_render(m, c1, b) == Err::<Seq<char>, RenderError>(RenderError::CycleDetected));
    }
    assert(spec_render_markers(m, c1, sa) == Err::<Seq<char>, RenderError>(
        RenderError::CycleDetected,
    ));
    assert(spec_render(m, e0, a) == Err::<Seq<char>, RenderError>(RenderError::CycleDetected));
}

/// The position of the first `c` in `s`, or the character length of `s`
/// when `c` does not occur.
fn find_char_in(s: &str, c: char) -> (i: usize)
    ensures
        i == find_char(s@, c),
{
    let n = s.unicode_len();
    let mut i: usize = 0;
    while i < n
        invariant
            0 <= i <= n,
            n == s@.len(),
            forall|k: int| 0 <= k < i ==> s@[k] != c,
        decreases n - i,
    {
        if s.get_char(i) == c {
            proof {
                lemma_find_char_at(s@, c, i as int);
            }
            return i;
        }
        i = i + 1;
    }
    proof {
        lemma_find_char_at(s@, c, n as int);
    }
    n
}

/// `s` with every bare marker `{}` replaced by `val`.
fn subst_self_str(s: &str, val: &str) -> (r: String)
    ensures
        r@ == subst_self(s@, val@),
    decreases s@.len(),
{
    let n = s.unicode_len();
    if n < 2 {
        return s.to_owned();
    }
    if s.get_char(0) == '{' && s.get_char(1) == '}' {
        let mut out = val.to_owned();
        let rest = subst_self_str(s.substring_char(2, n), val);
        out.append(rest.as_str());
        proof {
            assert(out@ =~= subst_self(s@, val@));
        }
        out
    } else {
        let mut out = s.substring_char(0, 1).to_owned();
        let rest = subst_self_str(s.substring_char(1, n), val);
        out.append(rest.as_str());
        proof {
            assert(out@ =~= subst_self(s@, val@));
        }
        out
    }
}

/// The views of the chain entries.
pub open spec fn chain_views(v: Seq<String>) -> Seq<Seq<char>> {
    v.map_values(|s: String| s@)
}

/// Renders one counter, with `chain` the names already being rendered.
/// The chain comes back exactly as it went in.
fn render_rec(conn: &Connection, chain: &mut Vec<String>, name: &str) -> (r: Result<
    String,
    RenderError,
>)
    requires
        conn.inv(),
        chain_ok(conn.counters(), chain_views(old(chain)@)),
    ensures
        final(chain)@ == old(chain)@,
        match r {
            Ok(s) => spec_render(conn.counters(), chain_views(old(chain)@), name@) == Ok::<
                Seq<char>,
                RenderError,
            >(s@),
            Err(RenderError::Storage(_)) => true,
            Err(e) => spec_render(conn.counters(), chain_views(old(chain)@), name@) == Err::<
                Seq<char>,
                RenderError,
            >(e),
        },
    decreases conn.counters().dom().len() - chain@.len(), 0int, 0int,
{
    let ghost m = conn.counters();
    let ghost cv = chain_views(chain@);
    let name_string = name.to_owned();
    let n_chain = chain.len();
    let mut k: usize = 0;
    while k < n_chain
        invariant
            0 <= k <= n_chain,
            n_chain == chain@.len(),
            chain@ == old(chain)@,
            cv == chain_views(chain@),
            m == conn.counters(),
            chain_ok(m, cv),
            name_string@ == name@,
            forall|t: int| 0 <= t < k ==> chain@[t]@ != name@,
        decreases n_chain - k,
    {
        if chain[k] == name_string {
            proof {
                assert(chain@[k as int]@ == name@);
                assert(cv.len() == chain@.len());
                assert(cv[k as int] == chain@[k as int]@);
                assert(cv.contains(name@));
            }
            return Err(RenderError::CycleDetected);
        }
        k = k + 1;
    }
    proof {
        assert(!cv.contains(name@)) by {
            if cv.contains(name@) {
                let t = choose|t: int| 0 <= t < cv.len() && cv[t] == name@;
                assert(chain@[t]@ != name@);
            }
        }
    }
    let got = match sql_get(conn, name) {
        Ok(g) => g,
        Err(e) => return Err(RenderError::Storage(e)),
    };
    let c = match got {
        Some(c) => c,
        None => {
            return Err(RenderError::UnknownCounter);
        },
    };
    let own = i64_to_string(c.count);
    let body = subst_self_str(c.template.as_str(), own.as_str());
    chain.push(name_string);
    proof {
        assert(chain_views(chain@) =~= cv.push(name@));
        lemma_push_chain_ok(m, cv, name@);
        lemma_chain_len(m, chain_views(chain@));
        assert(body@ == subst_self(m[name@].template, i64_digits(m[name@].count as int)));
    }
    let res = render_markers_rec(conn, chain, body.as_str());
    let _ = chain.pop();
    proof {
        assert(chain@ =~= old(chain)@);
    }
    res
}

/// One left-to-right pass of marker substitution over `s`, as
/// `spec_render_markers` describes it. The chain comes back exactly as it
/// went in.
fn render_markers_rec(conn: &Connection, chain: &mut Vec<String>, s: &str) -> (r: Result<
    String,
    RenderError,
>)
    requires
        conn.inv(),
        chain_ok(conn.counters(), chain_views(old(chain)@)),
    ensures
        final(chain)@ == old(chain)@,
        match r {
            Ok(t) => spec_render_markers(conn.counters(), chain_views(old(chain)@), s@) == Ok::<
                Seq<char>,
                RenderError,
            >(t@),
            Err(RenderError::Storage(_)) => true,
            Err(e) => spec_render_markers(conn.counters(), chain_views(old(chain)@), s@) == Err::<
                Seq<char>,
                RenderError,
            >(e),
        },
    decreases conn.counters().dom().len() - chain@.len(), 1int, s@.len(),
{
    let ghost m = conn.counters();
    let ghost cv = chain_views(chain@);
    let n = s.unicode_len();
    let i = find_char_in(s, '{');
    if i == n {
        return Ok(s.to_owned());
    }
    proof {
        lemma_find_char(s@, '{');
    }
    let rest = s.substring_char(i + 1, n);
    let rest_len = rest.unicode_len();
    let j = find_char_in(rest, '}');
    if j == rest_len {
        return Ok(s.to_owned());
    }
    proof {
        lemma_find_char(rest@, '}');
        lemma_chain_len(m, cv);
    }
    let content = rest.substring_char(0, j);
    let sub = match render_rec(conn, chain, content) {
        Ok(x) => x,
        Err(e) => return Err(e),
    };
    let tail = match render_markers_rec(conn, chain, rest.substring_char(j + 1, rest_len)) {
        Ok(x) => x,
        Err(e) => return Err(e),
    };
    let mut out = s.substring_char(0, i).to_owned();
    out.append(sub.as_str());
    out.append(tail.as_str());
    proof {
        assert(out@ =~= s@.take(i as int) + sub@ + tail@);
    }
    Ok(out)
}

/// Renders the counter `name`: its template with every bare marker
/// replaced by its own count and every named marker replaced by the named
/// counter's rendering. Fails with `UnknownCounter` when a referenced name
/// does not resolve to a live counter, and with `CycleDetected` when the
/// chain of references revisits a counter that is already being rendered.
/// Rendering is read-only: it never mutates a counter.
pub fn render(conn: &Connection, name: &str) -> (r: Result<String, RenderError>)
    requires
        conn.inv(),
    ensures
        match r {
            Ok(s) => spec_render(conn.counters(), Seq::empty(), name@) == Ok::<
                Seq<char>,
                RenderError,
            >(s@),
            Err(RenderError::Storage(_)) => true,
            Err(e) => spec_render(conn.counters(), Seq::empty(), name@) == Err::<
                Seq<char>,
                RenderError,
            >(e),
        },
{
    let mut chain: Vec<String> = Vec::new();
    proof {
        assert(chain_views(chain@) =~= Seq::<Seq<char>>::empty());
    }
    render_rec(conn, &mut chain, name)
}

} // verus!
