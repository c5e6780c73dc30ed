//! The canonical order of environment bindings: by name, comparing code
//! points, so that the same bindings always give the same text.
use vstd::prelude::*;
use vstd::string::*;
use crate::literal::lemma_char_code_unique;

verus! {

/// `a` comes before `b`: by code point, a proper prefix first.
pub open spec fn key_less(a: Seq<char>, b: Seq<char>) -> bool
    decreases a.len(),
{
    if a.len() == 0 {
        b.len() > 0
    } else if b.len() == 0 {
        false
    } else if (a[0] as u32) < (b[0] as u32) {
        true
    } else if a[0] == b[0] {
        key_less(a.drop_first(), b.drop_first())
    } else {
        false
    }
}

/// Bindings in strictly increasing order of name.
pub open spec fn strictly_sorted(s: Seq<(Seq<char>, Seq<char>)>) -> bool {
    forall|i: int, j: int| 0 <= i < j < s.len() ==> key_less(#[trigger] s[i].0, #[trigger] s[j].0)
}

/// No two bindings share a name.
pub open spec fn keys_unique(s: Seq<(Seq<char>, Seq<char>)>) -> bool {
    forall|i: int, j: int| 0 <= i < j < s.len() ==> #[trigger] s[i].0 != #[trigger] s[j].0
}

/// `s` and `t` hold the same bindings.
pub open spec fn same_elements(s: Seq<(Seq<char>, Seq<char>)>, t: Seq<(Seq<char>, Seq<char>)>) -> bool {
    forall|x: (Seq<char>, Seq<char>)| s.contains(x) <==> t.contains(x)
}

pub proof fn lemma_key_less_irreflexive(a: Seq<char>)
    ensures
        !key_less(a, a),
    decreases a.len(),
{
    if a.len() > 0 {
        lemma_key_less_irreflexive(a.drop_first());
    }
}

pub proof fn lemma_key_less_transitive(a: Seq<char>, b: Seq<char>, c: Seq<char>)
    requires
        key_less(a, b),
        key_less(b, c),
    ensures
        key_less(a, c),
    decreases a.len(),
{
    if a.len() > 0 && a[0] == b[0] && b[0] == c[0] {
        lemma_key_less_transitive(a.drop_first(), b.drop_first(), c.drop_first());
    }
}

pub proof fn lemma_key_less_total(a: Seq<char>, b: Seq<char>)
    ensures
        a != b ==> key_less(a, b) || key_less(b, a),
    decreases a.len(),
{
    if a.len() > 0 && b.len() > 0 && a[0] == b[0] {
        lemma_key_less_total(a.drop_first(), b.drop_first());
        if a.drop_first() == b.drop_first() {
            assert(a =~= seq![a[0]] + a.drop_first());
            assert(b =~= seq![b[0]] + b.drop_first());
        }
    } else if a.len() == 0 && b.len() == 0 {
        assert(a =~= b);
    } else if a.len() > 0 && b.len() > 0 {
        lemma_char_code_unique(a[0], b[0]);
    }
}

/// Two strictly sorted arrangements of the same bindings are one and the same.
pub proof fn lemma_sorted_unique(s: Seq<(Seq<char>, Seq<char>)>, t: Seq<(Seq<char>, Seq<char>)>)
    requires
        strictly_sorted(s),
        strictly_sorted(t),
        same_elements(s, t),
    ensures
        s == t,
    decreases s.len(),
{
    if s.len() == 0 {
        if t.len() > 0 {
            assert(t.contains(t[0]));
        }
        assert(s =~= t);
    } else {
        assert(s.contains(s[0]));
        let j = choose|j: int| 0 <= j < t.len() && t[j] == s[0];
        assert(t.contains(t[0]));
        let i = choose|i: int| 0 <= i < s.len() && s[i] == t[0];
        if j > 0 {
            if i > 0 {
                assert(key_less(s[0].0, s[i].0));
                assert(key_less(t[0].0, t[j].0));
                lemma_key_less_transitive(s[0].0, s[i].0, s[0].0);
                lemma_key_less_irreflexive(s[0].0);
            } else {
                assert(key_less(t[0].0, t[j].0));
                lemma_key_less_irreflexive(s[0].0);
            }
        }
        assert(s[0] == t[0]);
        let s1 = s.drop_first();
        let u1 = t.drop_first();
        assert forall|x: (Seq<char>, Seq<char>)| s1.contains(x) <==> u1.contains(x) by {
            if s1.contains(x) {
                let k = choose|k: int| 0 <= k < s1.len() && s1[k] == x;
                assert(s[k + 1] == x);
                assert(t.contains(x));
                let m = choose|m: int| 0 <= m < t.len() && t[m] == x;
                if m == 0 {
                    assert(key_less(s[0].0, s[k + 1].0));
                    lemma_key_less_irreflexive(x.0);
                }
                assert(u1[m - 1] == x);
            }
            if u1.contains(x) {
                let k = choose|k: int| 0 <= k < u1.len() && u1[k] == x;
                assert(t[k + 1] == x);
                assert(s.contains(x));
                let m = choose|m: int| 0 <= m < s.len() && s[m] == x;
                if m == 0 {
                    assert(key_less(t[0].0, t[k + 1].0));
                    lemma_key_less_irreflexive(x.0);
                }
                assert(s1[m - 1] == x);
            }
        }
        assert(strictly_sorted(s1)) by {
            assert forall|a: int, b: int| 0 <= a < b < s1.len() implies key_less(
                #[trigger] s1[a].0,
                #[trigger] s1[b].0,
            ) by {
                assert(s1[a] == s[a + 1] && s1[b] == s[b + 1]);
            }
        }
        assert(strictly_sorted(u1)) by {
            assert forall|a: int, b: int| 0 <= a < b < u1.len() implies key_less(
                #[trigger] u1[a].0,
                #[trigger] u1[b].0,
            ) by {
                assert(u1[a] == t[a + 1] && u1[b] == t[b + 1]);
            }
        }
        lemma_sorted_unique(s1, u1);
        assert(s =~= seq![s[0]] + s1);
        assert(t =~= seq![t[0]] + u1);
    }
}

/// Whether `a` comes before `b`.
pub fn key_lt(a: &str, b: &str) -> (r: bool)
    ensures
        r == key_less(a@, b@),
{
    let n = a.unicode_len();
    let m = b.unicode_len();
    let mut i: usize = 0;
    assert(a@.subrange(0, n as int) =~= a@);
    assert(b@.subrange(0, m as int) =~= b@);
    while i < n && i < m
        invariant
            n == a@.len(),
            m == b@.len(),
            i <= n,
            i <= m,
            key_less(a@, b@) == key_less(a@.subrange(i as int, n as int), b@.subrange(i as int, m as int)),
        decreases n - i,
    {
        let x = a.get_char(i);
        let y = b.get_char(i);
        proof {
            let sa = a@.subrange(i as int, n as int);
            let sb = b@.subrange(i as int, m as int);
            assert(sa[0] == x && sb[0] == y);
            assert(sa.drop_first() =~= a@.subrange(i + 1, n as int));
            assert(sb.drop_first() =~= b@.subrange(i + 1, m as int));
        }
        if (x as u32) < (y as u32) {
            return true;
        }
        if x != y {
            return false;
        }
        i = i + 1;
    }
    i == n && i < m
}

/// The bindings of `v` as plain sequences.
pub open spec fn binding_pairs(v: Seq<(String, String)>) -> Seq<(Seq<char>, Seq<char>)> {
    v.map_values(|p: (String, String)| (p.0@, p.1@))
}

/// `s` with `x` put in its place by name.
pub open spec fn insert_sorted(s: Seq<(Seq<char>, Seq<char>)>, x: (Seq<char>, Seq<char>)) -> Seq<
    (Seq<char>, Seq<char>),
>
    decreases s.len(),
{
    if s.len() == 0 {
        seq![x]
    } else if key_less(s[0].0, x.0) {
        seq![s[0]] + insert_sorted(s.drop_first(), x)
    } else {
        seq![x] + s
    }
}

/// The bindings of `env` in canonical order, by name.
pub open spec fn canonical_bindings(env: Seq<(Seq<char>, Seq<char>)>) -> Seq<(Seq<char>, Seq<char>)>
    decreases env.len(),
{
    if env.len() == 0 {
        Seq::empty()
    } else {
        insert_sorted(canonical_bindings(env.drop_last()), env.last())
    }
}

proof fn lemma_insert_sorted(s: Seq<(Seq<char>, Seq<char>)>, x: (Seq<char>, Seq<char>))
    requires
        strictly_sorted(s),
        forall|i: int| 0 <= i < s.len() ==> #[trigger] s[i].0 != x.0,
    ensures
        strictly_sorted(insert_sorted(s, x)),
        forall|y: (Seq<char>, Seq<char>)| #[trigger]
            insert_sorted(s, x).contains(y) <==> (s.contains(y) || y == x),
    decreases s.len(),
{
    let out = insert_sorted(s, x);
    if s.len() == 0 {
        assert forall|y: (Seq<char>, Seq<char>)| #[trigger] out.contains(y) <==> (s.contains(y) || y
            == x) by {
            assert(out[0] == x);
        }
    } else if key_less(s[0].0, x.0) {
        let t = s.drop_first();
        assert forall|a: int, b: int| 0 <= a < b < t.len() implies key_less(
            #[trigger] t[a].0,
            #[trigger] t[b].0,
        ) by {
            assert(t[a] == s[a + 1] && t[b] == s[b + 1]);
        }
        assert forall|i: int| 0 <= i < t.len() implies #[trigger] t[i].0 != x.0 by {
            assert(t[i] == s[i + 1]);
        }
        lemma_insert_sorted(t, x);
        let r = insert_sorted(t, x);
        assert(out == seq![s[0]] + r);
        assert forall|y: (Seq<char>, Seq<char>)| #[trigger] out.contains(y) <==> (s.contains(y) || y
            == x) by {
            if out.contains(y) {
                let k = choose|k: int| 0 <= k < out.len() && out[k] == y;
                if k > 0 {
                    assert(r[k - 1] == y);
                    assert(r.contains(y));
                    if t.contains(y) {
                        let m = choose|m: int| 0 <= m < t.len() && t[m] == y;
                        assert(s[m + 1] == y);
                    }
                }
            }
            if s.contains(y) {
                let k = choose|k: int| 0 <= k < s.len() && s[k] == y;
                if k == 0 {
                    assert(out[0] == y);
                } else {
                    assert(t[k - 1] == y);
                    assert(r.contains(y));
                    let m = choose|m: int| 0 <= m < r.len() && r[m] == y;
                    assert(out[m + 1] == y);
                }
            }
            if y == x {
                assert(r.contains(x));
                let m = choose|m: int| 0 <= m < r.len() && r[m] == x;
                assert(out[m + 1] == x);
            }
        }
        assert forall|a: int, b: int| 0 <= a < b < out.len() implies key_less(
            #[trigger] out[a].0,
            #[trigger] out[b].0,
        ) by {
            if a == 0 {
                assert(out[b] == r[b - 1]);
                assert(r.contains(r[b - 1]));
                if t.contains(r[b - 1]) {
                    let m = choose|m: int| 0 <= m < t.len() && t[m] == r[b - 1];
                    assert(s[m + 1] == r[b - 1]);
                }
            } else {
                assert(out[a] == r[a - 1] && out[b] == r[b - 1]);
            }
        }
    } else {
        lemma_key_less_total(s[0].0, x.0);
        assert(out == seq![x] + s);
        assert forall|a: int, b: int| 0 <= a < b < out.len() implies key_less(
            #[trigger] out[a].0,
            #[trigger] out[b].0,
        ) by {
            if a == 0 {
                assert(out[b] == s[b - 1]);
                if b - 1 > 0 {
                    lemma_key_less_transitive(x.0, s[0].0, s[b - 1].0);
                }
            } else {
                assert(out[a] == s[a - 1] && out[b] == s[b - 1]);
            }
        }
        assert forall|y: (Seq<char>, Seq<char>)| #[trigger] out.contains(y) <==> (s.contains(y) || y
            == x) by {
            if out.contains(y) {
                let k = choose|k: int| 0 <= k < out.len() && out[k] == y;
                if k > 0 {
                    assert(s[k - 1] == y);
                }
            }
            if s.contains(y) {
                let k = choose|k: int| 0 <= k < s.len() && s[k] == y;
                assert(out[k + 1] == y);
            }
            if y == x {
                assert(out[0] == x);
            }
        }
    }
}

/// For bindings with distinct names, the canonical order is strictly sorted
/// and holds exactly those bindings.
pub proof fn lemma_canonical_bindings(env: Seq<(Seq<char>, Seq<char>)>)
    requires
        keys_unique(env),
    ensures
        strictly_sorted(canonical_bindings(env)),
        same_elements(canonical_bindings(env), env),
    decreases env.len(),
{
    if env.len() > 0 {
        let d = env.drop_last();
        let x = env.last();
        assert forall|a: int, b: int| 0 <= a < b < d.len() implies #[trigger] d[a].0
            != #[trigger] d[b].0 by {
            assert(d[a] == env[a] && d[b] == env[b]);
        }
        lemma_canonical_bindings(d);
        let c = canonical_bindings(d);
        assert forall|i: int| 0 <= i < c.len() implies #[trigger] c[i].0 != x.0 by {
            assert(c.contains(c[i]));
            assert(d.contains(c[i]));
            let k = choose|k: int| 0 <= k < d.len() && d[k] == c[i];
            assert(env[k] == d[k]);
            assert(env[env.len() - 1] == x);
        }
        lemma_insert_sorted(c, x);
        assert(env =~= d.push(x));
        assert forall|y: (Seq<char>, Seq<char>)| canonical_bindings(env).contains(y)
            <==> env.contains(y) by {
            assert(insert_sorted(c, x).contains(y) <==> (c.contains(y) || y == x));
            if env.contains(y) {
                let k = choose|k: int| 0 <= k < env.len() && env[k] == y;
                if k < env.len() - 1 {
                    assert(d[k] == y);
                }
            }
            if d.contains(y) {
                let k = choose|k: int| 0 <= k < d.len() && d[k] == y;
                assert(env[k] == y);
            }
            if y == x {
                assert(env[env.len() - 1] == y);
            }
        }
    }
}

/// The canonical order depends only on which bindings there are, not on the
/// order they were given in.
pub proof fn lemma_canonical_ignores_given_order(
    e1: Seq<(Seq<char>, Seq<char>)>,
    e2: Seq<(Seq<char>, Seq<char>)>,
)
    requires
        keys_unique(e1),
        keys_unique(e2),
        same_elements(e1, e2),
    ensures
        canonical_bindings(e1) == canonical_bindings(e2),
{
    lemma_canonical_bindings(e1);
    lemma_canonical_bindings(e2);
    lemma_sorted_unique(canonical_bindings(e1), canonical_bindings(e2));
}

/// The bindings of `vars` in canonical order; fails with a name that two
/// bindings share.
pub fn sort_bindings(vars: &Vec<(String, String)>) -> (r: Result<Vec<(String, String)>, String>)
    ensures
        r is Ok <==> keys_unique(binding_pairs(vars@)),
        r matches Ok(s) ==> binding_pairs(s@) == canonical_bindings(binding_pairs(vars@)),
        r matches Err(k) ==> exists|i: int, j: int|
            0 <= i < j < vars@.len() && #[trigger] binding_pairs(vars@)[i].0 == k@
                && #[trigger] binding_pairs(vars@)[j].0 == k@,
{
    let ghost env = binding_pairs(vars@);
    let mut sorted: Vec<(String, String)> = Vec::new();
    let mut i: usize = 0;
    assert(binding_pairs(sorted@) =~= Seq::<(Seq<char>, Seq<char>)>::empty());
    while i < vars.len()
        invariant
            env == binding_pairs(vars@),
            i <= vars.len(),
            strictly_sorted(binding_pairs(sorted@)),
            same_elements(binding_pairs(sorted@), env.subrange(0, i as int)),
            keys_unique(env.subrange(0, i as int)),
        decreases vars.len() - i,
    {
        let ghost old_view = binding_pairs(sorted@);
        let ghost x = env[i as int];
        let mut p: usize = 0;
        while p < sorted.len() && key_lt(sorted[p].0.as_str(), vars[i].0.as_str())
            invariant
                env == binding_pairs(vars@),
                i < vars.len(),
                x == env[i as int],
                old_view == binding_pairs(sorted@),
                p <= sorted.len(),
                forall|q: int| 0 <= q < p ==> key_less(#[trigger] old_view[q].0, x.0),
            decreases sorted.len() - p,
        {
            p = p + 1;
        }
        if p < sorted.len() && !key_lt(vars[i].0.as_str(), sorted[p].0.as_str()) {
            proof {
                lemma_key_less_total(old_view[p as int].0, x.0);
                assert(old_view.contains(old_view[p as int]));
                let pre = env.subrange(0, i as int);
                assert(pre.contains(old_view[p as int]));
                let k = choose|k: int| 0 <= k < pre.len() && pre[k] == old_view[p as int];
                assert(env[k] == pre[k]);
            }
            return Err(vars[i].0.clone());
        }
        proof {
            assert forall|q: int| 0 <= q < old_view.len() implies #[trigger] old_view[q].0 != x.0 by {
                if q < p {
                    lemma_key_less_irreflexive(x.0);
                } else {
                    if q > p {
                        lemma_key_less_transitive(x.0, old_view[p as int].0, old_view[q].0);
                    }
                    lemma_key_less_irreflexive(x.0);
                }
            }
        }
        let k = vars[i].0.clone();
        let v = vars[i].1.clone();
        sorted.insert(p, (k, v));
        proof {
            let nv = binding_pairs(sorted@);
            assert(nv =~= old_view.insert(p as int, x));
            assert forall|a: int, b: int| 0 <= a < b < nv.len() implies key_less(
                #[trigger] nv[a].0,
                #[trigger] nv[b].0,
            ) by {
                if b < p {
                    assert(nv[a] == old_view[a] && nv[b] == old_view[b]);
                } else if b == p {
                    assert(nv[a] == old_view[a]);
                } else if a < p {
                    assert(nv[a] == old_view[a] && nv[b] == old_view[b - 1]);
                } else if a == p {
                    assert(nv[b] == old_view[b - 1]);
                    if b - 1 > p {
                        lemma_key_less_transitive(x.0, old_view[p as int].0, old_view[b - 1].0);
                    }
                } else {
                    assert(nv[a] == old_view[a - 1] && nv[b] == old_view[b - 1]);
                }
            }
            let pre = env.subrange(0, i as int);
            let pre1 = env.subrange(0, i + 1);
            assert(pre1 =~= pre.push(x));
            assert forall|y: (Seq<char>, Seq<char>)| nv.contains(y) <==> pre1.contains(y) by {
                if nv.contains(y) {
                    let k = choose|k: int| 0 <= k < nv.len() && nv[k] == y;
                    if k < p {
                        assert(old_view[k] == y);
                    } else if k > p {
                        assert(old_view[k - 1] == y);
                    }
                    if y != x {
                        assert(old_view.contains(y));
                        assert(pre.contains(y));
                        let m = choose|m: int| 0 <= m < pre.len() && pre[m] == y;
                        assert(pre1[m] == y);
                    } else {
                        assert(pre1[i as int] == y);
                    }
                }
                if pre1.contains(y) {
                    let k = choose|k: int| 0 <= k < pre1.len() && pre1[k] == y;
                    if k < i {
                        assert(pre[k] == y);
                        assert(pre.contains(y));
                        assert(old_view.contains(y));
                        let m = choose|m: int| 0 <= m < old_view.len() && old_view[m] == y;
                        if m < p {
                            assert(nv[m] == y);
                        } else {
                            assert(nv[m + 1] == y);
                        }
                    } else {
                        assert(nv[p as int] == y);
                    }
                }
            }
            assert forall|a: int, b: int| 0 <= a < b < pre1.len() implies #[trigger] pre1[a].0
                != #[trigger] pre1[b].0 by {
                if b < i {
                    assert(pre1[a] == pre[a] && pre1[b] == pre[b]);
                } else {
                    assert(pre1[a] == pre[a]);
                    assert(pre.contains(pre[a]));
                    assert(old_view.contains(pre[a]));
                }
            }
        }
        i = i + 1;
    }
    proof {
        assert(env.subrange(0, vars.len() as int) =~= env);
        lemma_canonical_bindings(env);
        assert(same_elements(binding_pairs(sorted@), canonical_bindings(env)));
        lemma_sorted_unique(binding_pairs(sorted@), canonical_bindings(env));
    }
    Ok(sorted)
}

} // verus!
