//! Lexicographic order on character sequences (the order of `str`), and sorting with
//! duplicates removed.

use vstd::prelude::*;

verus! {

/// `a` comes before `b` or equals it, comparing code points from the left; a proper
/// prefix comes first. This is the order of `str` and `String`.
pub open spec fn lex_le(a: Seq<char>, b: Seq<char>) -> bool
    decreases a.len(),
{
    if a.len() == 0 {
        true
    } else if b.len() == 0 {
        false
    } else if a[0] < b[0] {
        true
    } else if a[0] > b[0] {
        false
    } else {
        lex_le(a.drop_first(), b.drop_first())
    }
}

/// `a` comes strictly before `b`.
pub open spec fn lex_lt(a: Seq<char>, b: Seq<char>) -> bool {
    lex_le(a, b) && a != b
}

/// The sequence is in strictly increasing order: sorted, no element twice.
pub open spec fn sorted_lt(s: Seq<Seq<char>>) -> bool {
    forall|i: int, j: int| 0 <= i < j < s.len() ==> lex_lt(s[i], s[j])
}

pub proof fn lemma_lex_refl(a: Seq<char>)
    ensures
        lex_le(a, a),
    decreases a.len(),
{
    if a.len() > 0 {
        lemma_lex_refl(a.drop_first());
    }
}

pub proof fn lemma_lex_total(a: Seq<char>, b: Seq<char>)
    ensures
        lex_le(a, b) || lex_le(b, a),
    decreases a.len(),
{
    if a.len() > 0 && b.len() > 0 && a[0] == b[0] {
        lemma_lex_total(a.drop_first(), b.drop_first());
    }
}

pub proof fn lemma_lex_antisym(a: Seq<char>, b: Seq<char>)
    requires
        lex_le(a, b),
        lex_le(b, a),
    ensures
        a == b,
    decreases a.len(),
{
    if a.len() > 0 && b.len() > 0 {
        assert(a[0] == b[0]);
        lemma_lex_antisym(a.drop_first(), b.drop_first());
        assert(a =~= seq![a[0]] + a.drop_first());
        assert(b =~= seq![b[0]] + b.drop_first());
    } else {
        assert(a.len() == 0 && b.len() == 0);
        assert(a =~= b);
    }
}

pub proof fn lemma_lex_trans(a: Seq<char>, b: Seq<char>, c: Seq<char>)
    requires
        lex_le(a, b),
        lex_le(b, c),
    ensures
        lex_le(a, c),
    decreases a.len(),
{
    if a.len() > 0 && b.len() > 0 && c.len() > 0 {
        if a[0] == b[0] && b[0] == c[0] {
            lemma_lex_trans(a.drop_first(), b.drop_first(), c.drop_first());
        }
    }
}

/// Compares two strings in the order of `str`.
pub fn lex_le_exec(a: &str, b: &str) -> (r: bool)
    ensures
        r == lex_le(a@, b@),
{
    let x = crate::text::chars_of(a);
    let y = crate::text::chars_of(b);
    let mut i: usize = 0;
    proof {
        assert(a@.subrange(0, a@.len() as int) =~= a@);
        assert(b@.subrange(0, b@.len() as int) =~= b@);
    }
    while i < x.len() && i < y.len()
        invariant
            x@ == a@,
            y@ == b@,
            i <= x.len(),
            i <= y.len(),
            lex_le(a@, b@) == lex_le(a@.subrange(i as int, a@.len() as int), b@.subrange(i as int, b@.len() as int)),
        decreases x.len() - i,
    {
        let ghost sa = a@.subrange(i as int, a@.len() as int);
        let ghost sb = b@.subrange(i as int, b@.len() as int);
        proof {
            assert(sa[0] == x@[i as int] && sb[0] == y@[i as int]);
            assert(sa.drop_first() =~= a@.subrange(i + 1, a@.len() as int));
            assert(sb.drop_first() =~= b@.subrange(i + 1, b@.len() as int));
        }
        let p = x[i];
        let q = y[i];
        if p < q {
            return true;
        }
        if p > q {
            return false;
        }
        i += 1;
    }
    proof {
        let sa = a@.subrange(i as int, a@.len() as int);
        let sb = b@.subrange(i as int, b@.len() as int);
        assert(sa.len() == 0 || sb.len() == 0);
    }
    i == x.len()
}

/// The strings in increasing order, each once.
pub fn sorted_unique(v: Vec<String>) -> (r: Vec<String>)
    ensures
        sorted_lt(crate::text::views(r@)),
        forall|x: Seq<char>| crate::text::views(r@).contains(x) <==> crate::text::views(v@).contains(x),
{
    let mut r: Vec<String> = Vec::new();
    let mut i: usize = 0;
    while i < v.len()
        invariant
            i <= v.len(),
            sorted_lt(crate::text::views(r@)),
            forall|x: Seq<char>| crate::text::views(r@).contains(x) <==> crate::text::views(v@.subrange(0, i as int)).contains(x),
        decreases v.len() - i,
    {
        let ghost rv = crate::text::views(r@);
        let item = &v[i];
        // position of the first element not below `item`
        let mut p: usize = 0;
        while p < r.len() && !lex_le_exec(item.as_str(), r[p].as_str())
            invariant
                p <= r.len(),
                rv == crate::text::views(r@),
                forall|k: int| 0 <= k < p ==> lex_lt(rv[k], item@),
            decreases r.len() - p,
        {
            proof {
                lemma_lex_total(item@, rv[p as int]);
                if rv[p as int] == item@ {
                    lemma_lex_refl(item@);
                }
            }
            p += 1;
        }
        let ghost sub_old = crate::text::views(v@.subrange(0, i as int));
        proof {
            assert(crate::text::views(v@.subrange(0, i + 1)) =~= sub_old.push(item@));
        }
        if p < r.len() && crate::text::same_text(r[p].as_str(), item.as_str()) {
            proof {
                assert(rv.contains(item@)) by {
                    assert(rv[p as int] == item@);
                }
                assert forall|x: Seq<char>| rv.contains(x) <==> sub_old.push(item@).contains(x) by {
                    if sub_old.push(item@).contains(x) {
                        let k = choose|k: int| 0 <= k < sub_old.push(item@).len() && sub_old.push(item@)[k] == x;
                        if k < sub_old.len() {
                            assert(sub_old[k] == x);
                        }
                    }
                    if sub_old.contains(x) {
                        let k = choose|k: int| 0 <= k < sub_old.len() && sub_old[k] == x;
                        assert(sub_old.push(item@)[k] == x);
                    }
                }
            }
        } else {
            r.insert(p, item.clone());
            proof {
                let nv = crate::text::views(r@);
                assert(nv =~= rv.insert(p as int, item@));
                // everything from p on is above item
                assert forall|k: int| p <= k < rv.len() implies lex_lt(item@, #[trigger] rv[k]) by {
                    assert(lex_le(item@, rv[p as int]));
                    assert(rv[p as int] != item@);
                    if k > p {
                        assert(lex_lt(rv[p as int], rv[k]));
                        lemma_lex_trans(item@, rv[p as int], rv[k]);
                        if item@ == rv[k] {
                            lemma_lex_antisym(rv[p as int], rv[k]);
                        }
                    }
                }
                assert forall|a: int, b: int| 0 <= a < b < nv.len() implies lex_lt(nv[a], nv[b]) by {
                    if b < p {
                        assert(nv[a] == rv[a] && nv[b] == rv[b]);
                    } else if b == p {
                        assert(nv[a] == rv[a] && nv[b] == item@);
                    } else if a < p {
                        assert(nv[a] == rv[a] && nv[b] == rv[b - 1]);
                        assert(lex_lt(rv[a], item@));
                        assert(lex_lt(item@, rv[b - 1]));
                        lemma_lex_trans(rv[a], item@, rv[b - 1]);
                        if rv[a] == rv[b - 1] {
                            lemma_lex_antisym(rv[a], item@);
                        }
                    } else if a == p {
                        assert(nv[a] == item@ && nv[b] == rv[b - 1]);
                    } else {
                        assert(nv[a] == rv[a - 1] && nv[b] == rv[b - 1]);
                    }
                }
                assert forall|x: Seq<char>| nv.contains(x) <==> sub_old.push(item@).contains(x) by {
                    if nv.contains(x) {
                        let k = choose|k: int| 0 <= k < nv.len() && nv[k] == x;
                        if k < p {
                            assert(rv[k] == x);
                            assert(rv.contains(x));
                        } else if k == p {
                            assert(sub_old.push(item@)[sub_old.len() as int] == x);
                        } else {
                            assert(rv[k - 1] == x);
                            assert(rv.contains(x));
                        }
                        if rv.contains(x) {
                            assert(sub_old.contains(x));
                            let j = choose|j: int| 0 <= j < sub_old.len() && sub_old[j] == x;
                            assert(sub_old.push(item@)[j] == x);
                        }
                    }
                    if sub_old.push(item@).contains(x) {
                        let k = choose|k: int| 0 <= k < sub_old.push(item@).len() && sub_old.push(item@)[k] == x;
                        if k < sub_old.len() {
                            assert(sub_old[k] == x);
                            assert(rv.contains(x));
                            let j = choose|j: int| 0 <= j < rv.len() && rv[j] == x;
                            if j < p {
                                assert(nv[j] == x);
                            } else {
                                assert(nv[j + 1] == x);
                            }
                        } else {
                            assert(nv[p as int] == x);
                        }
                    }
                }
            }
        }
        i += 1;
    }
    proof {
        assert(v@.subrange(0, i as int) =~= v@);
    }
    r
}

} // verus!
