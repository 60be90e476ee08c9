use vstd::prelude::*;
use vstd::multiset::Multiset;
use vstd::string::StrSliceExecFns;
use crate::reconstruct::{Capture, capture_view, captures_view};

verus! {

/// `a` sorts before `b`: character by character, a proper prefix first.
pub open spec fn name_lt(a: Seq<char>, b: Seq<char>) -> bool
    decreases a.len(),
{
    if a.len() == 0 {
        b.len() > 0
    } else if b.len() == 0 {
        false
    } else if a[0] != b[0] {
        a[0] < b[0]
    } else {
        name_lt(a.drop_first(), b.drop_first())
    }
}

pub proof fn lemma_name_lt_irreflexive(a: Seq<char>)
    ensures
        !name_lt(a, a),
    decreases a.len(),
{
    if a.len() > 0 {
        lemma_name_lt_irreflexive(a.drop_first());
    }
}

pub proof fn lemma_name_lt_transitive(a: Seq<char>, b: Seq<char>, c: Seq<char>)
    requires
        name_lt(a, b),
        name_lt(b, c),
    ensures
        name_lt(a, c),
    decreases a.len(),
{
    if a.len() > 0 && b.len() > 0 && c.len() > 0 && a[0] == b[0] && b[0] == c[0] {
        lemma_name_lt_transitive(a.drop_first(), b.drop_first(), c.drop_first());
    }
}

proof fn lemma_empty_multiset(s: Seq<(Seq<char>, Seq<char>)>)
    requires
        s.len() == 0,
    ensures
        s.to_multiset() =~= Multiset::empty(),
{
    vstd::seq_lib::to_multiset_len(s);
    vstd::multiset::lemma_multiset_empty_len(s.to_multiset());
}

pub proof fn lemma_name_lt_total(a: Seq<char>, b: Seq<char>)
    requires
        a != b,
    ensures
        name_lt(a, b) || name_lt(b, a),
    decreases a.len(),
{
    if a.len() > 0 && b.len() > 0 && a[0] == b[0] {
        if a.drop_first() == b.drop_first() {
            assert(a =~= seq![a[0]] + a.drop_first());
            assert(b =~= seq![b[0]] + b.drop_first());
        }
        lemma_name_lt_total(a.drop_first(), b.drop_first());
    } else if a.len() == 0 && b.len() == 0 {
        assert(a =~= b);
    }
}

/// Captures ordered by placeholder name.
pub open spec fn sorted_by_name(cs: Seq<(Seq<char>, Seq<char>)>) -> bool {
    forall|i: int, j: int| 0 <= i < j < cs.len() ==> !name_lt(cs[j].0, cs[i].0)
}

/// Whether `a` sorts before `b`.
pub fn name_less(a: &String, b: &String) -> (r: bool)
    ensures
        r == name_lt(a@, b@),
{
    let n = a.as_str().unicode_len();
    let m = b.as_str().unicode_len();
    let mut k: usize = 0;
    assert(a@.skip(0) =~= a@ && b@.skip(0) =~= b@);
    while k < n && k < m
        invariant
            n == a@.len(),
            m == b@.len(),
            k <= n,
            k <= m,
            name_lt(a@, b@) == name_lt(a@.skip(k as int), b@.skip(k as int)),
        decreases n - k,
    {
        let x = a.as_str().get_char(k);
        let y = b.as_str().get_char(k);
        if x != y {
            return x < y;
        }
        assert(a@.skip(k as int).drop_first() =~= a@.skip(k + 1));
        assert(b@.skip(k as int).drop_first() =~= b@.skip(k + 1));
        k = k + 1;
    }
    k == n && k < m
}

/// The captures ordered by placeholder name: the same captures, each name
/// sorting no later than the next.
pub fn sorted_captures(captures: Vec<Capture>) -> (r: Vec<Capture>)
    ensures
        captures_view(r@).to_multiset() == captures_view(captures@).to_multiset(),
        sorted_by_name(captures_view(r@)),
{
    let mut rest = captures;
    let mut out: Vec<Capture> = Vec::new();
    proof {
        lemma_empty_multiset(captures_view(out@));
        assert(captures_view(out@).to_multiset().add(captures_view(rest@).to_multiset())
            =~= captures_view(captures@).to_multiset());
    }
    while rest.len() > 0
        invariant
            captures_view(out@).to_multiset().add(captures_view(rest@).to_multiset())
                == captures_view(captures@).to_multiset(),
            sorted_by_name(captures_view(out@)),
        decreases rest.len(),
    {
        let ghost rest0 = captures_view(rest@);
        let c = rest.pop().unwrap();
        proof {
            assert(rest0 =~= captures_view(rest@).push(capture_view(c)));
        }
        let mut p: usize = 0;
        while p < out.len() && !name_less(&c.name, &out[p].name)
            invariant
                p <= out.len(),
                forall|k: int| 0 <= k < p ==> !name_lt(c.name@, #[trigger] out@[k].name@),
            decreases out.len() - p,
        {
            p = p + 1;
        }
        let ghost before = captures_view(out@);
        out.insert(p, c);
        proof {
            let after = captures_view(out@);
            let cv = capture_view(c);
            let rest1 = captures_view(rest@);
            assert(after =~= before.insert(p as int, cv));
            vstd::seq_lib::to_multiset_insert(before, p as int, cv);
            vstd::seq_lib::to_multiset_build(rest1, cv);
            assert(after.to_multiset().add(rest1.to_multiset()) =~= before.to_multiset().add(
                rest0.to_multiset(),
            ));
            assert forall|i: int, j: int| 0 <= i < j < after.len() implies !name_lt(
                after[j].0,
                after[i].0,
            ) by {
                if j == p {
                    assert(after[i] == before[i]);
                    assert(before[i].0 == out@[i].name@);
                } else if i == p {
                    assert(after[j] == before[j - 1]);
                    if name_lt(before[j - 1].0, c.name@) {
                        if p == j - 1 {
                            lemma_name_lt_transitive(before[p as int].0, c.name@, before[p as int].0);
                            lemma_name_lt_irreflexive(before[p as int].0);
                        } else {
                            assert(!name_lt(before[j - 1].0, before[p as int].0));
                            lemma_name_lt_transitive(before[j - 1].0, c.name@, before[p as int].0);
                        }
                    }
                } else {
                    let i0 = if i < p { i } else { i - 1 };
                    let j0 = if j < p { j } else { j - 1 };
                    assert(after[i] == before[i0]);
                    assert(after[j] == before[j0]);
                }
            }
        }
    }
    proof {
        lemma_empty_multiset(captures_view(rest@));
        assert(captures_view(out@).to_multiset().add(captures_view(rest@).to_multiset())
            =~= captures_view(out@).to_multiset());
    }
    out
}

} // verus!
