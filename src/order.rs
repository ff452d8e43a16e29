//! Plain string ordering of version-directory names.
//!
//! Names are compared character by character by code point. Since UTF-8
//! preserves code-point order, this is the byte order of the names as the
//! platform stores them. No numeric or semantic-version comparison is made:
//! `"0.10.0"` sorts before `"0.9.0"`.
use vstd::prelude::*;

verus! {

/// `a` sorts before or equal to `b` in plain lexicographic order.
pub open spec fn name_le(a: Seq<char>, b: Seq<char>) -> bool
    decreases a.len(),
{
    if a.len() == 0 {
        true
    } else if b.len() == 0 {
        false
    } else if a[0] != b[0] {
        a[0] < b[0]
    } else {
        name_le(a.drop_first(), b.drop_first())
    }
}

/// The character sequences of a sequence of strings.
pub open spec fn name_views(v: Seq<String>) -> Seq<Seq<char>> {
    v.map_values(|s: String| s@)
}

/// Every earlier name sorts before or equal to every later one.
pub open spec fn sorted_names(s: Seq<Seq<char>>) -> bool {
    forall|i: int, j: int| 0 <= i < j < s.len() ==> name_le(#[trigger] s[i], #[trigger] s[j])
}

/// Any two names are comparable.
pub proof fn lemma_name_le_total(a: Seq<char>, b: Seq<char>)
    ensures
        name_le(a, b) || name_le(b, a),
    decreases a.len(),
{
    if a.len() > 0 && b.len() > 0 && a[0] == b[0] {
        lemma_name_le_total(a.drop_first(), b.drop_first());
    }
}

/// The order is transitive.
pub proof fn lemma_name_le_trans(a: Seq<char>, b: Seq<char>, c: Seq<char>)
    requires
        name_le(a, b),
        name_le(b, c),
    ensures
        name_le(a, c),
    decreases a.len(),
{
    if a.len() > 0 && b.len() > 0 && c.len() > 0 && a[0] == b[0] && b[0] == c[0] {
        lemma_name_le_trans(a.drop_first(), b.drop_first(), c.drop_first());
    }
}

/// Two names that sort before or equal to each other are the same name.
pub proof fn lemma_name_le_antisym(a: Seq<char>, b: Seq<char>)
    requires
        name_le(a, b),
        name_le(b, a),
    ensures
        a == b,
    decreases a.len(),
{
    if a.len() > 0 {
        lemma_name_le_antisym(a.drop_first(), b.drop_first());
        assert(a =~= seq![a[0]] + a.drop_first());
        assert(b =~= seq![b[0]] + b.drop_first());
    }
}

proof fn lemma_name_le_suffix(a: Seq<char>, b: Seq<char>, i: int)
    requires
        0 <= i < a.len(),
        i < b.len(),
        a[i] == b[i],
    ensures
        name_le(a.subrange(i, a.len() as int), b.subrange(i, b.len() as int)) == name_le(
            a.subrange(i + 1, a.len() as int),
            b.subrange(i + 1, b.len() as int),
        ),
{
    assert(a.subrange(i, a.len() as int).drop_first() =~= a.subrange(i + 1, a.len() as int));
    assert(b.subrange(i, b.len() as int).drop_first() =~= b.subrange(i + 1, b.len() as int));
}

/// Whether `a` sorts before or equal to `b` in plain lexicographic order.
pub fn name_le_exec(a: &String, b: &String) -> (r: bool)
    ensures
        r == name_le(a@, b@),
{
    let la = a.as_str().unicode_len();
    let lb = b.as_str().unicode_len();
    let mut i: usize = 0;
    assert(a@.subrange(0, la as int) =~= a@);
    assert(b@.subrange(0, lb as int) =~= b@);
    while i < la && i < lb
        invariant
            la == a@.len(),
            lb == b@.len(),
            i <= la,
            i <= lb,
            name_le(a@, b@) == name_le(
                a@.subrange(i as int, la as int),
                b@.subrange(i as int, lb as int),
            ),
        decreases la - i,
    {
        let ca = a.as_str().get_char(i);
        let cb = b.as_str().get_char(i);
        if ca != cb {
            return ca < cb;
        }
        proof {
            lemma_name_le_suffix(a@, b@, i as int);
        }
        i = i + 1;
    }
    i == la
}

/// The names in ascending plain lexicographic order.
pub fn sort_names(names: Vec<String>) -> (r: Vec<String>)
    ensures
        sorted_names(name_views(r@)),
        r@.to_multiset() == names@.to_multiset(),
{
    let mut out: Vec<String> = Vec::new();
    let mut k: usize = 0;
    assert(out@ =~= names@.subrange(0, 0));
    while k < names.len()
        invariant
            k <= names.len(),
            sorted_names(name_views(out@)),
            out@.to_multiset() == names@.subrange(0, k as int).to_multiset(),
        decreases names.len() - k,
    {
        let x = names[k].clone();
        let ghost gx = x;
        assert(gx == names@[k as int]);
        let mut p: usize = out.len();
        while p > 0 && !name_le_exec(&out[p - 1], &x)
            invariant
                p <= out.len(),
                forall|j: int| p <= j < out.len() ==> name_le(x@, #[trigger] out@[j]@),
            decreases p,
        {
            proof {
                lemma_name_le_total(out@[p - 1]@, x@);
            }
            p = p - 1;
        }
        let ghost before = out@;
        proof {
            if p > 0 {
                assert forall|j: int| 0 <= j < p implies name_le(#[trigger] before[j]@, x@) by {
                    if j < p - 1 {
                        assert(name_le(name_views(before)[j], name_views(before)[p - 1]));
                        lemma_name_le_trans(before[j]@, before[p - 1]@, x@);
                    }
                }
            }
            vstd::seq_lib::to_multiset_insert(before, p as int, x);
            assert(names@.subrange(0, k + 1) =~= names@.subrange(0, k as int).push(names@[k as int]));
            vstd::seq_lib::to_multiset_build(names@.subrange(0, k as int), names@[k as int]);
        }
        out.insert(p, x);
        proof {
            assert forall|i: int, j: int| 0 <= i < j < out@.len() implies name_le(
                #[trigger] name_views(out@)[i],
                #[trigger] name_views(out@)[j],
            ) by {
                assert(out@ == before.insert(p as int, gx));
                if j < p {
                    assert(name_le(name_views(before)[i], name_views(before)[j]));
                } else if j == p {
                    assert(name_le(before[i]@, gx@));
                } else if i == p {
                    assert(name_le(gx@, before[j - 1]@));
                } else if i < p {
                    assert(name_le(name_views(before)[i], name_views(before)[j - 1]));
                } else {
                    assert(name_le(name_views(before)[i - 1], name_views(before)[j - 1]));
                }
            }
        }
        k = k + 1;
    }
    assert(names@.subrange(0, names.len() as int) =~= names@);
    out
}

} // verus!
