//! Lexicographic order on character sequences (the order of `String`'s `Ord`,
//! since UTF-8 byte order and code-point order agree) and a stable sort.

use vstd::prelude::*;

verus! {

/// `a <= b` lexicographically by code point.
pub open spec fn lex_le(a: Seq<char>, b: Seq<char>) -> bool
    decreases a.len(),
{
    if a.len() == 0 {
        true
    } else if b.len() == 0 {
        false
    } else if a[0] != b[0] {
        a[0] < b[0]
    } else {
        lex_le(a.drop_first(), b.drop_first())
    }
}

pub proof fn lemma_lex_le_refl(a: Seq<char>)
    ensures
        lex_le(a, a),
    decreases a.len(),
{
    if a.len() > 0 {
        lemma_lex_le_refl(a.drop_first());
    }
}

pub proof fn lemma_lex_le_total(a: Seq<char>, b: Seq<char>)
    ensures
        lex_le(a, b) || lex_le(b, a),
    decreases a.len(),
{
    if a.len() > 0 && b.len() > 0 && a[0] == b[0] {
        lemma_lex_le_total(a.drop_first(), b.drop_first());
    }
}

pub proof fn lemma_lex_le_antisym(a: Seq<char>, b: Seq<char>)
    requires
        lex_le(a, b),
        lex_le(b, a),
    ensures
        a == b,
    decreases a.len(),
{
    if a.len() > 0 && b.len() > 0 {
        if a[0] == b[0] {
            lemma_lex_le_antisym(a.drop_first(), b.drop_first());
            assert(a =~= seq![a[0]] + a.drop_first());
            assert(b =~= seq![b[0]] + b.drop_first());
        } else {
        }
    } else {
        assert(a.len() == 0 && b.len() == 0);
        assert(a =~= b);
    }
}

pub proof fn lemma_lex_le_trans(a: Seq<char>, b: Seq<char>, c: Seq<char>)
    requires
        lex_le(a, b),
        lex_le(b, c),
    ensures
        lex_le(a, c),
    decreases a.len(),
{
    if a.len() > 0 && b.len() > 0 && c.len() > 0 {
        if a[0] == b[0] && b[0] == c[0] {
            lemma_lex_le_trans(a.drop_first(), b.drop_first(), c.drop_first());
        } else {
        }
    }
}

/// Exec comparison: whether `a <= b`.
pub fn lex_le_exec(a: &[char], b: &[char]) -> (r: bool)
    ensures
        r == lex_le(a@, b@),
{
    let mut i: usize = 0;
    assert(a@.subrange(0, a@.len() as int) =~= a@);
    assert(b@.subrange(0, b@.len() as int) =~= b@);
    while i < a.len() && i < b.len() && a[i] == b[i]
        invariant
            i <= a@.len(),
            i <= b@.len(),
            lex_le(a@, b@) == lex_le(a@.subrange(i as int, a@.len() as int), b@.subrange(i as int, b@.len() as int)),
        decreases a@.len() - i,
    {
        let ghost sa = a@.subrange(i as int, a@.len() as int);
        let ghost sb = b@.subrange(i as int, b@.len() as int);
        assert(sa.drop_first() =~= a@.subrange(i + 1, a@.len() as int));
        assert(sb.drop_first() =~= b@.subrange(i + 1, b@.len() as int));
        i = i + 1;
    }
    let ghost sa = a@.subrange(i as int, a@.len() as int);
    let ghost sb = b@.subrange(i as int, b@.len() as int);
    if i == a.len() {
        true
    } else if i == b.len() {
        false
    } else {
        assert(sa[0] == a@[i as int] && sb[0] == b@[i as int]);
        a[i] < b[i]
    }
}

/// `perm` lists each index below `n` exactly once.
pub open spec fn is_permutation_of_range(perm: Seq<usize>, n: nat) -> bool {
    &&& perm.len() == n
    &&& forall|a: int| 0 <= a < perm.len() ==> #[trigger] perm[a] < n
    &&& forall|a: int, b: int| 0 <= a < b < perm.len() ==> perm[a] != perm[b]
}

/// `perm` puts the keys in order, keeping equal keys in their original order.
pub open spec fn is_stable_sort(keys: Seq<Seq<char>>, perm: Seq<usize>) -> bool {
    &&& is_permutation_of_range(perm, keys.len())
    &&& forall|a: int, b: int|
        0 <= a < b < perm.len() ==> lex_le(keys[#[trigger] perm[a] as int], keys[#[trigger] perm[b] as int])
    &&& forall|a: int, b: int|
        0 <= a < b < perm.len() && keys[#[trigger] perm[a] as int] == keys[#[trigger] perm[b] as int]
            ==> perm[a] < perm[b]
}

/// The order in which a stable sort by `keys` takes the items.
pub fn stable_sort_order(keys: &Vec<Vec<char>>) -> (perm: Vec<usize>)
    ensures
        is_stable_sort(keys@.map_values(|k: Vec<char>| k@), perm@),
{
    let ghost kv = keys@.map_values(|k: Vec<char>| k@);
    let n = keys.len();
    let mut perm: Vec<usize> = Vec::new();
    let mut i: usize = 0;
    while i < n
        invariant
            n == keys@.len(),
            kv == keys@.map_values(|k: Vec<char>| k@),
            i <= n,
            perm@.len() == i,
            forall|a: int| 0 <= a < perm@.len() ==> #[trigger] perm@[a] < i,
            forall|a: int, b: int| 0 <= a < b < perm@.len() ==> perm@[a] != perm@[b],
            forall|a: int, b: int|
                0 <= a < b < perm@.len() ==> lex_le(kv[#[trigger] perm@[a] as int], kv[#[trigger] perm@[b] as int]),
            forall|a: int, b: int|
                0 <= a < b < perm@.len() && kv[#[trigger] perm@[a] as int] == kv[#[trigger] perm@[b] as int]
                    ==> perm@[a] < perm@[b],
        decreases n - i,
    {
        let ki = &keys[i];
        assert(kv[i as int] == ki@);
        // Find the first position whose key is strictly greater than key i.
        let mut j: usize = 0;
        while j < perm.len() && lex_le_exec(keys[perm[j]].as_slice(), ki.as_slice())
            invariant
                n == keys@.len(),
                kv == keys@.map_values(|k: Vec<char>| k@),
                i < n,
                kv[i as int] == ki@,
                j <= perm@.len(),
                forall|a: int| 0 <= a < perm@.len() ==> #[trigger] perm@[a] < i,
                forall|a: int| 0 <= a < j ==> lex_le(kv[#[trigger] perm@[a] as int], kv[i as int]),
            decreases perm@.len() - j,
        {
            assert(kv[perm@[j as int] as int] == keys@[perm@[j as int] as int]@);
            j = j + 1;
        }
        let ghost old_perm = perm@;
        proof {
            if j < old_perm.len() {
                assert(kv[old_perm[j as int] as int] == keys@[old_perm[j as int] as int]@);
                assert(!lex_le(kv[old_perm[j as int] as int], kv[i as int]));
            }
        }
        perm.insert(j, i);
        assert(perm@ =~= old_perm.subrange(0, j as int).push(i).add(old_perm.subrange(j as int, old_perm.len() as int)));
        proof {
            let ki_v = kv[i as int];
            // Keys after the insertion point are strictly greater than key i.
            assert forall|b: int| j <= b < old_perm.len() implies !lex_le(kv[#[trigger] old_perm[b] as int], ki_v) && lex_le(ki_v, kv[old_perm[b] as int]) by {
                let kj = kv[old_perm[j as int] as int];
                let kb = kv[old_perm[b] as int];
                lemma_lex_le_total(kj, ki_v);
                if b > j {
                    if lex_le(kb, ki_v) {
                        lemma_lex_le_trans(kj, kb, ki_v);
                    }
                }
                lemma_lex_le_total(kb, ki_v);
            }
            assert forall|a: int| 0 <= a < perm@.len() implies #[trigger] perm@[a] < i + 1 by {
                if a < j {
                    assert(perm@[a] == old_perm[a]);
                } else if a > j {
                    assert(perm@[a] == old_perm[a - 1]);
                }
            }
            assert forall|a: int, b: int| 0 <= a < b < perm@.len() implies perm@[a] != perm@[b] by {
                if a < j && b < j {
                } else if a < j && b == j {
                    assert(old_perm[a] < i);
                } else if a < j {
                    assert(perm@[b] == old_perm[b - 1]);
                } else if a == j {
                    assert(perm@[b] == old_perm[b - 1]);
                    assert(old_perm[b - 1] < i);
                } else {
                    assert(perm@[a] == old_perm[a - 1]);
                    assert(perm@[b] == old_perm[b - 1]);
                }
            }
            assert forall|a: int, b: int|
                0 <= a < b < perm@.len() implies lex_le(kv[#[trigger] perm@[a] as int], kv[#[trigger] perm@[b] as int]) && (kv[perm@[a] as int] == kv[perm@[b] as int] ==> perm@[a] < perm@[b]) by {
                if a < j && b < j {
                    assert(perm@[a] == old_perm[a] && perm@[b] == old_perm[b]);
                } else if a < j && b == j {
                    assert(perm@[a] == old_perm[a]);
                    assert(old_perm[a] < i);
                } else if a < j {
                    assert(perm@[a] == old_perm[a] && perm@[b] == old_perm[b - 1]);
                    let ka = kv[old_perm[a] as int];
                    let kb = kv[old_perm[b - 1] as int];
                    assert(lex_le(ka, ki_v));
                    assert(lex_le(ki_v, kb));
                    lemma_lex_le_trans(ka, ki_v, kb);
                    if ka == kb {
                        assert(lex_le(kb, ki_v));
                        assert(false);
                    }
                } else if a == j {
                    assert(perm@[b] == old_perm[b - 1]);
                    let kb = kv[old_perm[b - 1] as int];
                    assert(lex_le(ki_v, kb));
                    if ki_v == kb {
                        lemma_lex_le_refl(ki_v);
                        assert(false);
                    }
                } else {
                    assert(perm@[a] == old_perm[a - 1] && perm@[b] == old_perm[b - 1]);
                }
            }
        }
        i = i + 1;
    }
    perm
}

} // verus!
