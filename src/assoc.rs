use vstd::prelude::*;

verus! {

/// Index of the first entry of `s` whose key is `k`, or -1 where none is.
pub open spec fn index_of<K, V>(s: Seq<(K, V)>, k: K) -> int
    decreases s.len(),
{
    if s.len() == 0 {
        -1
    } else if s[0].0 == k {
        0
    } else {
        let r = index_of(s.drop_first(), k);
        if r < 0 {
            -1
        } else {
            r + 1
        }
    }
}

/// `s` with `k` bound to `v`: the entry of that key replaced in place, or a
/// new entry appended where the key is absent.
pub open spec fn put<K, V>(s: Seq<(K, V)>, k: K, v: V) -> Seq<(K, V)> {
    let i = index_of(s, k);
    if i < 0 {
        s.push((k, v))
    } else {
        s.update(i, (k, v))
    }
}

/// Whether some entry of `s` has key `k`.
pub open spec fn has_key<K, V>(s: Seq<(K, V)>, k: K) -> bool {
    exists|i: int| 0 <= i < s.len() && s[i].0 == k
}

/// `index_of` finds the first entry with the key, and -1 exactly where there is none.
pub proof fn lemma_index_of<K, V>(s: Seq<(K, V)>, k: K)
    ensures
        index_of(s, k) == -1 <==> !has_key(s, k),
        index_of(s, k) != -1 ==> 0 <= index_of(s, k) < s.len() && s[index_of(s, k)].0 == k
            && forall|j: int| 0 <= j < index_of(s, k) ==> s[j].0 != k,
    decreases s.len(),
{
    if s.len() > 0 && s[0].0 != k {
        lemma_index_of(s.drop_first(), k);
        if has_key(s, k) {
            let i = choose|i: int| 0 <= i < s.len() && s[i].0 == k;
            assert(s.drop_first()[i - 1].0 == k);
        }
        if has_key(s.drop_first(), k) {
            let i = choose|i: int| 0 <= i < s.drop_first().len() && s.drop_first()[i].0 == k;
            assert(s[i + 1].0 == k);
        }
        let r = index_of(s.drop_first(), k);
        if r >= 0 {
            assert forall|j: int| 0 <= j < r + 1 implies s[j].0 != k by {
                if j > 0 {
                    assert(s[j] == s.drop_first()[j - 1]);
                }
            }
            assert(s[r + 1] == s.drop_first()[r]);
        }
    }
}

/// Where the first `i` keys differ from `k` and the next one is `k`, `index_of` is `i`;
/// where all differ, it is -1.
pub proof fn lemma_index_of_scan<K, V>(s: Seq<(K, V)>, k: K, i: int)
    requires
        0 <= i <= s.len(),
        forall|j: int| 0 <= j < i ==> s[j].0 != k,
    ensures
        i < s.len() && s[i].0 == k ==> index_of(s, k) == i,
        i == s.len() ==> index_of(s, k) == -1,
{
    lemma_index_of(s, k);
}

/// Adding a key absent from `s` appends it.
pub proof fn lemma_put_absent<K, V>(s: Seq<(K, V)>, k: K, v: V)
    requires
        forall|j: int| 0 <= j < s.len() ==> s[j].0 != k,
    ensures
        put(s, k, v) == s.push((k, v)),
{
    lemma_index_of(s, k);
}

} // verus!
