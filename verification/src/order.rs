//! The lexicographic order of strings, and sorting by it.
//!
//! Strings are ordered as sequences of bytes in UTF-8, which is the order
//! of their Unicode scalar values.

use vstd::prelude::*;
use vstd::string::*;
use vstd::utf8::encode_utf8;

verus! {

/// `a` and `b` agree before index `k`, and there `a` ends or has the
/// smaller byte.
pub open spec fn differ_at(a: Seq<u8>, b: Seq<u8>, k: int) -> bool {
    &&& 0 <= k <= a.len()
    &&& k < b.len()
    &&& a.take(k) == b.take(k)
    &&& k < a.len() ==> a[k] < b[k]
}

/// `a` comes strictly before `b` in lexicographic order.
pub open spec fn bytes_precede(a: Seq<u8>, b: Seq<u8>) -> bool {
    exists|k: int| differ_at(a, b, k)
}

/// `a` comes strictly before `b` in lexicographic order.
pub open spec fn precedes(a: Seq<char>, b: Seq<char>) -> bool {
    bytes_precede(encode_utf8(a), encode_utf8(b))
}

/// Each string comes strictly before all that follow it: the sequence is
/// sorted and holds no string twice.
pub open spec fn strictly_sorted(keys: Seq<Seq<char>>) -> bool {
    forall|i: int, j: int| 0 <= i < j < keys.len() ==> precedes(keys[i], keys[j])
}

/// Two sequences that agree on a prefix agree on each index of it.
proof fn lemma_take_index(a: Seq<u8>, b: Seq<u8>, k: int, i: int)
    requires
        0 <= i < k <= a.len(),
        k <= b.len(),
        a.take(k) == b.take(k),
    ensures
        a[i] == b[i],
{
    assert(a.take(k)[i] == a[i]);
    assert(b.take(k)[i] == b[i]);
}

/// Two sequences that agree on a prefix agree on each shorter one.
proof fn lemma_take_shorter(a: Seq<u8>, b: Seq<u8>, k: int, i: int)
    requires
        0 <= i <= k <= a.len(),
        k <= b.len(),
        a.take(k) == b.take(k),
    ensures
        a.take(i) == b.take(i),
{
    assert(a.take(i) =~= a.take(k).take(i));
    assert(b.take(i) =~= b.take(k).take(i));
}

/// No sequence of bytes comes before another that comes before it; in
/// particular none comes before itself.
pub proof fn lemma_bytes_asymmetric(a: Seq<u8>, b: Seq<u8>)
    requires
        bytes_precede(a, b),
    ensures
        !bytes_precede(b, a),
        a != b,
{
    let k = choose|k: int| differ_at(a, b, k);
    if bytes_precede(b, a) {
        let m = choose|m: int| differ_at(b, a, m);
        if k < m {
            lemma_take_index(b, a, m, k);
        } else if m < k {
            lemma_take_index(a, b, k, m);
        }
    }
}

/// The order is transitive.
pub proof fn lemma_bytes_transitive(a: Seq<u8>, b: Seq<u8>, c: Seq<u8>)
    requires
        bytes_precede(a, b),
        bytes_precede(b, c),
    ensures
        bytes_precede(a, c),
{
    let k = choose|k: int| differ_at(a, b, k);
    let m = choose|m: int| differ_at(b, c, m);
    if k <= m {
        lemma_take_shorter(b, c, m, k);
        if k < m {
            lemma_take_index(b, c, m, k);
        }
        assert(differ_at(a, c, k));
    } else {
        lemma_take_shorter(a, b, k, m);
        lemma_take_index(a, b, k, m);
        assert(differ_at(a, c, m));
    }
}

/// No string comes before another that comes before it, nor before
/// itself.
pub proof fn lemma_precedes_asymmetric(a: Seq<char>, b: Seq<char>)
    requires
        precedes(a, b),
    ensures
        !precedes(b, a),
        a != b,
{
    lemma_bytes_asymmetric(encode_utf8(a), encode_utf8(b));
}

/// The order of strings is transitive.
pub proof fn lemma_precedes_transitive(a: Seq<char>, b: Seq<char>, c: Seq<char>)
    requires
        precedes(a, b),
        precedes(b, c),
    ensures
        precedes(a, c),
{
    lemma_bytes_transitive(encode_utf8(a), encode_utf8(b), encode_utf8(c));
}

/// Two strings with the same bytes are the same string.
pub proof fn lemma_same_bytes_same_string(a: Seq<char>, b: Seq<char>)
    requires
        encode_utf8(a) == encode_utf8(b),
    ensures
        a == b,
{
    vstd::utf8::encode_utf8_decode_utf8(a);
    vstd::utf8::encode_utf8_decode_utf8(b);
}

/// A strictly sorted sequence holds no string twice.
pub proof fn lemma_strictly_sorted_no_duplicates(keys: Seq<Seq<char>>)
    requires
        strictly_sorted(keys),
    ensures
        keys.no_duplicates(),
{
    assert forall|i: int, j: int| 0 <= i < keys.len() && 0 <= j < keys.len() && i != j implies keys[i]
        != keys[j] by {
        if i < j {
            lemma_precedes_asymmetric(keys[i], keys[j]);
        } else {
            lemma_precedes_asymmetric(keys[j], keys[i]);
        }
    }
}

/// Two strictly sorted sequences that hold the same strings are the same
/// sequence: sorting and keeping each string once has one outcome only.
pub proof fn lemma_strictly_sorted_unique(a: Seq<Seq<char>>, b: Seq<Seq<char>>)
    requires
        strictly_sorted(a),
        strictly_sorted(b),
        forall|u: Seq<char>| a.contains(u) <==> b.contains(u),
    ensures
        a == b,
    decreases a.len(),
{
    if a.len() == 0 {
        if b.len() > 0 {
            assert(b.contains(b[0]));
        }
        assert(a =~= b);
    } else {
        let top = a.last();
        assert(a.contains(top));
        let j = choose|j: int| 0 <= j < b.len() && b[j] == top;
        assert(b.contains(b.last()));
        let i = choose|i: int| 0 <= i < a.len() && a[i] == b.last();
        if j < b.len() - 1 {
            if i < a.len() - 1 {
                lemma_precedes_transitive(b[j], b.last(), top);
            }
            lemma_precedes_asymmetric(b[j], b.last());
        }
        assert(b.last() == top);
        let x = a.drop_last();
        let y = b.drop_last();
        assert forall|u: Seq<char>| x.contains(u) <==> y.contains(u) by {
            if x.contains(u) {
                let p = choose|p: int| 0 <= p < x.len() && x[p] == u;
                assert(a[p] == u);
                lemma_precedes_asymmetric(a[p], top);
                assert(a.contains(u));
                let q = choose|q: int| 0 <= q < b.len() && b[q] == u;
                assert(y[q] == u);
            }
            if y.contains(u) {
                let q = choose|q: int| 0 <= q < y.len() && y[q] == u;
                assert(b[q] == u);
                lemma_precedes_asymmetric(b[q], top);
                assert(b.contains(u));
                let p = choose|p: int| 0 <= p < a.len() && a[p] == u;
                assert(x[p] == u);
            }
        }
        lemma_strictly_sorted_unique(x, y);
        assert(a =~= x.push(top));
        assert(b =~= y.push(top));
    }
}

/// Two sequences hold the same strings, each however often.
pub open spec fn hold_the_same(a: Seq<Seq<char>>, b: Seq<Seq<char>>) -> bool {
    forall|u: Seq<char>| a.contains(u) <==> b.contains(u)
}

/// The strings of `items`, sorted, each once.
pub open spec fn sorted_once(items: Seq<Seq<char>>) -> Seq<Seq<char>> {
    choose|sorted: Seq<Seq<char>>| strictly_sorted(sorted) && hold_the_same(sorted, items)
}

/// A strictly sorted sequence that holds the strings of `items` is the
/// strings of `items`, sorted, each once.
pub proof fn lemma_sorted_once(items: Seq<Seq<char>>, sorted: Seq<Seq<char>>)
    requires
        strictly_sorted(sorted),
        hold_the_same(sorted, items),
    ensures
        sorted_once(items) == sorted,
{
    let chosen = sorted_once(items);
    assert(strictly_sorted(chosen) && hold_the_same(chosen, items));
    lemma_strictly_sorted_unique(chosen, sorted);
}

/// How one string stands to another in lexicographic order.
#[derive(Clone, Copy, Debug, PartialEq, Eq, Structural)]
pub enum Order {
    Before,
    Same,
    After,
}

/// Compares two strings in lexicographic order.
pub fn compare(a: &str, b: &str) -> (r: Order)
    ensures
        (r is Before) == precedes(a@, b@),
        (r is Same) == (a@ == b@),
        (r is After) == precedes(b@, a@),
{
    let x = a.as_bytes();
    let y = b.as_bytes();
    let mut k: usize = 0;
    let mut r = Order::Same;
    loop
        invariant_except_break
            k <= x@.len(),
            k <= y@.len(),
            x@.take(k as int) == y@.take(k as int),
        invariant
            x@ == encode_utf8(a@),
            y@ == encode_utf8(b@),
        ensures
            r is Before ==> differ_at(x@, y@, k as int),
            r is After ==> differ_at(y@, x@, k as int),
            r is Same ==> x@ == y@,
        decreases x@.len() - k,
    {
        if k == x.len() {
            if k == y.len() {
                assert(x@ =~= x@.take(k as int));
                assert(y@ =~= y@.take(k as int));
                r = Order::Same;
            } else {
                r = Order::Before;
            }
            break ;
        }
        if k == y.len() {
            r = Order::After;
            break ;
        }
        if x[k] < y[k] {
            r = Order::Before;
            break ;
        }
        if x[k] > y[k] {
            r = Order::After;
            break ;
        }
        assert(x@.take(k + 1) =~= x@.take(k as int).push(x@[k as int]));
        assert(y@.take(k + 1) =~= y@.take(k as int).push(y@[k as int]));
        k += 1;
    }
    proof {
        if r is Before {
            lemma_bytes_asymmetric(x@, y@);
        }
        if r is After {
            lemma_bytes_asymmetric(y@, x@);
        }
        if r is Same {
            lemma_same_bytes_same_string(a@, b@);
        }
        if precedes(a@, b@) {
            lemma_bytes_asymmetric(x@, y@);
        }
        if precedes(b@, a@) {
            lemma_bytes_asymmetric(y@, x@);
        }
    }
    r
}

/// An item that is ordered by a string of its own.
pub trait Keyed {
    /// The string by which the item is ordered.
    spec fn key(&self) -> Seq<char>;

    /// The string by which the item is ordered.
    fn key_text(&self) -> (r: &str)
        ensures
            r@ == self.key(),
    ;
}

impl Keyed for String {
    open spec fn key(&self) -> Seq<char> {
        self@
    }

    fn key_text(&self) -> (r: &str) {
        self.as_str()
    }
}

/// The keys of the items of a sequence, in order.
pub open spec fn keys<T: Keyed>(items: Seq<T>) -> Seq<Seq<char>> {
    items.map_values(|t: T| t.key())
}

/// No item before the one at index `j` has its key.
pub open spec fn is_first_of_key<T: Keyed>(items: Seq<T>, j: int) -> bool {
    &&& 0 <= j < items.len()
    &&& forall|i: int| 0 <= i < j ==> (#[trigger] items[i]).key() != items[j].key()
}

/// `sorted` holds, for each key of `items`, the first item that has it,
/// in the strict order of the keys.
pub open spec fn sorts<T: Keyed>(items: Seq<T>, sorted: Seq<T>) -> bool {
    &&& strictly_sorted(keys(sorted))
    &&& forall|j: int|
        0 <= j < items.len() ==> keys(sorted).contains((#[trigger] items[j]).key())
    &&& forall|i: int|
        0 <= i < sorted.len() ==> exists|j: int|
            is_first_of_key(items, j) && items[j] == #[trigger] sorted[i]
}

/// Sorting neither adds a key nor loses one.
pub proof fn lemma_sorts_same_keys<T: Keyed>(items: Seq<T>, sorted: Seq<T>)
    requires
        sorts(items, sorted),
    ensures
        forall|k: Seq<char>| keys(sorted).contains(k) <==> keys(items).contains(k),
{
    assert forall|k: Seq<char>| keys(sorted).contains(k) <==> keys(items).contains(k) by {
        if keys(sorted).contains(k) {
            let i = choose|i: int| 0 <= i < keys(sorted).len() && keys(sorted)[i] == k;
            let j = choose|j: int| is_first_of_key(items, j) && items[j] == sorted[i];
            assert(keys(items)[j] == k);
        }
        if keys(items).contains(k) {
            let j = choose|j: int| 0 <= j < keys(items).len() && keys(items)[j] == k;
            assert(keys(sorted).contains(items[j].key()));
        }
    }
}

/// A sorted list holds each key of the items exactly once, however often
/// the items hold it.
pub proof fn lemma_sorts_each_key_once<T: Keyed>(items: Seq<T>, sorted: Seq<T>, j: int)
    requires
        sorts(items, sorted),
        0 <= j < items.len(),
    ensures
        exists|i: int|
            {
                &&& 0 <= i < sorted.len()
                &&& #[trigger] sorted[i].key() == items[j].key()
                &&& forall|k: int|
                    0 <= k < sorted.len() && (#[trigger] sorted[k]).key() == items[j].key() ==> k
                        == i
            },
{
    let key = items[j].key();
    assert(keys(sorted).contains(key));
    let i = choose|i: int| 0 <= i < keys(sorted).len() && keys(sorted)[i] == key;
    assert(sorted[i].key() == key);
    assert forall|k: int| 0 <= k < sorted.len() && (#[trigger] sorted[k]).key() == key implies k
        == i by {
        if k < i {
            lemma_precedes_asymmetric(keys(sorted)[k], keys(sorted)[i]);
        } else if i < k {
            lemma_precedes_asymmetric(keys(sorted)[i], keys(sorted)[k]);
        }
    }
}

/// Puts `item` in its place in `v`, unless `v` holds an item with its key
/// already. Returns the index where it went.
pub(crate) fn insert_by_key<T: Keyed>(v: &mut Vec<T>, item: T) -> (at: Option<usize>)
    requires
        strictly_sorted(keys(old(v)@)),
    ensures
        strictly_sorted(keys(final(v)@)),
        match at {
            Some(i) => {
                &&& !keys(old(v)@).contains(item.key())
                &&& i <= old(v)@.len()
                &&& final(v)@ == old(v)@.insert(i as int, item)
            },
            None => keys(old(v)@).contains(item.key()) && final(v)@ == old(v)@,
        },
{
    let ghost before = keys(v@);
    let mut i: usize = 0;
    let mut found = false;
    while i < v.len()
        invariant_except_break
            !found,
        invariant
            i <= v.len(),
            v@ == old(v)@,
            before == keys(v@),
            forall|j: int| 0 <= j < i ==> precedes(#[trigger] before[j], item.key()),
        ensures
            found ==> i < v.len() && before[i as int] == item.key(),
            !found ==> (i == v.len() || precedes(item.key(), before[i as int])),
        decreases v.len() - i,
    {
        match compare(v[i].key_text(), item.key_text()) {
            Order::Before => {
                i += 1;
            },
            Order::Same => {
                found = true;
                break ;
            },
            Order::After => {
                break ;
            },
        }
    }
    if found {
        assert(before[i as int] == item.key());
        return None;
    }
    proof {
        assert forall|j: int| 0 <= j < before.len() implies before[j] != item.key() by {
            if j < i {
                lemma_precedes_asymmetric(before[j], item.key());
            } else {
                if j > i {
                    lemma_precedes_transitive(item.key(), before[i as int], before[j]);
                }
                lemma_precedes_asymmetric(item.key(), before[j]);
            }
        }
        let after = keys(v@.insert(i as int, item));
        assert(after =~= before.insert(i as int, item.key()));
        assert forall|p: int, q: int| 0 <= p < q < after.len() implies precedes(
            after[p],
            after[q],
        ) by {
            if q < i {
            } else if q == i {
            } else if p == i {
                if q - 1 > i {
                    lemma_precedes_transitive(item.key(), before[i as int], before[q - 1]);
                }
            } else if p < i {
                assert(after[p] == before[p] && after[q] == before[q - 1]);
            } else {
                assert(after[p] == before[p - 1] && after[q] == before[q - 1]);
            }
        }
    }
    v.insert(i, item);
    Some(i)
}

/// Sorts `items` by their keys. Of the items that share a key, the first
/// stays.
pub fn sort_by_key<T: Keyed>(items: Vec<T>) -> (sorted: Vec<T>)
    ensures
        sorts(items@, sorted@),
        keys(sorted@) == sorted_once(keys(items@)),
{
    broadcast use vstd::std_specs::vec::axiom_spec_into_iter;

    let ghost all = items@;
    let mut out: Vec<T> = Vec::new();
    for item in it: items
        invariant
            it.seq() == all,
            sorts(all.take(it.index() as int), out@),
    {
        let ghost n = it.index() as int;
        let ghost seen = all.take(n);
        let ghost next = all.take(n + 1);
        let ghost old_out = out@;
        assert(item == all[n]);
        let at = insert_by_key(&mut out, item);
        proof {
            assert(forall|j: int| 0 <= j < n ==> next[j] == seen[j]);
            assert(next[n] == item);
            match at {
                None => {
                    assert forall|i: int| 0 <= i < out@.len() implies exists|j: int|
                        is_first_of_key(next, j) && next[j] == #[trigger] out@[i] by {
                        let j = choose|j: int| is_first_of_key(seen, j) && seen[j] == old_out[i];
                        assert(is_first_of_key(next, j));
                    }
                },
                Some(i) => {
                    let new_keys = keys(out@);
                    let pos = i as int;
                    assert(new_keys =~= keys(old_out).insert(pos, item.key()));
                    assert forall|j: int| 0 <= j < next.len() implies new_keys.contains(
                        (#[trigger] next[j]).key(),
                    ) by {
                        if j < n {
                            let k = next[j].key();
                            assert(keys(old_out).contains(seen[j].key()));
                            let p = choose|p: int|
                                0 <= p < keys(old_out).len() && keys(old_out)[p] == k;
                            if p < pos {
                                assert(new_keys[p] == k);
                            } else {
                                assert(new_keys[p + 1] == k);
                            }
                        } else {
                            assert(new_keys[pos] == item.key());
                        }
                    }
                    assert forall|q: int| 0 <= q < out@.len() implies exists|j: int|
                        is_first_of_key(next, j) && next[j] == #[trigger] out@[q] by {
                        if q == pos {
                            assert forall|j: int| 0 <= j < n implies (#[trigger] next[j]).key()
                                != next[n].key() by {
                                assert(keys(old_out).contains(seen[j].key()));
                            }
                            assert(is_first_of_key(next, n));
                        } else {
                            let p = if q < pos {
                                q
                            } else {
                                q - 1
                            };
                            assert(out@[q] == old_out[p]);
                            let j = choose|j: int|
                                is_first_of_key(seen, j) && seen[j] == old_out[p];
                            assert(is_first_of_key(next, j));
                        }
                    }
                },
            }
        }
    }
    assert(all.take(all.len() as int) =~= all);
    proof {
        lemma_sorts_same_keys(all, out@);
        lemma_sorted_once(keys(all), keys(out@));
    }
    out
}

} // verus!
