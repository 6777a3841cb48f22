//! Ordering of rows by name: a byte-lexicographic order over the UTF-8
//! encoding of the name, and an insertion sort proved to return a sorted
//! permutation of its input. The filter-option lists are served sorted by
//! name ascending, so the order itself is part of the interface.

use vstd::prelude::*;
use vstd::string::StrSliceExecFns;

verus! {

/// Byte-lexicographic order: the usual dictionary order on byte strings.
pub open spec fn lex_le(a: Seq<u8>, b: Seq<u8>) -> bool
    decreases a.len(),
{
    if a.len() == 0 {
        true
    } else if b.len() == 0 {
        false
    } else if a[0] < b[0] {
        true
    } else if a[0] > b[0] {
        false
    } else {
        lex_le(a.drop_first(), b.drop_first())
    }
}

/// The order relates every byte string to itself.
pub proof fn lemma_lex_refl(a: Seq<u8>)
    ensures
        lex_le(a, a),
    decreases a.len(),
{
    if a.len() > 0 {
        lemma_lex_refl(a.drop_first());
    }
}

/// The order is total: any two byte strings relate one way or the other.
pub proof fn lemma_lex_total(a: Seq<u8>, b: Seq<u8>)
    ensures
        lex_le(a, b) || lex_le(b, a),
    decreases a.len(),
{
    if a.len() > 0 && b.len() > 0 && a[0] == b[0] {
        lemma_lex_total(a.drop_first(), b.drop_first());
    }
}

/// The order is transitive.
pub proof fn lemma_lex_trans(a: Seq<u8>, b: Seq<u8>, c: Seq<u8>)
    requires
        lex_le(a, b),
        lex_le(b, c),
    ensures
        lex_le(a, c),
    decreases a.len(),
{
    if a.len() > 0 && b.len() > 0 && c.len() > 0 && a[0] == b[0] && b[0] == c[0] {
        lemma_lex_trans(a.drop_first(), b.drop_first(), c.drop_first());
    }
}

/// The order is antisymmetric: byte strings that relate both ways are
/// equal.
pub proof fn lemma_lex_antisym(a: Seq<u8>, b: Seq<u8>)
    requires
        lex_le(a, b),
        lex_le(b, a),
    ensures
        a == b,
    decreases a.len(),
{
    if a.len() > 0 && b.len() > 0 && a[0] == b[0] {
        lemma_lex_antisym(a.drop_first(), b.drop_first());
        assert(a =~= seq![a[0]] + a.drop_first());
        assert(b =~= seq![b[0]] + b.drop_first());
    }
}

/// Compares the byte strings from position `i` on.
fn lex_le_at(a: &Vec<u8>, b: &Vec<u8>, i: usize) -> (r: bool)
    requires
        i <= a@.len(),
        i <= b@.len(),
    ensures
        r == lex_le(a@.skip(i as int), b@.skip(i as int)),
    decreases a@.len() - i,
{
    if i == a.len() {
        true
    } else if i == b.len() {
        false
    } else if a[i] < b[i] {
        true
    } else if a[i] > b[i] {
        false
    } else {
        proof {
            assert(a@.skip(i as int).drop_first() =~= a@.skip(i + 1));
            assert(b@.skip(i as int).drop_first() =~= b@.skip(i + 1));
        }
        lex_le_at(a, b, i + 1)
    }
}

/// Whether `a` comes at or before `b` in dictionary order.
pub fn lex_le_bytes(a: &Vec<u8>, b: &Vec<u8>) -> (r: bool)
    ensures
        r == lex_le(a@, b@),
{
    proof {
        assert(a@.skip(0) =~= a@);
        assert(b@.skip(0) =~= b@);
    }
    lex_le_at(a, b, 0)
}

/// A row with a name to order by. The sort key is the UTF-8 encoding of
/// the name.
pub trait NameKey: Sized {
    /// The row's sort key.
    spec fn key(&self) -> Seq<u8>;

    /// The row's sort key, as stored.
    fn key_bytes(&self) -> (r: Vec<u8>)
        ensures
            r@ == self.key(),
    ;
}

/// Whether the rows stand in ascending key order.
pub open spec fn sorted_by_key<T: NameKey>(s: Seq<T>) -> bool {
    forall|i: int, j: int|
        #![trigger s[i], s[j]]
        0 <= i < j < s.len() ==> lex_le(s[i].key(), s[j].key())
}

/// Where to insert a row with key `xk` into the sorted prefix `[0, i)`:
/// the first slot whose row does not come at or before the new one.
fn insertion_point<T: NameKey>(v: &Vec<T>, xk: &Vec<u8>, i: usize) -> (j: usize)
    requires
        i <= v@.len(),
    ensures
        j <= i,
        forall|a: int| 0 <= a < j ==> lex_le((#[trigger] v@[a]).key(), xk@),
        j < i ==> !lex_le(v@[j as int].key(), xk@),
    decreases i,
{
    let mut j: usize = 0;
    while j < i
        invariant
            0 <= j <= i <= v@.len(),
            forall|a: int| 0 <= a < j ==> lex_le((#[trigger] v@[a]).key(), xk@),
        decreases i - j,
    {
        let vk = v[j].key_bytes();
        if !lex_le_bytes(&vk, xk) {
            return j;
        }
        j += 1;
    }
    j
}

/// Sorts the rows by name, ascending: afterwards the vector holds exactly
/// the same rows (as a multiset), in ascending key order.
pub fn sort_by_name<T: NameKey>(v: &mut Vec<T>)
    ensures
        sorted_by_key(final(v)@),
        final(v)@.to_multiset() == old(v)@.to_multiset(),
        final(v)@.len() == old(v)@.len(),
{
    let mut i: usize = 1;
    while i < v.len()
        invariant
            1 <= i,
            i <= v@.len() || v@.len() == 0,
            v@.len() == old(v)@.len(),
            v@.to_multiset() == old(v)@.to_multiset(),
            forall|a: int, b: int|
                #![trigger v@[a], v@[b]]
                0 <= a < b < i && b < v@.len() ==> lex_le(v@[a].key(), v@[b].key()),
        decreases v.len() - i,
    {
        let ghost before = v@;
        let x = v.remove(i);
        let ghost mid = v@;
        let xk = x.key_bytes();
        let j = insertion_point(v, &xk, i);
        proof {
            if j < i {
                lemma_lex_total(mid[j as int].key(), x.key());
            }
        }
        v.insert(j, x);
        proof {
            broadcast use vstd::seq_lib::to_multiset_remove, vstd::seq_lib::to_multiset_insert,
                vstd::seq_lib::to_multiset_contains, vstd::multiset::group_multiset_axioms;

            let after = v@;
            assert(before.contains(before[i as int]));
            assert(before.to_multiset().contains(before[i as int]));
            assert(mid == before.remove(i as int));
            assert(before.remove(i as int).to_multiset() == before.to_multiset().remove(
                before[i as int],
            ));
            assert(after == mid.insert(j as int, x));
            assert(mid.insert(j as int, x).to_multiset() == mid.to_multiset().insert(x));
            assert(after.to_multiset() =~= before.to_multiset());
            assert forall|a: int, b: int|
                #![trigger after[a], after[b]]
                0 <= a < b < i + 1 && b < after.len() implies lex_le(
                after[a].key(),
                after[b].key(),
            ) by {
                let ji = j as int;
                if b < ji {
                    assert(after[a] == mid[a] && after[b] == mid[b]);
                } else if a < ji && b == ji {
                    assert(after[a] == mid[a] && after[b] == x);
                } else if a < ji && b > ji {
                    assert(after[a] == mid[a] && after[b] == mid[b - 1]);
                    if a < b - 1 {
                        assert(lex_le(mid[a].key(), mid[b - 1].key()));
                    }
                } else if a == ji && b > ji {
                    assert(after[a] == x && after[b] == mid[b - 1]);
                    assert(!lex_le(mid[ji].key(), x.key()));
                    assert(lex_le(x.key(), mid[ji].key()));
                    if ji < b - 1 {
                        assert(lex_le(mid[ji].key(), mid[b - 1].key()));
                        lemma_lex_trans(x.key(), mid[ji].key(), mid[b - 1].key());
                    }
                } else {
                    assert(a > ji && b > ji);
                    assert(after[a] == mid[a - 1] && after[b] == mid[b - 1]);
                    assert(lex_le(mid[a - 1].key(), mid[b - 1].key()));
                }
            }
        }
        i += 1;
    }
    proof {
        if v@.len() == 0 {
            assert(sorted_by_key(v@));
        }
    }
}

/// The views of a string vector, in order.
pub open spec fn string_views(s: Seq<String>) -> Seq<Seq<char>> {
    s.map_values(|x: String| x@)
}

impl NameKey for String {
    open spec fn key(&self) -> Seq<u8> {
        vstd::utf8::encode_utf8(self@)
    }

    fn key_bytes(&self) -> (r: Vec<u8>) {
        self.as_str().as_bytes_vec()
    }
}

/// Equal sequences as multisets hold the same values as sets.
pub proof fn lemma_set_from_multiset<A>(a: Seq<A>, b: Seq<A>)
    requires
        a.to_multiset() == b.to_multiset(),
    ensures
        a.to_set() == b.to_set(),
{
    broadcast use vstd::seq_lib::to_multiset_contains, vstd::set::group_set_axioms;

    assert forall|x: A| a.to_set().contains(x) implies b.to_set().contains(x) by {
        assert(a.contains(x));
        assert(a.to_multiset().contains(x));
        assert(b.to_multiset().contains(x));
    }
    assert forall|x: A| b.to_set().contains(x) implies a.to_set().contains(x) by {
        assert(b.contains(x));
        assert(b.to_multiset().contains(x));
        assert(a.to_multiset().contains(x));
    }
    assert(a.to_set() =~= b.to_set());
}

/// Mapping preserves multiset equality.
pub proof fn lemma_map_values_multiset<A, B>(a: Seq<A>, b: Seq<A>, f: spec_fn(A) -> B)
    requires
        a.to_multiset() == b.to_multiset(),
    ensures
        a.map_values(f).to_multiset() == b.map_values(f).to_multiset(),
    decreases a.len(),
{
    broadcast use vstd::seq_lib::to_multiset_remove, vstd::seq_lib::to_multiset_insert,
        vstd::seq_lib::to_multiset_contains, vstd::seq_lib::to_multiset_build,
        vstd::seq_lib::to_multiset_len, vstd::multiset::group_multiset_axioms;

    if a.len() == 0 {
        assert(a.to_multiset().len() == a.len());
        assert(b.to_multiset().len() == b.len());
        assert(b.len() == 0);
        assert(a.map_values(f) =~= b.map_values(f));
    } else {
        let x = a.last();
        let a1 = a.drop_last();
        assert(a =~= a1.push(x));
        assert(a1.push(x).to_multiset() == a1.to_multiset().insert(x));
        assert(a.contains(x));
        assert(b.to_multiset().contains(x));
        assert(b.contains(x));
        let i = choose|i: int| 0 <= i < b.len() && b[i] == x;
        let b1 = b.remove(i);
        assert(b1.to_multiset() == b.to_multiset().remove(x));
        assert(a1.to_multiset() =~= b1.to_multiset());
        lemma_map_values_multiset(a1, b1, f);
        assert(a.map_values(f) =~= a1.map_values(f).push(f(x)));
        assert(a1.map_values(f).push(f(x)).to_multiset() == a1.map_values(f).to_multiset().insert(
            f(x),
        ));
        assert(b.map_values(f).remove(i) =~= b1.map_values(f));
        assert(b.map_values(f).remove(i).to_multiset() == b.map_values(f).to_multiset().remove(
            b.map_values(f)[i],
        ));
        assert(b.map_values(f)[i] == f(x));
        assert(b.map_values(f).to_multiset().contains(f(x))) by {
            assert(b.map_values(f).contains(b.map_values(f)[i]));
        }
        assert(a.map_values(f).to_multiset() =~= b.map_values(f).to_multiset());
    }
}

/// Pushing an element adds exactly it to the set of values held.
pub proof fn lemma_to_set_push<A>(s: Seq<A>, x: A)
    ensures
        s.push(x).to_set() == s.to_set().insert(x),
{
    broadcast use vstd::seq_lib::group_seq_properties, vstd::set::group_set_axioms;

    assert forall|y: A| s.push(x).to_set().contains(y) implies s.to_set().insert(x).contains(
        y,
    ) by {
        let k = choose|k: int| 0 <= k < s.push(x).len() && s.push(x)[k] == y;
        if k < s.len() {
            assert(s[k] == y);
            assert(s.contains(y));
        }
    }
    assert forall|y: A| s.to_set().insert(x).contains(y) implies s.push(x).to_set().contains(
        y,
    ) by {
        if y == x {
            assert(s.push(x)[s.len() as int] == y);
            assert(s.push(x).contains(y));
        } else {
            let k = choose|k: int| 0 <= k < s.len() && s[k] == y;
            assert(s.push(x)[k] == y);
            assert(s.push(x).contains(y));
        }
    }
    assert(s.push(x).to_set() =~= s.to_set().insert(x));
}

/// Removes repeats from a name-sorted string vector: what remains is still
/// sorted, holds no value twice, and holds exactly the values the input
/// held.
pub fn dedup_sorted(v: &Vec<String>) -> (r: Vec<String>)
    requires
        sorted_by_key(v@),
    ensures
        sorted_by_key(r@),
        string_views(r@).no_duplicates(),
        string_views(r@).to_set() == string_views(v@).to_set(),
{
    broadcast use vstd::utf8::encode_utf8_decode_utf8;

    let mut out: Vec<String> = Vec::new();
    let mut i: usize = 0;
    while i < v.len()
        invariant
            0 <= i <= v@.len(),
            sorted_by_key(v@),
            sorted_by_key(out@),
            string_views(out@).no_duplicates(),
            string_views(out@).to_set() == string_views(v@.take(i as int)).to_set(),
            forall|a: int|
                #![trigger out@[a]]
                0 <= a < out@.len() ==> exists|k: int|
                    0 <= k < i && out@[a] == #[trigger] v@[k],
        decreases v.len() - i,
    {
        broadcast use vstd::utf8::encode_utf8_decode_utf8;

        let keep = if out.len() == 0 {
            true
        } else {
            let differs = !(out[out.len() - 1] == v[i]);
            differs
        };
        proof {
            assert(v@.take(i + 1).drop_last() =~= v@.take(i as int));
            assert(v@.take(i + 1).last() == v@[i as int]);
            assert(string_views(v@.take(i + 1)) =~= string_views(v@.take(i as int)).push(
                v@[i as int]@,
            ));
        }
        if keep {
            let ghost prev = out@;
            out.push(v[i].clone());
            proof {
                assert(out@.last() == v@[i as int]);
                assert(string_views(out@) =~= string_views(prev).push(v@[i as int]@));
                let ghost vi = v@[i as int];
                assert forall|a: int|
                    0 <= a < prev.len() implies (#[trigger] string_views(prev)[a]) != vi@ by {
                    if string_views(prev)[a] == vi@ {
                        assert(prev[a]@ == v@[i as int]@);
                        assert(prev[a].key() == v@[i as int].key());
                        let last = prev[prev.len() - 1];
                        if prev.len() > 0 {
                            if a < prev.len() - 1 {
                                assert(lex_le(prev[a].key(), last.key()));
                            } else {
                                assert(prev[a] == last);
                                lemma_lex_refl(last.key());
                            }
                            let k = choose|k: int|
                                0 <= k < i && prev[prev.len() - 1] == #[trigger] v@[k];
                            assert(lex_le(v@[k].key(), v@[i as int].key()));
                            assert(lex_le(last.key(), v@[i as int].key()));
                            assert(lex_le(v@[i as int].key(), last.key()));
                            lemma_lex_antisym(last.key(), v@[i as int].key());
                            assert(vstd::utf8::decode_utf8(vstd::utf8::encode_utf8(last@))
                                == last@);
                            assert(vstd::utf8::decode_utf8(
                                vstd::utf8::encode_utf8(v@[i as int]@),
                            ) == v@[i as int]@);
                            assert(last@ == v@[i as int]@);
                            assert(false);
                        }
                    }
                }
                assert(string_views(out@).no_duplicates());
                lemma_to_set_push(string_views(prev), v@[i as int]@);
                lemma_to_set_push(string_views(v@.take(i as int)), v@[i as int]@);
                assert(string_views(out@).to_set() =~= string_views(v@.take(i + 1)).to_set());
                assert forall|a: int, b: int|
                    #![trigger out@[a], out@[b]]
                    0 <= a < b < out@.len() implies lex_le(out@[a].key(), out@[b].key()) by {
                    if b < prev.len() {
                        assert(out@[a] == prev[a] && out@[b] == prev[b]);
                    } else {
                        assert(out@[b] == v@[i as int]);
                        assert(out@[a] == prev[a]);
                        let k = choose|k: int| 0 <= k < i && prev[a] == #[trigger] v@[k];
                        assert(lex_le(v@[k].key(), v@[i as int].key()));
                    }
                }
            }
        } else {
            proof {
                let last = out@[out@.len() - 1];
                assert(last@ == v@[i as int]@);
                assert(string_views(out@)[out@.len() - 1] == v@[i as int]@);
                assert(string_views(out@).contains(v@[i as int]@));
                broadcast use vstd::set::group_set_axioms;

                assert(string_views(out@).to_set().contains(v@[i as int]@));
                assert(string_views(v@.take(i as int)).to_set().contains(v@[i as int]@));
                lemma_to_set_push(string_views(v@.take(i as int)), v@[i as int]@);
                assert(string_views(out@).to_set() =~= string_views(v@.take(i + 1)).to_set());
            }
        }
        i += 1;
    }
    proof {
        assert(v@.take(v@.len() as int) =~= v@);
    }
    out
}

/// Equal sequences as multisets are together duplicate-free or not.
pub proof fn lemma_no_duplicates_from_multiset<A>(a: Seq<A>, b: Seq<A>)
    requires
        a.to_multiset() == b.to_multiset(),
        a.no_duplicates(),
    ensures
        b.no_duplicates(),
{
    a.lemma_multiset_has_no_duplicates();
    b.lemma_multiset_has_no_duplicates_conv();
}

} // verus!
