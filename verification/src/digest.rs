//! Content hashes of images, their order, and sorting a table of them.

use vstd::prelude::*;
use vstd::relations::{sorted_by, total_ordering};
use vstd::seq_lib::lemma_sorted_unique;
use sha2::Digest;

verus! {

/// Number of bytes in a content hash.
pub const HASH_SIZE: usize = 32;

/// The SHA-256 digest of `data`, as the `sha2` crate computes it.
pub uninterp spec fn sha256(data: Seq<u8>) -> Seq<u8>;

/// A 32-byte content hash. Hashes are ordered as their byte strings are,
/// lexicographically.
#[derive(Copy, Clone, PartialEq, Eq, PartialOrd, Ord, Debug)]
pub struct Sha256Hash(pub [u8; 32]);

impl View for Sha256Hash {
    type V = Seq<u8>;

    open spec fn view(&self) -> Seq<u8> {
        self.0@
    }
}

impl Sha256Hash {
    /// Hashes `data` with `sha2::Sha256::digest`. The contract names the
    /// result: it is the SHA-256 digest of the bytes and of nothing else.
    #[verifier::external_body]
    pub fn new(data: &[u8]) -> (hash: Sha256Hash)
        ensures
            hash@ == sha256(data@),
    {
        Sha256Hash(sha2::Sha256::digest(data).into())
    }

    /// Whether `self` is at most `other` in the lexicographic order.
    pub fn at_most(&self, other: &Sha256Hash) -> (r: bool)
        ensures
            r == lex_le(self@, other@),
    {
        let mut i: usize = 0;
        proof {
            assert(self@.skip(0) =~= self@);
            assert(other@.skip(0) =~= other@);
        }
        while i < 32
            invariant
                i <= 32,
                lex_le(self@, other@) == lex_le(self@.skip(i as int), other@.skip(i as int)),
            decreases 32 - i,
        {
            let a: u8 = self.0[i];
            let b: u8 = other.0[i];
            if a != b {
                return a < b;
            }
            proof {
                assert(self@.skip(i as int).drop_first() =~= self@.skip(i + 1));
                assert(other@.skip(i as int).drop_first() =~= other@.skip(i + 1));
            }
            i += 1;
        }
        true
    }
}

/// Lexicographic "at most" on byte strings: the first byte in which the two
/// differ decides, and a string is at most each of its extensions.
pub open spec fn lex_le(a: Seq<u8>, b: Seq<u8>) -> bool
    decreases a.len(),
{
    if a.len() == 0 {
        true
    } else if b.len() == 0 {
        false
    } else if a[0] == b[0] {
        lex_le(a.drop_first(), b.drop_first())
    } else {
        a[0] < b[0]
    }
}

/// `lex_le` as a relation, for the sequence library.
pub open spec fn digest_order() -> spec_fn(Seq<u8>, Seq<u8>) -> bool {
    |a: Seq<u8>, b: Seq<u8>| lex_le(a, b)
}

/// What each hash of `hashes` holds.
pub open spec fn digests_of(hashes: Seq<Sha256Hash>) -> Seq<Seq<u8>> {
    hashes.map_values(|h: Sha256Hash| h@)
}

/// No entry of `table` is above a later one.
pub open spec fn ascending(table: Seq<Seq<u8>>) -> bool {
    forall|i: int, j: int| 0 <= i < j < table.len() ==> lex_le(#[trigger] table[i], #[trigger] table[j])
}

/// The entries of `table` in ascending order.
pub open spec fn sorted_digests(table: Seq<Seq<u8>>) -> Seq<Seq<u8>> {
    table.sort_by(digest_order())
}

/// Every byte string is at most itself.
pub proof fn lemma_lex_le_reflexive(a: Seq<u8>)
    ensures
        lex_le(a, a),
    decreases a.len(),
{
    if a.len() > 0 {
        lemma_lex_le_reflexive(a.drop_first());
    }
}

/// Two byte strings that are each at most the other are the same.
pub proof fn lemma_lex_le_antisymmetric(a: Seq<u8>, b: Seq<u8>)
    requires
        lex_le(a, b),
        lex_le(b, a),
    ensures
        a == b,
    decreases a.len(),
{
    if a.len() == 0 {
        assert(a =~= b);
    } else {
        lemma_lex_le_antisymmetric(a.drop_first(), b.drop_first());
        assert(a =~= seq![a[0]] + a.drop_first());
        assert(b =~= seq![b[0]] + b.drop_first());
    }
}

/// What is at most a second string is at most whatever the second is at
/// most.
pub proof fn lemma_lex_le_transitive(a: Seq<u8>, b: Seq<u8>, c: Seq<u8>)
    requires
        lex_le(a, b),
        lex_le(b, c),
    ensures
        lex_le(a, c),
    decreases a.len(),
{
    if a.len() > 0 && a[0] == b[0] && b[0] == c[0] {
        lemma_lex_le_transitive(a.drop_first(), b.drop_first(), c.drop_first());
    }
}

/// Of two byte strings, one is at most the other.
pub proof fn lemma_lex_le_total(a: Seq<u8>, b: Seq<u8>)
    ensures
        lex_le(a, b) || lex_le(b, a),
    decreases a.len(),
{
    if a.len() > 0 && b.len() > 0 && a[0] == b[0] {
        lemma_lex_le_total(a.drop_first(), b.drop_first());
    }
}

/// The lexicographic order is a total order on byte strings.
pub proof fn lemma_digest_order_total()
    ensures
        total_ordering(digest_order()),
{
    let r = digest_order();
    assert forall|x: Seq<u8>| #[trigger] r(x, x) by {
        lemma_lex_le_reflexive(x);
    }
    assert forall|x: Seq<u8>, y: Seq<u8>| #[trigger] r(x, y) && #[trigger] r(y, x) implies x
        == y by {
        lemma_lex_le_antisymmetric(x, y);
    }
    assert forall|x: Seq<u8>, y: Seq<u8>, z: Seq<u8>| #[trigger] r(x, y) && #[trigger] r(
        y,
        z,
    ) implies r(x, z) by {
        lemma_lex_le_transitive(x, y, z);
    }
    assert forall|x: Seq<u8>, y: Seq<u8>| #[trigger] r(x, y) || #[trigger] r(y, x) by {
        lemma_lex_le_total(x, y);
    }
}

/// `sorted_digests` puts the entries in ascending order and neither adds nor
/// drops one.
pub proof fn lemma_sorted_digests(table: Seq<Seq<u8>>)
    ensures
        ascending(sorted_digests(table)),
        sorted_digests(table).to_multiset() == table.to_multiset(),
        sorted_digests(table).len() == table.len(),
{
    lemma_digest_order_total();
    table.lemma_sort_by_ensures(digest_order());
    let sorted = sorted_digests(table);
    assert forall|i: int, j: int| 0 <= i < j < sorted.len() implies lex_le(
        #[trigger] sorted[i],
        #[trigger] sorted[j],
    ) by {
        assert(digest_order()(sorted[i], sorted[j]));
    }
    table.to_multiset_ensures();
    sorted.to_multiset_ensures();
}

/// An ascending table with the same entries as `table` is `sorted_digests(table)`:
/// the order leaves no choice.
pub proof fn lemma_ascending_is_sorted(table: Seq<Seq<u8>>, arranged: Seq<Seq<u8>>)
    requires
        ascending(arranged),
        arranged.to_multiset() == table.to_multiset(),
    ensures
        arranged == sorted_digests(table),
{
    lemma_digest_order_total();
    lemma_sorted_digests(table);
    let sorted = sorted_digests(table);
    assert(sorted_by(arranged, digest_order()));
    assert(sorted_by(sorted, digest_order()));
    lemma_sorted_unique(arranged, sorted, digest_order());
}

/// Sorting a sorted table changes nothing.
pub proof fn lemma_sorting_is_idempotent(table: Seq<Seq<u8>>)
    ensures
        sorted_digests(sorted_digests(table)) == sorted_digests(table),
{
    lemma_sorted_digests(table);
    lemma_ascending_is_sorted(sorted_digests(table), sorted_digests(table));
}

/// Hashing is deterministic: two hashes of the same bytes are the same
/// value.
pub proof fn lemma_same_bytes_same_hash(a: Sha256Hash, b: Sha256Hash, x: Seq<u8>, y: Seq<u8>)
    requires
        a@ == sha256(x),
        b@ == sha256(y),
        x == y,
    ensures
        a == b,
{
    vstd::array::axiom_array_ext_equal(a.0, b.0);
    assert(a.0@ =~= b.0@);
}

/// Exchanging two entries of a sequence keeps what it holds.
pub proof fn lemma_exchange_keeps_entries(s: Seq<Seq<u8>>, i: int, j: int)
    requires
        0 <= i < s.len(),
        0 <= j < s.len(),
    ensures
        s.update(i, s[j]).update(j, s[i]).to_multiset() == s.to_multiset(),
{
    broadcast use vstd::seq_lib::to_multiset_update;
    broadcast use vstd::multiset::group_multiset_axioms;

    let t = s.update(i, s[j]);
    assert(t.to_multiset() == s.to_multiset().insert(s[j]).remove(s[i]));
    assert(t.update(j, s[i]).to_multiset() == t.to_multiset().insert(s[i]).remove(t[j]));
    assert(t[j] == s[j]);
    s.to_multiset_ensures();
    assert(s.contains(s[i]));
    assert(s.contains(s[j]));
    assert(t.update(j, s[i]).to_multiset() =~= s.to_multiset());
}

/// Sorts `hashes` ascending, in place.
pub fn sort_hashes(hashes: &mut Vec<Sha256Hash>)
    ensures
        digests_of(final(hashes)@) == sorted_digests(digests_of(old(hashes)@)),
        ascending(digests_of(final(hashes)@)),
        digests_of(final(hashes)@).to_multiset() == digests_of(old(hashes)@).to_multiset(),
        final(hashes).len() == old(hashes).len(),
{
    let n: usize = hashes.len();
    let ghost start = digests_of(hashes@);
    let mut i: usize = 0;
    while i < n
        invariant
            i <= n,
            hashes.len() == n,
            digests_of(hashes@).to_multiset() == start.to_multiset(),
            forall|a: int, b: int|
                0 <= a < b < i ==> lex_le(
                    #[trigger] digests_of(hashes@)[a],
                    #[trigger] digests_of(hashes@)[b],
                ),
        decreases n - i,
    {
        let mut j: usize = i;
        while j > 0 && !hashes[j - 1].at_most(&hashes[j])
            invariant
                j <= i < n,
                hashes.len() == n,
                digests_of(hashes@).to_multiset() == start.to_multiset(),
                forall|a: int, b: int|
                    0 <= a < b <= i && a != j && b != j ==> lex_le(
                        #[trigger] digests_of(hashes@)[a],
                        #[trigger] digests_of(hashes@)[b],
                    ),
                forall|b: int|
                    j < b <= i ==> lex_le(
                        digests_of(hashes@)[j as int],
                        #[trigger] digests_of(hashes@)[b],
                    ),
            decreases j,
        {
            let ghost before = digests_of(hashes@);
            let lower: Sha256Hash = hashes[j - 1];
            let upper: Sha256Hash = hashes[j];
            hashes[j - 1] = upper;
            hashes[j] = lower;
            proof {
                let after = digests_of(hashes@);
                assert(after =~= before.update(j - 1, before[j as int]).update(
                    j as int,
                    before[j - 1],
                ));
                lemma_exchange_keeps_entries(before, j - 1, j as int);
                lemma_lex_le_total(before[j - 1], before[j as int]);
            }
            j -= 1;
        }
        proof {
            let table = digests_of(hashes@);
            assert forall|a: int, b: int| 0 <= a < b < i + 1 implies lex_le(
                #[trigger] table[a],
                #[trigger] table[b],
            ) by {
                if b == j && a != j - 1 {
                    lemma_lex_le_transitive(table[a], table[j - 1], table[j as int]);
                }
            }
        }
        i += 1;
    }
    proof {
        lemma_ascending_is_sorted(start, digests_of(hashes@));
    }
}

} // verus!
