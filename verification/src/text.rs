//! Shared text utilities: views of string vectors, character-exact string
//! equality, and the lexicographic order used to sort favorite names.

use vstd::prelude::*;
use vstd::relations::total_ordering;

verus! {

/// The views of a sequence of strings, as sequences of characters.
pub open spec fn seq_views(s: Seq<String>) -> Seq<Seq<char>> {
    s.map_values(|x: String| x@)
}

pub proof fn lemma_views_push(s: Seq<String>, x: String)
    ensures
        seq_views(s.push(x)) == seq_views(s).push(x@),
{
    assert(seq_views(s.push(x)) =~= seq_views(s).push(x@));
}

pub proof fn lemma_views_update(s: Seq<String>, i: int, x: String)
    requires
        0 <= i < s.len(),
    ensures
        seq_views(s.update(i, x)) == seq_views(s).update(i, x@),
{
    assert(seq_views(s.update(i, x)) =~= seq_views(s).update(i, x@));
}

pub proof fn lemma_views_remove(s: Seq<String>, i: int)
    requires
        0 <= i < s.len(),
    ensures
        seq_views(s.remove(i)) == seq_views(s).remove(i),
{
    assert(seq_views(s.remove(i)) =~= seq_views(s).remove(i));
}

pub proof fn lemma_views_insert(s: Seq<String>, i: int, x: String)
    requires
        0 <= i <= s.len(),
    ensures
        seq_views(s.insert(i, x)) == seq_views(s).insert(i, x@),
{
    assert(seq_views(s.insert(i, x)) =~= seq_views(s).insert(i, x@));
}

/// Inserting anywhere adds the element to the multiset of the sequence.
pub proof fn lemma_insert_to_multiset<A>(s: Seq<A>, i: int, x: A)
    requires
        0 <= i <= s.len(),
    ensures
        s.insert(i, x).to_multiset() == s.to_multiset().insert(x),
{
    broadcast use vstd::seq_lib::group_to_multiset_ensures;

    let t = s.insert(i, x);
    assert(t =~= s.take(i).push(x) + s.skip(i));
    assert(s =~= s.take(i) + s.skip(i));
    vstd::seq_lib::lemma_multiset_commutative(s.take(i).push(x), s.skip(i));
    vstd::seq_lib::lemma_multiset_commutative(s.take(i), s.skip(i));
    assert(t.to_multiset() =~= s.to_multiset().insert(x));
}

/// Every element of a filtered sequence is an element of the sequence.
pub proof fn lemma_filter_subset<A>(s: Seq<A>, p: spec_fn(A) -> bool)
    ensures
        forall|x: A| #[trigger] s.filter(p).contains(x) ==> s.contains(x),
    decreases s.len(),
{
    reveal(Seq::filter);
    if s.len() > 0 {
        lemma_filter_subset(s.drop_last(), p);
        assert forall|x: A| #[trigger] s.filter(p).contains(x) implies s.contains(x) by {
            if x == s.last() {
                assert(s[s.len() - 1] == x);
            } else {
                assert(s.drop_last().filter(p).contains(x));
                assert(s.drop_last().contains(x));
                let j = choose|j: int|
                    0 <= j < s.drop_last().len() && s.drop_last()[j] == x;
                assert(s[j] == x);
            }
        }
    }
}

/// Filtering keeps a duplicate-free sequence duplicate-free.
pub proof fn lemma_filter_no_duplicates<A>(s: Seq<A>, p: spec_fn(A) -> bool)
    requires
        s.no_duplicates(),
    ensures
        s.filter(p).no_duplicates(),
    decreases s.len(),
{
    reveal(Seq::filter);
    if s.len() > 0 {
        assert(s.drop_last().no_duplicates());
        lemma_filter_no_duplicates(s.drop_last(), p);
        lemma_filter_subset(s.drop_last(), p);
        if p(s.last()) {
            let sub = s.drop_last().filter(p);
            assert(!s.drop_last().contains(s.last())) by {
                if s.drop_last().contains(s.last()) {
                    let j = choose|j: int|
                        0 <= j < s.drop_last().len() && s.drop_last()[j] == s.last();
                    assert(s[j] == s[s.len() - 1]);
                }
            }
            assert(!sub.contains(s.last()));
            assert forall|i: int, j: int|
                0 <= i < sub.push(s.last()).len() && 0 <= j < sub.push(s.last()).len() && i
                    != j implies sub.push(s.last())[i] != sub.push(s.last())[j] by {
                if i < sub.len() && j < sub.len() {
                } else if i == sub.len() {
                    assert(sub.contains(sub[j]));
                } else if j == sub.len() {
                    assert(sub.contains(sub[i]));
                }
            }
        }
    }
}

/// Character-exact string equality.
pub fn str_eq(a: &str, b: &str) -> (r: bool)
    ensures
        r == (a@ == b@),
{
    let la = a.unicode_len();
    let lb = b.unicode_len();
    if la != lb {
        return false;
    }
    let mut i: usize = 0;
    while i < la
        invariant
            i <= la,
            la == a@.len(),
            lb == b@.len(),
            la == lb,
            forall|j: int| 0 <= j < i ==> a@[j] == b@[j],
        decreases la - i,
    {
        if a.get_char(i) != b.get_char(i) {
            proof {
                assert(a@[i as int] != b@[i as int]);
            }
            return false;
        }
        i += 1;
    }
    proof {
        assert(a@ =~= b@);
    }
    true
}

/// Lexicographic "less than or equal" on character sequences, ordered by
/// code point; the order in which favorite names are kept.
pub open spec fn lex_le(a: Seq<char>, b: Seq<char>) -> bool
    decreases a.len(),
{
    if a.len() == 0 {
        true
    } else if b.len() == 0 {
        false
    } else if (a[0] as int) < (b[0] as int) {
        true
    } else if (a[0] as int) > (b[0] as int) {
        false
    } else {
        lex_le(a.skip(1), b.skip(1))
    }
}

/// `lex_le`, packaged as a relation value.
pub open spec fn lex_leq() -> spec_fn(Seq<char>, Seq<char>) -> bool {
    |a: Seq<char>, b: Seq<char>| lex_le(a, b)
}

pub proof fn lemma_lex_le_reflexive(a: Seq<char>)
    ensures
        lex_le(a, a),
    decreases a.len(),
{
    if a.len() > 0 {
        lemma_lex_le_reflexive(a.skip(1));
    }
}

pub proof fn lemma_lex_le_connected(a: Seq<char>, b: Seq<char>)
    ensures
        lex_le(a, b) || lex_le(b, a),
    decreases a.len(),
{
    if a.len() > 0 && b.len() > 0 && a[0] == b[0] {
        lemma_lex_le_connected(a.skip(1), b.skip(1));
    }
}

pub proof fn lemma_lex_le_antisymmetric(a: Seq<char>, b: Seq<char>)
    requires
        lex_le(a, b),
        lex_le(b, a),
    ensures
        a == b,
    decreases a.len(),
{
    if a.len() > 0 {
        lemma_lex_le_antisymmetric(a.skip(1), b.skip(1));
        assert(a =~= seq![a[0]] + a.skip(1));
        assert(b =~= seq![b[0]] + b.skip(1));
    } else {
        assert(a =~= b);
    }
}

pub proof fn lemma_lex_le_transitive(a: Seq<char>, b: Seq<char>, c: Seq<char>)
    requires
        lex_le(a, b),
        lex_le(b, c),
    ensures
        lex_le(a, c),
    decreases a.len(),
{
    if a.len() > 0 && b.len() > 0 && c.len() > 0 && a[0] == b[0] && b[0] == c[0] {
        lemma_lex_le_transitive(a.skip(1), b.skip(1), c.skip(1));
    }
}

/// The lexicographic order is a total order.
pub proof fn lemma_lex_total_ordering()
    ensures
        total_ordering(lex_leq()),
{
    let r = lex_leq();
    assert forall|x: Seq<char>| #[trigger] r(x, x) by {
        lemma_lex_le_reflexive(x);
    }
    assert forall|x: Seq<char>, y: Seq<char>| #[trigger] r(x, y) && #[trigger] r(y, x) implies x
        == y by {
        lemma_lex_le_antisymmetric(x, y);
    }
    assert forall|x: Seq<char>, y: Seq<char>, z: Seq<char>|
        #[trigger] r(x, y) && #[trigger] r(y, z) implies r(x, z) by {
        lemma_lex_le_transitive(x, y, z);
    }
    assert forall|x: Seq<char>, y: Seq<char>| #[trigger] r(x, y) || #[trigger] r(y, x) by {
        lemma_lex_le_connected(x, y);
    }
}

/// Character-exact lexicographic comparison of two strings.
pub fn str_le(a: &str, b: &str) -> (r: bool)
    ensures
        r == lex_le(a@, b@),
{
    let la = a.unicode_len();
    let lb = b.unicode_len();
    let mut i: usize = 0;
    proof {
        assert(a@.skip(0) =~= a@);
        assert(b@.skip(0) =~= b@);
    }
    while i < la && i < lb
        invariant
            i <= la,
            i <= lb,
            la == a@.len(),
            lb == b@.len(),
            lex_le(a@, b@) == lex_le(a@.skip(i as int), b@.skip(i as int)),
        decreases la - i,
    {
        let ca = a.get_char(i);
        let cb = b.get_char(i);
        if (ca as u32) < (cb as u32) {
            return true;
        }
        if (ca as u32) > (cb as u32) {
            return false;
        }
        proof {
            assert(a@.skip(i as int).skip(1) =~= a@.skip(i + 1));
            assert(b@.skip(i as int).skip(1) =~= b@.skip(i + 1));
        }
        i += 1;
    }
    if i == la {
        proof {
            assert(a@.skip(i as int).len() == 0);
        }
        true
    } else {
        proof {
            assert(a@.skip(i as int).len() > 0);
            assert(b@.skip(i as int).len() == 0);
        }
        false
    }
}

} // verus!
