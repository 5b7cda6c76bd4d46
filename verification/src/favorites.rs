//! The favorites store: an ordered, duplicate-free set of non-empty
//! station names with a change-notification count. Adding the empty string
//! or a name already present changes nothing and notifies nobody; removing
//! re-sorts the remaining names lexicographically.
//!
//! Persistence is a caller's concern: the caller loads the initial names
//! into [`Favorites::from_names`] and writes [`Favorites::get`] back after
//! each mutation, watching [`Favorites::change_count`] to dispatch change
//! notifications to subscribers.

use vstd::prelude::*;
use vstd::relations::sorted_by;

use crate::text::{
    lemma_filter_no_duplicates, lemma_filter_subset, lemma_insert_to_multiset,
    lemma_lex_le_connected, lemma_lex_le_transitive, lemma_views_insert, lemma_views_push,
    lex_le, lex_leq, seq_views, str_eq, str_le,
};

verus! {

/// A name may be kept: it is not empty.
pub open spec fn keepable(n: Seq<char>) -> bool {
    n.len() > 0
}

/// Keeping a name means it differs from the removed one.
pub open spec fn differs_from(gone: Seq<char>) -> spec_fn(Seq<char>) -> bool {
    |n: Seq<char>| n != gone
}

/// The names left once one is removed.
pub open spec fn names_without(s: Seq<Seq<char>>, gone: Seq<char>) -> Seq<Seq<char>> {
    s.filter(differs_from(gone))
}

proof fn lemma_names_without_push(s: Seq<Seq<char>>, x: Seq<char>, gone: Seq<char>)
    ensures
        x != gone ==> names_without(s.push(x), gone) == names_without(s, gone).push(x),
        x == gone ==> names_without(s.push(x), gone) == names_without(s, gone),
{
    s.lemma_filter_push(x, differs_from(gone));
}

/// A removal keeps exactly the other names: a name is among the names
/// without `gone` just when it was there before and is not `gone`.
pub proof fn lemma_names_without_exact(s: Seq<Seq<char>>, gone: Seq<char>)
    ensures
        forall|x: Seq<char>| #[trigger] names_without(s, gone).contains(x) <==> (s.contains(x) && x
            != gone),
{
    lemma_names_without_subset(s, gone);
    assert forall|x: Seq<char>| #[trigger] names_without(s, gone).contains(x) implies (s.contains(
        x,
    ) && x != gone) by {
        let f = names_without(s, gone);
        let j = choose|j: int| 0 <= j < f.len() && f[j] == x;
        s.lemma_filter_pred(differs_from(gone), j);
    }
    assert forall|x: Seq<char>| s.contains(x) && x != gone implies #[trigger] names_without(
        s,
        gone,
    ).contains(x) by {
        let j = choose|j: int| 0 <= j < s.len() && s[j] == x;
        s.lemma_filter_contains(differs_from(gone), j);
    }
}

proof fn lemma_names_without_no_duplicates(s: Seq<Seq<char>>, gone: Seq<char>)
    requires
        s.no_duplicates(),
    ensures
        names_without(s, gone).no_duplicates(),
{
    lemma_filter_no_duplicates(s, differs_from(gone));
}

proof fn lemma_names_without_subset(s: Seq<Seq<char>>, gone: Seq<char>)
    ensures
        forall|x: Seq<char>| #[trigger] names_without(s, gone).contains(x) ==> s.contains(x),
{
    lemma_filter_subset(s, differs_from(gone));
}

/// The store an initial list of names folds into: empty names and
/// duplicates are dropped, first occurrences keep their order.
pub open spec fn fold_add(s: Seq<Seq<char>>) -> Seq<Seq<char>>
    decreases s.len(),
{
    if s.len() == 0 {
        Seq::empty()
    } else {
        let prev = fold_add(s.drop_last());
        if s.last().len() == 0 || prev.contains(s.last()) {
            prev
        } else {
            prev.push(s.last())
        }
    }
}

/// Ordered set of favorite station names, with a count of the change
/// notifications fired so far.
pub struct Favorites {
    pub names: Vec<String>,
    pub changes: u64,
}

impl Favorites {
    /// The favorite names, in store order.
    pub open spec fn views(self) -> Seq<Seq<char>> {
        seq_views(self.names@)
    }

    /// Every stored name is non-empty and appears once.
    pub open spec fn wf(self) -> bool {
        &&& forall|i: int| 0 <= i < self.views().len() ==> keepable(#[trigger] self.views()[i])
        &&& self.views().no_duplicates()
    }

    /// An empty store that has notified nobody.
    pub fn new() -> (r: Favorites)
        ensures
            r.views() == Seq::<Seq<char>>::empty(),
            r.changes == 0,
            r.wf(),
    {
        let r = Favorites { names: Vec::new(), changes: 0 };
        proof {
            assert(r.views() =~= Seq::<Seq<char>>::empty());
        }
        r
    }

    /// A store loaded from a persisted list of names: empty names and
    /// duplicates are dropped, and no notification is counted for loading.
    pub fn from_names(names: &Vec<String>) -> (r: Favorites)
        ensures
            r.views() == fold_add(seq_views(names@)),
            r.changes == 0,
            r.wf(),
    {
        let mut r = Favorites::new();
        let mut k: usize = 0;
        proof {
            assert(seq_views(names@).take(0) =~= Seq::<Seq<char>>::empty());
        }
        while k < names.len()
            invariant
                k <= names@.len(),
                r.wf(),
                r.changes <= k,
                r.views() == fold_add(seq_views(names@).take(k as int)),
            decreases names@.len() - k,
        {
            let ghost taken = seq_views(names@).take(k as int);
            proof {
                assert(seq_views(names@).take(k + 1).drop_last() =~= taken);
                assert(seq_views(names@).take(k + 1).last() == seq_views(names@)[k as int]);
            }
            r.add(names[k].as_str());
            k += 1;
        }
        proof {
            assert(seq_views(names@).take(names@.len() as int) =~= seq_views(names@));
        }
        r.changes = 0;
        r
    }

    /// The number of change notifications fired so far: one per effective
    /// `add` or per `remove`.
    pub fn change_count(&self) -> (n: u64)
        ensures
            n == self.changes,
    {
        self.changes
    }

    /// The favorite names, in store order.
    pub fn get(&self) -> (r: Vec<String>)
        ensures
            r@ == self.names@,
    {
        let mut out: Vec<String> = Vec::new();
        let mut j: usize = 0;
        while j < self.names.len()
            invariant
                j <= self.names@.len(),
                out@ == self.names@.take(j as int),
            decreases self.names@.len() - j,
        {
            out.push(self.names[j].clone());
            proof {
                assert(out@ =~= self.names@.take(j + 1));
            }
            j += 1;
        }
        proof {
            assert(self.names@.take(self.names@.len() as int) =~= self.names@);
        }
        out
    }

    /// Whether a name is stored.
    pub fn contains(&self, favorite: &str) -> (r: bool)
        ensures
            r == self.views().contains(favorite@),
    {
        let mut j: usize = 0;
        while j < self.names.len()
            invariant
                j <= self.names@.len(),
                forall|k: int| 0 <= k < j ==> self.views()[k] != favorite@,
            decreases self.names@.len() - j,
        {
            if str_eq(self.names[j].as_str(), favorite) {
                proof {
                    assert(self.views()[j as int] == favorite@);
                }
                return true;
            }
            j += 1;
        }
        false
    }

    /// Adds a name. The empty string and a name already stored change
    /// nothing and fire no notification; a new name is appended and one
    /// notification fires.
    pub fn add(&mut self, favorite: &str)
        requires
            old(self).changes < u64::MAX,
        ensures
            favorite@.len() == 0 ==> *final(self) == *old(self),
            favorite@.len() > 0 && old(self).views().contains(favorite@) ==> *final(self) == *old(
                self,
            ),
            favorite@.len() > 0 && !old(self).views().contains(favorite@) ==> final(self).views()
                == old(self).views().push(favorite@) && final(self).changes == old(self).changes
                + 1,
            old(self).wf() ==> final(self).wf(),
    {
        if favorite.unicode_len() == 0 {
            return ;
        }
        if self.contains(favorite) {
            return ;
        }
        let ghost nv = self.names@;
        self.names.push(favorite.to_owned());
        self.changes = self.changes + 1;
        proof {
            lemma_views_push(nv, self.names@.last());
            if old(self).wf() {
                let s1 = self.views();
                assert forall|i: int, j: int|
                    0 <= i < s1.len() && 0 <= j < s1.len() && i != j implies s1[i] != s1[j] by {
                    if i == s1.len() - 1 {
                        assert(old(self).views().contains(old(self).views()[j]));
                    } else if j == s1.len() - 1 {
                        assert(old(self).views().contains(old(self).views()[i]));
                    }
                }
            }
        }
    }

    /// Removes every occurrence of a name, re-sorts the remaining names
    /// lexicographically, and fires one notification.
    pub fn remove(&mut self, favorite: &str)
        requires
            old(self).changes < u64::MAX,
        ensures
            sorted_by(final(self).views(), lex_leq()),
            final(self).views().to_multiset() == names_without(
                old(self).views(),
                favorite@,
            ).to_multiset(),
            final(self).changes == old(self).changes + 1,
            old(self).wf() ==> final(self).wf(),
    {
        broadcast use vstd::seq_lib::group_to_multiset_ensures;

        let ghost s0 = self.views();
        // keep the names that differ from the removed one
        let mut kept: Vec<String> = Vec::new();
        let mut j: usize = 0;
        proof {
            assert(s0.take(0) =~= Seq::<Seq<char>>::empty());
            reveal(Seq::filter);
            assert(seq_views(kept@) =~= names_without(s0.take(0), favorite@));
        }
        while j < self.names.len()
            invariant
                j <= self.names@.len(),
                s0 == self.views(),
                seq_views(kept@) == names_without(s0.take(j as int), favorite@),
            decreases self.names@.len() - j,
        {
            let ghost taken = s0.take(j as int);
            proof {
                assert(s0.take(j + 1) =~= taken.push(s0[j as int]));
                lemma_names_without_push(taken, s0[j as int], favorite@);
            }
            if !str_eq(self.names[j].as_str(), favorite) {
                let ghost kv = kept@;
                kept.push(self.names[j].clone());
                proof {
                    lemma_views_push(kv, kept@.last());
                    assert(kept@.last()@ == s0[j as int]);
                    assert(seq_views(kept@) == names_without(taken, favorite@).push(
                        s0[j as int],
                    ));
                }
            } else {
                proof {
                    assert(s0[j as int] == favorite@);
                }
            }
            proof {
                assert(seq_views(kept@) == names_without(s0.take(j + 1), favorite@));
            }
            j += 1;
        }
        proof {
            assert(s0.take(self.names@.len() as int) =~= s0);
        }
        // sort them
        let mut result: Vec<String> = Vec::new();
        let mut k: usize = 0;
        proof {
            assert(seq_views(result@) =~= Seq::<Seq<char>>::empty());
            assert(seq_views(kept@).take(0) =~= Seq::<Seq<char>>::empty());
            assert(Seq::<Seq<char>>::empty().to_multiset() =~= seq_views(
                result@,
            ).to_multiset());
        }
        while k < kept.len()
            invariant
                k <= kept@.len(),
                seq_views(kept@) == names_without(s0, favorite@),
                sorted_by(seq_views(result@), lex_leq()),
                seq_views(result@).to_multiset() == seq_views(kept@).take(
                    k as int,
                ).to_multiset(),
            decreases kept@.len() - k,
        {
            proof {
                assert(seq_views(kept@).take(k + 1) =~= seq_views(kept@).take(k as int).push(
                    seq_views(kept@)[k as int],
                ));
                seq_views(kept@).take(k as int).to_multiset_ensures();
                assert(seq_views(kept@).take(k as int).push(
                    seq_views(kept@)[k as int],
                ).to_multiset() =~= seq_views(kept@).take(k as int).to_multiset().insert(
                    seq_views(kept@)[k as int],
                ));
            }
            insert_name(&mut result, kept[k].clone());
            proof {
                assert(seq_views(result@).to_multiset() == seq_views(kept@).take(
                    k + 1,
                ).to_multiset());
            }
            k += 1;
        }
        proof {
            assert(seq_views(kept@).take(kept@.len() as int) =~= seq_views(kept@));
        }
        self.names = result;
        self.changes = self.changes + 1;
        proof {
            if old(self).wf() {
                lemma_names_without_no_duplicates(s0, favorite@);
                lemma_names_without_subset(s0, favorite@);
                let f = names_without(s0, favorite@);
                let r = self.views();
                f.lemma_multiset_has_no_duplicates();
                assert forall|x: Seq<char>|
                    r.to_multiset().contains(x) implies r.to_multiset().count(x) == 1 by {}
                r.lemma_multiset_has_no_duplicates_conv();
                assert forall|i: int| 0 <= i < r.len() implies keepable(r[i]) by {
                    assert(r.to_multiset().count(r[i]) > 0);
                    assert(f.contains(r[i]));
                    assert(s0.contains(r[i]));
                }
            }
        }
    }
}

/// The first position whose name is not below `x`: where `x` belongs in a
/// sorted list.
fn insert_pos(v: &Vec<String>, x: &str) -> (i: usize)
    ensures
        i <= v@.len(),
        forall|j: int| 0 <= j < i ==> !lex_le(x@, #[trigger] seq_views(v@)[j]),
        i < v@.len() ==> lex_le(x@, seq_views(v@)[i as int]),
{
    let mut i: usize = 0;
    loop
        invariant
            i <= v@.len(),
            forall|j: int| 0 <= j < i ==> !lex_le(x@, #[trigger] seq_views(v@)[j]),
        decreases v@.len() - i,
    {
        if i == v.len() {
            return i;
        }
        if str_le(x, v[i].as_str()) {
            return i;
        }
        i += 1;
    }
}

/// Inserts a name into a lexicographically sorted list, keeping it sorted;
/// the multiset of names grows by exactly that name.
fn insert_name(v: &mut Vec<String>, x: String)
    requires
        sorted_by(seq_views(old(v)@), lex_leq()),
    ensures
        sorted_by(seq_views(final(v)@), lex_leq()),
        seq_views(final(v)@).to_multiset() == seq_views(old(v)@).to_multiset().insert(x@),
{
    let ghost xs = x@;
    let ghost s0 = seq_views(v@);
    let i = insert_pos(v, x.as_str());
    v.insert(i, x);
    proof {
        lemma_views_insert(old(v)@, i as int, x);
        lemma_insert_to_multiset(s0, i as int, xs);
        let s1 = seq_views(v@);
        assert(s1 == s0.insert(i as int, xs));
        assert forall|p: int, q: int| 0 <= p < q < s1.len() implies lex_leq()(s1[p], s1[q]) by {
            let iv = i as int;
            if q < iv {
                assert(lex_leq()(s0[p], s0[q]));
            } else if p < iv && q == iv {
                lemma_lex_le_connected(xs, s0[p]);
            } else if p < iv && q > iv {
                assert(lex_leq()(s0[p], s0[q - 1]));
            } else if p == iv {
                assert(lex_le(xs, s0[iv]));
                if q - 1 > iv {
                    assert(lex_leq()(s0[iv], s0[q - 1]));
                    lemma_lex_le_transitive(xs, s0[iv], s0[q - 1]);
                }
            } else {
                assert(lex_leq()(s0[p - 1], s0[q - 1]));
            }
        }
    }
}

} // verus!
