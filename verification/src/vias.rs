//! The self-maintaining list of intermediate stops ("vias"): it always
//! offers one trailing empty slot for adding a new via, never becomes
//! empty, and keeps filled entries stable in position.

use vstd::prelude::*;

use crate::text::{lemma_views_push, lemma_views_remove, lemma_views_update, seq_views};

verus! {

/// Some entry is empty.
pub open spec fn has_empty_slot(s: Seq<Seq<char>>) -> bool {
    exists|i: int| 0 <= i < s.len() && s[i].len() == 0
}

/// The last entry is empty and every other entry is filled: the list offers
/// exactly one slot for a new via, at the end.
pub open spec fn open_slot_last(s: Seq<Seq<char>>) -> bool {
    &&& s.len() >= 1
    &&& s[s.len() - 1].len() == 0
    &&& forall|i: int| 0 <= i < s.len() - 1 ==> s[i].len() > 0
}

/// Texts after an entry's text is edited: the entry is replaced and, if no
/// empty entry remains, a fresh empty entry is appended.
pub open spec fn texts_after_edit(s: Seq<Seq<char>>, i: int, t: Seq<char>) -> Seq<Seq<char>> {
    let u = s.update(i, t);
    if has_empty_slot(u) {
        u
    } else {
        u.push(Seq::empty())
    }
}

/// Texts after an entry's "cleared" signal: the sole entry is merely
/// emptied (the list must never become empty), any other entry is removed.
pub open spec fn texts_after_clear(s: Seq<Seq<char>>, i: int) -> Seq<Seq<char>> {
    if s.len() == 1 {
        seq![Seq::<char>::empty()]
    } else {
        s.remove(i)
    }
}

/// Texts after a pre-filled entry is inserted: an empty slot is appended if
/// none exists, the new text is appended, and the last two entries are
/// swapped so the empty slot stays last.
pub open spec fn texts_after_insert(s: Seq<Seq<char>>, t: Seq<char>) -> Seq<Seq<char>> {
    let u = if has_empty_slot(s) {
        s
    } else {
        s.push(Seq::empty())
    };
    u.drop_last().push(t).push(u.last())
}

/// The entries that count as vias: the non-empty ones, in list order.
pub open spec fn nonempty_texts(s: Seq<Seq<char>>) -> Seq<Seq<char>> {
    s.filter(|e: Seq<char>| e.len() > 0)
}

/// Ordered list of via entries, each holding the location text typed into
/// it (possibly empty).
pub struct ViaList {
    pub entries: Vec<String>,
}

impl ViaList {
    /// The entry texts, in list order.
    pub open spec fn texts(self) -> Seq<Seq<char>> {
        seq_views(self.entries@)
    }

    /// The list either has a single entry (which may hold any text) or ends
    /// in its only empty entry.
    pub open spec fn wf(self) -> bool {
        self.texts().len() == 1 || open_slot_last(self.texts())
    }

    /// A fresh list: exactly one empty entry.
    pub fn new() -> (r: ViaList)
        ensures
            r.texts() == seq![Seq::<char>::empty()],
            r.wf(),
    {
        let mut entries: Vec<String> = Vec::new();
        entries.push(String::new());
        let r = ViaList { entries };
        proof {
            assert(r.texts() =~= seq![Seq::<char>::empty()]);
        }
        r
    }

    pub fn len(&self) -> (n: usize)
        ensures
            n == self.texts().len(),
    {
        self.entries.len()
    }

    pub fn text_at(&self, i: usize) -> (r: String)
        requires
            i < self.texts().len(),
        ensures
            r@ == self.texts()[i as int],
    {
        self.entries[i].clone()
    }

    fn any_empty(&self) -> (r: bool)
        ensures
            r == has_empty_slot(self.texts()),
    {
        let mut j: usize = 0;
        while j < self.entries.len()
            invariant
                j <= self.entries.len(),
                forall|k: int| 0 <= k < j ==> self.texts()[k].len() > 0,
            decreases self.entries.len() - j,
        {
            if self.entries[j].as_str().is_empty() {
                proof {
                    assert(self.texts()[j as int].len() == 0);
                }
                return true;
            }
            j += 1;
        }
        proof {
            assert(forall|i: int| 0 <= i < self.texts().len() ==> self.texts()[i].len() > 0);
        }
        false
    }

    /// Appends a fresh empty entry.
    fn push_empty(&mut self)
        ensures
            final(self).texts() == old(self).texts().push(Seq::<char>::empty()),
    {
        let ghost ev = self.entries@;
        self.entries.push(String::new());
        proof {
            lemma_views_push(ev, self.entries@.last());
        }
    }

    /// An entry's text was edited: store the new text; if no empty entry
    /// remains, append a fresh empty entry so a via can still be added.
    /// A non-empty edit of a well-formed list keeps it well-formed.
    pub fn set_text(&mut self, i: usize, text: &str)
        requires
            i < old(self).texts().len(),
        ensures
            final(self).texts() == texts_after_edit(old(self).texts(), i as int, text@),
            final(self).texts().len() >= old(self).texts().len(),
            old(self).wf() && text@.len() > 0 ==> final(self).wf(),
    {
        let ghost s0 = old(self).texts();
        self.entries.set(i, text.to_owned());
        proof {
            lemma_views_update(old(self).entries@, i as int, self.entries@[i as int]);
            assert(self.texts() == s0.update(i as int, text@));
        }
        let ghost u = self.texts();
        if !self.any_empty() {
            self.push_empty();
        }
        proof {
            if old(self).wf() && text@.len() > 0 {
                if has_empty_slot(u) {
                    // no entry was appended
                    if s0.len() == 1 {
                        assert(u[0].len() > 0);
                        assert(false);
                    } else {
                        assert(s0[s0.len() - 1].len() == 0);
                        if i < s0.len() - 1 {
                            assert(u[u.len() - 1].len() == 0);
                            assert(open_slot_last(u));
                        } else {
                            assert forall|k: int| 0 <= k < u.len() implies u[k].len() > 0 by {}
                            assert(false);
                        }
                    }
                } else {
                    assert(self.texts() == u.push(Seq::<char>::empty()));
                    assert forall|k: int|
                        0 <= k < self.texts().len() - 1 implies self.texts()[k].len() > 0 by {
                        assert(u[k].len() > 0);
                    }
                    assert(open_slot_last(self.texts()));
                }
            }
        }
    }

    /// An entry's "cleared" signal: the sole entry is emptied but kept (the
    /// list must never become empty); any other entry is removed. Clearing
    /// a filled entry of a well-formed list keeps it well-formed.
    pub fn clear(&mut self, i: usize)
        requires
            i < old(self).texts().len(),
        ensures
            final(self).texts() == texts_after_clear(old(self).texts(), i as int),
            final(self).texts().len() >= 1,
            old(self).texts().len() == 1 ==> final(self).texts().len() == 1,
            old(self).wf() && (old(self).texts().len() == 1 || i + 1 < old(self).texts().len())
                ==> final(self).wf(),
    {
        if self.entries.len() == 1 {
            self.entries.set(0, String::new());
            proof {
                assert(self.texts() =~= seq![Seq::<char>::empty()]);
            }
        } else {
            self.entries.remove(i);
            proof {
                lemma_views_remove(old(self).entries@, i as int);
                let s0 = old(self).texts();
                let r = self.texts();
                if old(self).wf() && i + 1 < s0.len() {
                    if r.len() == 1 {
                        assert(self.wf());
                    } else {
                        assert(r[r.len() - 1] == s0[s0.len() - 1]);
                        assert(open_slot_last(r));
                    }
                }
            }
        }
    }

    /// Inserts an entry pre-filled with the given text (for example a
    /// favorite dropped onto the via area), keeping the empty slot last.
    /// An empty text is ignored: it would duplicate the empty slot.
    pub fn add_via_with_location(&mut self, text: &str)
        requires
            old(self).texts().len() >= 1,
        ensures
            text@.len() == 0 ==> *final(self) == *old(self),
            text@.len() > 0 ==> final(self).texts() == texts_after_insert(old(self).texts(), text@),
            final(self).texts().len() >= 1,
            old(self).wf() && text@.len() > 0 ==> final(self).wf(),
    {
        if text.unicode_len() == 0 {
            return ;
        }
        if !self.any_empty() {
            self.push_empty();
        }
        let ghost u = self.texts();
        proof {
            assert(self.entries@.len() == u.len() >= 1);
        }
        let slot = self.entries.pop().unwrap();
        let ghost slot_text: Seq<char> = slot@;
        proof {
            assert(seq_views(self.entries@) =~= u.drop_last());
            assert(slot_text == u.last());
        }
        let ghost after_pop = self.entries@;
        self.entries.push(text.to_owned());
        proof {
            lemma_views_push(after_pop, self.entries@.last());
        }
        let ghost after_text = self.entries@;
        self.entries.push(slot);
        proof {
            lemma_views_push(after_text, self.entries@.last());
            assert(self.texts() == u.drop_last().push(text@).push(slot_text));
            if old(self).wf() {
                assert(u.last().len() == 0);
                let r = self.texts();
                assert(r[r.len() - 1].len() == 0);
                assert forall|k: int| 0 <= k < r.len() - 1 implies r[k].len() > 0 by {
                    if k < u.len() - 1 {
                        assert(u[k].len() > 0);
                    }
                }
                assert(open_slot_last(r));
            }
        }
    }

    /// The vias to search through: the non-empty entries, in list order.
    pub fn get_vias(&self) -> (r: Vec<String>)
        ensures
            seq_views(r@) == nonempty_texts(self.texts()),
    {
        let mut out: Vec<String> = Vec::new();
        let mut j: usize = 0;
        proof {
            assert(self.texts().take(0) =~= Seq::<Seq<char>>::empty());
            vstd::seq::Seq::<Seq<char>>::empty().lemma_filter_push(
                self.texts().take(0).first(),
                |e: Seq<char>| e.len() > 0,
            );
            reveal(Seq::filter);
            assert(seq_views(out@) =~= nonempty_texts(self.texts().take(0)));
        }
        while j < self.entries.len()
            invariant
                j <= self.entries.len(),
                seq_views(out@) == nonempty_texts(self.texts().take(j as int)),
            decreases self.entries.len() - j,
        {
            let ghost taken = self.texts().take(j as int);
            proof {
                assert(self.texts().take(j + 1) =~= taken.push(self.texts()[j as int]));
                taken.lemma_filter_push(self.texts()[j as int], |e: Seq<char>| e.len() > 0);
            }
            if !self.entries[j].as_str().is_empty() {
                let c = self.entries[j].clone();
                let ghost ov = out@;
                out.push(c);
                proof {
                    lemma_views_push(ov, out@.last());
                    assert(out@.last()@ == self.texts()[j as int]);
                }
            }
            j += 1;
        }
        proof {
            assert(self.texts().take(self.entries@.len() as int) =~= self.texts());
        }
        out
    }
}

} // verus!
