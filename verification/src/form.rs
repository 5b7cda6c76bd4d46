//! The search form: From/To fields, the via list and the date/time
//! selector, with the favorite-chip fill rule, the favorite-star toggle,
//! and the snapshot that becomes one immutable search request at submit.

use vstd::prelude::*;
use vstd::relations::sorted_by;

use crate::autocomplete::LocationField;
use crate::dates::{date_text, hm_text, Date};
use crate::favorites::{names_without, Favorites};
use crate::request::SearchConnectionRequest;
use crate::selector::DateTimeSelector;
use crate::text::{lex_leq, seq_views};
use crate::vias::{nonempty_texts, ViaList};

verus! {

/// The interactive state one search form holds.
pub struct SearchForm {
    pub from: LocationField,
    pub to: LocationField,
    pub vias: ViaList,
    pub time: DateTimeSelector,
}

impl SearchForm {
    pub open spec fn wf(self) -> bool {
        &&& self.vias.texts().len() >= 1
        &&& self.time.inv()
    }

    /// A fresh form: empty From/To, one empty via slot, no time override.
    pub fn new() -> (r: SearchForm)
        ensures
            r.from.text@.len() == 0,
            r.to.text@.len() == 0,
            r.vias.texts() == seq![Seq::<char>::empty()],
            r.time.committed is None,
            !r.time.arrival,
            r.wf(),
    {
        SearchForm {
            from: LocationField::new(),
            to: LocationField::new(),
            vias: ViaList::new(),
            time: DateTimeSelector::new(),
        }
    }

    /// A favorite chip was chosen: it fills the From field if that is
    /// empty, else the To field if that is empty, else nothing.
    pub fn apply_favorite(&mut self, name: &str)
        ensures
            old(self).from.text@.len() == 0 ==> final(self).from.text@ == name@ && final(self).to
                == old(self).to,
            old(self).from.text@.len() > 0 && old(self).to.text@.len() == 0 ==> final(self).from
                == old(self).from && final(self).to.text@ == name@,
            old(self).from.text@.len() > 0 && old(self).to.text@.len() > 0 ==> *final(self) == *old(
                self,
            ),
            final(self).vias == old(self).vias,
            final(self).time == old(self).time,
            old(self).wf() ==> final(self).wf(),
    {
        if self.from.is_empty() {
            let _ = self.from.set_text(name);
        } else if self.to.is_empty() {
            let _ = self.to.set_text(name);
        }
    }

    /// The snapshot taken at explicit submission: From/To text as typed,
    /// the non-empty vias in order, the selector's date (`None` when it is
    /// unset or falls on `today`), its time (`None` only when unset), and
    /// the arrival flag.
    pub fn build_request(&self, today: Date) -> (r: SearchConnectionRequest)
        requires
            self.time.inv(),
        ensures
            r.from@ == self.from.text@,
            r.to@ == self.to.text@,
            seq_views(r.vias@) == nonempty_texts(self.vias.texts()),
            self.time.committed is None ==> r.date is None && r.time is None,
            self.time.committed is Some && self.time.committed->Some_0.date == today ==> r.date
                is None,
            self.time.committed is Some && self.time.committed->Some_0.date != today ==> r.date
                is Some && r.date->Some_0@ == date_text(self.time.committed->Some_0.date),
            self.time.committed is Some ==> r.time is Some && r.time->Some_0@ == hm_text(
                self.time.committed->Some_0.hour as int,
                self.time.committed->Some_0.minute as int,
            ),
            r.is_arrival_time == self.time.arrival,
    {
        SearchConnectionRequest {
            from: self.from.get_text(),
            to: self.to.get_text(),
            vias: self.vias.get_vias(),
            date: self.time.get_date(today),
            time: self.time.get_time(),
            is_arrival_time: self.time.is_arrival_time(),
        }
    }
}

/// The favorite star on a location row: if the row's text is stored it is
/// removed from the favorites, otherwise it is added.
pub fn toggle_favorite(favorites: &mut Favorites, text: &str)
    requires
        old(favorites).changes < u64::MAX,
    ensures
        old(favorites).views().contains(text@) ==> sorted_by(final(favorites).views(), lex_leq())
            && final(favorites).views().to_multiset() == names_without(
            old(favorites).views(),
            text@,
        ).to_multiset() && final(favorites).changes == old(favorites).changes + 1,
        !old(favorites).views().contains(text@) && text@.len() > 0 ==> final(favorites).views()
            == old(favorites).views().push(text@) && final(favorites).changes == old(
            favorites,
        ).changes + 1,
        !old(favorites).views().contains(text@) && text@.len() == 0 ==> *final(favorites) == *old(
            favorites,
        ),
        old(favorites).wf() ==> final(favorites).wf(),
{
    if favorites.contains(text) {
        favorites.remove(text);
    } else {
        favorites.add(text);
    }
}

} // verus!
