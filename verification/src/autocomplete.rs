//! A location input field with its suggestion list. Every text change
//! yields a lookup query for a background worker; whatever answer comes
//! back latest is applied as-is (no staleness check), and a failed lookup
//! leaves the list untouched.

use vstd::prelude::*;

verus! {

/// The text typed into a location field, and the current suggestions.
pub struct LocationField {
    pub text: String,
    pub suggestions: Vec<String>,
}

impl LocationField {
    pub fn new() -> (r: LocationField)
        ensures
            r.text@.len() == 0,
            r.suggestions@.len() == 0,
    {
        LocationField { text: String::new(), suggestions: Vec::new() }
    }

    pub fn get_text(&self) -> (r: String)
        ensures
            r@ == self.text@,
    {
        self.text.clone()
    }

    pub fn is_empty(&self) -> (r: bool)
        ensures
            r == (self.text@.len() == 0),
    {
        self.text.as_str().is_empty()
    }

    /// The field's text changed: store it and hand back the query a
    /// background lookup should now run with.
    pub fn set_text(&mut self, text: &str) -> (query: String)
        ensures
            final(self).text@ == text@,
            final(self).suggestions == old(self).suggestions,
            query@ == text@,
    {
        self.text = text.to_owned();
        text.to_owned()
    }

    /// A lookup delivered: `Some` replaces the suggestion list, last
    /// delivery wins; `None` (the lookup failed) changes nothing.
    pub fn apply_lookup_result(&mut self, outcome: Option<Vec<String>>)
        ensures
            outcome matches Some(v) ==> final(self).suggestions == v && final(self).text == old(
                self,
            ).text,
            outcome is None ==> *final(self) == *old(self),
    {
        match outcome {
            Some(v) => {
                self.suggestions = v;
            },
            None => {},
        }
    }
}

} // verus!
