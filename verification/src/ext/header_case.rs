//! Header names as they were first written.

use bytes::Bytes;
use http::header::{HeaderMap, HeaderName};
use vstd::prelude::*;

use crate::outside::bytes_crate::content;
use crate::outside::http_crate::{
    appended, cases_append, cases_clone, cases_get_all, cases_insert, cases_new, cases_of,
    changed_if, has_room, inserted, name_text, no_headers, run_texts, values_at,
};

verus! {

/// The original spellings of header names, in the order in which they came.
#[derive(Debug)]
pub struct HeaderCaseMap(HeaderMap<Bytes>);

impl View for HeaderCaseMap {
    type V = Map<Seq<u8>, Seq<Seq<u8>>>;

    closed spec fn view(&self) -> Map<Seq<u8>, Seq<Seq<u8>>> {
        cases_of(self.0)
    }
}

impl HeaderCaseMap {
    /// No names.
    pub fn default() -> (r: HeaderCaseMap)
        ensures
            r@ == no_headers(),
    {
        HeaderCaseMap(cases_new())
    }

    /// The original spellings of a name, in the order in which they came.
    pub fn get_all(&self, name: &HeaderName) -> (r: Vec<&Bytes>)
        ensures
            run_texts(r@) == values_at(self@, name_text(*name)),
    {
        cases_get_all(&self.0, name)
    }

    /// Makes a spelling the only one of its name, and says whether there was room
    /// for it.
    pub fn insert(&mut self, name: HeaderName, orig: Bytes) -> (fits: bool)
        ensures
            has_room(old(self)@) ==> fits,
            final(self)@ == changed_if(
                fits,
                old(self)@,
                inserted(old(self)@, name_text(name), content(orig)),
            ),
    {
        cases_insert(&mut self.0, name, orig)
    }

    /// Adds a spelling of a name behind those that came before, and says whether
    /// there was room for it.
    pub fn append(&mut self, name: HeaderName, orig: Bytes) -> (fits: bool)
        ensures
            has_room(old(self)@) ==> fits,
            final(self)@ == changed_if(
                fits,
                old(self)@,
                appended(old(self)@, name_text(name), content(orig)),
            ),
    {
        cases_append(&mut self.0, name, orig)
    }
}

impl Clone for HeaderCaseMap {
    fn clone(&self) -> (r: HeaderCaseMap)
        ensures
            r@ == self@,
    {
        HeaderCaseMap(cases_clone(&self.0))
    }
}

} // verus!
