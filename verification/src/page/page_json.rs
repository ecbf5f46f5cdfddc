//! A page's data together with its revision numbers.
use vstd::prelude::*;
use crate::jvalue::{self, Json, JVal};
use super::page_json_utility as utility;

verus! {

/// The revision number that page data records at `data.page.rev`; 0 when
/// there is none or it is not a `u32`.
pub open spec fn rev_of(j: JVal) -> u32 {
    match jvalue::as_u32(jvalue::get3(j, "data"@, "page"@, "rev"@)) {
        Some(r) => r,
        None => 0,
    }
}

/// Page data with the revision it was read with and, once asked for, the
/// next revision.
pub struct PageJson {
    pub page_json: Json,
    pub rev: Option<u32>,
    pub rev_next: Option<u32>,
}

impl PageJson {
    /// The revision that `rev` gives.
    pub open spec fn rev_spec(&self) -> u32 {
        match self.rev {
            Some(r) => r,
            None => rev_of(self.page_json@),
        }
    }

    /// Whether `rev_next` can be asked for: a next revision is remembered
    /// already, or the revision is below `u32::MAX`.
    pub open spec fn rev_next_allowed(&self) -> bool {
        self.rev_next is Some || self.rev_spec() < u32::MAX
    }

    /// Page data with no revision read yet.
    pub fn new(page_json: Json) -> (r: PageJson)
        ensures
            r.page_json@ == page_json@,
            r.rev is None,
            r.rev_next is None,
    {
        PageJson { page_json, rev: None, rev_next: None }
    }

    /// Page data parsed from a text, or blank page data when it does not parse.
    pub fn from_str(json_str: &str) -> (r: PageJson)
        ensures
            r.page_json@ == (match utility::value_from_str_spec(json_str@) {
                Some(v) => v,
                None => utility::page_json_blank_spec(),
            }),
            r.rev is None,
            r.rev_next is None,
    {
        let page_json = match utility::page_json_value_from_str(json_str) {
            Some(v) => v,
            None => utility::page_json_blank(),
        };
        Self::new(page_json)
    }

    /// The data.
    pub fn value(&self) -> (r: &Json)
        ensures
            r == &self.page_json,
    {
        &self.page_json
    }

    /// The data, to change it.
    pub fn value_mut(&mut self) -> (r: &mut Json)
        ensures
            *r == old(self).page_json,
            *final(self) == (PageJson { page_json: *final(r), ..*old(self) }),
    {
        &mut self.page_json
    }

    /// Replaces the data; the remembered revisions stay.
    pub fn value_replace(&mut self, page_json: Json)
        ensures
            final(self).page_json@ == page_json@,
            final(self).rev == old(self).rev,
            final(self).rev_next == old(self).rev_next,
    {
        self.page_json = page_json;
    }

    /// The revision the data was read with: on the first call the number at
    /// `data.page.rev` (0 when there is none), remembered for later calls
    /// even after `rev_next` has moved that number on.
    pub fn rev(&mut self) -> (r: u32)
        ensures
            r == old(self).rev_spec(),
            final(self).rev == Some(r),
            final(self).rev_next == old(self).rev_next,
            final(self).page_json == old(self).page_json,
    {
        match self.rev {
            Some(r) => r,
            None => {
                let r = match self.page_json.get3("data", "page", "rev") {
                    Some(v) => match v.as_u32() {
                        Some(n) => n,
                        None => 0,
                    },
                    None => 0,
                };
                self.rev = Some(r);
                r
            },
        }
    }

    /// The revision that the data gets when saved next: on the first call one
    /// more than `rev`, written to `data.page.rev` and remembered, so that
    /// it never moves on further.
    pub fn rev_next(&mut self) -> (r: u32)
        requires
            old(self).rev_next_allowed(),
        ensures
            old(self).rev_next matches Some(n) ==> r == n && *final(self) == *old(self),
            old(self).rev_next is None ==> {
                &&& r == old(self).rev_spec() + 1
                &&& final(self).page_json@ == jvalue::set3(
                    old(self).page_json@,
                    "data"@,
                    "page"@,
                    "rev"@,
                    jvalue::u32_val(r),
                )
                &&& final(self).rev == Some(old(self).rev_spec())
                &&& final(self).rev_next == Some(r)
            },
    {
        match self.rev_next {
            Some(n) => n,
            None => {
                let r = self.rev() + 1;
                self.page_json.set3("data", "page", "rev", Json::from_u32(r));
                self.rev_next = Some(r);
                r
            },
        }
    }
}

} // verus!
