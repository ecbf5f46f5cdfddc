//! Bringing old pages up to date.
use vstd::prelude::*;
use crate::jvalue::JVal;
use crate::text;
use super::Page;
use super::page_utility::opt_bytes;

verus! {

/// What writing an updated page anew leaves to write: the backup of the
/// page as it was (its name, as `page_current_save` gives it, and its
/// bytes), and the backup name of the page written anew (or why that
/// failed).
pub struct UpdateSaves {
    pub current_backup: Option<String>,
    pub current_bytes: Option<Vec<u8>>,
    pub update_backup: Result<String, ()>,
}

/// What keeping a page's content and writing it anew from the data `data`
/// leaves, for a page `before` that has data: the backup of the content as
/// it was, named after the revision the page is read with, and the page
/// written anew (`after`) with the backup name of its new content, or the
/// failure when no page can be written (the page then holds the data).
pub open spec fn saved_anew(before: Page, data: JVal, after: Page, u: UpdateSaves) -> bool {
    let pj = before.page_json->Some_0;
    let r0 = super::rev_spec_of(pj.rev, data);
    &&& opt_bytes(u.current_bytes) == before.file.bytes_spec()
    &&& u.current_backup matches Some(n) && n@ == before.file.filename_spec() + "."@ + text::dec_spec(r0 as nat)
    &&& (super::update_fails(Some(r0), pj.rev_next, data) <==> u.update_backup is Err)
    &&& (u.update_backup matches Ok(name) ==> super::update_saved(
        before.file.filename_spec(),
        Some(r0),
        pj.rev_next,
        data,
        after,
        name@,
    ))
    &&& (u.update_backup is Err ==> (after.page_json matches Some(p) && p.page_json@ == data))
    &&& after.url == before.url
}

/// What `update` does to a page and leaves to write: nothing when the page
/// is no UTF-8 text or no step changed it; otherwise the current content
/// is kept for a backup and the page is written anew from its data
/// (`saved_anew`), or, without data, nothing is written anew.
pub open spec fn update_spec(before: Page, updated: bool, after: Page, r: Option<UpdateSaves>) -> bool {
    if before.file.str_spec() is None || !updated {
        r is None && after == before
    } else {
        r matches Some(u) && if before.page_json is None {
            &&& opt_bytes(u.current_bytes) == before.file.bytes_spec()
            &&& u.current_backup is None
            &&& u.update_backup is Err
            &&& after == before
        } else {
            saved_anew(before, before.page_json->Some_0.page_json@, after, u)
        }
    }
}

/// The end of the system update of a page: `updated` tells whether the
/// update steps (from the oldest page format, and from 0.0.1, to 0.0.3)
/// changed the page.  A page whose file is no UTF-8 text is left alone, as
/// is one that no step changed; a changed page has its current content kept
/// for a backup under its revision and is written anew from its data.
pub fn update(page: &mut Page, updated: bool) -> (r: Option<UpdateSaves>)
    ensures
        update_spec(*old(page), updated, *final(page), r),
{
    if page.file().content_str().is_none() {
        return None;
    }
    if !updated {
        return None;
    }
    let current_bytes = match page.file().content_bytes() {
        Some(b) => Some(b.clone()),
        None => None,
    };
    let current_backup = page.page_current_save();
    let update_backup = page.page_json_update_save();
    Some(UpdateSaves { current_backup, current_bytes, update_backup })
}

} // verus!
