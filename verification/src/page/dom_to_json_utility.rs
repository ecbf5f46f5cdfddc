//! Subsection records of page data: finding them by href and adding new ones.
//!
//! Subsections live at `data.subsection.data`, an object keyed by the
//! decimal text of each subsection's id; `data.subsection.id` holds the next
//! id (`id_next`) and ids to use again (`id_notinuse`).
use vstd::prelude::*;
use crate::jvalue::{self, Json, JVal};
use crate::text;
use super::page_json_utility as utility;

verus! {

/// The subsection records: `data.subsection.data`.
pub open spec fn ss_data(j: JVal) -> JVal {
    jvalue::get3(j, "data"@, "subsection"@, "data"@)
}

/// The id bookkeeping: `data.subsection.id`.
pub open spec fn ss_ids(j: JVal) -> JVal {
    jvalue::get3(j, "data"@, "subsection"@, "id"@)
}

/// What `u32::from_str_radix` makes of a value's text, 0 when it is no
/// number.  A whole number in the `u32` range is its own value: the json
/// crate prints it as its decimal digits (`util/print_dec.rs`), which read
/// back as the number, so it is taken as it is.
pub open spec fn text_u32(v: JVal) -> u32 {
    match jvalue::as_u32(v) {
        Some(n) => n,
        None => match text::parse_u32_spec(jvalue::json_text(v)) {
            Some(n) => n,
            None => 0,
        },
    }
}

/// The value's text read as a decimal `u32`; 0 when it is no number.
pub fn json_value_to_u32(jv: &mut Json) -> (r: u32)
    ensures
        r == text_u32(old(jv)@),
        final(jv)@ == old(jv)@,
{
    if let Some(n) = jv.as_u32() {
        return n;
    }
    let s = jvalue::to_text(jv);
    match text::parse_u32(s.as_str()) {
        Some(i) => i,
        None => 0,
    }
}

/// One more, wrapping to 0 after `u32::MAX`.
pub open spec fn wrap_inc(n: u32) -> u32 {
    if n == u32::MAX {
        0
    } else {
        (n + 1) as u32
    }
}

/// The id bookkeeping after a first id to use again was taken out of it.
pub open spec fn ids_after_take(ids: JVal) -> JVal {
    match jvalue::get(ids, "id_notinuse"@) {
        JVal::Arr(a) => jvalue::set(ids, "id_notinuse"@, JVal::Arr(a.drop_first())),
        _ => ids,
    }
}

/// The id that the next new subsection gets, with the page data after it
/// was taken: the first id to use again when there is one that reads as a
/// number (it is taken out even when it does not), otherwise `id_next`,
/// which is then moved on by one.
pub open spec fn json_id_next_spec(j: JVal) -> (u32, JVal) {
    let ids = ss_ids(j);
    let notinuse = jvalue::get(ids, "id_notinuse"@);
    let first = jvalue::at(notinuse, 0);
    let ids1 = if jvalue::len(notinuse) > 0 {
        ids_after_take(ids)
    } else {
        ids
    };
    if jvalue::len(notinuse) > 0 && text::parse_u32_spec(jvalue::json_text(first)) is Some {
        (
            text::parse_u32_spec(jvalue::json_text(first))->Some_0,
            jvalue::set3(j, "data"@, "subsection"@, "id"@, ids1),
        )
    } else {
        let id = text_u32(jvalue::get(ids1, "id_next"@));
        (
            id,
            jvalue::set3(
                j,
                "data"@,
                "subsection"@,
                "id"@,
                jvalue::set(ids1, "id_next"@, jvalue::u32_val(wrap_inc(id))),
            ),
        )
    }
}

/// Takes the id for a new subsection.
fn json_id_next(page_json: &mut Json) -> (r: u32)
    ensures
        (r, final(page_json)@) == json_id_next_spec(old(page_json)@),
{
    let mut ids = match page_json.get3("data", "subsection", "id") {
        Some(v) => v.deep_clone(),
        None => Json::Null,
    };
    let ghost ids0 = ids@;
    let notinuse_len = match ids.get("id_notinuse") {
        Some(v) => v.len(),
        None => 0,
    };
    if 0 < notinuse_len {
        let mut notinuse = match ids.get("id_notinuse") {
            Some(v) => v.deep_clone(),
            None => Json::Null,
        };
        let first = notinuse.array_remove_first();
        match &notinuse {
            Json::Array(_) => {
                ids.set("id_notinuse", notinuse);
            },
            _ => {},
        }
        assert(ids@ == ids_after_take(ids0));
        let id_string = jvalue::to_text(&first);
        match text::parse_u32(id_string.as_str()) {
            Some(i) => {
                page_json.set3("data", "subsection", "id", ids);
                return i;
            },
            None => {},
        }
    }
    let id = match ids.get("id_next") {
        Some(v) => match v.as_u32() {
            Some(n) => n,
            None => {
                let s = jvalue::to_text(v);
                match text::parse_u32(s.as_str()) {
                    Some(i) => i,
                    None => 0,
                }
            },
        },
        None => {
            let s = jvalue::to_text(&Json::Null);
            match text::parse_u32(s.as_str()) {
                Some(i) => i,
                None => 0,
            }
        },
    };
    let next = if id == 0xffff_ffffu32 {
        0
    } else {
        id + 1
    };
    ids.set("id_next", Json::from_u32(next));
    page_json.set3("data", "subsection", "id", ids);
    id
}

/// Whether a subsection record has an `href` entry with the text `href`.
pub open spec fn ss_matches(v: JVal, href: Seq<char>) -> bool {
    match v {
        JVal::Obj(e) => exists|i: int|
            0 <= i < e.len() && (#[trigger] e[i]).0 == "href"@ && e[i].1 == jvalue::str_val(href),
        _ => false,
    }
}

/// The position of the first record with the href, or -1.
pub open spec fn first_ss(e: Seq<(Seq<char>, JVal)>, href: Seq<char>) -> int
    decreases e.len(),
{
    if e.len() == 0 {
        -1
    } else {
        let p = first_ss(e.drop_last(), href);
        if p >= 0 {
            p
        } else if ss_matches(e.last().1, href) {
            e.len() - 1
        } else {
            -1
        }
    }
}

pub proof fn lemma_first_ss(e: Seq<(Seq<char>, JVal)>, href: Seq<char>)
    ensures
        first_ss(e, href) >= 0 ==> first_ss(e, href) < e.len() && ss_matches(
            e[first_ss(e, href)].1,
            href,
        ),
        first_ss(e, href) >= 0 ==> forall|i: int|
            0 <= i < first_ss(e, href) ==> !ss_matches(#[trigger] e[i].1, href),
        first_ss(e, href) < 0 ==> first_ss(e, href) == -1 && forall|i: int|
            0 <= i < e.len() ==> !ss_matches(#[trigger] e[i].1, href),
    decreases e.len(),
{
    if e.len() > 0 {
        let d = e.drop_last();
        lemma_first_ss(d, href);
        assert(forall|i: int| 0 <= i < d.len() ==> d[i] == e[i]);
        if first_ss(d, href) < 0 && !ss_matches(e.last().1, href) {
            assert forall|i: int| 0 <= i < e.len() implies !ss_matches(#[trigger] e[i].1, href) by {
                if i < e.len() - 1 {
                    assert(d[i] == e[i]);
                }
            }
        }
    }
}

pub proof fn lemma_first_ss_at(e: Seq<(Seq<char>, JVal)>, href: Seq<char>, i: int)
    requires
        0 <= i < e.len(),
        ss_matches(e[i].1, href),
        forall|j: int| 0 <= j < i ==> !ss_matches(#[trigger] e[j].1, href),
    ensures
        first_ss(e, href) == i,
    decreases e.len(),
{
    if i < e.len() - 1 {
        lemma_first_ss_at(e.drop_last(), href, i);
    } else {
        lemma_first_ss(e.drop_last(), href);
    }
}

/// The id key of the first subsection record whose `href` is `href`.
pub open spec fn ss_id_href_spec(j: JVal, href: Seq<char>) -> Option<Seq<char>> {
    match ss_data(j) {
        JVal::Obj(e) => if first_ss(e, href) >= 0 {
            Some(e[first_ss(e, href)].0)
        } else {
            None
        },
        _ => None,
    }
}

fn ss_matches_exec(v: &Json, href: &str) -> (r: bool)
    ensures
        r == ss_matches(v@, href@),
{
    match v.as_object() {
        Some(o) => {
            let ghost e = jvalue::entries_view(o@);
            let key = String::from_str("href");
            let mut i: usize = 0;
            while i < o.len()
                invariant
                    i <= o.len(),
                    v@ == JVal::Obj(e),
                    e == jvalue::entries_view(o@),
                    key@ == "href"@,
                    forall|k: int|
                        0 <= k < i ==> !((#[trigger] e[k]).0 == "href"@ && e[k].1
                            == jvalue::str_val(href@)),
                decreases o.len() - i,
            {
                if o[i].0 == key && o[i].1.eq_str(href) {
                    assert(e[i as int].0 == "href"@ && e[i as int].1 == jvalue::str_val(href@));
                    return true;
                }
                i = i + 1;
            }
            false
        },
        None => false,
    }
}

/// The id key of the subsection whose href is `href`.
fn ss_id_href(page_json: &Json, href: &str) -> (r: Result<String, ()>)
    ensures
        r matches Ok(id) ==> ss_id_href_spec(page_json@, href@) == Some(id@),
        r is Err ==> ss_id_href_spec(page_json@, href@) is None,
{
    match ss_json_href(page_json, href) {
        Some(id) => Ok(id),
        None => Err(()),
    }
}

/// The id key of the first subsection whose `href` is `href`.
pub fn ss_json_href(page_json: &Json, href: &str) -> (r: Option<String>)
    ensures
        r matches Some(id) ==> ss_id_href_spec(page_json@, href@) == Some(id@),
        r is None ==> ss_id_href_spec(page_json@, href@) is None,
{
    let data = match page_json.get3("data", "subsection", "data") {
        Some(v) => v,
        None => return None,
    };
    let o = match data.as_object() {
        Some(o) => o,
        None => return None,
    };
    let ghost e = jvalue::entries_view(o@);
    let mut i: usize = 0;
    while i < o.len()
        invariant
            i <= o.len(),
            e == jvalue::entries_view(o@),
            ss_data(page_json@) == JVal::Obj(e),
            forall|k: int| 0 <= k < i ==> !ss_matches(#[trigger] e[k].1, href@),
        decreases o.len() - i,
    {
        if ss_matches_exec(&o[i].1, href) {
            proof {
                lemma_first_ss_at(e, href@, i as int);
            }
            return Some(o[i].0.clone());
        }
        i = i + 1;
    }
    proof {
        lemma_first_ss(e, href@);
        if first_ss(e, href@) >= 0 {
            assert(ss_matches(e[first_ss(e, href@)].1, href@));
        }
    }
    None
}

/// The record of a new subsection.
pub open spec fn ss_node(id: u32, pid: u32, href: Seq<char>) -> JVal {
    JVal::Obj(
        seq![
            ("id"@, jvalue::u32_val(id)),
            ("parent"@, jvalue::u32_val(pid)),
            ("href"@, jvalue::str_val(href)),
            ("child"@, jvalue::empty_arr()),
            ("content"@, jvalue::empty_arr()),
        ],
    )
}

/// A parent record with `id` appended to its `child` list (when that is a
/// list; the entry is made `null` when it is missing).
pub open spec fn with_child(parent: JVal, id: u32) -> JVal {
    let child = jvalue::get(parent, "child"@);
    jvalue::set(
        parent,
        "child"@,
        match jvalue::push(child, jvalue::u32_val(id)) {
            Some(c) => c,
            None => child,
        },
    )
}

/// The id key of the subsection with href `href`, and the page data after
/// it: when there is none yet, a new record under a new id, listed as a
/// child of the record `pid` when that exists.
pub open spec fn ss_json_new_spec(j: JVal, href: Seq<char>, pid: u32) -> (Seq<char>, JVal) {
    match ss_id_href_spec(j, href) {
        Some(id) => (id, j),
        None => {
            let (id, j1) = json_id_next_spec(j);
            let pkey = text::dec_spec(pid as nat);
            let parent = jvalue::get4(j1, "data"@, "subsection"@, "data"@, pkey);
            let j2 = if parent is Null {
                j1
            } else {
                jvalue::set4(j1, "data"@, "subsection"@, "data"@, pkey, with_child(parent, id))
            };
            let key = text::dec_spec(id as nat);
            (key, jvalue::set4(j2, "data"@, "subsection"@, "data"@, key, ss_node(id, pid, href)))
        },
    }
}

/// The id key of the subsection with the href, made new when there is none.
pub fn ss_json_new(page_json: &mut Json, href: &str, pid: u32) -> (r: String)
    ensures
        (r@, final(page_json)@) == ss_json_new_spec(old(page_json)@, href@, pid),
{
    match ss_id_href(page_json, href) {
        Ok(id) => return id,
        Err(_) => {},
    }
    let id = json_id_next(page_json);
    let pkey = text::u32_to_string(pid);
    let parent = match page_json.get4("data", "subsection", "data", pkey.as_str()) {
        Some(p) => {
            if p.is_null() {
                None
            } else {
                Some(p.deep_clone())
            }
        },
        None => None,
    };
    match parent {
        Some(mut p) => {
            let mut child = match p.get("child") {
                Some(c) => c.deep_clone(),
                None => Json::Null,
            };
            let _r = child.push(Json::from_u32(id));
            p.set("child", child);
            page_json.set4("data", "subsection", "data", pkey.as_str(), p);
        },
        None => {},
    }
    let key = text::u32_to_string(id);
    let mut entries = Vec::new();
    entries.push(utility::entry("id", Json::from_u32(id)));
    entries.push(utility::entry("parent", Json::from_u32(pid)));
    entries.push(utility::entry("href", Json::from_str(href)));
    entries.push(utility::entry("child", Json::new_array()));
    entries.push(utility::entry("content", Json::new_array()));
    let node = utility::obj_of(entries);
    assert(node@->Obj_0 =~= ss_node(id, pid, href@)->Obj_0);
    page_json.set4("data", "subsection", "data", key.as_str(), node);
    key
}

/// `j[a][b][c]` after `j[a][b][c2] = v` with another last key.
pub proof fn lemma_get3_set3_other(
    j: JVal,
    a: Seq<char>,
    b: Seq<char>,
    c: Seq<char>,
    c2: Seq<char>,
    v: JVal,
)
    requires
        c != c2,
    ensures
        jvalue::get3(jvalue::set3(j, a, b, c, v), a, b, c2) == jvalue::get3(j, a, b, c2),
{
    let x1 = jvalue::get(j, a);
    let x2 = jvalue::get(x1, b);
    jvalue::lemma_get_set(j, a, jvalue::set2(x1, b, c, v));
    jvalue::lemma_get_set(x1, b, jvalue::set(x2, c, v));
    jvalue::lemma_get_set_other(x2, c, c2, v);
}

/// `j[a][b][c]` after `j[a][b][c][d] = v`.
pub proof fn lemma_get3_set4(j: JVal, a: Seq<char>, b: Seq<char>, c: Seq<char>, d: Seq<char>, v: JVal)
    ensures
        jvalue::get3(jvalue::set4(j, a, b, c, d, v), a, b, c) == jvalue::set(
            jvalue::get3(j, a, b, c),
            d,
            v,
        ),
{
    let x1 = jvalue::get(j, a);
    let x2 = jvalue::get(x1, b);
    let x3 = jvalue::get(x2, c);
    jvalue::lemma_get_set(j, a, jvalue::set3(x1, b, c, d, v));
    jvalue::lemma_get_set(x1, b, jvalue::set2(x2, c, d, v));
    jvalue::lemma_get_set(x2, c, jvalue::set(x3, d, v));
}

/// Setting another key than `href` keeps whether a record has the href.
pub proof fn lemma_ss_matches_set(v: JVal, k: Seq<char>, x: JVal, href: Seq<char>)
    requires
        k != "href"@,
    ensures
        ss_matches(jvalue::set(v, k, x), href) == ss_matches(v, href),
{
    match v {
        JVal::Obj(e) => {
            jvalue::lemma_key_pos_found(e, k);
            let p = jvalue::key_pos(e, k);
            let e2 = if p >= 0 {
                e.update(p, (k, x))
            } else {
                e.push((k, x))
            };
            assert(jvalue::set(v, k, x) == JVal::Obj(e2));
            if ss_matches(v, href) {
                let i = choose|i: int|
                    0 <= i < e.len() && (#[trigger] e[i]).0 == "href"@ && e[i].1 == jvalue::str_val(
                        href,
                    );
                assert(e2[i] == e[i]);
            }
            if ss_matches(JVal::Obj(e2), href) {
                let i = choose|i: int|
                    0 <= i < e2.len() && (#[trigger] e2[i]).0 == "href"@ && e2[i].1
                        == jvalue::str_val(href);
                assert(e2[i] == e[i]);
            }
        },
        _ => {
            let e2 = seq![(k, x)];
            if ss_matches(JVal::Obj(e2), href) {
                let i = choose|i: int|
                    0 <= i < e2.len() && (#[trigger] e2[i]).0 == "href"@ && e2[i].1
                        == jvalue::str_val(href);
                assert(e2[i] == (k, x));
            }
        },
    }
}

/// Making a subsection for an href a second time changes nothing: the
/// same id comes back and the page data stays as the first call left it.
pub proof fn law_ss_json_new_idempotent(j: JVal, href: Seq<char>, pid: u32, pid2: u32)
    ensures
        ss_json_new_spec(ss_json_new_spec(j, href, pid).1, href, pid2) == ss_json_new_spec(j, href, pid),
{
    lemma_ss_json_new_href(j, href, pid);
}

/// After `ss_json_new`, looking its href up finds the id that it returned.
pub proof fn lemma_ss_json_new_href(j: JVal, href: Seq<char>, pid: u32)
    ensures
        ss_id_href_spec(ss_json_new_spec(j, href, pid).1, href) == Some(
            ss_json_new_spec(j, href, pid).0,
        ),
{
    if ss_id_href_spec(j, href) is None {
        reveal_strlit("id");
        reveal_strlit("data");
        reveal_strlit("child");
        reveal_strlit("href");
        assert("id"@ != "data"@) by {
            assert("id"@.len() != "data"@.len());
        }
        assert("child"@ != "href"@) by {
            assert("child"@.len() != "href"@.len());
        }
        let (id, j1) = json_id_next_spec(j);
        let ids = ss_ids(j);
        let notinuse = jvalue::get(ids, "id_notinuse"@);
        let ids1 = if jvalue::len(notinuse) > 0 {
            ids_after_take(ids)
        } else {
            ids
        };
        if jvalue::len(notinuse) > 0 && text::parse_u32_spec(
            jvalue::json_text(jvalue::at(notinuse, 0)),
        ) is Some {
            lemma_get3_set3_other(j, "data"@, "subsection"@, "id"@, "data"@, ids1);
        } else {
            let idv = text_u32(jvalue::get(ids1, "id_next"@));
            lemma_get3_set3_other(
                j,
                "data"@,
                "subsection"@,
                "id"@,
                "data"@,
                jvalue::set(ids1, "id_next"@, jvalue::u32_val(wrap_inc(idv))),
            );
        }
        assert(ss_data(j1) == ss_data(j));
        let pkey = text::dec_spec(pid as nat);
        let parent = jvalue::get4(j1, "data"@, "subsection"@, "data"@, pkey);
        let j2 = if parent is Null {
            j1
        } else {
            jvalue::set4(j1, "data"@, "subsection"@, "data"@, pkey, with_child(parent, id))
        };
        let key = text::dec_spec(id as nat);
        let node = ss_node(id, pid, href);
        let j3 = jvalue::set4(j2, "data"@, "subsection"@, "data"@, key, node);
        assert(ss_json_new_spec(j, href, pid) == (key, j3));
        lemma_get3_set4(j2, "data"@, "subsection"@, "data"@, key, node);
        assert(ss_matches(node, href)) by {
            assert(node->Obj_0[2].0 == "href"@);
        }
        // No record of the data had the href before, nor after the parent
        // record got its new child.
        let d2 = ss_data(j2);
        assert(d2 is Obj ==> forall|i: int|
            0 <= i < d2->Obj_0.len() ==> !ss_matches(#[trigger] d2->Obj_0[i].1, href)) by {
            match ss_data(j) {
                JVal::Obj(e) => {
                    lemma_first_ss(e, href);
                    if !(parent is Null) {
                        lemma_get3_set4(j1, "data"@, "subsection"@, "data"@, pkey, with_child(parent, id));
                        jvalue::lemma_key_pos_found(e, pkey);
                        let p = jvalue::key_pos(e, pkey);
                        let child = jvalue::get(parent, "child"@);
                        let newchild = match jvalue::push(child, jvalue::u32_val(id)) {
                            Some(c) => c,
                            None => child,
                        };
                        lemma_ss_matches_set(parent, "child"@, newchild, href);
                        assert(d2 == JVal::Obj(e.update(p, (pkey, with_child(parent, id)))));
                    }
                },
                _ => {
                    assert(parent is Null);
                },
            }
        }
        match d2 {
            JVal::Obj(e2) => {
                jvalue::lemma_key_pos_found(e2, key);
                let q = jvalue::key_pos(e2, key);
                if q >= 0 {
                    let e3 = e2.update(q, (key, node));
                    lemma_first_ss_at(e3, href, q);
                } else {
                    let e3 = e2.push((key, node));
                    lemma_first_ss_at(e3, href, e2.len() as int);
                }
            },
            _ => {
                lemma_first_ss_at(seq![(key, node)], href, 0);
            },
        }
    }
}

/// Whether a subsection record names no parent other than the top
/// subsection: its `parent` is 0, or no number.
pub open spec fn parent_ok(rec: JVal) -> bool {
    jvalue::as_u32(jvalue::get(rec, "parent"@)) is None || jvalue::as_u32(jvalue::get(rec, "parent"@))
        == Some(0u32)
}

/// Whether the subsections of the page data form a flat tree under the top
/// one: no subsection record names another parent than the top (0).
pub open spec fn parents_zero(j: JVal) -> bool {
    match ss_data(j) {
        JVal::Obj(e) => forall|i: int| 0 <= i < e.len() ==> parent_ok(#[trigger] e[i].1),
        _ => true,
    }
}

/// A record read from flat subsection records names no other parent.
pub proof fn lemma_pz_get(j: JVal, key: Seq<char>)
    requires
        parents_zero(j),
    ensures
        parent_ok(jvalue::get(ss_data(j), key)),
{
    match ss_data(j) {
        JVal::Obj(e) => {
            jvalue::lemma_key_pos_found(e, key);
            if jvalue::key_pos(e, key) >= 0 {
                assert(parent_ok(e[jvalue::key_pos(e, key)].1));
            }
        },
        _ => {},
    }
}

/// Putting a record that names no other parent keeps the records flat.
pub proof fn lemma_pz_put(j: JVal, key: Seq<char>, rec: JVal)
    requires
        parents_zero(j),
        parent_ok(rec),
    ensures
        parents_zero(jvalue::set4(j, "data"@, "subsection"@, "data"@, key, rec)),
{
    lemma_get3_set4(j, "data"@, "subsection"@, "data"@, key, rec);
    let d2 = jvalue::set(ss_data(j), key, rec);
    match ss_data(j) {
        JVal::Obj(e) => {
            let p = jvalue::key_pos(e, key);
            if p >= 0 {
                jvalue::lemma_key_pos_found(e, key);
                let e2 = e.update(p, (key, rec));
                assert forall|i: int| 0 <= i < e2.len() implies parent_ok(#[trigger] e2[i].1) by {
                    if i != p {
                        assert(e2[i] == e[i]);
                    }
                }
            } else {
                let e2 = e.push((key, rec));
                assert forall|i: int| 0 <= i < e2.len() implies parent_ok(#[trigger] e2[i].1) by {
                    if i < e.len() {
                        assert(e2[i] == e[i]);
                    }
                }
            }
        },
        _ => {
            let e2 = seq![(key, rec)];
            assert forall|i: int| 0 <= i < e2.len() implies parent_ok(#[trigger] e2[i].1) by {}
        },
    }
}

/// Setting another field than `parent` of a record keeps what it names.
pub proof fn lemma_pz_field(rec: JVal, f: Seq<char>, v: JVal)
    requires
        parent_ok(rec),
        f != "parent"@,
    ensures
        parent_ok(jvalue::set(rec, f, v)),
{
    jvalue::lemma_get_set_other(rec, f, "parent"@, v);
}

/// Setting another field than `parent` of a subsection record keeps the
/// records flat.
pub proof fn lemma_pz_rec_field(j: JVal, key: Seq<char>, f: Seq<char>, v: JVal)
    requires
        parents_zero(j),
        f != "parent"@,
    ensures
        parents_zero(jvalue::set4(
            j,
            "data"@,
            "subsection"@,
            "data"@,
            key,
            jvalue::set(jvalue::get4(j, "data"@, "subsection"@, "data"@, key), f, v),
        )),
{
    lemma_pz_get(j, key);
    lemma_pz_field(jvalue::get4(j, "data"@, "subsection"@, "data"@, key), f, v);
    lemma_pz_put(j, key, jvalue::set(jvalue::get4(j, "data"@, "subsection"@, "data"@, key), f, v));
}

/// Over flat records, the parent of the subsection that an href finds is the
/// top one (0).
pub proof fn lemma_pz_parent(j: JVal, href: Seq<char>)
    requires
        parents_zero(j),
    ensures
        ss_id_href_spec(j, href) matches Some(id) ==> parent_ok(
            jvalue::get4(j, "data"@, "subsection"@, "data"@, id),
        ),
{
    if let Some(id) = ss_id_href_spec(j, href) {
        lemma_pz_get(j, id);
    }
}

/// A new subsection under the top one keeps the records flat.
pub proof fn lemma_pz_new(j: JVal, href: Seq<char>)
    requires
        parents_zero(j),
    ensures
        parents_zero(ss_json_new_spec(j, href, 0).1),
{
    if ss_id_href_spec(j, href) is None {
        reveal_strlit("id");
        reveal_strlit("data");
        reveal_strlit("parent");
        reveal_strlit("child");
        assert("id"@ != "data"@) by {
            assert("id"@.len() != "data"@.len());
        }
        assert("id"@ != "parent"@) by {
            assert("id"@.len() != "parent"@.len());
        }
        assert("child"@ != "parent"@) by {
            assert("child"@.len() != "parent"@.len());
        }
        let (id, j1) = json_id_next_spec(j);
        let ids = ss_ids(j);
        let notinuse = jvalue::get(ids, "id_notinuse"@);
        let ids1 = if jvalue::len(notinuse) > 0 {
            ids_after_take(ids)
        } else {
            ids
        };
        if jvalue::len(notinuse) > 0 && text::parse_u32_spec(jvalue::json_text(jvalue::at(notinuse, 0))) is Some {
            lemma_get3_set3_other(j, "data"@, "subsection"@, "id"@, "data"@, ids1);
        } else {
            let idv = text_u32(jvalue::get(ids1, "id_next"@));
            lemma_get3_set3_other(
                j,
                "data"@,
                "subsection"@,
                "id"@,
                "data"@,
                jvalue::set(ids1, "id_next"@, jvalue::u32_val(wrap_inc(idv))),
            );
        }
        assert(ss_data(j1) == ss_data(j));
        let pkey = text::dec_spec(0nat);
        let parent = jvalue::get4(j1, "data"@, "subsection"@, "data"@, pkey);
        let j2 = if parent is Null {
            j1
        } else {
            jvalue::set4(j1, "data"@, "subsection"@, "data"@, pkey, with_child(parent, id))
        };
        if !(parent is Null) {
            let child = jvalue::get(parent, "child"@);
            let newchild = match jvalue::push(child, jvalue::u32_val(id)) {
                Some(c) => c,
                None => child,
            };
            lemma_pz_rec_field(j1, pkey, "child"@, newchild);
        }
        let key = text::dec_spec(id as nat);
        let node = ss_node(id, 0, href);
        jvalue::lemma_key_pos_first(node->Obj_0, "parent"@, 1);
        lemma_pz_put(j2, key, node);
    }
}

/// A sample subsection keeps the records flat.
pub proof fn lemma_pz_sample(j: JVal)
    requires
        parents_zero(j),
    ensures
        parents_zero(sample_set_spec(j)),
{
    if jvalue::len(jvalue::get(ss_top(j), "child"@)) == 0 {
        reveal_strlit("href");
        reveal_strlit("title");
        reveal_strlit("parent");
        assert("href"@ != "parent"@) by {
            assert("href"@.len() != "parent"@.len());
        }
        assert("title"@ != "parent"@) by {
            assert("title"@.len() != "parent"@.len());
        }
        lemma_pz_new(j, "#sample"@);
        let (key, j1) = ss_json_new_spec(j, "#sample"@, 0);
        let node = jvalue::get4(j1, "data"@, "subsection"@, "data"@, key);
        lemma_pz_get(j1, key);
        lemma_pz_field(node, "href"@, jvalue::str_val("#sample"@));
        lemma_pz_field(jvalue::set(node, "href"@, jvalue::str_val("#sample"@)), "title"@, jvalue::str_val("sample"@));
        lemma_pz_put(
            j1,
            key,
            jvalue::set(jvalue::set(node, "href"@, jvalue::str_val("#sample"@)), "title"@, jvalue::str_val("sample"@)),
        );
    }
}

/// `j[a][b][c2]` after `j[a][b][c][d] = v` with another third key.
pub proof fn lemma_get3_set4_other(
    j: JVal,
    a: Seq<char>,
    b: Seq<char>,
    c: Seq<char>,
    c2: Seq<char>,
    d: Seq<char>,
    v: JVal,
)
    requires
        c != c2,
    ensures
        jvalue::get3(jvalue::set4(j, a, b, c, d, v), a, b, c2) == jvalue::get3(j, a, b, c2),
{
    let x3 = jvalue::get3(j, a, b, c);
    assert(jvalue::set4(j, a, b, c, d, v) == jvalue::set3(j, a, b, c, jvalue::set(x3, d, v)));
    lemma_get3_set3_other(j, a, b, c, c2, jvalue::set(x3, d, v));
}

/// The ids of the subsections below the top one, `1` to `n`.
pub open spec fn child_ids(n: nat) -> Seq<JVal> {
    Seq::new(n, |i: int| jvalue::u32_val((i + 1) as u32))
}

/// Whether the subsection records are the top one (`"0"`) and the ones
/// numbered `1` to `n - 1` after it, in order, each listed once by number
/// in the top record's `child`, with `n` the next id to give and no id
/// waiting to be used again.
pub open spec fn tree_listed(j: JVal) -> bool {
    let ids = ss_ids(j);
    match ss_data(j) {
        JVal::Obj(e) => {
            &&& 1 <= e.len() <= u32::MAX
            &&& jvalue::get(ids, "id_next"@) == jvalue::u32_val(e.len() as u32)
            &&& jvalue::len(jvalue::get(ids, "id_notinuse"@)) == 0
            &&& e[0].0 == "0"@
            &&& (forall|i: int| 1 <= i < e.len() ==> (#[trigger] e[i]).0 == text::dec_spec(i as nat))
            &&& e[0].1 is Obj
            &&& jvalue::get(e[0].1, "child"@) == JVal::Arr(child_ids((e.len() - 1) as nat))
        },
        _ => false,
    }
}

/// Whether there are so many subsection records (`u32::MAX` or more)
/// that their ids have gone round.
pub open spec fn crowded(j: JVal) -> bool {
    ss_data(j) is Obj && ss_data(j)->Obj_0.len() >= u32::MAX
}

/// The subsection tree as the page reader keeps it: listed by the top
/// record, unless the ids have gone round.
pub open spec fn tree_ok(j: JVal) -> bool {
    tree_listed(j) || crowded(j)
}

/// Whether a subsection record has the key `k`.
pub open spec fn key_in(j: JVal, k: Seq<char>) -> bool {
    ss_data(j) is Obj && jvalue::key_pos(ss_data(j)->Obj_0, k) >= 0
}

/// A record found by its href has its key among the records.
pub proof fn lemma_found_key_in(j: JVal, href: Seq<char>)
    ensures
        ss_id_href_spec(j, href) matches Some(k) ==> key_in(j, k),
{
    if let JVal::Obj(e) = ss_data(j) {
        lemma_first_ss(e, href);
        if first_ss(e, href) >= 0 {
            let k = e[first_ss(e, href)].0;
            jvalue::lemma_key_pos_found(e, k);
        }
    }
}

/// Setting the record `key` of the subsection records.
pub proof fn lemma_put_rec(j: JVal, key: Seq<char>, rec: JVal, k2: Seq<char>)
    ensures
        ss_data(jvalue::set4(j, "data"@, "subsection"@, "data"@, key, rec)) == jvalue::set(ss_data(j), key, rec),
        ss_ids(jvalue::set4(j, "data"@, "subsection"@, "data"@, key, rec)) == ss_ids(j),
        crowded(j) ==> crowded(jvalue::set4(j, "data"@, "subsection"@, "data"@, key, rec)),
        key_in(jvalue::set4(j, "data"@, "subsection"@, "data"@, key, rec), key),
        key_in(j, k2) ==> key_in(jvalue::set4(j, "data"@, "subsection"@, "data"@, key, rec), k2),
{
    reveal_strlit("id");
    reveal_strlit("data");
    assert("data"@ != "id"@) by {
        assert("data"@.len() != "id"@.len());
    }
    lemma_get3_set4(j, "data"@, "subsection"@, "data"@, key, rec);
    lemma_get3_set4_other(j, "data"@, "subsection"@, "data"@, "id"@, key, rec);
    match ss_data(j) {
        JVal::Obj(e) => {
            jvalue::lemma_key_pos_found(e, key);
            jvalue::lemma_key_pos_found(e, k2);
            let p = jvalue::key_pos(e, key);
            if p >= 0 {
                let e2 = e.update(p, (key, rec));
                jvalue::lemma_key_pos_first(e2, key, p);
                if jvalue::key_pos(e, k2) >= 0 {
                    let q = jvalue::key_pos(e, k2);
                    assert(forall|i: int| 0 <= i < e.len() ==> e2[i].0 == e[i].0);
                    jvalue::lemma_key_pos_first(e2, k2, q);
                }
            } else {
                let e2 = e.push((key, rec));
                jvalue::lemma_key_pos_found(e2, key);
                if jvalue::key_pos(e2, key) < 0 {
                    assert(e2[e.len() as int].0 == key);
                }
                if jvalue::key_pos(e, k2) >= 0 {
                    let q = jvalue::key_pos(e, k2);
                    assert(forall|i: int| 0 <= i < e.len() ==> e2[i].0 == e[i].0);
                    jvalue::lemma_key_pos_first(e2, k2, q);
                }
            }
        },
        _ => {
            let e2 = seq![(key, rec)];
            jvalue::lemma_key_pos_first(e2, key, 0);
        },
    }
}

/// Setting a field other than `child` of a record that is there keeps the
/// tree as it is listed, and keeps the records' keys.
pub proof fn lemma_tree_rec_field(j: JVal, key: Seq<char>, f: Seq<char>, v: JVal, k2: Seq<char>)
    requires
        f != "child"@,
    ensures
        key_in(j, key) && tree_ok(j) ==> tree_ok(jvalue::set4(
            j,
            "data"@,
            "subsection"@,
            "data"@,
            key,
            jvalue::set(jvalue::get4(j, "data"@, "subsection"@, "data"@, key), f, v),
        )),
        key_in(j, k2) ==> key_in(jvalue::set4(
            j,
            "data"@,
            "subsection"@,
            "data"@,
            key,
            jvalue::set(jvalue::get4(j, "data"@, "subsection"@, "data"@, key), f, v),
        ), k2),
{
    let rec = jvalue::set(jvalue::get4(j, "data"@, "subsection"@, "data"@, key), f, v);
    lemma_put_rec(j, key, rec, k2);
    if key_in(j, key) && tree_listed(j) {
        let e = ss_data(j)->Obj_0;
        let p = jvalue::key_pos(e, key);
        jvalue::lemma_key_pos_found(e, key);
        let e2 = e.update(p, (key, rec));
        assert(ss_data(jvalue::set4(j, "data"@, "subsection"@, "data"@, key, rec)) == JVal::Obj(e2));
        assert forall|i: int| 1 <= i < e2.len() implies (#[trigger] e2[i]).0 == text::dec_spec(i as nat) by {
            assert(e2[i].0 == e[i].0);
        }
        if p == 0 {
            jvalue::lemma_get_set_other(e[0].1, f, "child"@, v);
        }
    }
}

/// A new subsection under the top one keeps the tree listed (or the ids
/// go round), and its key is among the records; keys stay.
pub proof fn lemma_tree_new(j: JVal, href: Seq<char>, k2: Seq<char>)
    ensures
        tree_ok(j) ==> tree_ok(ss_json_new_spec(j, href, 0).1),
        tree_ok(j) ==> key_in(ss_json_new_spec(j, href, 0).1, ss_json_new_spec(j, href, 0).0),
        key_in(j, k2) ==> key_in(ss_json_new_spec(j, href, 0).1, k2),
        crowded(j) ==> crowded(ss_json_new_spec(j, href, 0).1),
        tree_listed(j) && ss_id_href_spec(j, href) is None && ss_data(j)->Obj_0.len() < u32::MAX ==> tree_listed(
            ss_json_new_spec(j, href, 0).1,
        ) && ss_data(ss_json_new_spec(j, href, 0).1)->Obj_0.len() == ss_data(j)->Obj_0.len() + 1,
{
    lemma_found_key_in(j, href);
    if ss_id_href_spec(j, href) is None {
        reveal_strlit("id");
        reveal_strlit("data");
        reveal_strlit("id_next");
        reveal_strlit("id_notinuse");
        assert("id"@ != "data"@) by {
            assert("id"@.len() != "data"@.len());
        }
        assert("id_next"@ != "id_notinuse"@) by {
            assert("id_next"@.len() != "id_notinuse"@.len());
        }
        let ids = ss_ids(j);
        let notinuse = jvalue::get(ids, "id_notinuse"@);
        let (id, j1) = json_id_next_spec(j);
        let ids1 = if jvalue::len(notinuse) > 0 {
            ids_after_take(ids)
        } else {
            ids
        };
        if jvalue::len(notinuse) > 0 && text::parse_u32_spec(jvalue::json_text(jvalue::at(notinuse, 0))) is Some {
            lemma_get3_set3_other(j, "data"@, "subsection"@, "id"@, "data"@, ids1);
        } else {
            let idv = text_u32(jvalue::get(ids1, "id_next"@));
            lemma_get3_set3_other(
                j,
                "data"@,
                "subsection"@,
                "id"@,
                "data"@,
                jvalue::set(ids1, "id_next"@, jvalue::u32_val(wrap_inc(idv))),
            );
            jvalue::lemma_get3_set3(
                j,
                "data"@,
                "subsection"@,
                "id"@,
                jvalue::set(ids1, "id_next"@, jvalue::u32_val(wrap_inc(idv))),
            );
        }
        assert(ss_data(j1) == ss_data(j));
        text::lemma_dec_injective(0, 0);
        let pkey = text::dec_spec(0nat);
        let parent = jvalue::get4(j1, "data"@, "subsection"@, "data"@, pkey);
        let j2 = if parent is Null {
            j1
        } else {
            jvalue::set4(j1, "data"@, "subsection"@, "data"@, pkey, with_child(parent, id))
        };
        if !(parent is Null) {
            lemma_put_rec(j1, pkey, with_child(parent, id), k2);
        }
        let key = text::dec_spec(id as nat);
        let node = ss_node(id, 0, href);
        lemma_put_rec(j2, key, node, k2);
        if tree_listed(j) {
            let e = ss_data(j)->Obj_0;
            let n = e.len();
            assert(jvalue::len(notinuse) == 0);
            assert(jvalue::as_u32(jvalue::u32_val(n as u32)) == Some(n as u32));
            assert(id == n as u32);
            jvalue::lemma_key_pos_first(e, "0"@, 0);
            assert(parent == e[0].1);
            let wc = with_child(e[0].1, id);
            let newchild = JVal::Arr(child_ids((n - 1) as nat).push(jvalue::u32_val(id)));
            jvalue::lemma_get_set(e[0].1, "child"@, newchild);
            let e2 = e.update(0, ("0"@, wc));
            assert(ss_data(j2) == JVal::Obj(e2));
            assert forall|i: int| 0 <= i < e2.len() implies (#[trigger] e2[i]).0 != key by {
                if i == 0 {
                    text::lemma_dec_injective(0, n as nat);
                } else {
                    text::lemma_dec_injective(i as nat, n as nat);
                }
            }
            jvalue::lemma_key_pos_found(e2, key);
            let e3 = e2.push((key, node));
            assert(ss_data(jvalue::set4(j2, "data"@, "subsection"@, "data"@, key, node)) == JVal::Obj(e3));
            let ids_f = jvalue::set(ids, "id_next"@, jvalue::u32_val(wrap_inc(id)));
            jvalue::lemma_get_set(ids, "id_next"@, jvalue::u32_val(wrap_inc(id)));
            jvalue::lemma_get_set_other(ids, "id_next"@, "id_notinuse"@, jvalue::u32_val(wrap_inc(id)));
            if n < u32::MAX {
                assert(child_ids(n as nat) =~= child_ids((n - 1) as nat).push(jvalue::u32_val(id)));
                assert forall|i: int| 1 <= i < e3.len() implies (#[trigger] e3[i]).0 == text::dec_spec(i as nat) by {
                    if i < n {
                        assert(e3[i] == e[i]);
                    }
                }
                assert(tree_listed(jvalue::set4(j2, "data"@, "subsection"@, "data"@, key, node)));
            } else {
                assert(crowded(jvalue::set4(j2, "data"@, "subsection"@, "data"@, key, node)));
            }
        }
    }
}

/// Putting a record under a key that is there keeps the tree listed, when
/// the top record, if it is the one put, stays an object with the same
/// `child`.
pub proof fn lemma_tree_put(j: JVal, key: Seq<char>, rec: JVal)
    requires
        key_in(j, key),
        tree_ok(j),
        key == "0"@ ==> rec is Obj && jvalue::get(rec, "child"@) == jvalue::get(
            jvalue::get4(j, "data"@, "subsection"@, "data"@, key),
            "child"@,
        ),
    ensures
        tree_ok(jvalue::set4(j, "data"@, "subsection"@, "data"@, key, rec)),
{
    lemma_put_rec(j, key, rec, key);
    if tree_listed(j) {
        let e = ss_data(j)->Obj_0;
        let p = jvalue::key_pos(e, key);
        jvalue::lemma_key_pos_found(e, key);
        let e2 = e.update(p, (key, rec));
        assert(ss_data(jvalue::set4(j, "data"@, "subsection"@, "data"@, key, rec)) == JVal::Obj(e2));
        assert forall|i: int| 1 <= i < e2.len() implies (#[trigger] e2[i]).0 == text::dec_spec(i as nat) by {
            assert(e2[i].0 == e[i].0);
        }
    }
}

/// Adding the sample subsection keeps the tree listed (or the ids go
/// round).
pub proof fn lemma_tree_sample(j: JVal)
    requires
        tree_ok(j),
    ensures
        tree_ok(sample_set_spec(j)),
        crowded(j) ==> crowded(sample_set_spec(j)),
{
    if jvalue::len(jvalue::get(ss_top(j), "child"@)) == 0 {
        reveal_strlit("href");
        reveal_strlit("title");
        reveal_strlit("child");
        assert("href"@ != "child"@) by {
            assert("href"@.len() != "child"@.len());
        }
        assert("title"@ != "child"@) by {
            assert("title"@[0] != "child"@[0]);
        }
        lemma_tree_new(j, "#sample"@, "#sample"@);
        let (key, j1) = ss_json_new_spec(j, "#sample"@, 0);
        let node = jvalue::get4(j1, "data"@, "subsection"@, "data"@, key);
        let n1 = jvalue::set(node, "href"@, jvalue::str_val("#sample"@));
        let n2 = jvalue::set(n1, "title"@, jvalue::str_val("sample"@));
        jvalue::lemma_get_set_other(node, "href"@, "child"@, jvalue::str_val("#sample"@));
        jvalue::lemma_get_set_other(n1, "title"@, "child"@, jvalue::str_val("sample"@));
        if key == "0"@ && tree_listed(j1) {
            let e = ss_data(j1)->Obj_0;
            jvalue::lemma_key_pos_first(e, "0"@, 0);
        }
        lemma_put_rec(j1, key, n2, key);
        if !(key == "0"@ && !tree_listed(j1)) {
            lemma_tree_put(j1, key, n2);
        }
    }
}

/// In a listed subsection tree, the top record (`"0"`) lists each other
/// record exactly once by its number, and lists nothing else: a number
/// is in the top record's `child` if and only if a record other than the
/// top one has that number as its key, and it stands there once.
pub proof fn law_top_lists_each_subsection(j: JVal, k: Seq<char>)
    requires
        tree_listed(j),
    ensures
        ({
            let e = ss_data(j)->Obj_0;
            let child = jvalue::get(ss_top(j), "child"@)->Arr_0;
            &&& jvalue::get(ss_top(j), "child"@) is Arr
            &&& forall|i: int| 0 <= i < child.len() ==> (#[trigger] child[i]) == jvalue::u32_val((i + 1) as u32)
                && jvalue::key_pos(e, text::dec_spec((i + 1) as nat)) == i + 1
            &&& forall|i: int, i2: int| 0 <= i < i2 < child.len() ==> child[i] != child[i2]
            &&& (jvalue::key_pos(e, k) >= 0 && k != "0"@) ==> exists|i: int|
                0 <= i < child.len() && #[trigger] text::dec_spec((i + 1) as nat) == k
        }),
{
    let e = ss_data(j)->Obj_0;
    jvalue::lemma_key_pos_first(e, "0"@, 0);
    let child = jvalue::get(ss_top(j), "child"@)->Arr_0;
    assert forall|i: int| 0 <= i < child.len() implies (#[trigger] child[i]) == jvalue::u32_val((i + 1) as u32)
        && jvalue::key_pos(e, text::dec_spec((i + 1) as nat)) == i + 1 by {
        assert forall|m: int| 0 <= m < i + 1 implies e[m].0 != text::dec_spec((i + 1) as nat) by {
            if m == 0 {
                text::lemma_dec_injective(0, (i + 1) as nat);
            } else {
                text::lemma_dec_injective(m as nat, (i + 1) as nat);
            }
        }
        jvalue::lemma_key_pos_first(e, text::dec_spec((i + 1) as nat), i + 1);
    }
    assert forall|i: int, i2: int| 0 <= i < i2 < child.len() implies child[i] != child[i2] by {
        assert(child[i] == jvalue::u32_val((i + 1) as u32));
        assert(child[i2] == jvalue::u32_val((i2 + 1) as u32));
    }
    if jvalue::key_pos(e, k) >= 0 && k != "0"@ {
        jvalue::lemma_key_pos_found(e, k);
        let p = jvalue::key_pos(e, k);
        assert(p != 0);
        assert(e[p].0 == text::dec_spec(p as nat));
        assert(text::dec_spec(((p - 1) + 1) as nat) == k);
    }
}

/// After the sample subsection is added to a listed tree, the top record
/// has a child, unless the top record itself has the href `#sample`.
pub proof fn lemma_sample_child(j: JVal)
    requires
        tree_listed(j),
    ensures
        jvalue::len(jvalue::get(ss_top(sample_set_spec(j)), "child"@)) > 0 || ss_matches(
            ss_top(sample_set_spec(j)),
            "#sample"@,
        ),
{
    if jvalue::len(jvalue::get(ss_top(j), "child"@)) == 0 {
        reveal_strlit("href");
        reveal_strlit("title");
        assert("title"@ != "href"@) by {
            assert("title"@.len() != "href"@.len());
        }
        let e = ss_data(j)->Obj_0;
        jvalue::lemma_key_pos_first(e, "0"@, 0);
        assert(e.len() == 1);
        let (key, j1) = ss_json_new_spec(j, "#sample"@, 0);
        let node = jvalue::get4(j1, "data"@, "subsection"@, "data"@, key);
        let n1 = jvalue::set(node, "href"@, jvalue::str_val("#sample"@));
        let n2 = jvalue::set(n1, "title"@, jvalue::str_val("sample"@));
        let sj = jvalue::set4(j1, "data"@, "subsection"@, "data"@, key, n2);
        assert(sample_set_spec(j) == sj);
        lemma_first_ss(e, "#sample"@);
        if ss_id_href_spec(j, "#sample"@) is Some {
            assert(key == "0"@);
            assert(j1 == j);
            jvalue::lemma_get4_set4(j1, "data"@, "subsection"@, "data"@, key, n2);
            let ne = node->Obj_0;
            jvalue::lemma_key_pos_found(ne, "href"@);
            let p = jvalue::key_pos(ne, "href"@);
            let ne1 = if p >= 0 {
                ne.update(p, ("href"@, jvalue::str_val("#sample"@)))
            } else {
                ne.push(("href"@, jvalue::str_val("#sample"@)))
            };
            assert(n1 == JVal::Obj(ne1));
            if p >= 0 {
                assert(ne1[p].0 == "href"@);
            } else {
                assert(ne1[ne.len() as int].0 == "href"@);
            }
            assert(ss_matches(n1, "#sample"@));
            lemma_ss_matches_set(n1, "title"@, jvalue::str_val("sample"@), "#sample"@);
        } else {
            lemma_tree_new(j, "#sample"@, "#sample"@);
            let e1 = ss_data(j1)->Obj_0;
            assert(e1.len() == 2);
            text::lemma_dec_injective(0, 1);
            assert(key == text::dec_spec(1));
            assert(key != "0"@);
            jvalue::lemma_get4_set4_other(j1, "data"@, "subsection"@, "data"@, key, "0"@, n2);
            jvalue::lemma_key_pos_first(e1, "0"@, 0);
            assert(ss_top(sj) == e1[0].1);
        }
    }
}

/// The blank page data is listed.
pub proof fn lemma_tree_blank()
    ensures
        tree_listed(super::page_json_utility::page_json_blank_spec()),
{
    reveal_strlit("system");
    reveal_strlit("data");
    reveal_strlit("page");
    reveal_strlit("navi");
    reveal_strlit("subsection");
    reveal_strlit("id");
    reveal_strlit("0");
    reveal_strlit("id_next");
    reveal_strlit("id_notinuse");
    reveal_strlit("parent");
    reveal_strlit("title");
    reveal_strlit("href");
    reveal_strlit("content");
    reveal_strlit("child");
    let b = super::page_json_utility::page_json_blank_spec();
    let e0 = b->Obj_0;
    assert("system"@ != "data"@) by {
        assert("system"@.len() != "data"@.len());
    }
    jvalue::lemma_key_pos_first(e0, "data"@, 1);
    let d = jvalue::get(b, "data"@);
    let e1 = d->Obj_0;
    assert("page"@ != "subsection"@) by {
        assert("page"@.len() != "subsection"@.len());
    }
    assert("navi"@ != "subsection"@) by {
        assert("navi"@.len() != "subsection"@.len());
    }
    jvalue::lemma_key_pos_first(e1, "subsection"@, 2);
    let ss = jvalue::get(d, "subsection"@);
    let e2 = ss->Obj_0;
    assert("id"@ != "data"@) by {
        assert("id"@.len() != "data"@.len());
    }
    jvalue::lemma_key_pos_first(e2, "data"@, 1);
    jvalue::lemma_key_pos_first(e2, "id"@, 0);
    let ids = jvalue::get(ss, "id"@);
    jvalue::lemma_key_pos_first(ids->Obj_0, "id_next"@, 0);
    assert("id_next"@ != "id_notinuse"@) by {
        assert("id_next"@.len() != "id_notinuse"@.len());
    }
    jvalue::lemma_key_pos_first(ids->Obj_0, "id_notinuse"@, 1);
    let sd = jvalue::get(ss, "data"@);
    let rec = sd->Obj_0[0].1;
    let er = rec->Obj_0;
    assert("parent"@ != "child"@) by {
        assert("parent"@.len() != "child"@.len());
    }
    assert("id"@ != "child"@) by {
        assert("id"@.len() != "child"@.len());
    }
    assert("title"@ != "child"@) by {
        assert("title"@[0] != "child"@[0]);
    }
    assert("href"@ != "child"@) by {
        assert("href"@.len() != "child"@.len());
    }
    assert("content"@ != "child"@) by {
        assert("content"@.len() != "child"@.len());
    }
    jvalue::lemma_key_pos_first(er, "child"@, 5);
    assert(child_ids(0) =~= Seq::<JVal>::empty());
}

/// The top subsection record, `data.subsection.data["0"]`.
pub open spec fn ss_top(j: JVal) -> JVal {
    jvalue::get4(j, "data"@, "subsection"@, "data"@, "0"@)
}

/// Page data with a sample subsection (href `#sample`, title `sample`)
/// added under the top one when the top one has no children, so that the
/// page offers something to edit.
pub open spec fn sample_set_spec(j: JVal) -> JVal {
    if jvalue::len(jvalue::get(ss_top(j), "child"@)) > 0 {
        j
    } else {
        let (key, j1) = ss_json_new_spec(j, "#sample"@, 0);
        let node = jvalue::get4(j1, "data"@, "subsection"@, "data"@, key);
        let node1 = jvalue::set(
            jvalue::set(node, "href"@, jvalue::str_val("#sample"@)),
            "title"@,
            jvalue::str_val("sample"@),
        );
        jvalue::set4(j1, "data"@, "subsection"@, "data"@, key, node1)
    }
}

/// Adds a sample subsection when the top subsection has no children.  The
/// top subsection must exist.
pub fn subsection_json_sample_set(page_json: &mut Json)
    requires
        !(ss_top(old(page_json)@) is Null),
    ensures
        final(page_json)@ == sample_set_spec(old(page_json)@),
{
    let child_len = match page_json.get4("data", "subsection", "data", "0") {
        Some(t) => match t.get("child") {
            Some(c) => c.len(),
            None => 0,
        },
        None => 0,
    };
    if 0 < child_len {
        return;
    }
    let key = ss_json_new(page_json, "#sample", 0);
    let mut node = match page_json.get4("data", "subsection", "data", key.as_str()) {
        Some(n) => n.deep_clone(),
        None => Json::Null,
    };
    node.set("href", Json::from_str("#sample"));
    node.set("title", Json::from_str("sample"));
    page_json.set4("data", "subsection", "data", key.as_str(), node);
}

} // verus!
