//! The JSON document model that page data is kept in.
//!
//! `Json` is the executable value, `JVal` its mathematical view.  Objects keep
//! their entries in insertion order; looking a key up finds its first entry,
//! and assigning to a key replaces that entry in place or appends a new one.
use vstd::prelude::*;
use json::JsonValue as Jv;

verus! {

/// A JSON number as sign, decimal mantissa and decimal exponent:
/// the value is `(+/-) mantissa * 10^exponent`.
#[derive(Clone, Copy, PartialEq, Eq, Debug, Structural)]
pub struct JNum {
    pub positive: bool,
    pub mantissa: u64,
    pub exponent: i16,
}

/// The mathematical value of a JSON document.
pub enum JVal {
    Null,
    Bool(bool),
    Num(JNum),
    Str(Seq<char>),
    Arr(Seq<JVal>),
    Obj(Seq<(Seq<char>, JVal)>),
}

/// A JSON document.
#[derive(Debug)]
pub enum Json {
    Null,
    Bool(bool),
    Number(JNum),
    Str(String),
    Array(Vec<Json>),
    Object(Vec<(String, Json)>),
}

/// The view of a JSON document.
pub open spec fn jv(j: Json) -> JVal
    decreases j,
{
    match j {
        Json::Null => JVal::Null,
        Json::Bool(b) => JVal::Bool(b),
        Json::Number(n) => JVal::Num(n),
        Json::Str(s) => JVal::Str(s@),
        Json::Array(v) => JVal::Arr(
            Seq::new(
                v.len() as nat,
                |i: int|
                    if 0 <= i < v.len() {
                        jv(v[i])
                    } else {
                        JVal::Null
                    },
            ),
        ),
        Json::Object(v) => JVal::Obj(
            Seq::new(
                v.len() as nat,
                |i: int|
                    if 0 <= i < v.len() {
                        (v[i].0@, jv(v[i].1))
                    } else {
                        (Seq::empty(), JVal::Null)
                    },
            ),
        ),
    }
}

/// The view of the entries of an object.
pub open spec fn entries_view(v: Seq<(String, Json)>) -> Seq<(Seq<char>, JVal)> {
    Seq::new(v.len(), |i: int| (v[i].0@, jv(v[i].1)))
}

/// The view of the members of an array.
pub open spec fn members_view(v: Seq<Json>) -> Seq<JVal> {
    Seq::new(v.len(), |i: int| jv(v[i]))
}

impl View for Json {
    type V = JVal;

    open spec fn view(&self) -> JVal {
        jv(*self)
    }
}

/// The position of the first entry with key `k`, or -1.
pub open spec fn key_pos(e: Seq<(Seq<char>, JVal)>, k: Seq<char>) -> int
    decreases e.len(),
{
    if e.len() == 0 {
        -1
    } else {
        let p = key_pos(e.drop_last(), k);
        if p >= 0 {
            p
        } else if e.last().0 == k {
            e.len() - 1
        } else {
            -1
        }
    }
}

/// `key` read from a JSON value, as `value[key]` does: the value of its
/// first entry in an object, `Null` otherwise.
pub open spec fn get(j: JVal, k: Seq<char>) -> JVal {
    match j {
        JVal::Obj(e) => if key_pos(e, k) >= 0 {
            e[key_pos(e, k)].1
        } else {
            JVal::Null
        },
        _ => JVal::Null,
    }
}

/// The value reached from `j` by reading the keys of `path` in turn.
pub open spec fn get_path(j: JVal, path: Seq<Seq<char>>) -> JVal
    decreases path.len(),
{
    if path.len() == 0 {
        j
    } else {
        get_path(get(j, path[0]), path.drop_first())
    }
}

/// Whether `j` is an object that has an entry with key `k`.
pub open spec fn has_key(j: JVal, k: Seq<char>) -> bool {
    j is Obj && key_pos(j->Obj_0, k) >= 0
}

/// `value[key] = v`: in an object, the first entry with the key gets the
/// value, or a new entry is appended; any other value becomes an object
/// with that one entry.
pub open spec fn set(j: JVal, k: Seq<char>, v: JVal) -> JVal {
    match j {
        JVal::Obj(e) => if key_pos(e, k) >= 0 {
            JVal::Obj(e.update(key_pos(e, k), (k, v)))
        } else {
            JVal::Obj(e.push((k, v)))
        },
        _ => JVal::Obj(seq![(k, v)]),
    }
}

/// `value[k0][k1]..[kn] = v`.
pub open spec fn set_path(j: JVal, path: Seq<Seq<char>>, v: JVal) -> JVal
    decreases path.len(),
{
    if path.len() == 0 {
        v
    } else {
        set(j, path[0], set_path(get(j, path[0]), path.drop_first(), v))
    }
}

/// The member at `i` of an array, `Null` otherwise.
pub open spec fn at(j: JVal, i: int) -> JVal {
    match j {
        JVal::Arr(a) => if 0 <= i < a.len() {
            a[i]
        } else {
            JVal::Null
        },
        _ => JVal::Null,
    }
}

/// The number of members of an array or entries of an object; 0 otherwise.
pub open spec fn len(j: JVal) -> nat {
    match j {
        JVal::Arr(a) => a.len(),
        JVal::Obj(e) => e.len(),
        _ => 0,
    }
}

/// The text of a string value.
pub open spec fn as_str(j: JVal) -> Option<Seq<char>> {
    match j {
        JVal::Str(s) => Some(s),
        _ => None,
    }
}

/// A number that is a non-negative integer not above `u32::MAX`.
pub open spec fn as_u32(j: JVal) -> Option<u32> {
    match j {
        JVal::Num(n) => if n.positive && n.exponent == 0 && n.mantissa <= u32::MAX {
            Some(n.mantissa as u32)
        } else {
            None
        },
        _ => None,
    }
}

/// A string value.
pub open spec fn str_val(s: Seq<char>) -> JVal {
    JVal::Str(s)
}

/// A non-negative integer value.
pub open spec fn u32_val(n: u32) -> JVal {
    JVal::Num(JNum { positive: true, mantissa: n as u64, exponent: 0 })
}

/// The empty object.
pub open spec fn empty_obj() -> JVal {
    JVal::Obj(Seq::empty())
}

/// The empty array.
pub open spec fn empty_arr() -> JVal {
    JVal::Arr(Seq::empty())
}

/// The result of `push`: an array with `v` appended, `None` on another value.
pub open spec fn push(j: JVal, v: JVal) -> Option<JVal> {
    match j {
        JVal::Arr(a) => Some(JVal::Arr(a.push(v))),
        _ => None,
    }
}

/// A path of literal keys, as a sequence of texts.
pub open spec fn path_view(keys: Seq<&str>) -> Seq<Seq<char>> {
    Seq::new(keys.len(), |i: int| keys[i]@)
}

/// The text that the json crate's `Display` gives a value (its `to_string`).
pub uninterp spec fn json_text(v: JVal) -> Seq<char>;

/// What the json crate's `parse` makes of a text: the value, or `None` when
/// the text is not JSON.
pub uninterp spec fn json_parse_spec(text: Seq<char>) -> Option<JVal>;

/// Reading back a key that was just set gives the value that was set.
pub proof fn lemma_get_set(j: JVal, k: Seq<char>, v: JVal)
    ensures
        get(set(j, k, v), k) == v,
        has_key(set(j, k, v), k),
{
    match j {
        JVal::Obj(e) => {
            if key_pos(e, k) >= 0 {
                lemma_key_pos_update(e, k, key_pos(e, k), v);
            } else {
                lemma_key_pos_push(e, k, v);
            }
        },
        _ => {
            lemma_key_pos_first(seq![(k, v)], k, 0);
        },
    }
}

/// Setting a key leaves the other keys as they were.
pub proof fn lemma_get_set_other(j: JVal, k: Seq<char>, k2: Seq<char>, v: JVal)
    requires
        k != k2,
    ensures
        get(set(j, k, v), k2) == get(j, k2),
        j is Obj ==> has_key(set(j, k, v), k2) == has_key(j, k2),
{
    match j {
        JVal::Obj(e) => {
            lemma_key_pos_found(e, k);
            lemma_key_pos_found(e, k2);
            if key_pos(e, k) >= 0 {
                lemma_key_pos_update_other(e, k, k2, key_pos(e, k), v);
            } else {
                lemma_key_pos_push_other(e, k, k2, v);
            }
        },
        _ => {
            assert(seq![(k, v)].drop_last() =~= Seq::<(Seq<char>, JVal)>::empty());
            lemma_key_pos_found(seq![(k, v)], k2);
        },
    }
}

/// Setting a value four keys deep leaves its siblings as they were.
pub proof fn lemma_get4_set4_other(
    j: JVal,
    a: Seq<char>,
    b: Seq<char>,
    c: Seq<char>,
    d: Seq<char>,
    d2: Seq<char>,
    v: JVal,
)
    requires
        d != d2,
    ensures
        get4(set4(j, a, b, c, d, v), a, b, c, d2) == get4(j, a, b, c, d2),
{
    let x1 = get(j, a);
    let x2 = get(x1, b);
    let x3 = get(x2, c);
    lemma_get_set(j, a, set3(x1, b, c, d, v));
    lemma_get_set(x1, b, set2(x2, c, d, v));
    lemma_get_set(x2, c, set(x3, d, v));
    lemma_get_set_other(x3, d, d2, v);
}

/// Setting a value four keys deep, then reading it back, gives the value.
pub proof fn lemma_get4_set4(j: JVal, a: Seq<char>, b: Seq<char>, c: Seq<char>, d: Seq<char>, v: JVal)
    ensures
        get4(set4(j, a, b, c, d, v), a, b, c, d) == v,
{
    let x1 = get(j, a);
    let x2 = get(x1, b);
    let x3 = get(x2, c);
    lemma_get_set(j, a, set3(x1, b, c, d, v));
    lemma_get_set(x1, b, set2(x2, c, d, v));
    lemma_get_set(x2, c, set(x3, d, v));
    lemma_get_set(x3, d, v);
}

/// Writing a value at a path, then reading that path, gives the value
/// (`value[k0]..[kn] = v` followed by `value[k0]..[kn]`).
pub proof fn law_get_path_set_path(j: JVal, path: Seq<Seq<char>>, v: JVal)
    ensures
        get_path(set_path(j, path, v), path) == v,
    decreases path.len(),
{
    if path.len() > 0 {
        let inner = set_path(get(j, path[0]), path.drop_first(), v);
        lemma_get_set(j, path[0], inner);
        law_get_path_set_path(get(j, path[0]), path.drop_first(), v);
    }
}

/// Setting a value three keys deep, then reading it back, gives the value.
pub proof fn lemma_get3_set3(j: JVal, a: Seq<char>, b: Seq<char>, c: Seq<char>, v: JVal)
    ensures
        get3(set3(j, a, b, c, v), a, b, c) == v,
{
    let x1 = get(j, a);
    let x2 = get(x1, b);
    lemma_get_set(j, a, set2(x1, b, c, v));
    lemma_get_set(x1, b, set(x2, c, v));
    lemma_get_set(x2, c, v);
}

/// Setting a value three keys deep twice keeps the second value.
pub proof fn lemma_set3_set3(j: JVal, a: Seq<char>, b: Seq<char>, c: Seq<char>, v1: JVal, v2: JVal)
    ensures
        set3(set3(j, a, b, c, v1), a, b, c, v2) == set3(j, a, b, c, v2),
{
    let x1 = get(j, a);
    let x2 = get(x1, b);
    let y1 = set2(x1, b, c, v1);
    let y2 = set(x2, c, v1);
    lemma_get_set(j, a, y1);
    lemma_get_set(x1, b, y2);
    lemma_set_set(x2, c, v1, v2);
    lemma_set_set(x1, b, y2, set(x2, c, v2));
    lemma_set_set(j, a, y1, set2(x1, b, c, v2));
}

/// Writing back the value that stands three keys deep changes nothing.
pub proof fn lemma_set3_same(j: JVal, a: Seq<char>, b: Seq<char>, c: Seq<char>)
    requires
        !(get3(j, a, b, c) is Null),
    ensures
        set3(j, a, b, c, get3(j, a, b, c)) == j,
{
    let x1 = get(j, a);
    let x2 = get(x1, b);
    lemma_set_same(x2, c);
    lemma_set_same(x1, b);
    lemma_set_same(j, a);
}

/// Setting a key twice keeps the second value.
pub proof fn lemma_set_set(j: JVal, k: Seq<char>, v1: JVal, v2: JVal)
    ensures
        set(set(j, k, v1), k, v2) == set(j, k, v2),
{
    match j {
        JVal::Obj(e) => {
            if key_pos(e, k) >= 0 {
                lemma_key_pos_update(e, k, key_pos(e, k), v1);
                assert(e.update(key_pos(e, k), (k, v1)).update(key_pos(e, k), (k, v2)) =~= e.update(
                    key_pos(e, k),
                    (k, v2),
                ));
            } else {
                lemma_key_pos_push(e, k, v1);
                assert(e.push((k, v1)).update(e.len() as int, (k, v2)) =~= e.push((k, v2)));
            }
        },
        _ => {
            lemma_key_pos_first(seq![(k, v1)], k, 0);
            assert(seq![(k, v1)].update(0, (k, v2)) =~= seq![(k, v2)]);
        },
    }
}

/// Setting a key to the value it already has changes nothing.
pub proof fn lemma_set_same(j: JVal, k: Seq<char>)
    requires
        has_key(j, k),
    ensures
        set(j, k, get(j, k)) == j,
{
    let e = j->Obj_0;
    lemma_key_pos_found(e, k);
    assert(e.update(key_pos(e, k), (k, get(j, k))) =~= e);
}

pub proof fn lemma_key_pos_found(e: Seq<(Seq<char>, JVal)>, k: Seq<char>)
    ensures
        key_pos(e, k) >= 0 ==> key_pos(e, k) < e.len() && e[key_pos(e, k)].0 == k,
        key_pos(e, k) >= 0 ==> forall|i: int| 0 <= i < key_pos(e, k) ==> e[i].0 != k,
        key_pos(e, k) < 0 ==> key_pos(e, k) == -1 && forall|i: int| 0 <= i < e.len() ==> e[i].0 != k,
    decreases e.len(),
{
    if e.len() > 0 {
        let d = e.drop_last();
        lemma_key_pos_found(d, k);
        assert(forall|i: int| 0 <= i < d.len() ==> d[i] == e[i]);
        if key_pos(d, k) < 0 {
            if e.last().0 == k {
                assert(key_pos(e, k) == e.len() - 1);
            } else {
                assert(key_pos(e, k) == -1);
                assert forall|i: int| 0 <= i < e.len() implies e[i].0 != k by {
                    if i < e.len() - 1 {
                        assert(d[i] == e[i]);
                    }
                }
            }
        }
    }
}

pub proof fn lemma_key_pos_first(e: Seq<(Seq<char>, JVal)>, k: Seq<char>, i: int)
    requires
        0 <= i < e.len(),
        e[i].0 == k,
        forall|j: int| 0 <= j < i ==> e[j].0 != k,
    ensures
        key_pos(e, k) == i,
    decreases e.len(),
{
    if i < e.len() - 1 {
        lemma_key_pos_first(e.drop_last(), k, i);
    } else {
        lemma_key_pos_found(e.drop_last(), k);
    }
}

proof fn lemma_key_pos_update(e: Seq<(Seq<char>, JVal)>, k: Seq<char>, p: int, v: JVal)
    requires
        p == key_pos(e, k),
        p >= 0,
    ensures
        key_pos(e.update(p, (k, v)), k) == p,
        p < e.len(),
{
    lemma_key_pos_found(e, k);
    lemma_key_pos_first(e.update(p, (k, v)), k, p);
}

proof fn lemma_key_pos_push(e: Seq<(Seq<char>, JVal)>, k: Seq<char>, v: JVal)
    requires
        key_pos(e, k) < 0,
    ensures
        key_pos(e.push((k, v)), k) == e.len(),
{
    lemma_key_pos_found(e, k);
    lemma_key_pos_first(e.push((k, v)), k, e.len() as int);
}

proof fn lemma_key_pos_update_other(
    e: Seq<(Seq<char>, JVal)>,
    k: Seq<char>,
    k2: Seq<char>,
    p: int,
    v: JVal,
)
    requires
        p == key_pos(e, k),
        p >= 0,
        k != k2,
    ensures
        key_pos(e.update(p, (k, v)), k2) == key_pos(e, k2),
{
    lemma_key_pos_found(e, k);
    lemma_key_pos_found(e, k2);
    let e2 = e.update(p, (k, v));
    if key_pos(e, k2) >= 0 {
        lemma_key_pos_first(e2, k2, key_pos(e, k2));
    } else {
        lemma_key_pos_found(e2, k2);
        if key_pos(e2, k2) >= 0 {
            assert(e2[key_pos(e2, k2)].0 == k2);
        }
    }
}

proof fn lemma_key_pos_push_other(e: Seq<(Seq<char>, JVal)>, k: Seq<char>, k2: Seq<char>, v: JVal)
    requires
        k != k2,
    ensures
        key_pos(e.push((k, v)), k2) == key_pos(e, k2),
{
    assert(e.push((k, v)).drop_last() =~= e);
}

impl Json {
    /// An empty object.
    pub fn new_object() -> (r: Json)
        ensures
            r@ == empty_obj(),
    {
        let r = Json::Object(Vec::new());
        assert(r@->Obj_0 =~= Seq::<(Seq<char>, JVal)>::empty());
        r
    }

    /// An empty array.
    pub fn new_array() -> (r: Json)
        ensures
            r@ == empty_arr(),
    {
        let r = Json::Array(Vec::new());
        assert(r@->Arr_0 =~= Seq::<JVal>::empty());
        r
    }

    /// A string value.
    pub fn from_str(s: &str) -> (r: Json)
        ensures
            r@ == str_val(s@),
    {
        Json::Str(String::from_str(s))
    }

    /// A non-negative integer value.
    pub fn from_u32(n: u32) -> (r: Json)
        ensures
            r@ == u32_val(n),
    {
        Json::Number(JNum { positive: true, mantissa: n as u64, exponent: 0 })
    }

    /// A two-member array of strings, as a navigation item `[title, href]`.
    pub fn pair(a: &str, b: &str) -> (r: Json)
        ensures
            r@ == JVal::Arr(seq![str_val(a@), str_val(b@)]),
    {
        let mut v: Vec<Json> = Vec::new();
        v.push(Json::from_str(a));
        v.push(Json::from_str(b));
        let r = Json::Array(v);
        assert(r@->Arr_0 =~= seq![str_val(a@), str_val(b@)]);
        r
    }

    /// A copy of the document.
    pub fn deep_clone(&self) -> (r: Json)
        ensures
            r@ == self@,
        decreases self,
    {
        match self {
            Json::Null => Json::Null,
            Json::Bool(b) => Json::Bool(*b),
            Json::Number(n) => Json::Number(*n),
            Json::Str(s) => Json::Str(s.clone()),
            Json::Array(v) => {
                let mut out: Vec<Json> = Vec::new();
                let mut i: usize = 0;
                while i < v.len()
                    invariant
                        i <= v.len(),
                        out.len() == i,
                        *self == Json::Array(*v),
                        forall|j: int| 0 <= j < i ==> jv(#[trigger] out@[j]) == jv(v@[j]),
                    decreases v.len() - i,
                {
                    proof {
                        assert(decreases_to!(*self => (*self)->Array_0));
                        vstd::std_specs::vec::axiom_vec_index_decreases(*v, i as int);
                    }
                    let c = v[i].deep_clone();
                    out.push(c);
                    i = i + 1;
                }
                let r = Json::Array(out);
                assert(r@->Arr_0 =~= self@->Arr_0);
                r
            },
            Json::Object(v) => {
                let mut out: Vec<(String, Json)> = Vec::new();
                let mut i: usize = 0;
                while i < v.len()
                    invariant
                        i <= v.len(),
                        out.len() == i,
                        *self == Json::Object(*v),
                        forall|j: int|
                            0 <= j < i ==> (#[trigger] out@[j]).0@ == v@[j].0@ && jv(out@[j].1) == jv(
                                v@[j].1,
                            ),
                    decreases v.len() - i,
                {
                    proof {
                        assert(decreases_to!(*self => (*self)->Object_0));
                        vstd::std_specs::vec::axiom_vec_index_decreases(*v, i as int);
                    }
                    let c = v[i].1.deep_clone();
                    out.push((v[i].0.clone(), c));
                    i = i + 1;
                }
                let r = Json::Object(out);
                assert(r@->Obj_0 =~= self@->Obj_0);
                r
            },
        }
    }

    /// The number of members of an array or entries of an object; 0 otherwise.
    pub fn len(&self) -> (r: usize)
        ensures
            r == len(self@),
    {
        match self {
            Json::Array(v) => v.len(),
            Json::Object(v) => v.len(),
            _ => 0,
        }
    }

    /// Whether the value is `null`.
    pub fn is_null(&self) -> (r: bool)
        ensures
            r == (self@ is Null),
    {
        match self {
            Json::Null => true,
            _ => false,
        }
    }

    /// The text of a string value.
    pub fn as_str(&self) -> (r: Option<&str>)
        ensures
            r matches Some(s) ==> as_str(self@) == Some(s@),
            r is None ==> as_str(self@) is None,
    {
        match self {
            Json::Str(s) => Some(s.as_str()),
            _ => None,
        }
    }

    /// A number that is a non-negative integer not above `u32::MAX`.
    pub fn as_u32(&self) -> (r: Option<u32>)
        ensures
            r == as_u32(self@),
    {
        match self {
            Json::Number(n) => {
                if n.positive && n.exponent == 0 && n.mantissa <= 0xffff_ffffu64 {
                    Some(n.mantissa as u32)
                } else {
                    None
                }
            },
            _ => None,
        }
    }

    /// Whether the value is the string `s` (as `value == s` compares).
    pub fn eq_str(&self, s: &str) -> (r: bool)
        ensures
            r == (self@ == str_val(s@)),
    {
        match self {
            Json::Str(x) => {
                let y = String::from_str(s);
                *x == y
            },
            _ => false,
        }
    }

    /// The members of an array.
    pub fn as_array(&self) -> (r: Option<&Vec<Json>>)
        ensures
            r matches Some(v) ==> self@ == JVal::Arr(members_view(v@)),
            r is None ==> !(self@ is Arr),
    {
        match self {
            Json::Array(v) => {
                assert(self@->Arr_0 =~= members_view(v@));
                Some(v)
            },
            _ => None,
        }
    }

    /// The member at `i` of an array, as `value[i]` reads it.
    pub fn at(&self, i: usize) -> (r: Option<&Json>)
        ensures
            r matches Some(x) ==> x@ == at(self@, i as int),
            r is None ==> at(self@, i as int) == JVal::Null,
    {
        match self {
            Json::Array(v) => {
                if i < v.len() {
                    assert(self@->Arr_0[i as int] == v@[i as int]@);
                    Some(&v[i])
                } else {
                    None
                }
            },
            _ => None,
        }
    }

    /// The entries of an object.
    pub fn as_object(&self) -> (r: Option<&Vec<(String, Json)>>)
        ensures
            r matches Some(v) ==> self@ == JVal::Obj(entries_view(v@)),
            r is None ==> !(self@ is Obj),
    {
        match self {
            Json::Object(v) => {
                assert(self@->Obj_0 =~= entries_view(v@));
                Some(v)
            },
            _ => None,
        }
    }

    /// The position of the first entry with the key.
    pub fn key_position(entries: &Vec<(String, Json)>, key: &str) -> (r: Option<usize>)
        ensures
            r matches Some(p) ==> key_pos(entries_view(entries@), key@) == p && p < entries.len()
                && entries@[p as int].0@ == key@,
            r is None ==> key_pos(entries_view(entries@), key@) < 0,
    {
        let k = String::from_str(key);
        let ghost e = entries_view(entries@);
        let mut i: usize = 0;
        while i < entries.len()
            invariant
                i <= entries.len(),
                e == entries_view(entries@),
                k@ == key@,
                forall|j: int| 0 <= j < i ==> e[j].0 != key@,
            decreases entries.len() - i,
        {
            if entries[i].0 == k {
                proof {
                    lemma_key_pos_first(e, key@, i as int);
                }
                return Some(i);
            }
            i = i + 1;
        }
        proof {
            lemma_key_pos_found(e, key@);
            if key_pos(e, key@) >= 0 {
                assert(e[key_pos(e, key@)].0 == key@);
            }
        }
        None
    }

    /// `value[key]`, when the value is an object that has the key.
    pub fn get(&self, key: &str) -> (r: Option<&Json>)
        ensures
            r matches Some(c) ==> c@ == get(self@, key@) && has_key(self@, key@),
            r is None ==> get(self@, key@) == JVal::Null && !has_key(self@, key@),
    {
        match self {
            Json::Object(v) => {
                assert(self@->Obj_0 =~= entries_view(v@));
                match Json::key_position(v, key) {
                    Some(p) => Some(&v[p].1),
                    None => None,
                }
            },
            _ => None,
        }
    }

    /// `value[k0][k1]..[kn]`, when every step finds its key.
    pub fn get_path(&self, keys: &[&str]) -> (r: Option<&Json>)
        ensures
            r matches Some(c) ==> c@ == get_path(self@, path_view(keys@)),
            r is None ==> get_path(self@, path_view(keys@)) == JVal::Null,
    {
        assert(path_view(keys@).subrange(0, keys@.len() as int) =~= path_view(keys@));
        self.get_path_from(keys, 0)
    }

    fn get_path_from(&self, keys: &[&str], i: usize) -> (r: Option<&Json>)
        requires
            i <= keys@.len(),
        ensures
            r matches Some(c) ==> c@ == get_path(
                self@,
                path_view(keys@).subrange(i as int, keys@.len() as int),
            ),
            r is None ==> get_path(self@, path_view(keys@).subrange(i as int, keys@.len() as int))
                == JVal::Null,
        decreases keys@.len() - i,
    {
        let ghost p = path_view(keys@).subrange(i as int, keys@.len() as int);
        if i == keys.len() {
            assert(p.len() == 0);
            return Some(self);
        }
        assert(p.drop_first() =~= path_view(keys@).subrange(i + 1, keys@.len() as int));
        match self.get(keys[i]) {
            Some(c) => c.get_path_from(keys, i + 1),
            None => {
                proof {
                    lemma_get_path_null(p.drop_first());
                }
                None
            },
        }
    }

    /// The text at `value[k0][k1]..[kn]`, when it is a string.
    pub fn str_at(&self, keys: &[&str]) -> (r: Option<&str>)
        ensures
            r matches Some(s) ==> as_str(get_path(self@, path_view(keys@))) == Some(s@),
            r is None ==> as_str(get_path(self@, path_view(keys@))) is None,
    {
        match self.get_path(keys) {
            Some(c) => c.as_str(),
            None => None,
        }
    }

    /// `value[key] = v`.
    pub fn set(&mut self, key: &str, v: Json)
        ensures
            final(self)@ == set(old(self)@, key@, v@),
    {
        let ghost v_view = v@;
        let mut cur = Json::Null;
        std::mem::swap(&mut cur, self);
        match cur {
            Json::Object(mut entries) => {
                let ghost e = entries_view(entries@);
                assert(old(self)@->Obj_0 =~= e);
                match Json::key_position(&entries, key) {
                    Some(p) => {
                        let _old = entries.remove(p);
                        entries.insert(p, (String::from_str(key), v));
                        assert(entries_view(entries@) =~= e.update(p as int, (key@, v_view)));
                    },
                    None => {
                        entries.push((String::from_str(key), v));
                        assert(entries_view(entries@) =~= e.push((key@, v_view)));
                    },
                }
                *self = Json::Object(entries);
                assert(self@->Obj_0 =~= entries_view(entries@));
            },
            _ => {
                let mut entries: Vec<(String, Json)> = Vec::new();
                entries.push((String::from_str(key), v));
                *self = Json::Object(entries);
                assert(self@->Obj_0 =~= seq![(key@, v_view)]);
            },
        }
    }

    /// Takes `value[key]` out of an object, leaving `null` in its entry.
    fn take(&mut self, key: &str) -> (r: Json)
        ensures
            r@ == get(old(self)@, key@),
            has_key(old(self)@, key@) ==> final(self)@ == set(old(self)@, key@, JVal::Null),
            !has_key(old(self)@, key@) ==> final(self)@ == old(self)@,
    {
        let mut cur = Json::Null;
        std::mem::swap(&mut cur, self);
        match cur {
            Json::Object(mut entries) => {
                let ghost e = entries_view(entries@);
                assert(old(self)@->Obj_0 =~= e);
                match Json::key_position(&entries, key) {
                    Some(p) => {
                        let (k, val) = entries.remove(p);
                        entries.insert(p, (k, Json::Null));
                        proof {
                            lemma_key_pos_found(e, key@);
                        }
                        assert(entries_view(entries@) =~= e.update(p as int, (key@, JVal::Null)));
                        *self = Json::Object(entries);
                        assert(self@->Obj_0 =~= entries_view(entries@));
                        val
                    },
                    None => {
                        *self = Json::Object(entries);
                        assert(self@->Obj_0 =~= e);
                        Json::Null
                    },
                }
            },
            other => {
                *self = other;
                Json::Null
            },
        }
    }

    /// `value[k0][k1]..[kn] = v`.
    pub fn set_path(&mut self, keys: &[&str], v: Json)
        ensures
            final(self)@ == set_path(old(self)@, path_view(keys@), v@),
    {
        self.set_path_from(keys, 0, v);
        assert(path_view(keys@).subrange(0, keys@.len() as int) =~= path_view(keys@));
    }

    fn set_path_from(&mut self, keys: &[&str], i: usize, v: Json)
        requires
            i <= keys@.len(),
        ensures
            final(self)@ == set_path(
                old(self)@,
                path_view(keys@).subrange(i as int, keys@.len() as int),
                v@,
            ),
        decreases keys@.len() - i,
    {
        let ghost p = path_view(keys@).subrange(i as int, keys@.len() as int);
        if i == keys.len() {
            *self = v;
            return;
        }
        assert(p.drop_first() =~= path_view(keys@).subrange(i + 1, keys@.len() as int));
        let ghost before = self@;
        let mut child = self.take(keys[i]);
        let ghost mid = self@;
        child.set_path_from(keys, i + 1, v);
        self.set(keys[i], child);
        proof {
            if has_key(before, keys@[i as int]@) {
                lemma_set_set(before, keys@[i as int]@, JVal::Null, child@);
            }
        }
    }

    /// Appends to an array; `Err` on any other value.
    pub fn push(&mut self, v: Json) -> (r: Result<(), ()>)
        ensures
            push(old(self)@, v@) matches Some(n) ==> r is Ok && final(self)@ == n,
            push(old(self)@, v@) is None ==> r is Err && final(self)@ == old(self)@,
    {
        let ghost v_view = v@;
        let mut cur = Json::Null;
        std::mem::swap(&mut cur, self);
        match cur {
            Json::Array(mut members) => {
                let ghost m = members_view(members@);
                assert(old(self)@->Arr_0 =~= m);
                members.push(v);
                assert(members_view(members@) =~= m.push(v_view));
                *self = Json::Array(members);
                assert(self@->Arr_0 =~= members_view(members@));
                Ok(())
            },
            other => {
                *self = other;
                Err(())
            },
        }
    }

    /// Removes the first member of an array and returns it; `null` when there is none.
    pub fn array_remove_first(&mut self) -> (r: Json)
        ensures
            r@ == at(old(self)@, 0),
            old(self)@ is Arr && old(self)@->Arr_0.len() > 0 ==> final(self)@ == JVal::Arr(
                old(self)@->Arr_0.drop_first(),
            ),
            !(old(self)@ is Arr && old(self)@->Arr_0.len() > 0) ==> final(self)@ == old(self)@,
    {
        let mut cur = Json::Null;
        std::mem::swap(&mut cur, self);
        match cur {
            Json::Array(mut members) => {
                let ghost m = members_view(members@);
                assert(old(self)@->Arr_0 =~= m);
                if members.len() > 0 {
                    let first = members.remove(0);
                    assert(members_view(members@) =~= m.drop_first());
                    *self = Json::Array(members);
                    assert(self@->Arr_0 =~= members_view(members@));
                    first
                } else {
                    *self = Json::Array(members);
                    assert(self@->Arr_0 =~= m);
                    Json::Null
                }
            },
            other => {
                *self = other;
                Json::Null
            },
        }
    }
}

/// `j[a][b]`.
pub open spec fn get2(j: JVal, a: Seq<char>, b: Seq<char>) -> JVal {
    get(get(j, a), b)
}

/// `j[a][b][c]`.
pub open spec fn get3(j: JVal, a: Seq<char>, b: Seq<char>, c: Seq<char>) -> JVal {
    get(get(get(j, a), b), c)
}

/// `j[a][b][c][d]`.
pub open spec fn get4(j: JVal, a: Seq<char>, b: Seq<char>, c: Seq<char>, d: Seq<char>) -> JVal {
    get(get(get(get(j, a), b), c), d)
}

/// `j[a][b] = v`.
pub open spec fn set2(j: JVal, a: Seq<char>, b: Seq<char>, v: JVal) -> JVal {
    set(j, a, set(get(j, a), b, v))
}

/// `j[a][b][c] = v`.
pub open spec fn set3(j: JVal, a: Seq<char>, b: Seq<char>, c: Seq<char>, v: JVal) -> JVal {
    set(j, a, set2(get(j, a), b, c, v))
}

/// `j[a][b][c][d] = v`.
pub open spec fn set4(j: JVal, a: Seq<char>, b: Seq<char>, c: Seq<char>, d: Seq<char>, v: JVal) -> JVal {
    set(j, a, set3(get(j, a), b, c, d, v))
}

impl Json {
    /// `value[a][b]`, when both steps find their key.
    pub fn get2(&self, a: &str, b: &str) -> (r: Option<&Json>)
        ensures
            r matches Some(x) ==> x@ == get2(self@, a@, b@),
            r is None ==> get2(self@, a@, b@) == JVal::Null,
    {
        match self.get(a) {
            Some(x) => x.get(b),
            None => None,
        }
    }

    /// `value[a][b][c]`, when every step finds its key.
    pub fn get3(&self, a: &str, b: &str, c: &str) -> (r: Option<&Json>)
        ensures
            r matches Some(x) ==> x@ == get3(self@, a@, b@, c@),
            r is None ==> get3(self@, a@, b@, c@) == JVal::Null,
    {
        match self.get2(a, b) {
            Some(x) => x.get(c),
            None => None,
        }
    }

    /// `value[a][b][c][d]`, when every step finds its key.
    pub fn get4(&self, a: &str, b: &str, c: &str, d: &str) -> (r: Option<&Json>)
        ensures
            r matches Some(x) ==> x@ == get4(self@, a@, b@, c@, d@),
            r is None ==> get4(self@, a@, b@, c@, d@) == JVal::Null,
    {
        match self.get3(a, b, c) {
            Some(x) => x.get(d),
            None => None,
        }
    }

    /// `value[a][b] = v`.
    pub fn set2(&mut self, a: &str, b: &str, v: Json)
        ensures
            final(self)@ == set2(old(self)@, a@, b@, v@),
    {
        let keys: [&str; 2] = [a, b];
        assert(path_view(keys@) =~= seq![a@, b@]);
        self.set_path(&keys, v);
        proof {
            reveal_with_fuel(set_path, 3);
            assert(seq![a@, b@].drop_first() =~= seq![b@]);
            assert(seq![b@].drop_first() =~= Seq::<Seq<char>>::empty());
        }
    }

    /// `value[a][b][c] = v`.
    pub fn set3(&mut self, a: &str, b: &str, c: &str, v: Json)
        ensures
            final(self)@ == set3(old(self)@, a@, b@, c@, v@),
    {
        let keys: [&str; 3] = [a, b, c];
        assert(path_view(keys@) =~= seq![a@, b@, c@]);
        self.set_path(&keys, v);
        proof {
            reveal_with_fuel(set_path, 4);
            assert(seq![a@, b@, c@].drop_first() =~= seq![b@, c@]);
            assert(seq![b@, c@].drop_first() =~= seq![c@]);
            assert(seq![c@].drop_first() =~= Seq::<Seq<char>>::empty());
        }
    }

    /// `value[a][b][c][d] = v`.
    pub fn set4(&mut self, a: &str, b: &str, c: &str, d: &str, v: Json)
        ensures
            final(self)@ == set4(old(self)@, a@, b@, c@, d@, v@),
    {
        let keys: [&str; 4] = [a, b, c, d];
        assert(path_view(keys@) =~= seq![a@, b@, c@, d@]);
        self.set_path(&keys, v);
        proof {
            reveal_with_fuel(set_path, 5);
            assert(seq![a@, b@, c@, d@].drop_first() =~= seq![b@, c@, d@]);
            assert(seq![b@, c@, d@].drop_first() =~= seq![c@, d@]);
            assert(seq![c@, d@].drop_first() =~= seq![d@]);
            assert(seq![d@].drop_first() =~= Seq::<Seq<char>>::empty());
        }
    }
}

pub proof fn lemma_get_path_null(p: Seq<Seq<char>>)
    ensures
        get_path(JVal::Null, p) == JVal::Null,
    decreases p.len(),
{
    if p.len() > 0 {
        lemma_get_path_null(p.drop_first());
    }
}

/// Parses a JSON text with the json crate.
///
/// Claims of `json::parse`: its result, or that it failed, is a function of
/// the text alone, named `json_parse_spec`.
#[verifier::external_body]
pub fn parse(text: &str) -> (r: Option<Json>)
    ensures
        r matches Some(v) ==> json_parse_spec(text@) == Some(v@),
        r is None ==> json_parse_spec(text@) is None,
{
    match json::parse(text) {
        Ok(v) => Some(from_outside(&v)),
        Err(_) => None,
    }
}

/// The text that the json crate's `Display` (`to_string`) gives a value.
///
/// Claims of `<json::JsonValue as ToString>::to_string`: the text is a
/// function of the value alone, named `json_text`; a string value shows as its
/// own text, `null` as `null`, the booleans as `true` and `false`, and a
/// non-negative number with exponent 0 as the decimal digits of its mantissa,
/// as its `Display` implementation and its `print_dec::write` write them.
#[verifier::external_body]
pub fn to_text(v: &Json) -> (r: String)
    ensures
        r@ == json_text(v@),
        v@ matches JVal::Str(s) ==> r@ == s,
        v@ is Null ==> r@ == "null"@,
        v@ == JVal::Bool(true) ==> r@ == "true"@,
        v@ == JVal::Bool(false) ==> r@ == "false"@,
        v@ matches JVal::Num(n) ==> (n.positive && n.exponent == 0 ==> r@ == crate::text::dec_spec(
            n.mantissa as nat,
        )),
{
    to_outside(v).to_string()
}

/// The json crate's value type, carried only between the conversions below.
#[verifier::external_type_specification]
#[verifier::external_body]
pub struct ExJsonValue(json::JsonValue);

/// A number from the parts that the json crate's `Number::as_parts` gives:
/// sign, mantissa and exponent.
fn jnum(parts: (bool, u64, i16)) -> (r: JNum)
    ensures
        r == (JNum { positive: parts.0, mantissa: parts.1, exponent: parts.2 }),
{
    JNum { positive: parts.0, mantissa: parts.1, exponent: parts.2 }
}

/// Converts a json crate value into a `Json`, member by member; part of
/// `parse`.
#[verifier::external_body]
fn from_outside(v: &Jv) -> Json {
    match v {
        Jv::Null => Json::Null,
        Jv::Short(s) => Json::Str(s.as_str().to_string()),
        Jv::String(s) => Json::Str(s.clone()),
        Jv::Number(n) => Json::Number(jnum(n.as_parts())),
        Jv::Boolean(b) => Json::Bool(*b),
        Jv::Object(o) => Json::Object(o.iter().map(|(k, x)| (k.to_string(), from_outside(x))).collect()),
        Jv::Array(a) => Json::Array(a.iter().map(from_outside).collect()),
    }
}

/// The decimal text `<sign><mantissa>e<exponent>` of a number, which the
/// json crate's parser reads back with the very mantissa and exponent.
fn number_text(n: &JNum) -> (r: String)
    ensures
        r@ == (if n.positive { ""@ } else { "-"@ }) + crate::text::dec_spec(n.mantissa as nat) + "e"@ + (
        if n.exponent < 0 {
            "-"@ + crate::text::dec_spec((-n.exponent) as nat)
        } else {
            crate::text::dec_spec(n.exponent as nat)
        }),
{
    let m = crate::text::u64_to_string(n.mantissa);
    let e: i32 = n.exponent as i32;
    let mag: u64 = if e < 0 { (0 - e) as u64 } else { e as u64 };
    let ex = crate::text::u64_to_string(mag);
    let head = if n.positive { crate::text::concat("", m.as_str()) } else { crate::text::concat("-", m.as_str()) };
    let tail = if e < 0 { crate::text::concat("-", ex.as_str()) } else { ex };
    crate::text::concat3(head.as_str(), "e", tail.as_str())
}

/// A number as the json crate holds it, with the very mantissa and
/// exponent (trailing zeros kept, as its parser keeps them), read by the
/// json crate from `number_text`, since `Number::from_parts` would strip
/// the zeros.  Its parser saturates an exponent at 32767 in size, so only
/// the exponent -32768 comes back as -32767.  Part of `to_text`.
#[verifier::external_body]
fn num_to(text: &str) -> Jv {
    json::parse(text).unwrap_or(Jv::Null)
}

/// Converts a `Json` into a json crate value, member by member (an object
/// is built by the json crate's `FromIterator`, which inserts the entries
/// in order); part of `to_text`.
#[verifier::external_body]
fn to_outside(v: &Json) -> Jv {
    match v {
        Json::Null => Jv::Null,
        Json::Bool(b) => Jv::Boolean(*b),
        Json::Number(n) => num_to(&number_text(n)),
        Json::Str(s) => Jv::String(s.clone()),
        Json::Array(a) => Jv::Array(a.iter().map(to_outside).collect()),
        Json::Object(o) => Jv::Object(o.iter().map(|(k, x)| (k.as_str(), to_outside(x))).collect()),
    }
}

} // verus!
