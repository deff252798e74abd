//! The JSON document model the derivation logic reads and writes.
//!
//! `Json` is the executable tree; `JsonV` is its mathematical view, with
//! strings as `Seq<char>` and containers as `Seq`s. Objects are ordered lists
//! of fields; lookups return the first field with the key, and `obj_set`
//! replaces an existing field in place, so objects the library builds keep
//! their keys distinct.
use vstd::prelude::*;
use crate::num::Number;
use crate::text::{str_eq};

verus! {

broadcast use vstd::string::group_string_axioms;

#[derive(Debug, PartialEq)]
pub enum Json {
    Null,
    Bool(bool),
    Num(Number),
    Str(String),
    Arr(Vec<Json>),
    Obj(Vec<(String, Json)>),
}

/// Mathematical view of a JSON value.
pub enum JsonV {
    Null,
    Bool(bool),
    Num(Number),
    Str(Seq<char>),
    Arr(Seq<JsonV>),
    Obj(Seq<(Seq<char>, JsonV)>),
}

pub open spec fn jview(j: Json) -> JsonV
    decreases j,
{
    match j {
        Json::Null => JsonV::Null,
        Json::Bool(b) => JsonV::Bool(b),
        Json::Num(n) => JsonV::Num(n),
        Json::Str(s) => JsonV::Str(s@),
        Json::Arr(v) => JsonV::Arr(jview_seq(v@)),
        Json::Obj(v) => JsonV::Obj(jview_fields(v@)),
    }
}

pub open spec fn jview_seq(s: Seq<Json>) -> Seq<JsonV>
    decreases s,
{
    if s.len() == 0 {
        Seq::empty()
    } else {
        jview_seq(s.drop_last()).push(jview(s.last()))
    }
}

pub open spec fn jview_fields(s: Seq<(String, Json)>) -> Seq<(Seq<char>, JsonV)>
    decreases s,
{
    if s.len() == 0 {
        Seq::empty()
    } else {
        jview_fields(s.drop_last()).push((s.last().0@, jview(s.last().1)))
    }
}

impl View for Json {
    type V = JsonV;

    open spec fn view(&self) -> JsonV {
        jview(*self)
    }
}

pub proof fn lemma_jview_seq_push(s: Seq<Json>, x: Json)
    ensures
        jview_seq(s.push(x)) == jview_seq(s).push(jview(x)),
{
    assert(s.push(x).drop_last() =~= s);
}

pub proof fn lemma_jview_fields_push(s: Seq<(String, Json)>, x: (String, Json))
    ensures
        jview_fields(s.push(x)) == jview_fields(s).push((x.0@, jview(x.1))),
{
    assert(s.push(x).drop_last() =~= s);
}

pub proof fn lemma_jview_seq_len(s: Seq<Json>)
    ensures
        jview_seq(s).len() == s.len(),
        forall|i: int| 0 <= i < s.len() ==> #[trigger] jview_seq(s)[i] == jview(s[i]),
    decreases s.len(),
{
    if s.len() > 0 {
        lemma_jview_seq_len(s.drop_last());
    }
}

pub proof fn lemma_jview_fields_len(s: Seq<(String, Json)>)
    ensures
        jview_fields(s).len() == s.len(),
        forall|i: int|
            0 <= i < s.len() ==> #[trigger] jview_fields(s)[i] == (s[i].0@, jview(s[i].1)),
    decreases s.len(),
{
    if s.len() > 0 {
        lemma_jview_fields_len(s.drop_last());
    }
}

/// The first field whose key is `k`.
pub open spec fn fields_get(s: Seq<(Seq<char>, JsonV)>, k: Seq<char>) -> Option<JsonV>
    decreases s.len(),
{
    if s.len() == 0 {
        None
    } else if fields_get(s.drop_last(), k) is Some {
        fields_get(s.drop_last(), k)
    } else if s.last().0 == k {
        Some(s.last().1)
    } else {
        None
    }
}

/// Member `k` of an object; `None` for a missing key or a value that is not an object.
pub open spec fn get(j: JsonV, k: Seq<char>) -> Option<JsonV> {
    match j {
        JsonV::Obj(fs) => fields_get(fs, k),
        _ => None,
    }
}

/// `get` through an optional value.
pub open spec fn oget(j: Option<JsonV>, k: Seq<char>) -> Option<JsonV> {
    match j {
        Some(v) => get(v, k),
        None => None,
    }
}

pub open spec fn is_obj(j: JsonV) -> bool {
    j is Obj
}

pub open spec fn as_str(j: JsonV) -> Option<Seq<char>> {
    match j {
        JsonV::Str(s) => Some(s),
        _ => None,
    }
}

pub open spec fn oas_str(j: Option<JsonV>) -> Option<Seq<char>> {
    match j {
        Some(v) => as_str(v),
        None => None,
    }
}

/// JavaScript truthiness: `null`, `false`, zero and the empty string are falsy.
pub open spec fn truthy(j: JsonV) -> bool {
    match j {
        JsonV::Null => false,
        JsonV::Bool(b) => b,
        JsonV::Num(n) => !n.is_zero(),
        JsonV::Str(s) => s.len() > 0,
        _ => true,
    }
}

/// `o.k1 || o.k2 || ...` in JavaScript: the first truthy member among `keys`.
pub open spec fn first_truthy(o: Option<JsonV>, keys: Seq<Seq<char>>) -> Option<JsonV>
    decreases keys.len(),
{
    if keys.len() == 0 {
        None
    } else {
        match oget(o, keys[0]) {
            Some(v) if truthy(v) => Some(v),
            _ => first_truthy(o, keys.drop_first()),
        }
    }
}

/// The first member among `keys` that holds a non-empty string.
pub open spec fn first_text(o: Option<JsonV>, keys: Seq<Seq<char>>) -> Option<Seq<char>>
    decreases keys.len(),
{
    if keys.len() == 0 {
        None
    } else {
        match oas_str(oget(o, keys[0])) {
            Some(s) if s.len() > 0 => Some(s),
            _ => first_text(o, keys.drop_first()),
        }
    }
}

/// Fields with `k` set to `v`: replaced in place where present, appended otherwise.
pub open spec fn fields_put(s: Seq<(Seq<char>, JsonV)>, k: Seq<char>, v: JsonV) -> Seq<
    (Seq<char>, JsonV),
> {
    if exists|i: int| 0 <= i < s.len() && s[i].0 == k {
        let i = choose|i: int| 0 <= i < s.len() && s[i].0 == k && forall|j: int| 0 <= j < i ==> s[j].0 != k;
        s.update(i, (k, v))
    } else {
        s.push((k, v))
    }
}

pub open spec fn opt_view(o: Option<&Json>) -> Option<JsonV> {
    match o {
        Some(j) => Some(j@),
        None => None,
    }
}

pub proof fn lemma_fields_get_take(s: Seq<(Seq<char>, JsonV)>, k: Seq<char>, i: int)
    requires
        0 <= i < s.len(),
        forall|j: int| 0 <= j < i ==> s[j].0 != k,
    ensures
        fields_get(s.take(i), k) is None,
        s[i].0 == k ==> fields_get(s.take(i + 1), k) == Some(s[i].1),
        s[i].0 != k ==> fields_get(s.take(i + 1), k) is None,
    decreases i,
{
    assert(s.take(i + 1).drop_last() =~= s.take(i));
    if i > 0 {
        lemma_fields_get_take(s, k, i - 1);
        assert(s.take(i).drop_last() =~= s.take(i - 1));
    } else {
        assert(s.take(0).len() == 0);
    }
}

pub proof fn lemma_fields_get_found(s: Seq<(Seq<char>, JsonV)>, k: Seq<char>, i: int)
    requires
        0 <= i < s.len(),
        s[i].0 == k,
        forall|j: int| 0 <= j < i ==> s[j].0 != k,
    ensures
        fields_get(s, k) == Some(s[i].1),
    decreases s.len(),
{
    if s.len() == i + 1 {
        lemma_fields_get_take(s, k, i);
        assert(s.take(i + 1) =~= s);
    } else {
        lemma_fields_get_found(s.drop_last(), k, i);
    }
}

pub proof fn lemma_fields_get_absent(s: Seq<(Seq<char>, JsonV)>, k: Seq<char>)
    requires
        forall|j: int| 0 <= j < s.len() ==> s[j].0 != k,
    ensures
        fields_get(s, k) is None,
    decreases s.len(),
{
    if s.len() > 0 {
        lemma_fields_get_absent(s.drop_last(), k);
    }
}

/// Index of the first field named `k`.
pub fn find_key(fields: &Vec<(String, Json)>, k: &str) -> (r: Option<usize>)
    ensures
        match r {
            Some(i) => i < fields@.len() && fields@[i as int].0@ == k@ && forall|j: int|
                0 <= j < i ==> fields@[j].0@ != k@,
            None => forall|j: int| 0 <= j < fields@.len() ==> fields@[j].0@ != k@,
        },
{
    let mut i: usize = 0;
    while i < fields.len()
        invariant
            i <= fields.len(),
            forall|j: int| 0 <= j < i ==> fields@[j].0@ != k@,
        decreases fields.len() - i,
    {
        if str_eq(fields[i].0.as_str(), k) {
            return Some(i);
        }
        i = i + 1;
    }
    None
}

proof fn lemma_fields_get_view(fs: Seq<(String, Json)>, k: Seq<char>, r: Option<int>)
    requires
        match r {
            Some(i) => 0 <= i < fs.len() && fs[i].0@ == k && forall|j: int| 0 <= j < i ==> fs[j].0@ != k,
            None => forall|j: int| 0 <= j < fs.len() ==> fs[j].0@ != k,
        },
    ensures
        match r {
            Some(i) => fields_get(jview_fields(fs), k) == Some(jview(fs[i].1)),
            None => fields_get(jview_fields(fs), k) is None,
        },
{
    lemma_jview_fields_len(fs);
    let s = jview_fields(fs);
    match r {
        Some(i) => {
            assert forall|j: int| 0 <= j < i implies s[j].0 != k by {
                assert(s[j] == (fs[j].0@, jview(fs[j].1)));
            }
            assert(s[i] == (fs[i].0@, jview(fs[i].1)));
            lemma_fields_get_found(s, k, i);
        },
        None => {
            assert forall|j: int| 0 <= j < s.len() implies s[j].0 != k by {
                assert(s[j] == (fs[j].0@, jview(fs[j].1)));
            }
            lemma_fields_get_absent(s, k);
        },
    }
}

/// The first field named `k` of an object's field list.
pub fn field_get<'a>(d: &'a Vec<(String, Json)>, k: &str) -> (r: Option<&'a Json>)
    ensures
        opt_view(r) == fields_get(jview_fields(d@), k@),
{
    let r = find_key(d, k);
    match r {
        Some(i) => {
            proof {
                lemma_fields_get_view(d@, k@, Some(i as int));
            }
            Some(&d[i].1)
        },
        None => {
            proof {
                lemma_fields_get_view(d@, k@, None);
            }
            None
        },
    }
}

impl Json {
    /// Member `k` of an object (`serde_json`'s `v.as_object()?.get(k)`).
    pub fn get(&self, k: &str) -> (r: Option<&Json>)
        ensures
            opt_view(r) == get(self@, k@),
    {
        match self {
            Json::Obj(fs) => field_get(fs, k),
            _ => None,
        }
    }

    pub fn is_object(&self) -> (r: bool)
        ensures
            r == is_obj(self@),
    {
        match self {
            Json::Obj(_) => true,
            _ => false,
        }
    }

    pub fn is_array(&self) -> (r: bool)
        ensures
            r == (self@ is Arr),
    {
        match self {
            Json::Arr(_) => true,
            _ => false,
        }
    }

    pub fn is_null(&self) -> (r: bool)
        ensures
            r == (self@ is Null),
    {
        match self {
            Json::Null => true,
            _ => false,
        }
    }

    pub fn as_str(&self) -> (r: Option<&str>)
        ensures
            match r {
                Some(s) => as_str(self@) == Some(s@),
                None => as_str(self@) is None,
            },
    {
        match self {
            Json::Str(s) => Some(s.as_str()),
            _ => None,
        }
    }

    pub fn truthy(&self) -> (r: bool)
        ensures
            r == truthy(self@),
    {
        match self {
            Json::Null => false,
            Json::Bool(b) => *b,
            Json::Num(n) => !n.is_zero_exec(),
            Json::Str(s) => !s.as_str().is_empty(),
            _ => true,
        }
    }

    /// A copy of the value.
    pub fn deep_copy(&self) -> (r: Json)
        ensures
            r@ == self@,
        decreases self,
    {
        match self {
            Json::Null => Json::Null,
            Json::Bool(b) => Json::Bool(*b),
            Json::Num(n) => Json::Num(*n),
            Json::Str(s) => Json::Str(s.clone()),
            Json::Arr(v) => {
                let mut out: Vec<Json> = Vec::new();
                let mut i: usize = 0;
                while i < v.len()
                    invariant
                        i <= v.len(),
                        *self == Json::Arr(*v),
                        jview_seq(out@) == jview_seq(v@.take(i as int)),
                    decreases v.len() - i,
                {
                    proof {
                        assert(decreases_to!(*self => (*self)->Arr_0));
                    }
                    let c = v[i].deep_copy();
                    proof {
                        lemma_jview_seq_push(out@, c);
                        lemma_jview_seq_push(v@.take(i as int), v@[i as int]);
                        assert(v@.take(i as int).push(v@[i as int]) =~= v@.take(i + 1));
                    }
                    out.push(c);
                    i = i + 1;
                }
                assert(v@.take(v.len() as int) =~= v@);
                Json::Arr(out)
            },
            Json::Obj(v) => {
                let mut out: Vec<(String, Json)> = Vec::new();
                let mut i: usize = 0;
                while i < v.len()
                    invariant
                        i <= v.len(),
                        *self == Json::Obj(*v),
                        jview_fields(out@) == jview_fields(v@.take(i as int)),
                    decreases v.len() - i,
                {
                    proof {
                        assert(decreases_to!(*self => (*self)->Obj_0));
                        assert(decreases_to!(v@[i as int] => v@[i as int].1));
                    }
                    let c = v[i].1.deep_copy();
                    let k = v[i].0.clone();
                    proof {
                        lemma_jview_fields_push(out@, (k, c));
                        lemma_jview_fields_push(v@.take(i as int), v@[i as int]);
                        assert(v@.take(i as int).push(v@[i as int]) =~= v@.take(i + 1));
                    }
                    out.push((k, c));
                    i = i + 1;
                }
                assert(v@.take(v.len() as int) =~= v@);
                Json::Obj(out)
            },
        }
    }

    /// A string value.
    pub fn text(s: &str) -> (r: Json)
        ensures
            r@ == JsonV::Str(s@),
    {
        Json::Str(s.to_string())
    }
}

/// Sets field `k` of an object to `v` (in place where the key is present).
pub fn obj_set(fields: &mut Vec<(String, Json)>, k: &str, v: Json)
    ensures
        jview_fields(final(fields)@) == fields_put(jview_fields(old(fields)@), k@, v@),
{
    let ghost s0 = jview_fields(fields@);
    proof {
        lemma_jview_fields_len(fields@);
    }
    let r = find_key(fields, k);
    let key = k.to_string();
    match r {
        Some(i) => {
            fields.set(i, (key, v));
            proof {
                assert(s0[i as int] == (old(fields)@[i as int].0@, jview(old(fields)@[i as int].1)));
                assert(exists|j: int| 0 <= j < s0.len() && s0[j].0 == k@);
                let c = choose|j: int|
                    0 <= j < s0.len() && s0[j].0 == k@ && forall|m: int|
                        0 <= m < j ==> s0[m].0 != k@;
                assert(c == i as int) by {
                    if c < i {
                        assert(s0[c] == (old(fields)@[c].0@, jview(old(fields)@[c].1)));
                    } else if c > i {
                        assert(s0[i as int].0 == k@);
                    }
                }
                lemma_jview_fields_len(fields@);
                assert(jview_fields(fields@) =~= s0.update(i as int, (k@, v@)));
            }
        },
        None => {
            proof {
                lemma_jview_fields_push(fields@, (key, v));
                assert forall|j: int| 0 <= j < s0.len() implies s0[j].0 != k@ by {
                    assert(s0[j] == (fields@[j].0@, jview(fields@[j].1)));
                }
            }
            fields.push((key, v));
        },
    }
}

/// The first truthy member among `keys` (JavaScript `o.a || o.b`).
pub fn first_truthy_exec<'a>(o: Option<&'a Json>, keys: &[&str]) -> (r: Option<&'a Json>)
    ensures
        opt_view(r) == first_truthy(opt_view(o), keys@.map_values(|k: &str| k@)),
{
    let ghost ks = keys@.map_values(|k: &str| k@);
    assert(ks.skip(0) =~= ks);
    let mut i: usize = 0;
    while i < keys.len()
        invariant
            i <= keys.len(),
            ks == keys@.map_values(|k: &str| k@),
            first_truthy(opt_view(o), ks) == first_truthy(opt_view(o), ks.skip(i as int)),
        decreases keys.len() - i,
    {
        assert(ks.len() == keys.len());
        let ghost rest = ks.skip(i as int);
        assert(rest[0] == keys@[i as int]@);
        assert(rest.drop_first() =~= ks.skip(i + 1));
        let v = match o {
            Some(j) => j.get(keys[i]),
            None => None,
        };
        match v {
            Some(x) => {
                if x.truthy() {
                    return Some(x);
                }
            },
            None => {},
        }
        i = i + 1;
    }
    assert(ks.skip(keys.len() as int).len() == 0);
    None
}

/// The first member among `keys` holding a non-empty string.
pub fn first_text_exec<'a>(o: Option<&'a Json>, keys: &[&str]) -> (r: Option<&'a str>)
    ensures
        match r {
            Some(s) => first_text(opt_view(o), keys@.map_values(|k: &str| k@)) == Some(s@),
            None => first_text(opt_view(o), keys@.map_values(|k: &str| k@)) is None,
        },
{
    let ghost ks = keys@.map_values(|k: &str| k@);
    assert(ks.skip(0) =~= ks);
    let mut i: usize = 0;
    while i < keys.len()
        invariant
            i <= keys.len(),
            ks == keys@.map_values(|k: &str| k@),
            first_text(opt_view(o), ks) == first_text(opt_view(o), ks.skip(i as int)),
        decreases keys.len() - i,
    {
        assert(ks.len() == keys.len());
        let ghost rest = ks.skip(i as int);
        assert(rest[0] == keys@[i as int]@);
        assert(rest.drop_first() =~= ks.skip(i + 1));
        let v = match o {
            Some(j) => j.get(keys[i]),
            None => None,
        };
        match v {
            Some(x) => {
                match x.as_str() {
                    Some(s) => {
                        if !s.is_empty() {
                            return Some(s);
                        }
                    },
                    None => {},
                }
            },
            None => {},
        }
        i = i + 1;
    }
    assert(ks.skip(keys.len() as int).len() == 0);
    None
}

} // verus!
