//! Building the field lists of JSON objects.
use vstd::prelude::*;
use crate::json::{Json, JsonV, jview_fields, lemma_jview_fields_push};

verus! {

broadcast use vstd::string::group_string_axioms;

pub type Fields = Seq<(Seq<char>, JsonV)>;

/// A one-field list when the value is present, an empty list otherwise.
pub open spec fn opt_field(k: Seq<char>, v: Option<JsonV>) -> Fields {
    match v {
        Some(x) => seq![(k, x)],
        None => Seq::empty(),
    }
}

/// A one-field list holding a string when it is present.
pub open spec fn text_field(k: Seq<char>, v: Option<Seq<char>>) -> Fields {
    match v {
        Some(s) => seq![(k, JsonV::Str(s))],
        None => Seq::empty(),
    }
}

/// `{"kind": kind, "detail": {fields}}`.
pub open spec fn state_v(kind: Seq<char>, detail: Fields) -> JsonV {
    JsonV::Obj(seq![("kind"@, JsonV::Str(kind)), ("detail"@, JsonV::Obj(detail))])
}

pub fn push_field(v: &mut Vec<(String, Json)>, k: &str, x: Json)
    ensures
        jview_fields(final(v)@) == jview_fields(old(v)@) + seq![(k@, x@)],
{
    let key = k.to_string();
    proof {
        lemma_jview_fields_push(v@, (key, x));
        assert(jview_fields(v@).push((k@, x@)) =~= jview_fields(v@) + seq![(k@, x@)]);
    }
    v.push((key, x));
}

pub fn push_opt_text(v: &mut Vec<(String, Json)>, k: &str, x: Option<&str>)
    ensures
        jview_fields(final(v)@) == jview_fields(old(v)@) + text_field(
            k@,
            match x {
                Some(s) => Some(s@),
                None => None,
            },
        ),
{
    match x {
        Some(s) => push_field(v, k, Json::text(s)),
        None => {
            assert(jview_fields(v@) + Seq::<(Seq<char>, JsonV)>::empty() =~= jview_fields(v@));
        },
    }
}

pub fn push_opt_json(v: &mut Vec<(String, Json)>, k: &str, x: Option<Json>)
    ensures
        jview_fields(final(v)@) == jview_fields(old(v)@) + opt_field(
            k@,
            match x {
                Some(j) => Some(j@),
                None => None,
            },
        ),
{
    match x {
        Some(j) => push_field(v, k, j),
        None => {
            assert(jview_fields(v@) + Seq::<(Seq<char>, JsonV)>::empty() =~= jview_fields(v@));
        },
    }
}

/// `{"kind": kind, "detail": {detail}}`.
pub fn state_json(kind: &str, detail: Vec<(String, Json)>) -> (r: Json)
    ensures
        r@ == state_v(kind@, jview_fields(detail@)),
{
    let ghost dv = jview_fields(detail@);
    let mut top: Vec<(String, Json)> = Vec::new();
    proof {
        assert(jview_fields(top@) =~= Seq::<(Seq<char>, JsonV)>::empty());
    }
    push_field(&mut top, "kind", Json::text(kind));
    let d = Json::Obj(detail);
    assert(d@ == JsonV::Obj(dv));
    push_field(&mut top, "detail", d);
    assert(jview_fields(top@) =~= seq![("kind"@, JsonV::Str(kind@)), ("detail"@, JsonV::Obj(dv))]);
    let r = Json::Obj(top);
    assert(r@ == JsonV::Obj(jview_fields(top@)));
    r
}

} // verus!
