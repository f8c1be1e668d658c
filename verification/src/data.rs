//! The data payload model: a JSON value held as plain values, so the
//! resolver, binder and table builder can be verified over it.
//!
//! Parsing the payload text is the work of serde_json and stands behind a
//! trusted wrapper; everything that reads the parsed value is verified.

use vstd::prelude::*;
use crate::error::ReportError;
use crate::params::ParamMap;

verus! {

broadcast use vstd::std_specs::vec::axiom_vec_index_decreases;

/// A JSON value, as the library models it.
///
/// A number carries both its canonical textual representation (as produced
/// by the JSON library's number formatting; no custom rounding) and, when it
/// is integral and fits, the integer itself.
#[derive(Debug)]
pub enum Json {
    Null,
    Bool(bool),
    Num { text: String, int_val: Option<i64> },
    Str(String),
    Arr(Vec<Json>),
    Obj(Vec<(String, Json)>),
}

/// The mathematical model of a `Json` value.
pub enum JsonV {
    Null,
    Bool(bool),
    Num { text: Seq<char>, int_val: Option<i64> },
    Str(Seq<char>),
    Arr(Seq<JsonV>),
    Obj(Seq<(Seq<char>, JsonV)>),
}

/// The model of one JSON value; arrays and objects are modelled recursively.
pub open spec fn json_view(j: Json) -> JsonV
    decreases j,
{
    match j {
        Json::Null => JsonV::Null,
        Json::Bool(b) => JsonV::Bool(b),
        Json::Num { text, int_val } => JsonV::Num { text: text@, int_val },
        Json::Str(s) => JsonV::Str(s@),
        Json::Arr(items) => JsonV::Arr(jsons_view(items@)),
        Json::Obj(entries) => JsonV::Obj(obj_view(entries@)),
    }
}

/// The model of a sequence of JSON values, in order.
pub open spec fn jsons_view(s: Seq<Json>) -> Seq<JsonV>
    decreases s,
{
    if s.len() == 0 {
        Seq::empty()
    } else {
        seq![json_view(s[0])] + jsons_view(s.drop_first())
    }
}

/// The model of an object's entries, in order.
pub open spec fn obj_view(s: Seq<(String, Json)>) -> Seq<(Seq<char>, JsonV)>
    decreases s,
{
    if s.len() == 0 {
        Seq::empty()
    } else {
        seq![(s[0].0@, json_view(s[0].1))] + obj_view(s.drop_first())
    }
}

/// `jsons_view` maps `json_view` over the sequence, element by element.
pub proof fn lemma_jsons_view(s: Seq<Json>)
    ensures
        jsons_view(s).len() == s.len(),
        forall|i: int| 0 <= i < s.len() ==> jsons_view(s)[i] == json_view(s[i]),
    decreases s.len(),
{
    if s.len() > 0 {
        lemma_jsons_view(s.drop_first());
    }
}

/// `obj_view` maps the pair model over the entries, element by element.
pub proof fn lemma_obj_view(s: Seq<(String, Json)>)
    ensures
        obj_view(s).len() == s.len(),
        forall|i: int| 0 <= i < s.len() ==> obj_view(s)[i] == (s[i].0@, json_view(s[i].1)),
    decreases s.len(),
{
    if s.len() > 0 {
        lemma_obj_view(s.drop_first());
    }
}

impl View for Json {
    type V = JsonV;

    open spec fn view(&self) -> JsonV {
        json_view(*self)
    }
}

impl DeepView for Json {
    type V = JsonV;

    open spec fn deep_view(&self) -> JsonV {
        self@
    }
}

/// `jsons_view` of a vector's contents is its deep view.
pub proof fn lemma_jsons_deep_view(v: Vec<Json>)
    ensures
        jsons_view(v@) == v.deep_view(),
{
    lemma_jsons_view(v@);
    assert(jsons_view(v@) =~= v.deep_view());
}

/// First value of the object entries `s` whose key is `key`, if any.
pub open spec fn spec_obj_get(s: Seq<(Seq<char>, JsonV)>, key: Seq<char>) -> Option<JsonV>
    decreases s.len(),
{
    if s.len() == 0 {
        None
    } else if s[0].0 == key {
        Some(s[0].1)
    } else {
        spec_obj_get(s.drop_first(), key)
    }
}

impl Json {
    /// Looks up `key` in an object value; `None` on any other kind of value.
    pub fn obj_get<'a>(&'a self, key: &str) -> (r: Option<&'a Json>)
        ensures
            match r {
                Some(v) => self@ matches JsonV::Obj(entries) && spec_obj_get(entries, key@)
                    == Some(v@),
                None => !(self@ matches JsonV::Obj(entries) && spec_obj_get(entries, key@)
                    is Some),
            },
    {
        match self {
            Json::Obj(entries) => {
                proof {
                    lemma_obj_view(entries@);
                    assert(obj_view(entries@).skip(0) =~= obj_view(entries@));
                    assert(self@ == JsonV::Obj(obj_view(entries@)));
                }
                let key_string = String::from_str(key);
                let n = entries.len();
                let mut i: usize = 0;
                while i < n
                    invariant
                        i <= n,
                        n == entries@.len(),
                        key_string@ == key@,
                        self@ == JsonV::Obj(obj_view(entries@)),
                        obj_view(entries@).len() == n,
                        forall|k: int| 0 <= k < n ==> obj_view(entries@)[k] == (
                            #[trigger] entries@[k].0@,
                            json_view(entries@[k].1),
                        ),
                        spec_obj_get(obj_view(entries@).skip(i as int), key@) == spec_obj_get(
                            obj_view(entries@),
                            key@,
                        ),
                    decreases n - i,
                {
                    proof {
                        assert(obj_view(entries@).skip(i as int)[0] == obj_view(entries@)[i as int]);
                        assert(obj_view(entries@).skip(i as int).drop_first() =~= obj_view(
                            entries@,
                        ).skip(i as int + 1));
                    }
                    if entries[i].0 == key_string {
                        proof {
                            assert(obj_view(entries@).skip(i as int)[0].0 == key@);
                            assert(spec_obj_get(obj_view(entries@).skip(i as int), key@) == Some(
                                obj_view(entries@)[i as int].1,
                            ));
                        }
                        return Some(&entries[i].1);
                    }
                    i = i + 1;
                }
                proof {
                    assert(obj_view(entries@).skip(n as int).len() == 0);
                }
                None
            },
            _ => None,
        }
    }
}

/// The display string a JSON value coerces to when it becomes a parameter:
/// a number's canonical text, a string as it is, and the empty string for
/// every other kind (bool, null, array, object).
pub open spec fn display_of(v: JsonV) -> Seq<char> {
    match v {
        JsonV::Num { text, int_val } => text,
        JsonV::Str(s) => s,
        _ => Seq::empty(),
    }
}

/// Coerces one JSON value to its display string.
pub fn display_string(v: &Json) -> (r: String)
    ensures
        r@ == display_of(v@),
{
    match v {
        Json::Num { text, int_val } => text.clone(),
        Json::Str(s) => s.clone(),
        _ => String::new(),
    }
}

/// The `params` object of the payload, if the payload is an object holding
/// one.
pub open spec fn spec_payload_params(d: JsonV) -> Option<Seq<(Seq<char>, JsonV)>> {
    match d {
        JsonV::Obj(entries) => match spec_obj_get(entries, "params"@) {
            Some(JsonV::Obj(p)) => Some(p),
            _ => None,
        },
        _ => None,
    }
}

/// The parameter entries the payload resolves to: every entry of the
/// `params` object, coerced to its display string, in object order.
pub open spec fn spec_resolved_params(p: Seq<(Seq<char>, JsonV)>) -> Seq<(Seq<char>, Seq<char>)> {
    p.map_values(|e: (Seq<char>, JsonV)| (e.0, display_of(e.1)))
}

/// Extracts the `params` object from the payload and coerces every value to
/// a display string. Fails with `MissingParams` when the payload is not an
/// object or has no `params` object.
pub fn resolve_params(data: &Json) -> (r: Result<ParamMap, ReportError>)
    ensures
        match r {
            Ok(pm) => spec_payload_params(data@) is Some && pm.entries.deep_view()
                == spec_resolved_params(spec_payload_params(data@)->Some_0),
            Err(e) => spec_payload_params(data@) is None && e is MissingParams,
        },
{
    let params_value = match data.obj_get("params") {
        Some(v) => v,
        None => {
            return Err(ReportError::MissingParams);
        },
    };
    match params_value {
        Json::Obj(entries) => {
            proof {
                lemma_obj_view(entries@);
            }
            let ghost p = obj_view(entries@);
            let n = entries.len();
            let mut out: Vec<(String, String)> = Vec::new();
            let mut i: usize = 0;
            while i < n
                invariant
                    i <= n,
                    n == entries@.len(),
                    p == obj_view(entries@),
                    p.len() == n,
                    forall|k: int| 0 <= k < n ==> p[k] == (
                        #[trigger] entries@[k].0@,
                        json_view(entries@[k].1),
                    ),
                    out.deep_view() =~= spec_resolved_params(p.take(i as int)),
                decreases n - i,
            {
                let key = entries[i].0.clone();
                let value = display_string(&entries[i].1);
                out.push((key, value));
                proof {
                    assert(p.take(i + 1).drop_last() =~= p.take(i as int));
                    assert(spec_resolved_params(p.take(i + 1)) =~= spec_resolved_params(
                        p.take(i as int),
                    ).push((p[i as int].0, display_of(p[i as int].1))));
                }
                i = i + 1;
            }
            proof {
                assert(p.take(n as int) =~= p);
            }
            Ok(ParamMap { entries: out })
        },
        _ => Err(ReportError::MissingParams),
    }
}

#[verifier::external_type_specification]
#[verifier::external_body]
pub struct ExJsonValue(serde_json::Value);

/// What parsing a payload text yields: `Some` of the model of the parsed
/// JSON value when the text is valid JSON, `None` when it is not. Parsing is
/// a pure function of the text alone.
pub uninterp spec fn json_parse_of(s: Seq<char>) -> Option<JsonV>;

/// Relies on `serde_json::from_str::<serde_json::Value>`: parsing succeeds
/// exactly on valid JSON text and is a pure function of the text;
/// `json_model` reads the parsed value into the library's model.
#[verifier::external_body]
fn parse_json_raw(text: &str) -> (r: Result<Json, String>)
    ensures
        match r {
            Ok(j) => json_parse_of(text@) == Some(j@),
            Err(_) => json_parse_of(text@) is None,
        },
{
    match serde_json::from_str::<serde_json::Value>(text) {
        Ok(v) => Ok(json_model(&v)),
        Err(e) => Err(e.to_string()),
    }
}

/// Conversion helper for `parse_json_raw`: reads a `serde_json::Value` into
/// the library's model, one variant to one variant. Relies on
/// `serde_json::Number::to_string` for the canonical text of a number and on
/// `Number::as_i64` for its integer value; object entries come in the
/// deterministic order of `serde_json::Map`.
#[verifier::external_body]
fn json_model(v: &serde_json::Value) -> Json {
    match v {
        serde_json::Value::Null => Json::Null,
        serde_json::Value::Bool(b) => Json::Bool(*b),
        serde_json::Value::Number(n) => Json::Num { text: n.to_string(), int_val: n.as_i64() },
        serde_json::Value::String(s) => Json::Str(s.clone()),
        serde_json::Value::Array(a) => Json::Arr(a.iter().map(json_model).collect()),
        serde_json::Value::Object(o) => Json::Obj(
            o.iter().map(|(k, x)| (k.clone(), json_model(x))).collect(),
        ),
    }
}

/// Parses the payload text into the library's JSON model. Returns
/// `DataSyntax` exactly when the text is not valid JSON.
pub fn parse_data(text: &str) -> (r: Result<Json, ReportError>)
    ensures
        match r {
            Ok(j) => json_parse_of(text@) == Some(j@),
            Err(e) => json_parse_of(text@) is None && e is DataSyntax,
        },
{
    match parse_json_raw(text) {
        Ok(j) => Ok(j),
        Err(m) => Err(ReportError::DataSyntax(m)),
    }
}

/// The data rows of the payload: `None` when the payload is an object with
/// no `rows` entry (zero data rows), the array when `rows` is an array.
pub open spec fn spec_payload_rows(d: JsonV) -> Option<Seq<JsonV>> {
    match d {
        JsonV::Obj(entries) => match spec_obj_get(entries, "rows"@) {
            Some(JsonV::Arr(rows)) => Some(rows),
            _ => None,
        },
        _ => None,
    }
}

/// Whether the payload holds a `rows` entry that is not an array.
pub open spec fn spec_rows_malformed(d: JsonV) -> bool {
    match d {
        JsonV::Obj(entries) => match spec_obj_get(entries, "rows"@) {
            Some(v) => !(v is Arr),
            None => false,
        },
        _ => false,
    }
}

/// Extracts the data rows from the payload. A payload without `rows` has
/// zero data rows; a `rows` entry that is not an array is rejected.
pub fn payload_rows<'a>(data: &'a Json) -> (r: Result<Option<&'a Vec<Json>>, ReportError>)
    ensures
        match r {
            Ok(Some(rows)) => spec_payload_rows(data@) == Some(jsons_view(rows@)),
            Ok(None) => spec_payload_rows(data@) is None && !spec_rows_malformed(data@),
            Err(e) => spec_rows_malformed(data@) && e is RowsNotArray,
        },
{
    match data.obj_get("rows") {
        Some(v) => match v {
            Json::Arr(rows) => Ok(Some(rows)),
            _ => Err(ReportError::RowsNotArray),
        },
        None => Ok(None),
    }
}

} // verus!
