//! JSON values as the browser holds them: what requests carry as their
//! parameters and answers as their results.
use vstd::prelude::*;

verus! {

/// A JSON value as a JavaScript value. Numbers are kept as the text that
/// spells them. Named members come in two kinds: a plain object (`Object`,
/// what a Rust struct becomes), whose members are its properties, and a
/// `Map` (`JsMap`, what a Rust map or a `serde_json` object becomes), whose
/// members are entries and no properties.
#[derive(Debug)]
pub enum JsonValue {
    Null,
    Bool(bool),
    Number(String),
    String(String),
    Array(Vec<JsonValue>),
    Object(Vec<(String, JsonValue)>),
    JsMap(Vec<(String, JsonValue)>),
}

/// The mathematical form of a JSON value.
pub enum Json {
    Null,
    Bool(bool),
    Number(Seq<char>),
    Str(Seq<char>),
    Array(Seq<Json>),
    Object(Seq<Member>),
    JsMap(Seq<Member>),
}

/// A member of a JSON object: its name and its value.
pub struct Member {
    pub name: Seq<char>,
    pub value: Json,
}

impl View for JsonValue {
    type V = Json;

    open spec fn view(&self) -> Json
        decreases self,
    {
        match self {
            JsonValue::Null => Json::Null,
            JsonValue::Bool(b) => Json::Bool(*b),
            JsonValue::Number(n) => Json::Number(n@),
            JsonValue::String(s) => Json::Str(s@),
            JsonValue::Array(items) => Json::Array(
                Seq::new(
                    items.len() as nat,
                    |i: int| if 0 <= i < items.len() { items@[i].view() } else { Json::Null },
                ),
            ),
            JsonValue::Object(fields) => Json::Object(
                Seq::new(
                    fields.len() as nat,
                    |i: int|
                        if 0 <= i < fields.len() {
                            Member { name: fields@[i].0@, value: fields@[i].1.view() }
                        } else {
                            Member { name: Seq::empty(), value: Json::Null }
                        },
                ),
            ),
            JsonValue::JsMap(fields) => Json::JsMap(
                Seq::new(
                    fields.len() as nat,
                    |i: int|
                        if 0 <= i < fields.len() {
                            Member { name: fields@[i].0@, value: fields@[i].1.view() }
                        } else {
                            Member { name: Seq::empty(), value: Json::Null }
                        },
                ),
            ),
        }
    }
}

impl JsonValue {
    /// A copy of the value.
    #[verifier::loop_isolation(false)]
    pub fn deep_clone(&self) -> (r: JsonValue)
        ensures
            r@ == self@,
        decreases self,
    {
        match self {
            JsonValue::Null => JsonValue::Null,
            JsonValue::Bool(b) => JsonValue::Bool(*b),
            JsonValue::Number(n) => JsonValue::Number(n.clone()),
            JsonValue::String(t) => JsonValue::String(t.clone()),
            JsonValue::Array(items) => {
                let mut out: Vec<JsonValue> = Vec::new();
                for k in 0..items.len()
                    invariant
                        out.len() == k,
                        forall|i: int| 0 <= i < k ==> #[trigger] out@[i]@ == items@[i]@,
                {
                    proof {
                        assert(decreases_to!(self => items@[k as int]));
                    }
                    out.push(items[k].deep_clone());
                }
                let r = JsonValue::Array(out);
                proof {
                    let ra = match r@ {
                        Json::Array(a) => a,
                        _ => Seq::empty(),
                    };
                    let sa = match self@ {
                        Json::Array(a) => a,
                        _ => Seq::empty(),
                    };
                    assert(ra.len() == out.len());
                    assert(sa.len() == items.len());
                    assert forall|i: int| 0 <= i < ra.len() implies ra[i] == sa[i] by {
                        assert(out@[i]@ == items@[i]@);
                    }
                    assert(ra =~= sa);
                }
                r
            },
            JsonValue::Object(fields) => {
                let mut out: Vec<(String, JsonValue)> = Vec::new();
                for k in 0..fields.len()
                    invariant
                        out.len() == k,
                        forall|i: int|
                            0 <= i < k ==> #[trigger] out@[i].0@ == fields@[i].0@ && out@[i].1@
                                == fields@[i].1@,
                {
                    let key = fields[k].0.clone();
                    proof {
                        assert(decreases_to!(self => fields@[k as int].1));
                    }
                    let value = fields[k].1.deep_clone();
                    out.push((key, value));
                }
                let r = JsonValue::Object(out);
                proof {
                    let ra = match r@ {
                        Json::Object(a) => a,
                        _ => Seq::empty(),
                    };
                    let sa = match self@ {
                        Json::Object(a) => a,
                        _ => Seq::empty(),
                    };
                    assert(ra.len() == out.len());
                    assert(sa.len() == fields.len());
                    assert forall|i: int| 0 <= i < ra.len() implies ra[i] == sa[i] by {
                        assert(out@[i].0@ == fields@[i].0@);
                        assert(out@[i].1@ == fields@[i].1@);
                    }
                    assert(ra =~= sa);
                }
                r
            },
            JsonValue::JsMap(fields) => {
                let mut out: Vec<(String, JsonValue)> = Vec::new();
                for k in 0..fields.len()
                    invariant
                        out.len() == k,
                        forall|i: int|
                            0 <= i < k ==> #[trigger] out@[i].0@ == fields@[i].0@ && out@[i].1@
                                == fields@[i].1@,
                {
                    let key = fields[k].0.clone();
                    proof {
                        assert(decreases_to!(self => fields@[k as int].1));
                    }
                    let value = fields[k].1.deep_clone();
                    out.push((key, value));
                }
                let r = JsonValue::JsMap(out);
                proof {
                    let ra = match r@ {
                        Json::JsMap(a) => a,
                        _ => Seq::empty(),
                    };
                    let sa = match self@ {
                        Json::JsMap(a) => a,
                        _ => Seq::empty(),
                    };
                    assert(ra.len() == out.len());
                    assert(sa.len() == fields.len());
                    assert forall|i: int| 0 <= i < ra.len() implies ra[i] == sa[i] by {
                        assert(out@[i].0@ == fields@[i].0@);
                        assert(out@[i].1@ == fields@[i].1@);
                    }
                    assert(ra =~= sa);
                }
                r
            },
        }
    }
}

impl JsonValue {
    /// Whether the two values are the same JSON value.
    #[verifier::loop_isolation(false)]
    pub fn same_as(&self, other: &JsonValue) -> (r: bool)
        ensures
            r == (self@ == other@),
        decreases self,
    {
        match (self, other) {
            (JsonValue::Null, JsonValue::Null) => true,
            (JsonValue::Bool(a), JsonValue::Bool(b)) => *a == *b,
            (JsonValue::Number(a), JsonValue::Number(b)) => *a == *b,
            (JsonValue::String(a), JsonValue::String(b)) => *a == *b,
            (JsonValue::Array(a), JsonValue::Array(b)) => {
                let ghost sa = match self@ {
                    Json::Array(x) => x,
                    _ => Seq::empty(),
                };
                let ghost sb = match other@ {
                    Json::Array(x) => x,
                    _ => Seq::empty(),
                };
                if a.len() != b.len() {
                    assert(sa.len() != sb.len());
                    return false;
                }
                for k in 0..a.len()
                    invariant
                        forall|i: int| 0 <= i < k ==> #[trigger] sa[i] == sb[i],
                {
                    proof {
                        assert(decreases_to!(self => a@[k as int]));
                    }
                    if !a[k].same_as(&b[k]) {
                        assert(sa[k as int] != sb[k as int]);
                        return false;
                    }
                }
                assert(sa =~= sb);
                true
            },
            (JsonValue::Object(a), JsonValue::Object(b)) => {
                let ghost sa = match self@ {
                    Json::Object(x) => x,
                    _ => Seq::empty(),
                };
                let ghost sb = match other@ {
                    Json::Object(x) => x,
                    _ => Seq::empty(),
                };
                if a.len() != b.len() {
                    assert(sa.len() != sb.len());
                    return false;
                }
                for k in 0..a.len()
                    invariant
                        forall|i: int| 0 <= i < k ==> #[trigger] sa[i] == sb[i],
                {
                    proof {
                        assert(decreases_to!(self => a@[k as int].1));
                    }
                    if a[k].0 != b[k].0 {
                        assert(sa[k as int].name != sb[k as int].name);
                        return false;
                    }
                    if !a[k].1.same_as(&b[k].1) {
                        assert(sa[k as int].value != sb[k as int].value);
                        return false;
                    }
                }
                assert(sa =~= sb);
                true
            },
            (JsonValue::JsMap(a), JsonValue::JsMap(b)) => {
                let ghost sa = match self@ {
                    Json::JsMap(x) => x,
                    _ => Seq::empty(),
                };
                let ghost sb = match other@ {
                    Json::JsMap(x) => x,
                    _ => Seq::empty(),
                };
                if a.len() != b.len() {
                    assert(sa.len() != sb.len());
                    return false;
                }
                for k in 0..a.len()
                    invariant
                        forall|i: int| 0 <= i < k ==> #[trigger] sa[i] == sb[i],
                {
                    proof {
                        assert(decreases_to!(self => a@[k as int].1));
                    }
                    if a[k].0 != b[k].0 {
                        assert(sa[k as int].name != sb[k as int].name);
                        return false;
                    }
                    if !a[k].1.same_as(&b[k].1) {
                        assert(sa[k as int].value != sb[k as int].value);
                        return false;
                    }
                }
                assert(sa =~= sb);
                true
            },
            _ => false,
        }
    }
}

impl PartialEq for JsonValue {
    fn eq(&self, other: &Self) -> (r: bool) {
        self.same_as(other)
    }
}

impl vstd::std_specs::cmp::PartialEqSpecImpl for JsonValue {
    open spec fn obeys_eq_spec() -> bool {
        true
    }

    open spec fn eq_spec(&self, other: &Self) -> bool {
        self@ == other@
    }
}

impl Clone for JsonValue {
    fn clone(&self) -> (r: Self)
        ensures
            r@ == self@,
    {
        self.deep_clone()
    }
}

} // verus!
