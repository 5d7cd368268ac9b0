//! The injected EIP-1193 provider: the requests it is sent and what its
//! answers become.
use vstd::prelude::*;
use crate::json::{Json, JsonValue, Member};

verus! {

/// The provider that a browser extension injects at `window.ethereum`.
/// It holds nothing: the page object is looked up whenever it is needed.
#[derive(Debug, Clone, Copy)]
pub struct Eip1193 {}

impl Eip1193 {
    /// The injected provider.
    pub fn new() -> (r: Self)
        ensures
            r == (Eip1193 {  }),
    {
        Eip1193 {  }
    }
}

/// The name of the member that holds a transaction's type.
pub open spec fn type_member_name() -> Seq<char> {
    seq!['t', 'y', 'p', 'e']
}

/// The short spelling of a transaction type that some wallets insist on:
/// `0x01`, `0x02` and `0x03` become `0x1`, `0x2` and `0x3`; other texts
/// have none.
pub open spec fn short_tx_type(t: Seq<char>) -> Option<Seq<char>> {
    if t == seq!['0', 'x', '0', '1'] {
        Some(seq!['0', 'x', '1'])
    } else if t == seq!['0', 'x', '0', '2'] {
        Some(seq!['0', 'x', '2'])
    } else if t == seq!['0', 'x', '0', '3'] {
        Some(seq!['0', 'x', '3'])
    } else {
        None
    }
}

/// A property of a plain object as it is sent: the `type` property, where
/// its text has a short spelling, gets that spelling; every other property
/// stays.
pub open spec fn normalize_member(m: Member) -> Member {
    if m.name == type_member_name() && m.value is Str && short_tx_type(m.value->Str_0) is Some {
        Member { name: m.name, value: Json::Str(short_tx_type(m.value->Str_0).unwrap()) }
    } else {
        m
    }
}

/// An item of the parameter list as it is sent: a plain object has its
/// properties normalised by [`normalize_member`]; anything else, a `Map`
/// and an array among them (their members are no properties), is sent as
/// it is.
pub open spec fn normalize_param(v: Json) -> Json {
    match v {
        Json::Object(members) => Json::Object(members.map_values(|m: Member| normalize_member(m))),
        _ => v,
    }
}

/// The parameter list that a value turns into on its way to the provider,
/// what `Array.from` makes of the JavaScript value: `null` gives none; an
/// array gives its items, each normalised by [`normalize_param`]; a string
/// gives its characters, each a one-letter string; a `Map` gives its
/// members, each as the pair `[name, value]`; a plain object, a boolean or
/// a number gives none.
pub open spec fn params_array(v: Json) -> Seq<Json> {
    match v {
        Json::Null => Seq::empty(),
        Json::Array(items) => items.map_values(|x: Json| normalize_param(x)),
        Json::Str(s) => s.map_values(|c: char| Json::Str(seq![c])),
        Json::JsMap(members) => members.map_values(
            |m: Member| Json::Array(seq![Json::Str(m.name), m.value]),
        ),
        _ => Seq::empty(),
    }
}

/// The parameters sent to the provider for the JSON-RPC parameters `p`: a
/// string is sent as it is (some calls take a single object, which arrives
/// as its JSON text); anything else as the list [`params_array`].
pub open spec fn request_params(p: Json) -> Json {
    if p is Str {
        p
    } else {
        Json::Array(params_array(p))
    }
}

/// The parameters of a JSON-RPC request; absent parameters are `null`.
pub open spec fn rpc_params(params: Option<JsonValue>) -> Json {
    match params {
        Some(p) => p@,
        None => Json::Null,
    }
}

fn text_equals(a: &str, b: &str) -> (r: bool)
    ensures
        r == (a@ == b@),
{
    let n = a.unicode_len();
    if n != b.unicode_len() {
        return false;
    }
    let mut i: usize = 0;
    while i < n
        invariant
            n == a@.len(),
            n == b@.len(),
            i <= n,
            forall|j: int| 0 <= j < i ==> a@[j] == b@[j],
        decreases n - i,
    {
        if a.get_char(i) != b.get_char(i) {
            return false;
        }
        i = i + 1;
    }
    assert(a@ =~= b@);
    true
}

fn short_type_text(t: &str) -> (r: Option<String>)
    ensures
        match short_tx_type(t@) {
            Some(u) => r matches Some(s) && s@ == u,
            None => r is None,
        },
{
    proof {
        reveal_strlit("0x01");
        reveal_strlit("0x02");
        reveal_strlit("0x03");
        reveal_strlit("0x1");
        reveal_strlit("0x2");
        reveal_strlit("0x3");
        assert("0x01"@ =~= seq!['0', 'x', '0', '1']);
        assert("0x02"@ =~= seq!['0', 'x', '0', '2']);
        assert("0x03"@ =~= seq!['0', 'x', '0', '3']);
        assert("0x1"@ =~= seq!['0', 'x', '1']);
        assert("0x2"@ =~= seq!['0', 'x', '2']);
        assert("0x3"@ =~= seq!['0', 'x', '3']);
    }
    if text_equals(t, "0x01") {
        Some("0x1".to_owned())
    } else if text_equals(t, "0x02") {
        Some("0x2".to_owned())
    } else if text_equals(t, "0x03") {
        Some("0x3".to_owned())
    } else {
        None
    }
}

fn normalize_param_value(v: &JsonValue) -> (r: JsonValue)
    ensures
        r@ == normalize_param(v@),
{
    match v {
        JsonValue::Object(fields) => {
            let ghost members = match v@ {
                Json::Object(ms) => ms,
                _ => Seq::empty(),
            };
            let mut out: Vec<(String, JsonValue)> = Vec::new();
            for k in 0..fields.len()
                invariant
                    members.len() == fields.len(),
                    forall|i: int|
                        0 <= i < members.len() ==> #[trigger] members[i] == (Member {
                            name: fields@[i].0@,
                            value: fields@[i].1@,
                        }),
                    out.len() == k,
                    forall|i: int|
                        0 <= i < k ==> #[trigger] normalize_member(members[i]) == (Member {
                            name: out@[i].0@,
                            value: out@[i].1@,
                        }),
            {
                let name = fields[k].0.clone();
                let mut value = fields[k].1.clone();
                proof {
                    reveal_strlit("type");
                    assert("type"@ =~= type_member_name());
                }
                if text_equals(name.as_str(), "type") {
                    if let JsonValue::String(t) = &fields[k].1 {
                        if let Some(u) = short_type_text(t.as_str()) {
                            value = JsonValue::String(u);
                        }
                    }
                }
                out.push((name, value));
            }
            let r = JsonValue::Object(out);
            proof {
                let ra = match r@ {
                    Json::Object(x) => x,
                    _ => Seq::empty(),
                };
                let want = members.map_values(|m: Member| normalize_member(m));
                assert(ra.len() == want.len());
                assert forall|i: int| 0 <= i < ra.len() implies ra[i] == want[i] by {
                    assert(normalize_member(members[i]) == (Member {
                        name: out@[i].0@,
                        value: out@[i].1@,
                    }));
                }
                assert(ra =~= want);
            }
            r
        },
        _ => v.clone(),
    }
}

/// The parameter list of `params` (see [`params_array`]): what the provider
/// receives for JSON-RPC parameters that are not a string.
pub fn parse_params(params: JsonValue) -> (r: Vec<JsonValue>)
    ensures
        r.len() == params_array(params@).len(),
        forall|i: int| 0 <= i < r.len() ==> #[trigger] r[i]@ == params_array(params@)[i],
{
    let mut out: Vec<JsonValue> = Vec::new();
    match &params {
        JsonValue::Array(items) => {
            let ghost elems = match params@ {
                Json::Array(x) => x,
                _ => Seq::empty(),
            };
            assert(elems.len() == items.len());
            for k in 0..items.len()
                invariant
                    elems.len() == items.len(),
                    forall|i: int| 0 <= i < elems.len() ==> #[trigger] elems[i] == items@[i]@,
                    out.len() == k,
                    forall|i: int|
                        0 <= i < k ==> #[trigger] out@[i]@ == normalize_param(elems[i]),
            {
                out.push(normalize_param_value(&items[k]));
            }
        },
        JsonValue::JsMap(fields) => {
            let ghost members = match params@ {
                Json::JsMap(x) => x,
                _ => Seq::empty(),
            };
            assert(members.len() == fields.len());
            for k in 0..fields.len()
                invariant
                    members.len() == fields.len(),
                    forall|i: int|
                        0 <= i < members.len() ==> #[trigger] members[i] == (Member {
                            name: fields@[i].0@,
                            value: fields@[i].1@,
                        }),
                    out.len() == k,
                    forall|i: int|
                        0 <= i < k ==> #[trigger] out@[i]@ == Json::Array(
                            seq![Json::Str(members[i].name), members[i].value],
                        ),
            {
                let mut pair: Vec<JsonValue> = Vec::new();
                pair.push(JsonValue::String(fields[k].0.clone()));
                pair.push(fields[k].1.clone());
                let ghost p0 = pair@[0];
                let ghost p1 = pair@[1];
                let item = JsonValue::Array(pair);
                proof {
                    let got = match item@ {
                        Json::Array(x) => x,
                        _ => Seq::empty(),
                    };
                    assert(members[k as int] == (Member {
                        name: fields@[k as int].0@,
                        value: fields@[k as int].1@,
                    }));
                    assert(got.len() == 2);
                    assert(got[0] == p0@);
                    assert(got[1] == p1@);
                    assert(got =~= seq![Json::Str(members[k as int].name), members[k as int].value]);
                }
                out.push(item);
            }
        },
        JsonValue::String(s) => {
            let t = s.as_str();
            let n = t.unicode_len();
            for k in 0..n
                invariant
                    n == t@.len(),
                    t@ == s@,
                    out.len() == k,
                    forall|i: int|
                        0 <= i < k ==> #[trigger] out@[i]@ == Json::Str(seq![t@[i]]),
            {
                let c = t.substring_char(k, k + 1).to_owned();
                assert(c@ =~= seq![t@[k as int]]);
                out.push(JsonValue::String(c));
            }
        },
        _ => {},
    }
    out
}

/// A request for the injected provider: the method and its parameters.
#[derive(Debug, Clone)]
pub struct Eip1193Request {
    method: String,
    params: JsonValue,
}

impl View for Eip1193Request {
    type V = (Seq<char>, Json);

    closed spec fn view(&self) -> (Seq<char>, Json) {
        (self.method@, self.params@)
    }
}

impl Eip1193Request {
    /// The request for `method` with the parameters `params` as given.
    pub fn new(method: String, params: JsonValue) -> (r: Eip1193Request)
        ensures
            r@ == (method@, params@),
    {
        Eip1193Request { method, params }
    }

    /// The method.
    pub fn method(&self) -> (r: String)
        ensures
            r@ == self@.0,
    {
        self.method.clone()
    }

    /// The parameters.
    pub fn params(&self) -> (r: JsonValue)
        ensures
            r@ == self@.1,
    {
        self.params.clone()
    }

    /// The request that the provider is sent for a JSON-RPC call of
    /// `method` with the parameters `params` (see [`request_params`]).
    pub fn for_rpc(method: String, params: Option<JsonValue>) -> (r: Eip1193Request)
        ensures
            r@ == (method@, request_params(rpc_params(params))),
    {
        let params_in = match params {
            Some(p) => p,
            None => JsonValue::Null,
        };
        match params_in {
            JsonValue::String(s) => Eip1193Request::new(method, JsonValue::String(s)),
            other => {
                assert(rpc_params(params) == other@);
                assert(!(other@ is Str));
                let ghost expected = params_array(other@);
                let items = parse_params(other);
                let ghost want = request_params(rpc_params(params));
                let r = Eip1193Request::new(method, JsonValue::Array(items));
                proof {
                    let got = match r@.1 {
                        Json::Array(x) => x,
                        _ => Seq::empty(),
                    };
                    let wanted = match want {
                        Json::Array(x) => x,
                        _ => Seq::empty(),
                    };
                    assert(wanted == expected);
                    assert(got.len() == items.len());
                    assert forall|i: int| 0 <= i < got.len() implies got[i] == wanted[i] by {
                        assert(items@[i]@ == expected[i]);
                    }
                    assert(got =~= wanted);
                }
                r
            },
        }
    }
}

/// The text of the error that a refused request is answered with.
pub open spec fn refused_message() -> Seq<char> {
    "need to parse JsValue into this"@
}

/// The code of the error that a refused request is answered with.
pub open spec fn refused_code() -> i64 {
    666
}

/// The error part of a refused request's answer.
#[derive(Debug, Clone)]
pub struct ErrorPayload {
    pub code: i64,
    pub message: String,
    pub data: Option<JsonValue>,
}

/// The answer to a JSON-RPC request.
#[derive(Debug, Clone)]
pub enum ResponsePayload {
    /// The request succeeded with this result.
    Success(JsonValue),
    /// The request failed.
    Failure(ErrorPayload),
}

/// The answer to a request whose provider call settled with `answer`: its
/// value on success; on failure an error with code 666, a fixed message,
/// and the value that the provider threw as its data.
pub fn response_payload(answer: Result<JsonValue, JsonValue>) -> (r: ResponsePayload)
    ensures
        match answer {
            Ok(v) => r matches ResponsePayload::Success(w) && w@ == v@,
            Err(e) => r matches ResponsePayload::Failure(p) && p.code == refused_code()
                && p.message@ == refused_message() && (p.data matches Some(d) && d@ == e@),
        },
{
    match answer {
        Ok(v) => ResponsePayload::Success(v),
        Err(e) => ResponsePayload::Failure(
            ErrorPayload {
                code: 666,
                message: "need to parse JsValue into this".to_owned(),
                data: Some(e),
            },
        ),
    }
}

/// The answer to a batch, from the answers to its requests in order: all
/// the results where every request succeeded, else the first error.
pub fn join_responses<T, E>(results: Vec<Result<T, E>>) -> (r: Result<Vec<T>, E>)
    ensures
        r is Ok <==> forall|i: int| 0 <= i < results.len() ==> #[trigger] results[i] is Ok,
        r matches Ok(v) ==> v.len() == results.len() && forall|i: int|
            0 <= i < results.len() ==> #[trigger] results[i] == Ok::<T, E>(v[i]),
        r matches Err(e) ==> exists|k: int|
            0 <= k < results.len() && results[k] == Err::<T, E>(e) && forall|i: int|
                0 <= i < k ==> #[trigger] results[i] is Ok,
{
    let ghost all = results@;
    let mut out: Vec<T> = Vec::new();
    for x in it: results.into_iter()
        invariant
            it.seq() == all,
            out.len() == it.index(),
            forall|i: int| 0 <= i < it.index() ==> #[trigger] all[i] == Ok::<T, E>(out[i]),
    {
        match x {
            Ok(v) => out.push(v),
            Err(e) => {
                assert(all[it.index() as int] == Err::<T, E>(e));
                return Err(e);
            },
        }
    }
    Ok(out)
}

proof fn lemma_normalize_member_idempotent(m: Member)
    ensures
        normalize_member(normalize_member(m)) == normalize_member(m),
{
    if m.name == type_member_name() && m.value is Str && short_tx_type(m.value->Str_0) is Some {
        let u = short_tx_type(m.value->Str_0).unwrap();
        assert(u.len() == 3);
        assert(short_tx_type(u) is None);
    }
}

proof fn lemma_normalize_param_idempotent(v: Json)
    ensures
        normalize_param(normalize_param(v)) == normalize_param(v),
{
    if let Json::Object(members) = v {
        let once = members.map_values(|m: Member| normalize_member(m));
        let twice = once.map_values(|m: Member| normalize_member(m));
        assert forall|i: int| 0 <= i < twice.len() implies twice[i] == once[i] by {
            lemma_normalize_member_idempotent(members[i]);
        }
        assert(twice =~= once);
    }
}

/// Normalising parameters a second time changes nothing: a list that the
/// provider was sent is sent unchanged when it is sent again.
pub proof fn lemma_params_array_idempotent(v: Json)
    ensures
        params_array(Json::Array(params_array(v))) == params_array(v),
{
    let once = params_array(v);
    let twice = params_array(Json::Array(once));
    assert forall|i: int| 0 <= i < twice.len() implies twice[i] == once[i] by {
        match v {
            Json::Array(items) => {
                lemma_normalize_param_idempotent(items[i]);
            },
            _ => {},
        }
    }
    assert(twice =~= once);
}

/// The provider is always sent a list of parameters, except for parameters
/// that are a string, which it is sent unchanged.
pub proof fn lemma_request_params_shape(p: Json)
    ensures
        request_params(p) is Str || request_params(p) is Array,
        p is Str ==> request_params(p) == p,
{
}

/// How a plain object reaches the provider, whatever its number of
/// properties: the same properties in the same order, each with its value,
/// except a property named `type` whose text is `0x01`, `0x02` or `0x03`,
/// which is sent as `0x1`, `0x2` or `0x3`.
pub proof fn lemma_plain_object_sent(ms: Seq<Member>)
    ensures
        normalize_param(Json::Object(ms)) is Object,
        ({
            let out = normalize_param(Json::Object(ms))->Object_0;
            &&& out.len() == ms.len()
            &&& forall|i: int|
                0 <= i < ms.len() ==> {
                    &&& (#[trigger] out[i]).name == ms[i].name
                    &&& if ms[i].name == seq!['t', 'y', 'p', 'e'] && ms[i].value == Json::Str(
                        seq!['0', 'x', '0', '1'],
                    ) {
                        out[i].value == Json::Str(seq!['0', 'x', '1'])
                    } else if ms[i].name == seq!['t', 'y', 'p', 'e'] && ms[i].value == Json::Str(
                        seq!['0', 'x', '0', '2'],
                    ) {
                        out[i].value == Json::Str(seq!['0', 'x', '2'])
                    } else if ms[i].name == seq!['t', 'y', 'p', 'e'] && ms[i].value == Json::Str(
                        seq!['0', 'x', '0', '3'],
                    ) {
                        out[i].value == Json::Str(seq!['0', 'x', '3'])
                    } else {
                        out[i].value == ms[i].value
                    }
                }
        }),
{
}

/// A parameter that is no plain object (a `Map`, an array, a string, a
/// number, a boolean, `null`) reaches the provider as it is.
pub proof fn lemma_other_params_sent_as_given(v: Json)
    requires
        !(v is Object),
    ensures
        normalize_param(v) == v,
{
}

/// A list of parameters reaches the provider item for item: as many items,
/// in the same order, each sent as [`lemma_plain_object_sent`] and
/// [`lemma_other_params_sent_as_given`] say.
pub proof fn lemma_list_params_sent(items: Seq<Json>)
    ensures
        params_array(Json::Array(items)).len() == items.len(),
        forall|i: int|
            0 <= i < items.len() ==> #[trigger] params_array(Json::Array(items))[i]
                == normalize_param(items[i]),
        forall|i: int|
            0 <= i < items.len() && !(items[i] is Object) ==> #[trigger] params_array(
                Json::Array(items),
            )[i] == items[i],
{
}

/// The request for parameters that are no string holds exactly the list
/// that they give; for a list of `n` parameters, `n` parameters, each in
/// its place.
pub proof fn lemma_request_params_list(p: Json, items: Seq<Json>)
    ensures
        !(p is Str) ==> request_params(p) == Json::Array(params_array(p)),
        request_params(Json::Array(items)) is Array,
        request_params(Json::Array(items))->Array_0.len() == items.len(),
        forall|i: int|
            0 <= i < items.len() ==> #[trigger] request_params(Json::Array(items))->Array_0[i]
                == normalize_param(items[i]),
        request_params(Json::Null) == Json::Array(Seq::empty()),
{
}

} // verus!
