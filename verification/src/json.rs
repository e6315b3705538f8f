//! JSON values, as the stream and REST payloads carry them.
use crate::text::str_eq;
use vstd::prelude::*;

verus! {

/// A JSON number: its value as an `i64` and as a `u64` where it is one, and the
/// text that formatting its `f64` value with `{}` gives.
#[derive(Debug)]
pub struct JsonNumber {
    pub as_i64: Option<i64>,
    pub as_u64: Option<u64>,
    pub float_text: String,
}

/// A JSON value.  Object members keep their order; a key occurs at most once.
#[derive(Debug)]
pub enum Json {
    Null,
    Bool(bool),
    Number(JsonNumber),
    String(String),
    Array(Vec<Json>),
    Object(Vec<(String, Json)>),
}

/// The mathematical model of a JSON value.
pub enum JsonView {
    Null,
    Bool(bool),
    Number { as_i64: Option<i64>, as_u64: Option<u64>, float_text: Seq<char> },
    Str(Seq<char>),
    Array(Seq<JsonView>),
    Object(Seq<(Seq<char>, JsonView)>),
}

/// The model of `j`.
pub open spec fn json_view(j: Json) -> JsonView
    decreases j,
{
    match j {
        Json::Null => JsonView::Null,
        Json::Bool(b) => JsonView::Bool(b),
        Json::Number(n) => JsonView::Number {
            as_i64: n.as_i64,
            as_u64: n.as_u64,
            float_text: n.float_text@,
        },
        Json::String(s) => JsonView::Str(s@),
        Json::Array(v) => JsonView::Array(
            Seq::new(
                v.len() as nat,
                |i: int|
                    if 0 <= i < v.len() {
                        json_view(v[i])
                    } else {
                        JsonView::Null
                    },
            ),
        ),
        Json::Object(v) => JsonView::Object(
            Seq::new(
                v.len() as nat,
                |i: int|
                    if 0 <= i < v.len() {
                        (v[i].0@, json_view(v[i].1))
                    } else {
                        (Seq::empty(), JsonView::Null)
                    },
            ),
        ),
    }
}

impl View for Json {
    type V = JsonView;

    open spec fn view(&self) -> JsonView {
        json_view(*self)
    }
}

/// Index of the first member named `key`.
pub open spec fn member_index(members: Seq<(Seq<char>, JsonView)>, key: Seq<char>) -> Option<int> {
    if exists|i: int| 0 <= i < members.len() && #[trigger] members[i].0 == key {
        Some(
            choose|i: int|
                0 <= i < members.len() && members[i].0 == key && forall|j: int|
                    0 <= j < i ==> #[trigger] members[j].0 != key,
        )
    } else {
        None
    }
}

/// `value.get(key)`: the member named `key` of an object.
pub open spec fn json_get(v: JsonView, key: Seq<char>) -> Option<JsonView> {
    match v {
        JsonView::Object(members) => match member_index(members, key) {
            Some(i) => Some(members[i].1),
            None => None,
        },
        _ => None,
    }
}

/// `value.as_str()`.
pub open spec fn json_str(v: JsonView) -> Option<Seq<char>> {
    match v {
        JsonView::Str(s) => Some(s),
        _ => None,
    }
}

/// `value.as_i64()`.
pub open spec fn json_i64(v: JsonView) -> Option<i64> {
    match v {
        JsonView::Number { as_i64, .. } => as_i64,
        _ => None,
    }
}

/// `value.as_u64()`.
pub open spec fn json_u64(v: JsonView) -> Option<u64> {
    match v {
        JsonView::Number { as_u64, .. } => as_u64,
        _ => None,
    }
}

/// `value.as_bool()`.
pub open spec fn json_bool(v: JsonView) -> Option<bool> {
    match v {
        JsonView::Bool(b) => Some(b),
        _ => None,
    }
}

/// The `{}` text of `value.as_f64()`, which every number has.
pub open spec fn json_float_text(v: JsonView) -> Option<Seq<char>> {
    match v {
        JsonView::Number { float_text, .. } => Some(float_text),
        _ => None,
    }
}

/// `get` on an optional value: `None` stays `None`.
pub open spec fn opt_get(v: Option<JsonView>, key: Seq<char>) -> Option<JsonView> {
    match v {
        Some(x) => json_get(x, key),
        None => None,
    }
}

impl Clone for JsonNumber {
    fn clone(&self) -> (r: Self)
        ensures
            r == *self,
    {
        JsonNumber { as_i64: self.as_i64, as_u64: self.as_u64, float_text: self.float_text.clone() }
    }
}

impl Json {
    /// The member named `key`, for an object.
    pub fn get(&self, key: &str) -> (r: Option<&Json>)
        ensures
            match json_get(self@, key@) {
                Some(v) => r is Some && r->0@ == v,
                None => r is None,
            },
    {
        match self {
            Json::Object(members) => {
                let ghost mv = match self@ {
                    JsonView::Object(m) => m,
                    _ => Seq::empty(),
                };
                assert(mv.len() == members.len());
                assert(forall|k: int| 0 <= k < members.len() ==> #[trigger] mv[k] == (members@[k].0@, members@[k].1@));
                let mut i: usize = 0;
                while i < members.len()
                    invariant
                        i <= members.len(),
                        mv.len() == members.len(),
                        self@ == JsonView::Object(mv),
                        forall|k: int| 0 <= k < members.len() ==> #[trigger] mv[k] == (members@[k].0@, members@[k].1@),
                        forall|j: int| 0 <= j < i ==> #[trigger] mv[j].0 != key@,
                    decreases members.len() - i,
                {
                    if str_eq(members[i].0.as_str(), key) {
                        proof {
                            assert(mv[i as int].0 == key@);
                            assert(exists|j: int| 0 <= j < mv.len() && #[trigger] mv[j].0 == key@);
                            let k = member_index(mv, key@)->0;
                            if k < i {
                                assert(mv[k].0 != key@);
                            }
                            if k > i {
                                assert(mv[i as int].0 != key@);
                            }
                        }
                        return Some(&members[i].1);
                    }
                    i = i + 1;
                }
                None
            },
            _ => None,
        }
    }

    pub fn as_str(&self) -> (r: Option<&str>)
        ensures
            match json_str(self@) {
                Some(s) => r is Some && r->0@ == s,
                None => r is None,
            },
    {
        match self {
            Json::String(s) => Some(s.as_str()),
            _ => None,
        }
    }

    pub fn as_i64(&self) -> (r: Option<i64>)
        ensures
            r == json_i64(self@),
    {
        match self {
            Json::Number(n) => n.as_i64,
            _ => None,
        }
    }

    pub fn as_u64(&self) -> (r: Option<u64>)
        ensures
            r == json_u64(self@),
    {
        match self {
            Json::Number(n) => n.as_u64,
            _ => None,
        }
    }

    pub fn as_bool(&self) -> (r: Option<bool>)
        ensures
            r == json_bool(self@),
    {
        match self {
            Json::Bool(b) => Some(*b),
            _ => None,
        }
    }

    /// The `{}` text of the value as an `f64`, for a number.
    pub fn float_text(&self) -> (r: Option<&str>)
        ensures
            match json_float_text(self@) {
                Some(s) => r is Some && r->0@ == s,
                None => r is None,
            },
    {
        match self {
            Json::Number(n) => Some(n.float_text.as_str()),
            _ => None,
        }
    }

    /// A deep copy.
    pub fn deep_clone(&self) -> (r: Json)
        ensures
            r@ == self@,
        decreases *self,
    {
        match self {
            Json::Null => Json::Null,
            Json::Bool(b) => Json::Bool(*b),
            Json::Number(n) => {
                let r = Json::Number(n.clone());
                assert(r@ == self@);
                r
            },
            Json::String(s) => {
                let r = Json::String(s.clone());
                assert(r@ == self@);
                r
            },
            Json::Array(items) => {
                let ghost whole = *self;
                let mut out: Vec<Json> = Vec::new();
                let mut i: usize = 0;
                while i < items.len()
                    invariant
                        whole == *self,
                        whole == Json::Array(*items),
                        i <= items.len(),
                        out.len() == i,
                        forall|k: int| 0 <= k < i ==> (#[trigger] out@[k])@ == items@[k]@,
                    decreases items.len() - i,
                {
                    proof {
                        assert(decreases_to!(whole => whole->Array_0));
                        assert(decreases_to!(whole->Array_0 => whole->Array_0[i as int]));
                    }
                    let c = items[i].deep_clone();
                    out.push(c);
                    i = i + 1;
                }
                let r = Json::Array(out);
                proof {
                    let ra = r@->Array_0;
                    let sa = self@->Array_0;
                    assert(ra.len() == sa.len());
                    assert forall|k: int| 0 <= k < ra.len() implies ra[k] == sa[k] by {
                        assert(ra[k] == out@[k]@);
                        assert(sa[k] == items@[k]@);
                    }
                    assert(ra =~= sa);
                }
                r
            },
            Json::Object(members) => {
                let ghost whole = *self;
                let mut out: Vec<(String, Json)> = Vec::new();
                let mut i: usize = 0;
                while i < members.len()
                    invariant
                        whole == *self,
                        whole == Json::Object(*members),
                        i <= members.len(),
                        out.len() == i,
                        forall|k: int|
                            0 <= k < i ==> (#[trigger] out@[k]).0@ == members@[k].0@ && out@[k].1@
                                == members@[k].1@,
                    decreases members.len() - i,
                {
                    proof {
                        assert(decreases_to!(whole => whole->Object_0));
                        assert(decreases_to!(whole->Object_0 => whole->Object_0[i as int]));
                        assert(decreases_to!(whole->Object_0[i as int] => whole->Object_0[i as int].1));
                    }
                    let c = members[i].1.deep_clone();
                    let k = members[i].0.clone();
                    out.push((k, c));
                    i = i + 1;
                }
                let r = Json::Object(out);
                proof {
                    let ra = r@->Object_0;
                    let sa = self@->Object_0;
                    assert(ra.len() == sa.len());
                    assert forall|k: int| 0 <= k < ra.len() implies ra[k] == sa[k] by {
                        assert(ra[k] == (out@[k].0@, out@[k].1@));
                        assert(sa[k] == (members@[k].0@, members@[k].1@));
                    }
                    assert(ra =~= sa);
                }
                r
            },
        }
    }
}

impl Clone for Json {
    fn clone(&self) -> (r: Self)
        ensures
            r@ == self@,
    {
        self.deep_clone()
    }
}

} // verus!
