//! JSON values.
//!
//! [`Json`] is the library's own value type; `serde_json` reads and writes the
//! text form. Contracts speak of a [`JsonView`], in which the members of an
//! object are a map and an integer is an integer whatever its width.

use vstd::prelude::*;

use crate::text;

verus! {

/// `serde_json::Number`: an integer that fits `u64` or `i64`, or a finite real.
#[verifier::external_type_specification]
#[verifier::external_body]
pub struct ExNumber(serde_json::Number);

/// `serde_json::Value`: a JSON value of `serde_json`.
#[verifier::external_type_specification]
#[verifier::external_body]
pub struct ExValue(serde_json::Value);

/// The integer that a `serde_json::Number` holds; none for a real number.
pub uninterp spec fn number_int(n: serde_json::Number) -> Option<int>;

/// What a `serde_json::Value` holds.
pub uninterp spec fn json_value(v: serde_json::Value) -> JsonView;

/// A number of JSON.
pub enum NumView {
    /// An integer.
    Int(int),
    /// A real number, held as `serde_json` holds it.
    Real(serde_json::Number),
}

/// A JSON value as mathematics sees it.
pub enum JsonView {
    Null,
    Bool(bool),
    Num(NumView),
    Str(Seq<char>),
    Array(Seq<JsonView>),
    Object(Map<Seq<char>, JsonView>),
}

/// What a number says.
pub open spec fn num_view(n: serde_json::Number) -> NumView {
    match number_int(n) {
        Some(i) => NumView::Int(i),
        None => NumView::Real(n),
    }
}

/// A JSON value.
#[derive(Debug)]
pub enum Json {
    Null,
    Bool(bool),
    Num(serde_json::Number),
    Str(String),
    Array(Vec<Json>),
    /// The members in order; of two with one name the later counts.
    Object(Vec<(String, Json)>),
}

impl View for Json {
    type V = JsonView;

    open spec fn view(&self) -> JsonView {
        json_view(*self)
    }
}

/// What a value says.
pub open spec fn json_view(j: Json) -> JsonView
    decreases j, 0nat,
{
    match j {
        Json::Null => JsonView::Null,
        Json::Bool(b) => JsonView::Bool(b),
        Json::Num(n) => JsonView::Num(num_view(n)),
        Json::Str(s) => JsonView::Str(s@),
        Json::Array(v) => JsonView::Array(items_view(v@, v@.len())),
        Json::Object(m) => JsonView::Object(members_view(m@, m@.len())),
    }
}

/// What the first `k` items say.
pub open spec fn items_view(v: Seq<Json>, k: nat) -> Seq<JsonView>
    decreases v, k,
{
    if k == 0 || k > v.len() {
        Seq::empty()
    } else {
        items_view(v, (k - 1) as nat).push(json_view(v[k - 1]))
    }
}

/// What the first `k` members say, the later of two with one name.
pub open spec fn members_view(m: Seq<(String, Json)>, k: nat) -> Map<Seq<char>, JsonView>
    decreases m, k,
{
    if k == 0 || k > m.len() {
        Map::empty()
    } else {
        members_view(m, (k - 1) as nat).insert(m[k - 1].0@, json_view(m[k - 1].1))
    }
}

// ---- The types of serde_json --------------------------------------------

/// One layer of a `serde_json::Value`.
pub enum Shape {
    Null,
    Bool(bool),
    Num(serde_json::Number),
    Str(String),
    Array(Vec<serde_json::Value>),
    Object(Vec<(String, serde_json::Value)>),
}

/// What the first `k` members of one layer say.
pub open spec fn layer_members(m: Seq<(String, serde_json::Value)>, k: nat) -> Map<
    Seq<char>,
    JsonView,
>
    decreases k,
{
    if k == 0 || k > m.len() {
        Map::empty()
    } else {
        layer_members(m, (k - 1) as nat).insert(m[k - 1].0@, json_value(m[k - 1].1))
    }
}

/// What one layer says.
pub open spec fn shape_view(s: Shape) -> JsonView {
    match s {
        Shape::Null => JsonView::Null,
        Shape::Bool(b) => JsonView::Bool(b),
        Shape::Num(n) => JsonView::Num(num_view(n)),
        Shape::Str(t) => JsonView::Str(t@),
        Shape::Array(v) => JsonView::Array(v@.map_values(|x: serde_json::Value| json_value(x))),
        Shape::Object(m) => JsonView::Object(layer_members(m@, m@.len())),
    }
}

/// No two members of a layer have one name.
pub open spec fn names_differ(s: Shape) -> bool {
    match s {
        Shape::Object(m) => forall|i: int, j: int|
            0 <= i < j < m@.len() ==> (#[trigger] m@[i]).0@ != (#[trigger] m@[j]).0@,
        _ => true,
    }
}

/// Takes the variants of `serde_json::Value` apart, one layer deep. The layer
/// says what the value says, and an object's names differ.
#[verifier::external_body]
fn open_value(v: serde_json::Value) -> (r: Shape)
    ensures
        shape_view(r) == json_value(v),
        names_differ(r),
{
    match v {
        serde_json::Value::Null => Shape::Null,
        serde_json::Value::Bool(b) => Shape::Bool(b),
        serde_json::Value::Number(n) => Shape::Num(n),
        serde_json::Value::String(t) => Shape::Str(t),
        serde_json::Value::Array(a) => Shape::Array(a),
        serde_json::Value::Object(m) => Shape::Object(m.into_iter().collect()),
    }
}

/// Builds the variant of `serde_json::Value` for one layer. Of two members
/// with one name the later stays.
#[verifier::external_body]
fn close_value(s: Shape) -> (r: serde_json::Value)
    ensures
        json_value(r) == shape_view(s),
{
    match s {
        Shape::Null => serde_json::Value::Null,
        Shape::Bool(b) => serde_json::Value::Bool(b),
        Shape::Num(n) => serde_json::Value::Number(n),
        Shape::Str(t) => serde_json::Value::String(t),
        Shape::Array(a) => serde_json::Value::Array(a),
        Shape::Object(m) => serde_json::Value::Object(m.into_iter().collect()),
    }
}

/// `Number::as_u64`: the integer when it is not negative and fits `u64`.
#[verifier::external_body]
fn number_u64(n: &serde_json::Number) -> (r: Option<u64>)
    ensures
        match r {
            Some(u) => number_int(*n) == Some(u as int),
            None => !(number_int(*n) is Some && 0 <= number_int(*n)->0 <= u64::MAX),
        },
{
    n.as_u64()
}

/// `Number::as_i64`: the integer when it fits `i64`.
#[verifier::external_body]
fn number_i64(n: &serde_json::Number) -> (r: Option<i64>)
    ensures
        match r {
            Some(u) => number_int(*n) == Some(u as int),
            None => !(number_int(*n) is Some && i64::MIN <= number_int(*n)->0 <= i64::MAX),
        },
{
    n.as_i64()
}

/// `Number::from(u64)`: the number that holds this integer.
#[verifier::external_body]
fn number_from_u64(u: u64) -> (r: serde_json::Number)
    ensures
        number_int(r) == Some(u as int),
{
    serde_json::Number::from(u)
}

/// `Number::from(i64)`: the number that holds this integer.
#[verifier::external_body]
fn number_from_i64(i: i64) -> (r: serde_json::Number)
    ensures
        number_int(r) == Some(i as int),
{
    serde_json::Number::from(i)
}

/// `Number::clone` gives the same number.
pub assume_specification[ <serde_json::Number as Clone>::clone ](
    n: &serde_json::Number,
) -> (r: serde_json::Number)
    ensures
        r == *n,
;

/// What `serde_json::from_str::<serde_json::Value>` makes of a text: the value,
/// or the message of the error.
pub uninterp spec fn json_parse(s: Seq<char>) -> Result<JsonView, Seq<char>>;

/// What `<serde_json::Value as ToString>::to_string` makes of a value: its
/// compact text.
pub uninterp spec fn json_text(v: JsonView) -> Seq<char>;

/// Whether a value is a text, a truth value, null, or an integer that
/// `serde_json::Number` can hold.
pub open spec fn simple(v: JsonView) -> bool {
    match v {
        JsonView::Null => true,
        JsonView::Bool(_) => true,
        JsonView::Str(_) => true,
        JsonView::Num(NumView::Int(i)) => i64::MIN <= i <= u64::MAX,
        _ => false,
    }
}

/// Whether a name is one that `serde_json` keeps for itself: an object with such a
/// member first stands for a number or for a text to be read.
pub open spec fn reserved(name: Seq<char>) -> bool {
    name == "$serde_json::private::RawValue"@ || name == "$serde_json::private::Number"@
}

/// Whether a value is an object whose members are simple, under names that are not
/// reserved.
pub open spec fn plain(v: JsonView) -> bool {
    match v {
        JsonView::Object(m) => m.dom().finite() && forall|name: Seq<char>|
            m.dom().contains(name) ==> simple(#[trigger] m[name]) && !reserved(name),
        _ => false,
    }
}

/// `serde_json::from_str::<serde_json::Value>`; the result is a function of the
/// text alone. An error is handed on as its message. The text of an object with
/// simple members, none of them under a name that `serde_json` keeps for itself, is
/// read back as that object; nothing is said of lists, real numbers and objects in
/// objects, of which some are not: real numbers may lose their last digit, and the
/// reader stops at a depth.
#[verifier::external_body]
fn parse_value(s: &str) -> (r: Result<serde_json::Value, String>)
    ensures
        match r {
            Ok(v) => json_parse(s@) == Ok::<JsonView, Seq<char>>(json_value(v)),
            Err(e) => json_parse(s@) == Err::<JsonView, Seq<char>>(e@),
        },
        forall|v: JsonView|
            plain(v) && s@ == #[trigger] json_text(v) ==> r is Ok && json_value(r->Ok_0) == v,
{
    serde_json::from_str::<serde_json::Value>(s).map_err(|e| e.to_string())
}

/// What `serde_json::from_slice::<serde_json::Value>` makes of bytes: the value,
/// or the message of the error.
pub uninterp spec fn json_parse_bytes(b: Seq<u8>) -> Result<JsonView, Seq<char>>;

/// `serde_json::from_slice::<serde_json::Value>`; the result is a function of
/// the bytes alone. An error is handed on as its message.
#[verifier::external_body]
fn parse_value_bytes(b: &[u8]) -> (r: Result<serde_json::Value, String>)
    ensures
        match r {
            Ok(v) => json_parse_bytes(b@) == Ok::<JsonView, Seq<char>>(json_value(v)),
            Err(e) => json_parse_bytes(b@) == Err::<JsonView, Seq<char>>(e@),
        },
{
    serde_json::from_slice::<serde_json::Value>(b).map_err(|e| e.to_string())
}

/// `<serde_json::Value as ToString>::to_string`; the text is a function of what
/// the value holds, since the members are written in the order of their names.
#[verifier::external_body]
fn value_text(v: &serde_json::Value) -> (r: String)
    ensures
        r@ == json_text(json_value(*v)),
{
    v.to_string()
}

// ---- Conversion ---------------------------------------------------------

/// A member of a layer whose names differ is a member of its map.
proof fn lemma_layer_has(m: Seq<(String, serde_json::Value)>, k: nat, i: int)
    requires
        0 <= i < k <= m.len(),
        forall|i: int, j: int|
            0 <= i < j < m.len() ==> (#[trigger] m[i]).0@ != (#[trigger] m[j]).0@,
    ensures
        layer_members(m, k).dom().contains(m[i].0@),
        layer_members(m, k)[m[i].0@] == json_value(m[i].1),
    decreases k,
{
    if i < k - 1 {
        lemma_layer_has(m, (k - 1) as nat, i);
    }
}

proof fn lemma_layer_finite(m: Seq<(String, serde_json::Value)>, k: nat)
    ensures
        layer_members(m, k).dom().finite(),
    decreases k,
{
    if k > 0 && k <= m.len() {
        lemma_layer_finite(m, (k - 1) as nat);
    }
}

/// The library's value for one of `serde_json`.
pub fn from_value(v: serde_json::Value) -> (r: Json)
    ensures
        r@ == json_value(v),
    decreases json_value(v),
{
    let ghost whole = json_value(v);
    match open_value(v) {
        Shape::Null => Json::Null,
        Shape::Bool(b) => Json::Bool(b),
        Shape::Num(n) => Json::Num(n),
        Shape::Str(t) => Json::Str(t),
        Shape::Array(list) => {
            let ghost all = list@;
            let mut out: Vec<Json> = Vec::new();
            for head in it: list
                invariant
                    whole == JsonView::Array(
                        all.map_values(|x: serde_json::Value| json_value(x)),
                    ),
                    whole == json_value(v),
                    it.seq() == all,
                    out@.len() == it.index(),
                    items_view(out@, out@.len()) == all.map_values(
                        |x: serde_json::Value| json_value(x),
                    ).take(it.index()),
            {
                let ghost k = out@.len();
                proof {
                    let s = whole->Array_0;
                    assert(decreases_to!(whole => s));
                    assert(decreases_to!(s => s[k as int]));
                    assert(s[k as int] == json_value(head));
                }
                let j = from_value(head);
                let ghost before = out@;
                out.push(j);
                proof {
                    lemma_items_prefix(before, out@, k);
                }
            }
            assert(all.map_values(|x: serde_json::Value| json_value(x)).take(all.len() as int)
                == all.map_values(|x: serde_json::Value| json_value(x)));
            Json::Array(out)
        },
        Shape::Object(list) => {
            let ghost all = list@;
            let mut out: Vec<(String, Json)> = Vec::new();
            for member in it: list
                invariant
                    whole == JsonView::Object(layer_members(all, all.len())),
                    whole == json_value(v),
                    it.seq() == all,
                    out@.len() == it.index(),
                    forall|i: int, j: int|
                        0 <= i < j < all.len() ==> (#[trigger] all[i]).0@ != (
                        #[trigger] all[j]).0@,
                    members_view(out@, out@.len()) == layer_members(all, out@.len()),
            {
                let ghost k = out@.len();
                let (name, head) = member;
                proof {
                    let m = whole->Object_0;
                    lemma_layer_has(all, all.len(), k as int);
                    lemma_layer_finite(all, all.len());
                    assert(decreases_to!(whole => m));
                    assert(decreases_to!(m => m[name@]));
                    assert(m[name@] == json_value(head));
                }
                let j = from_value(head);
                let ghost before = out@;
                out.push((name, j));
                proof {
                    lemma_members_prefix(before, out@, k);
                }
            }
            Json::Object(out)
        },
    }
}

/// Only the first `k` items count for what they say.
pub proof fn lemma_items_prefix(a: Seq<Json>, b: Seq<Json>, k: nat)
    requires
        k <= a.len(),
        k <= b.len(),
        forall|i: int| 0 <= i < k ==> a[i] == b[i],
    ensures
        items_view(a, k) == items_view(b, k),
    decreases k,
{
    if k > 0 {
        lemma_items_prefix(a, b, (k - 1) as nat);
        assert(a[k - 1] == b[k - 1]);
    }
}

/// Only the first `k` members count for what they say.
pub proof fn lemma_members_prefix(a: Seq<(String, Json)>, b: Seq<(String, Json)>, k: nat)
    requires
        k <= a.len(),
        k <= b.len(),
        forall|i: int| 0 <= i < k ==> a[i] == b[i],
    ensures
        members_view(a, k) == members_view(b, k),
    decreases k,
{
    if k > 0 {
        lemma_members_prefix(a, b, (k - 1) as nat);
        assert(a[k - 1] == b[k - 1]);
    }
}

/// The items' views, one by one.
pub proof fn lemma_items(v: Seq<Json>, k: nat)
    requires
        k <= v.len(),
    ensures
        items_view(v, k).len() == k,
        forall|i: int| 0 <= i < k ==> #[trigger] items_view(v, k)[i] == v[i]@,
    decreases k,
{
    if k > 0 {
        lemma_items(v, (k - 1) as nat);
    }
}

/// The value of `serde_json` for one of the library's.
pub fn to_value(j: &Json) -> (r: serde_json::Value)
    ensures
        json_value(r) == j@,
    decreases *j,
{
    match j {
        Json::Null => close_value(Shape::Null),
        Json::Bool(b) => close_value(Shape::Bool(*b)),
        Json::Num(n) => close_value(Shape::Num(n.clone())),
        Json::Str(t) => close_value(Shape::Str(t.clone())),
        Json::Array(v) => {
            let mut out: Vec<serde_json::Value> = Vec::new();
            let mut i: usize = 0;
            while i < v.len()
                invariant
                    i <= v.len(),
                    *j == Json::Array(*v),
                    out@.len() == i,
                    out@.map_values(|x: serde_json::Value| json_value(x)) == items_view(
                        v@,
                        i as nat,
                    ),
                decreases v.len() - i,
            {
                assert(decreases_to!(*j => j->Array_0));
                assert(decreases_to!(v@ => v@[i as int]));
                let item = to_value(&v[i]);
                let ghost before = out@;
                out.push(item);
                assert(out@.map_values(|x: serde_json::Value| json_value(x)) == before.map_values(
                    |x: serde_json::Value| json_value(x),
                ).push(json_value(item)));
                i += 1;
            }
            close_value(Shape::Array(out))
        },
        Json::Object(m) => {
            let mut out: Vec<(String, serde_json::Value)> = Vec::new();
            let mut i: usize = 0;
            while i < m.len()
                invariant
                    i <= m.len(),
                    *j == Json::Object(*m),
                    out@.len() == i,
                    layer_members(out@, i as nat) == members_view(m@, i as nat),
                decreases m.len() - i,
            {
                assert(decreases_to!(*j => j->Object_0));
                assert(decreases_to!(m@ => m@[i as int]));
                let item = to_value(&m[i].1);
                let ghost before = out@;
                out.push((m[i].0.clone(), item));
                proof {
                    lemma_layer_prefix(before, out@, i as nat);
                }
                i += 1;
            }
            close_value(Shape::Object(out))
        },
    }
}

/// Only the first `k` members of a layer count for what they say.
proof fn lemma_layer_prefix(
    a: Seq<(String, serde_json::Value)>,
    b: Seq<(String, serde_json::Value)>,
    k: nat,
)
    requires
        k <= a.len(),
        k <= b.len(),
        forall|i: int| 0 <= i < k ==> a[i] == b[i],
    ensures
        layer_members(a, k) == layer_members(b, k),
    decreases k,
{
    if k > 0 {
        lemma_layer_prefix(a, b, (k - 1) as nat);
        assert(a[k - 1] == b[k - 1]);
    }
}

/// The value that a text holds, or the reader's message. What `render` makes of
/// an object with simple members under names that are not reserved is read back as
/// that object.
pub fn parse(s: &str) -> (r: Result<Json, String>)
    ensures
        match r {
            Ok(j) => json_parse(s@) == Ok::<JsonView, Seq<char>>(j@),
            Err(e) => json_parse(s@) == Err::<JsonView, Seq<char>>(e@),
        },
        forall|v: JsonView|
            plain(v) && s@ == #[trigger] json_text(v) ==> r is Ok && r->Ok_0@ == v,
{
    match parse_value(s) {
        Ok(v) => Ok(from_value(v)),
        Err(e) => Err(e),
    }
}

/// The value that bytes hold, or the reader's message.
pub fn parse_bytes(b: &[u8]) -> (r: Result<Json, String>)
    ensures
        match r {
            Ok(j) => json_parse_bytes(b@) == Ok::<JsonView, Seq<char>>(j@),
            Err(e) => json_parse_bytes(b@) == Err::<JsonView, Seq<char>>(e@),
        },
{
    match parse_value_bytes(b) {
        Ok(v) => Ok(from_value(v)),
        Err(e) => Err(e),
    }
}

/// The compact text of a value.
pub fn render(j: &Json) -> (r: String)
    ensures
        r@ == json_text(j@),
{
    let v = to_value(j);
    value_text(&v)
}

// ---- Access -------------------------------------------------------------

/// The member `name`, when `v` is an object that has one.
pub open spec fn field(v: JsonView, name: Seq<char>) -> Option<JsonView> {
    match v {
        JsonView::Object(m) => if m.dom().contains(name) {
            Some(m[name])
        } else {
            None
        },
        _ => None,
    }
}

/// The text, when `v` is a string.
pub open spec fn str_of(v: Option<JsonView>) -> Option<Seq<char>> {
    match v {
        Some(JsonView::Str(s)) => Some(s),
        _ => None,
    }
}

/// The integer in `lo..=hi` that `v` is.
pub open spec fn int_of(v: Option<JsonView>, lo: int, hi: int) -> Option<int> {
    match v {
        Some(JsonView::Num(NumView::Int(i))) => if lo <= i <= hi {
            Some(i)
        } else {
            None
        },
        _ => None,
    }
}

/// The truth value that `v` is.
pub open spec fn bool_of(v: Option<JsonView>) -> Option<bool> {
    match v {
        Some(JsonView::Bool(b)) => Some(b),
        _ => None,
    }
}

/// The items, when `v` is an array.
pub open spec fn items_of(v: Option<JsonView>) -> Option<Seq<JsonView>> {
    match v {
        Some(JsonView::Array(a)) => Some(a),
        _ => None,
    }
}

/// The view of an optional borrowed value.
pub open spec fn opt_view(o: Option<&Json>) -> Option<JsonView> {
    match o {
        Some(j) => Some(j@),
        None => None,
    }
}

impl Json {
    /// The member `name`, when this is an object that has one.
    pub fn get(&self, name: &str) -> (r: Option<&Json>)
        ensures
            opt_view(r) == field(self@, name@),
            r is Some ==> decreases_to!(*self => *r->0),
    {
        match self {
            Json::Object(m) => {
                let mut i: usize = m.len();
                while i > 0
                    invariant
                        i <= m.len(),
                        members_view(m@, m@.len()).dom().contains(name@) == members_view(
                            m@,
                            i as nat,
                        ).dom().contains(name@),
                        members_view(m@, i as nat).dom().contains(name@) ==> members_view(
                            m@,
                            m@.len(),
                        )[name@] == members_view(m@, i as nat)[name@],
                        *self == Json::Object(*m),
                    decreases i,
                {
                    if text::same(m[i - 1].0.as_str(), name) {
                        assert(decreases_to!(*self => m@[i - 1]));
                        return Some(&m[i - 1].1);
                    }
                    i -= 1;
                }
                None
            },
            _ => None,
        }
    }

    /// The text, when this is a string.
    pub fn as_str(&self) -> (r: Option<&str>)
        ensures
            match r {
                Some(s) => str_of(Some(self@)) == Some(s@),
                None => str_of(Some(self@)) is None,
            },
    {
        match self {
            Json::Str(s) => Some(s.as_str()),
            _ => None,
        }
    }

    /// The number, when this is an integer that fits `u64`.
    pub fn as_u64(&self) -> (r: Option<u64>)
        ensures
            match r {
                Some(u) => int_of(Some(self@), 0, u64::MAX as int) == Some(u as int),
                None => int_of(Some(self@), 0, u64::MAX as int) is None,
            },
    {
        match self {
            Json::Num(n) => number_u64(n),
            _ => None,
        }
    }

    /// The number, when this is an integer that fits `i64`.
    pub fn as_i64(&self) -> (r: Option<i64>)
        ensures
            match r {
                Some(u) => int_of(Some(self@), i64::MIN as int, i64::MAX as int) == Some(u as int),
                None => int_of(Some(self@), i64::MIN as int, i64::MAX as int) is None,
            },
    {
        match self {
            Json::Num(n) => number_i64(n),
            _ => None,
        }
    }

    /// The truth value, when this is one.
    pub fn as_bool(&self) -> (r: Option<bool>)
        ensures
            r == bool_of(Some(self@)),
    {
        match self {
            Json::Bool(b) => Some(*b),
            _ => None,
        }
    }

    /// Whether this is an object.
    pub fn is_object(&self) -> (r: bool)
        ensures
            r == (self@ is Object),
    {
        matches!(self, Json::Object(_))
    }

    /// The items, when this is an array.
    pub fn as_array(&self) -> (r: Option<&Vec<Json>>)
        ensures
            match r {
                Some(v) => self@ == JsonView::Array(items_view(v@, v@.len())),
                None => !(self@ is Array),
            },
    {
        match self {
            Json::Array(v) => Some(v),
            _ => None,
        }
    }

    /// A copy.
    pub fn copy(&self) -> (r: Json)
        ensures
            r@ == self@,
        decreases *self,
    {
        match self {
            Json::Null => Json::Null,
            Json::Bool(b) => Json::Bool(*b),
            Json::Num(n) => Json::Num(n.clone()),
            Json::Str(t) => Json::Str(t.clone()),
            Json::Array(v) => {
                let mut out: Vec<Json> = Vec::new();
                let mut i: usize = 0;
                while i < v.len()
                    invariant
                        i <= v.len(),
                        *self == Json::Array(*v),
                        out@.len() == i,
                        items_view(out@, i as nat) == items_view(v@, i as nat),
                    decreases v.len() - i,
                {
                    let ghost before = out@;
                    assert(decreases_to!(*self => self->Array_0));
                    assert(decreases_to!(v@ => v@[i as int]));
                    let item = v[i].copy();
                    out.push(item);
                    proof {
                        lemma_items_prefix(before, out@, i as nat);
                    }
                    i += 1;
                }
                Json::Array(out)
            },
            Json::Object(m) => {
                let mut out: Vec<(String, Json)> = Vec::new();
                let mut i: usize = 0;
                while i < m.len()
                    invariant
                        i <= m.len(),
                        *self == Json::Object(*m),
                        out@.len() == i,
                        members_view(out@, i as nat) == members_view(m@, i as nat),
                    decreases m.len() - i,
                {
                    let ghost before = out@;
                    assert(decreases_to!(*self => self->Object_0));
                    assert(decreases_to!(m@ => m@[i as int]));
                    let item = m[i].1.copy();
                    out.push((m[i].0.clone(), item));
                    proof {
                        lemma_members_prefix(before, out@, i as nat);
                    }
                    i += 1;
                }
                Json::Object(out)
            },
        }
    }

    /// Give an object the member `name`; any other value stays as it is.
    pub fn set(&mut self, name: &str, value: Json)
        ensures
            final(self)@ == match old(self)@ {
                JsonView::Object(m) => JsonView::Object(m.insert(name@, value@)),
                other => other,
            },
    {
        match self {
            Json::Object(m) => {
                let ghost before = m@;
                m.push((text::own(name), value));
                proof {
                    lemma_members_prefix(before, m@, before.len());
                }
            },
            _ => {},
        }
    }

    /// An object without members.
    pub fn object() -> (r: Json)
        ensures
            r@ == JsonView::Object(Map::<Seq<char>, JsonView>::empty()),
    {
        Json::Object(Vec::new())
    }

    /// A string.
    pub fn text(s: &str) -> (r: Json)
        ensures
            r@ == JsonView::Str(s@),
    {
        Json::Str(text::own(s))
    }

    /// A list of one string.
    pub fn text_list(s: &str) -> (r: Json)
        ensures
            r@ == JsonView::Array(seq![JsonView::Str(s@)]),
    {
        let item = Json::text(s);
        let v: Vec<Json> = vec![item];
        assert(items_view(v@, 1) == seq![JsonView::Str(s@)]) by {
            reveal_with_fuel(items_view, 2);
        }
        Json::Array(v)
    }

    /// A natural number.
    pub fn uint(n: u64) -> (r: Json)
        ensures
            r@ == JsonView::Num(NumView::Int(n as int)),
    {
        Json::Num(number_from_u64(n))
    }

    /// An integer.
    pub fn signed(n: i64) -> (r: Json)
        ensures
            r@ == JsonView::Num(NumView::Int(n as int)),
    {
        Json::Num(number_from_i64(n))
    }
}

// ---- Lists inside objects -----------------------------------------------

/// `v` with `item` at the end of its list `name`; unchanged when it has no such
/// list.
pub open spec fn pushed(v: JsonView, name: Seq<char>, item: JsonView) -> JsonView {
    match v {
        JsonView::Object(m) => match field(v, name) {
            Some(JsonView::Array(a)) => JsonView::Object(
                m.insert(name, JsonView::Array(a.push(item))),
            ),
            _ => v,
        },
        _ => v,
    }
}

/// To change the last member of a name is to change it in the map.
proof fn lemma_members_update(
    a: Seq<(String, Json)>,
    b: Seq<(String, Json)>,
    at: int,
    k: nat,
)
    requires
        0 <= at < k <= a.len(),
        b.len() == a.len(),
        b[at].0@ == a[at].0@,
        forall|i: int| 0 <= i < a.len() && i != at ==> #[trigger] b[i] == a[i],
        forall|i: int| at < i < a.len() ==> (#[trigger] a[i]).0@ != a[at].0@,
    ensures
        members_view(b, k) == members_view(a, k).insert(a[at].0@, json_view(b[at].1)),
    decreases k,
{
    if k - 1 == at {
        lemma_members_prefix(a, b, (k - 1) as nat);
        assert(members_view(b, k) =~= members_view(a, k).insert(a[at].0@, json_view(b[at].1)));
    } else {
        lemma_members_update(a, b, at, (k - 1) as nat);
        assert(b[k - 1] == a[k - 1]);
        assert(members_view(b, k) =~= members_view(a, k).insert(a[at].0@, json_view(b[at].1)));
    }
}

/// Where the last member called `name` stands.
fn last_member(m: &Vec<(String, Json)>, name: &str) -> (r: Option<usize>)
    ensures
        match r {
            Some(i) => i < m@.len() && m@[i as int].0@ == name@ && forall|j: int|
                i < j < m@.len() ==> (#[trigger] m@[j]).0@ != name@,
            None => forall|j: int| 0 <= j < m@.len() ==> (#[trigger] m@[j]).0@ != name@,
        },
{
    let mut i: usize = m.len();
    while i > 0
        invariant
            i <= m@.len(),
            forall|j: int| i <= j < m@.len() ==> (#[trigger] m@[j]).0@ != name@,
        decreases i,
    {
        i -= 1;
        if text::same(m[i].0.as_str(), name) {
            return Some(i);
        }
    }
    None
}

/// The map has a name only when a member has it.
proof fn lemma_members_none(m: Seq<(String, Json)>, name: Seq<char>, k: nat)
    requires
        k <= m.len(),
        forall|j: int| 0 <= j < m.len() ==> (#[trigger] m[j]).0@ != name,
    ensures
        !members_view(m, k).dom().contains(name),
    decreases k,
{
    if k > 0 {
        lemma_members_none(m, name, (k - 1) as nat);
    }
}

/// The last member of a name is what the map holds.
proof fn lemma_members_last(m: Seq<(String, Json)>, at: int, k: nat)
    requires
        0 <= at < k <= m.len(),
        forall|i: int| at < i < m.len() ==> (#[trigger] m[i]).0@ != m[at].0@,
    ensures
        members_view(m, k).dom().contains(m[at].0@),
        members_view(m, k)[m[at].0@] == json_view(m[at].1),
    decreases k,
{
    if k - 1 != at {
        lemma_members_last(m, at, (k - 1) as nat);
    }
}

impl Json {
    /// Put `item` at the end of the list `name`; without such a list nothing
    /// changes.
    pub fn push_to(&mut self, name: &str, item: Json)
        ensures
            final(self)@ == pushed(old(self)@, name@, item@),
    {
        match self {
            Json::Object(m) => {
                let ghost before = m@;
                match last_member(m, name) {
                    Some(at) => {
                        proof {
                            lemma_members_last(before, at as int, before.len());
                        }
                        let (key, value) = m.remove(at);
                        let ghost after_remove = m@;
                        match value {
                            Json::Array(v) => {
                                let ghost items = v@;
                                let mut v = v;
                                v.push(item);
                                proof {
                                    lemma_items_prefix(items, v@, items.len());
                                }
                                m.insert(at, (key, Json::Array(v)));
                                proof {
                                    assert(m@ == before.update(at as int, (key, Json::Array(v))));
                                    lemma_members_update(before, m@, at as int, before.len());
                                }
                            },
                            other => {
                                m.insert(at, (key, other));
                                assert(m@ == before);
                            },
                        }
                    },
                    None => {
                        proof {
                            lemma_members_none(before, name@, before.len());
                        }
                    },
                }
            },
            _ => {},
        }
    }
}

// ---- Laws ---------------------------------------------------------------

/// What is put at the end of a list in an object stands there last; the other items and
/// the other members stay. Where there is no such list nothing changes.
pub proof fn law_item_is_put_last(v: JsonView, name: Seq<char>, a: Seq<JsonView>, item: JsonView)
    ensures
        field(v, name) == Some(JsonView::Array(a)) ==> {
            let after = field(pushed(v, name, item), name);
            &&& after is Some && after->0 is Array
            &&& after->0->Array_0.len() == a.len() + 1
            &&& after->0->Array_0.last() == item
            &&& after->0->Array_0.drop_last() == a
        },
        forall|other: Seq<char>|
            other != name ==> #[trigger] field(pushed(v, name, item), other) == field(v, other),
        field(v, name) is None || !(field(v, name)->0 is Array) ==> pushed(v, name, item) == v,
{
    assert(a.push(item).drop_last() =~= a);
}

/// A member is found by its name, in an object and nowhere else.
pub proof fn law_members_are_found_by_name(m: Map<Seq<char>, JsonView>, name: Seq<char>, v: JsonView)
    ensures
        field(JsonView::Object(m.insert(name, v)), name) == Some(v),
        !m.dom().contains(name) ==> field(JsonView::Object(m), name) is None,
        !(v is Object) ==> field(v, name) is None,
        forall|other: Seq<char>|
            other != name ==> #[trigger] field(JsonView::Object(m.insert(name, v)), other) == field(
                JsonView::Object(m),
                other,
            ),
{
}

/// A value is read as what it is, and as nothing else.
pub proof fn law_values_are_what_they_are(s: Seq<char>, i: int, b: bool, a: Seq<JsonView>)
    ensures
        str_of(Some(JsonView::Str(s))) == Some(s),
        str_of(Some(JsonView::Bool(b))) is None && str_of(None) is None,
        str_of(Some(JsonView::Num(NumView::Int(i)))) is None,
        bool_of(Some(JsonView::Bool(b))) == Some(b),
        bool_of(Some(JsonView::Str(s))) is None && bool_of(None) is None,
        items_of(Some(JsonView::Array(a))) == Some(a),
        items_of(Some(JsonView::Str(s))) is None && items_of(None) is None,
        0 <= i <= u64::MAX ==> int_of(Some(JsonView::Num(NumView::Int(i))), 0, u64::MAX as int)
            == Some(i),
        i < 0 ==> int_of(Some(JsonView::Num(NumView::Int(i))), 0, u64::MAX as int) is None,
        int_of(Some(JsonView::Str(s)), 0, u64::MAX as int) is None,
        int_of(None, 0, u64::MAX as int) is None,
{
}

} // verus!
