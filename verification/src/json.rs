//! JSON values as the rules of this library read and build them.
use vstd::prelude::*;
use crate::model;
use crate::model::find;
use crate::text;
use crate::text::debug;

verus! {

/// A JSON number: an integer, or the text of a fraction or of an exponent.
#[derive(Debug, PartialEq, Eq)]
pub enum JsonNumber {
    Unsigned(u64),
    Signed(i64),
    Float(String),
}

/// A JSON value.  An object lists its members in the order in which they are
/// walked.
#[derive(Debug, PartialEq, Eq)]
pub enum Json {
    Null,
    Bool(bool),
    Number(JsonNumber),
    String(String),
    Array(Vec<Json>),
    Object(Vec<(String, Json)>),
}

/// Members of a JSON object.
pub type Members = Seq<(Seq<char>, JsonView)>;

/// What a JSON value says.  A number is the text that denotes it.
pub enum JsonView {
    Null,
    Bool(bool),
    Number(Seq<char>),
    String(Seq<char>),
    Array(Seq<JsonView>),
    Object(Seq<(Seq<char>, JsonView)>),
}

impl View for JsonNumber {
    type V = Seq<char>;

    open spec fn view(&self) -> Seq<char> {
        match self {
            JsonNumber::Unsigned(n) => text::decimal(*n as nat),
            JsonNumber::Signed(n) => text::signed_decimal(*n as int),
            JsonNumber::Float(text) => text@,
        }
    }
}

impl View for Json {
    type V = JsonView;

    open spec fn view(&self) -> JsonView
        decreases self,
    {
        match self {
            Json::Null => JsonView::Null,
            Json::Bool(b) => JsonView::Bool(*b),
            Json::Number(n) => JsonView::Number(n@),
            Json::String(s) => JsonView::String(s@),
            Json::Array(items) => JsonView::Array(
                Seq::new(
                    items@.len(),
                    |i: int| if 0 <= i < items@.len() { items@[i].view() } else { JsonView::Null },
                ),
            ),
            Json::Object(members) => JsonView::Object(
                Seq::<(Seq<char>, JsonView)>::new(
                    members@.len(),
                    |i: int|
                        (members@[i].0@, if 0 <= i < members@.len() {
                            members@[i].1.view()
                        } else {
                            JsonView::Null
                        }),
                ),
            ),
        }
    }
}

/// The view of an array or of an object is that of its parts.
pub broadcast proof fn lemma_compound_view(v: Json)
    ensures
        v matches Json::Array(items) ==> #[trigger] v@ == JsonView::Array(model::views(items@)),
        v matches Json::Object(members) ==> v@ == JsonView::Object(model::entries_view(members@)),
{
    match v {
        Json::Array(items) => {
            assert(v@->Array_0 =~= model::views(items@));
        },
        Json::Object(members) => {
            assert(v@->Object_0 =~= model::entries_view(members@));
        },
        _ => {},
    }
}

/// Each item of an array is smaller than the array.
proof fn lemma_item_smaller(v: Json, items: Vec<Json>, i: int)
    requires
        v == Json::Array(items),
        0 <= i < items@.len(),
    ensures
        decreases_to!(v => items@[i]),
{
    assert(decreases_to!(v => v->Array_0));
    assert(decreases_to!(items => items@));
    assert(decreases_to!(items@ => items@[i]));
}

/// Each member of an object is smaller than the object.
proof fn lemma_member_smaller(v: Json, members: Vec<(String, Json)>, i: int)
    requires
        v == Json::Object(members),
        0 <= i < members@.len(),
    ensures
        decreases_to!(v => members@[i].1),
{
    assert(decreases_to!(v => v->Object_0));
    assert(decreases_to!(members => members@));
    assert(decreases_to!(members@ => members@[i]));
    assert(decreases_to!(members@[i] => members@[i].1));
}

/// A member of an object; nothing of any other value.
pub open spec fn member(v: JsonView, key: Seq<char>) -> Option<JsonView> {
    match v {
        JsonView::Object(members) => model::lookup(members, key),
        _ => None,
    }
}

/// The string that a value is, where it is one.
pub open spec fn string_of(v: Option<JsonView>) -> Option<Seq<char>> {
    match v {
        Some(JsonView::String(s)) => Some(s),
        _ => None,
    }
}

/// The hexadecimal digit `d`, in lower case.
pub open spec fn hex_digit(d: nat) -> char {
    if d < 10 {
        text::digit(d)
    } else {
        (87 + d) as char
    }
}

/// A character as it stands in a JSON string: quotes, backslashes and control
/// characters are escaped, in their short form where they have one.
pub open spec fn escaped(c: char) -> Seq<char> {
    let code = c as nat;
    if c == '"' || c == '\\' {
        seq!['\\', c]
    } else if code == 8 {
        seq!['\\', 'b']
    } else if code == 9 {
        seq!['\\', 't']
    } else if code == 10 {
        seq!['\\', 'n']
    } else if code == 12 {
        seq!['\\', 'f']
    } else if code == 13 {
        seq!['\\', 'r']
    } else if code < 32 {
        seq!['\\', 'u', '0', '0', hex_digit(code / 16), hex_digit(code % 16)]
    } else {
        seq![c]
    }
}

/// A text with each of its characters escaped.
pub open spec fn escaped_text(s: Seq<char>) -> Seq<char>
    decreases s.len(),
{
    if s.len() == 0 {
        Seq::empty()
    } else {
        escaped_text(s.drop_last()) + escaped(s.last())
    }
}

/// The quoted and escaped form of a string in JSON text.
pub open spec fn quoted_text(s: Seq<char>) -> Seq<char> {
    seq!['"'] + escaped_text(s) + seq!['"']
}

/// Compact JSON text of a value: no blanks, members and items in order.
pub open spec fn json_text(v: JsonView) -> Seq<char>
    decreases v, 0nat,
{
    match v {
        JsonView::Null => "null"@,
        JsonView::Bool(b) => if b { "true"@ } else { "false"@ },
        JsonView::Number(n) => n,
        JsonView::String(s) => quoted_text(s),
        JsonView::Array(items) => "["@ + items_text(items, items.len()) + "]"@,
        JsonView::Object(members) => "{"@ + members_text(members, members.len()) + "}"@,
    }
}

/// The first `n` items, separated by commas.
pub open spec fn items_text(items: Seq<JsonView>, n: nat) -> Seq<char>
    decreases items, n,
{
    if n == 0 || n > items.len() {
        Seq::empty()
    } else {
        items_text(items, (n - 1) as nat) + separator(n) + json_text(items[n - 1])
    }
}

/// The first `n` members, separated by commas.
pub open spec fn members_text(members: Seq<(Seq<char>, JsonView)>, n: nat) -> Seq<char>
    decreases members, n,
{
    if n == 0 || n > members.len() {
        Seq::empty()
    } else {
        members_text(members, (n - 1) as nat) + separator(n) + quoted_text(members[n - 1].0) + ":"@
            + json_text(members[n - 1].1)
    }
}

/// A value as `{:?}` shows a `serde_json::Value`: each variant by its name, with
/// what it holds.
pub open spec fn debug_json(v: JsonView) -> Seq<char>
    decreases v, 0nat,
{
    match v {
        JsonView::Null => "Null"@,
        JsonView::Bool(b) => if b { "Bool(true)"@ } else { "Bool(false)"@ },
        JsonView::Number(n) => "Number("@ + n + ")"@,
        JsonView::String(s) => "String("@ + text::debug_text(s) + ")"@,
        JsonView::Array(items) => "Array ["@ + items_debug(items, items.len()) + "]"@,
        JsonView::Object(members) => "Object {"@ + members_debug(members, members.len()) + "}"@,
    }
}

/// The first `n` items as `{:?}` shows them.
pub open spec fn items_debug(items: Seq<JsonView>, n: nat) -> Seq<char>
    decreases items, n,
{
    if n == 0 || n > items.len() {
        Seq::empty()
    } else {
        items_debug(items, (n - 1) as nat) + debug_separator(n) + debug_json(items[n - 1])
    }
}

/// The first `n` members as `{:?}` shows them.
pub open spec fn members_debug(members: Seq<(Seq<char>, JsonView)>, n: nat) -> Seq<char>
    decreases members, n,
{
    if n == 0 || n > members.len() {
        Seq::empty()
    } else {
        members_debug(members, (n - 1) as nat) + debug_separator(n) + text::debug_text(
            members[n - 1].0,
        ) + ": "@ + debug_json(members[n - 1].1)
    }
}

/// What stands before the `n`-th of several items that `{:?}` shows.
pub open spec fn debug_separator(n: nat) -> Seq<char> {
    if n <= 1 {
        ""@
    } else {
        ", "@
    }
}

/// What stands before the `n`-th of several items.
pub open spec fn separator(n: nat) -> Seq<char> {
    if n <= 1 {
        ""@
    } else {
        ","@
    }
}

/// Wraps `serde_json::Number::from(u64)` and its `Display`: the decimal
/// notation of the number.
#[verifier::external_body]
fn unsigned_text(n: u64) -> (r: String)
    ensures
        r@ == text::decimal(n as nat),
{
    serde_json::Number::from(n).to_string()
}

/// Wraps `serde_json::Number::from(i64)` and its `Display`: the decimal
/// notation of the number, with a minus sign where it is negative.
#[verifier::external_body]
fn signed_text(n: i64) -> (r: String)
    ensures
        r@ == text::signed_decimal(n as int),
{
    serde_json::Number::from(n).to_string()
}

/// Wraps the `Display` of `serde_json::Value` on a string: the string in quotes,
/// with quotes, backslashes and control characters escaped.
#[verifier::external_body]
fn quoted(s: &str) -> (r: String)
    ensures
        r@ == quoted_text(s@),
{
    serde_json::Value::from(s).to_string()
}

/// A string where there is one, else null.
pub open spec fn string_or_null(value: Option<Seq<char>>) -> JsonView {
    match value {
        Some(s) => JsonView::String(s),
        None => JsonView::Null,
    }
}

/// An object member that is a string.
pub fn string_member(key: &str, value: &str) -> (r: (String, Json))
    ensures
        r.0@ == key@,
        r.1@ == JsonView::String(value@),
{
    (key.to_string(), Json::String(value.to_string()))
}

/// An object member that is a string or null.
pub fn optional_member(key: &str, value: &Option<String>) -> (r: (String, Json))
    ensures
        r.0@ == key@,
        r.1@ == string_or_null(model::opt_view(*value)),
{
    let json = match value {
        Some(s) => Json::String(s.clone()),
        None => Json::Null,
    };
    (key.to_string(), json)
}

impl JsonNumber {
    /// The text that denotes the number.
    pub fn text(&self) -> (r: String)
        ensures
            r@ == self@,
    {
        match self {
            JsonNumber::Unsigned(n) => unsigned_text(*n),
            JsonNumber::Signed(n) => signed_text(*n),
            JsonNumber::Float(text) => text.clone(),
        }
    }

    /// A copy of the number.
    pub fn copy(&self) -> (r: JsonNumber)
        ensures
            r@ == self@,
    {
        match self {
            JsonNumber::Unsigned(n) => JsonNumber::Unsigned(*n),
            JsonNumber::Signed(n) => JsonNumber::Signed(*n),
            JsonNumber::Float(text) => JsonNumber::Float(text.clone()),
        }
    }
}

impl Json {
    /// Compact JSON text of the value.
    pub fn text(&self) -> (r: String)
        ensures
            r@ == json_text(self@),
        decreases self,
    {
        broadcast use lemma_compound_view;

        match self {
            Json::Null => "null".to_string(),
            Json::Bool(b) => if *b {
                "true".to_string()
            } else {
                "false".to_string()
            },
            Json::Number(n) => n.text(),
            Json::String(s) => quoted(s),
            Json::Array(items) => {
                let mut inner = String::new();
                let mut i: usize = 0;
                while i < items.len()
                    invariant
                        i <= items.len(),
                        *self == Json::Array(*items),
                        inner@ == items_text(model::views(items@), i as nat),
                    decreases items.len() - i,
                {
                    if i > 0 {
                        inner.append(",");
                    } else {
                        inner.append("");
                    }
                    proof {
                        lemma_item_smaller(*self, *items, i as int);
                    }
                    inner.append(items[i].text().as_str());
                    i = i + 1;
                }
                let mut out = "[".to_string();
                out.append(inner.as_str());
                out.append("]");
                out
            },
            Json::Object(members) => {
                let mut inner = String::new();
                let mut i: usize = 0;
                while i < members.len()
                    invariant
                        i <= members.len(),
                        *self == Json::Object(*members),
                        inner@ == members_text(model::entries_view(members@), i as nat),
                    decreases members.len() - i,
                {
                    if i > 0 {
                        inner.append(",");
                    } else {
                        inner.append("");
                    }
                    inner.append(quoted(members[i].0.as_str()).as_str());
                    inner.append(":");
                    proof {
                        lemma_member_smaller(*self, *members, i as int);
                    }
                    inner.append(members[i].1.text().as_str());
                    i = i + 1;
                }
                let mut out = "{".to_string();
                out.append(inner.as_str());
                out.append("}");
                out
            },
        }
    }

    /// The value as `{:?}` shows a `serde_json::Value`.
    pub fn debug_form(&self) -> (r: String)
        ensures
            r@ == debug_json(self@),
        decreases self,
    {
        broadcast use lemma_compound_view;

        match self {
            Json::Null => "Null".to_string(),
            Json::Bool(b) => if *b {
                "Bool(true)".to_string()
            } else {
                "Bool(false)".to_string()
            },
            Json::Number(n) => {
                let mut out = "Number(".to_string();
                out.append(n.text().as_str());
                out.append(")");
                out
            },
            Json::String(s) => {
                let mut out = "String(".to_string();
                out.append(debug(s.as_str()).as_str());
                out.append(")");
                out
            },
            Json::Array(items) => {
                let mut inner = String::new();
                let mut i: usize = 0;
                while i < items.len()
                    invariant
                        i <= items.len(),
                        *self == Json::Array(*items),
                        inner@ == items_debug(model::views(items@), i as nat),
                    decreases items.len() - i,
                {
                    if i > 0 {
                        inner.append(", ");
                    } else {
                        inner.append("");
                    }
                    proof {
                        lemma_item_smaller(*self, *items, i as int);
                    }
                    inner.append(items[i].debug_form().as_str());
                    i = i + 1;
                }
                let mut out = "Array [".to_string();
                out.append(inner.as_str());
                out.append("]");
                out
            },
            Json::Object(members) => {
                let mut inner = String::new();
                let mut i: usize = 0;
                while i < members.len()
                    invariant
                        i <= members.len(),
                        *self == Json::Object(*members),
                        inner@ == members_debug(model::entries_view(members@), i as nat),
                    decreases members.len() - i,
                {
                    if i > 0 {
                        inner.append(", ");
                    } else {
                        inner.append("");
                    }
                    inner.append(debug(members[i].0.as_str()).as_str());
                    inner.append(": ");
                    proof {
                        lemma_member_smaller(*self, *members, i as int);
                    }
                    inner.append(members[i].1.debug_form().as_str());
                    i = i + 1;
                }
                let mut out = "Object {".to_string();
                out.append(inner.as_str());
                out.append("}");
                out
            },
        }
    }

    /// The member with this key, where the value is an object that has one.
    pub fn get(&self, key: &str) -> (r: Option<&Json>)
        ensures
            model::opt_view(r) == member(self@, key@),
    {
        broadcast use lemma_compound_view;

        match self {
            Json::Object(members) => find(members, key),
            _ => None,
        }
    }

    /// The string that the value is, where it is one.
    pub fn as_str(&self) -> (r: Option<&str>)
        ensures
            model::opt_view(r) == string_of(Some(self@)),
    {
        match self {
            Json::String(s) => Some(s.as_str()),
            _ => None,
        }
    }

    /// A copy of the value.
    pub fn copy(&self) -> (r: Json)
        ensures
            r@ == self@,
        decreases self,
    {
        broadcast use lemma_compound_view;

        match self {
            Json::Null => Json::Null,
            Json::Bool(b) => Json::Bool(*b),
            Json::Number(n) => Json::Number(n.copy()),
            Json::String(s) => Json::String(s.clone()),
            Json::Array(items) => {
                let mut out: Vec<Json> = Vec::new();
                let mut i: usize = 0;
                while i < items.len()
                    invariant
                        i <= items.len(),
                        *self == Json::Array(*items),
                        model::views(out@) == model::views(items@).take(i as int),
                    decreases items.len() - i,
                {
                    proof {
                        lemma_item_smaller(*self, *items, i as int);
                    }
                    let ghost before = out@;
                    out.push(items[i].copy());
                    i = i + 1;
                    assert(model::views(out@) =~= model::views(before).push(items@[i - 1]@));
                    assert(model::views(out@) =~= model::views(items@).take(i as int));
                }
                assert(model::views(out@) =~= model::views(items@));
                Json::Array(out)
            },
            Json::Object(members) => {
                let mut out: Vec<(String, Json)> = Vec::new();
                let mut i: usize = 0;
                while i < members.len()
                    invariant
                        i <= members.len(),
                        *self == Json::Object(*members),
                        model::entries_view(out@) == model::entries_view(members@).take(i as int),
                    decreases members.len() - i,
                {
                    proof {
                        lemma_member_smaller(*self, *members, i as int);
                    }
                    let ghost before = out@;
                    out.push((members[i].0.clone(), members[i].1.copy()));
                    i = i + 1;
                    assert(model::entries_view(out@) =~= model::entries_view(before).push(
                        (members@[i - 1].0@, members@[i - 1].1@),
                    ));
                    assert(model::entries_view(out@) =~= model::entries_view(members@).take(i as int));
                }
                assert(model::entries_view(out@) =~= model::entries_view(members@));
                Json::Object(out)
            },
        }
    }
}

} // verus!
