//! The JSON values that the board reads from requests and writes as answers.
use vstd::prelude::*;
use crate::text::{i64_text, int_text, lemma_nat_text_digits, nat_text, push_char, str_eq};

verus! {

/// Abstract value of a JSON document.
pub enum JsonV {
    Null,
    Bool(bool),
    Int(int),
    Num(Seq<char>),
    Str(Seq<char>),
    Array(Seq<JsonV>),
    Object(Seq<(Seq<char>, JsonV)>),
}

/// A JSON value. Numbers that fit in `i64` are `Int`; any other number keeps
/// its text in `Num`. Object members keep their order.
#[derive(Debug)]
pub enum Json {
    Null,
    Bool(bool),
    Int(i64),
    Num(String),
    Str(String),
    Array(Vec<Json>),
    Object(Vec<(String, Json)>),
}

impl View for Json {
    type V = JsonV;

    open spec fn view(&self) -> JsonV
        decreases self,
    {
        match self {
            Json::Null => JsonV::Null,
            Json::Bool(b) => JsonV::Bool(*b),
            Json::Int(i) => JsonV::Int(*i as int),
            Json::Num(s) => JsonV::Num(s@),
            Json::Str(s) => JsonV::Str(s@),
            Json::Array(v) => JsonV::Array(views(v@)),
            Json::Object(v) => JsonV::Object(member_views(v@)),
        }
    }
}

/// Element-wise view of a sequence of JSON values.
pub open spec fn views(s: Seq<Json>) -> Seq<JsonV>
    decreases s,
{
    if s.len() == 0 {
        Seq::empty()
    } else {
        views(s.drop_last()).push(s.last().view())
    }
}

/// Element-wise view of the members of a JSON object.
pub open spec fn member_views(s: Seq<(String, Json)>) -> Seq<(Seq<char>, JsonV)>
    decreases s,
{
    if s.len() == 0 {
        Seq::empty()
    } else {
        member_views(s.drop_last()).push((s.last().0@, s.last().1.view()))
    }
}

/// The value of the first member named `key`, if any.
pub open spec fn lookup(m: Seq<(Seq<char>, JsonV)>, key: Seq<char>) -> Option<JsonV>
    decreases m.len(),
{
    if m.len() == 0 {
        None
    } else if m[0].0 == key {
        Some(m[0].1)
    } else {
        lookup(m.drop_first(), key)
    }
}

impl JsonV {
    /// `value.get(key)`: the member named `key` of an object; nothing otherwise.
    pub open spec fn get(self, key: Seq<char>) -> Option<JsonV> {
        match self {
            JsonV::Object(m) => lookup(m, key),
            _ => None,
        }
    }

    /// `value[key].as_str()`: the text of member `key` when it is a string.
    pub open spec fn str_field(self, key: Seq<char>) -> Option<Seq<char>> {
        match self.get(key) {
            Some(JsonV::Str(s)) => Some(s),
            _ => None,
        }
    }

    /// `value[key].as_i64()`: member `key` when it is a number that fits `i64`.
    pub open spec fn int_field(self, key: Seq<char>) -> Option<int> {
        match self.get(key) {
            Some(JsonV::Int(i)) => Some(i),
            _ => None,
        }
    }
}

/// The view of an optional reference to a JSON value.
pub open spec fn opt_view(o: Option<&Json>) -> Option<JsonV> {
    match o {
        Some(j) => Some(j@),
        None => None,
    }
}

/// The view of an optional string.
pub open spec fn opt_str_view(o: Option<&String>) -> Option<Seq<char>> {
    match o {
        Some(s) => Some(s@),
        None => None,
    }
}

pub proof fn lemma_views(s: Seq<Json>)
    ensures
        views(s).len() == s.len(),
        forall|i: int| 0 <= i < s.len() ==> #[trigger] views(s)[i] == s[i]@,
    decreases s.len(),
{
    if s.len() > 0 {
        lemma_views(s.drop_last());
        assert(views(s) == views(s.drop_last()).push(s.last()@));
    } else {
        assert(views(s) == Seq::<JsonV>::empty());
    }
}

pub proof fn lemma_member_views(s: Seq<(String, Json)>)
    ensures
        member_views(s).len() == s.len(),
        forall|i: int|
            0 <= i < s.len() ==> #[trigger] member_views(s)[i] == (s[i].0@, s[i].1@),
    decreases s.len(),
{
    if s.len() > 0 {
        lemma_member_views(s.drop_last());
        assert(member_views(s) == member_views(s.drop_last()).push((s.last().0@, s.last().1@)));
    } else {
        assert(member_views(s) == Seq::<(Seq<char>, JsonV)>::empty());
    }
}

/// With no member named `key` before index `i`, the lookup starts at `i`.
proof fn lemma_lookup_skip(m: Seq<(Seq<char>, JsonV)>, key: Seq<char>, i: int)
    requires
        0 <= i <= m.len(),
        forall|k: int| 0 <= k < i ==> m[k].0 != key,
    ensures
        lookup(m, key) == lookup(m.subrange(i, m.len() as int), key),
    decreases i,
{
    if i == 0 {
        assert(m.subrange(0, m.len() as int) =~= m);
    } else {
        lemma_lookup_skip(m.drop_first(), key, i - 1);
        assert(m.drop_first().subrange(i - 1, m.drop_first().len() as int) =~= m.subrange(
            i,
            m.len() as int,
        ));
    }
}

/// The lookup of `key` finds the member at `i` when no earlier member is named `key`.
pub proof fn lemma_lookup_at(m: Seq<(Seq<char>, JsonV)>, key: Seq<char>, i: int)
    requires
        0 <= i < m.len(),
        m[i].0 == key,
        forall|k: int| 0 <= k < i ==> m[k].0 != key,
    ensures
        lookup(m, key) == Some(m[i].1),
{
    lemma_lookup_skip(m, key, i);
    assert(m.subrange(i, m.len() as int)[0] == m[i]);
}

impl Json {
    /// `value.get(key)`: the member named `key` when `self` is an object.
    pub fn get<'a>(&'a self, key: &str) -> (r: Option<&'a Json>)
        ensures
            opt_view(r) == self@.get(key@),
    {
        match self {
            Json::Object(members) => {
                let ghost mv = member_views(members@);
                proof {
                    lemma_member_views(members@);
                }
                assert(self@ == JsonV::Object(mv));
                let mut i: usize = 0;
                while i < members.len()
                    invariant
                        self@ == JsonV::Object(mv),
                        mv == member_views(members@),
                        mv.len() == members@.len(),
                        forall|j: int|
                            0 <= j < members@.len() ==> #[trigger] mv[j] == (
                                members@[j].0@,
                                members@[j].1@,
                            ),
                        i <= members.len(),
                        forall|k: int| 0 <= k < i ==> mv[k].0 != key@,
                    decreases members.len() - i,
                {
                    if str_eq(members[i].0.as_str(), key) {
                        proof {
                            lemma_lookup_skip(mv, key@, i as int);
                            let sub = mv.subrange(i as int, mv.len() as int);
                            assert(sub[0] == mv[i as int]);
                            assert(lookup(sub, key@) == Some(sub[0].1));
                            assert(self@ == JsonV::Object(mv));
                        }
                        return Some(&members[i].1);
                    }
                    i = i + 1;
                }
                proof {
                    lemma_lookup_skip(mv, key@, i as int);
                    assert(mv.subrange(i as int, mv.len() as int).len() == 0);
                    assert(self@ == JsonV::Object(mv));
                }
                None
            },
            _ => None,
        }
    }

    /// `value[key].as_str()`: the text of member `key` when it is a string.
    pub fn str_field<'a>(&'a self, key: &str) -> (r: Option<&'a String>)
        ensures
            opt_str_view(r) == self@.str_field(key@),
    {
        match self.get(key) {
            Some(Json::Str(s)) => Some(s),
            _ => None,
        }
    }

    /// `value[key].as_i64()`: member `key` when it is a number that fits `i64`.
    pub fn int_field(&self, key: &str) -> (r: Option<i64>)
        ensures
            match r {
                Some(i) => self@.int_field(key@) == Some(i as int),
                None => self@.int_field(key@) is None,
            },
    {
        match self.get(key) {
            Some(Json::Int(i)) => Some(*i),
            _ => None,
        }
    }

    /// Whether `self` is an array.
    pub fn is_array(&self) -> (r: bool)
        ensures
            r == (self@ is Array),
    {
        match self {
            Json::Array(_) => true,
            _ => false,
        }
    }
}

/// `serde_json`'s JSON value, declared so that the library can name it.
#[verifier::external_type_specification]
#[verifier::external_body]
pub struct ExJsonValue(serde_json::Value);

/// What `serde_json::from_str::<serde_json::Value>` makes of `text`: the value
/// it reads (a number that fits `i64` as an integer, any other number by its
/// text, object members in the order `serde_json` keeps them), or the text of
/// its error.
pub uninterp spec fn json_text_value(text: Seq<char>) -> Result<JsonV, Seq<char>>;

/// The library's value of a `serde_json::Value`, variant for variant. It is
/// only the conversion half of [`parse_json`] and promises nothing by itself.
#[verifier::external_body]
fn json_of_value(v: &serde_json::Value) -> Json {
    match v {
        serde_json::Value::Null => Json::Null,
        serde_json::Value::Bool(b) => Json::Bool(*b),
        serde_json::Value::Number(n) => match n.as_i64() {
            Some(i) => Json::Int(i),
            None => Json::Num(n.to_string()),
        },
        serde_json::Value::String(t) => Json::Str(t.clone()),
        serde_json::Value::Array(items) => Json::Array(items.iter().map(json_of_value).collect()),
        serde_json::Value::Object(m) => Json::Object(
            m.iter().map(|(k, x)| (k.clone(), json_of_value(x))).collect(),
        ),
    }
}

/// `serde_json::from_str::<serde_json::Value>` on `text`, converted to the
/// library's value; on failure, the text of `serde_json`'s error. The
/// contract names the outcome, and adds one fact the source shows: a number
/// that does not fit `i64` keeps the text that `serde_json::Number` prints
/// (`itoa` digits, or `zmij`'s digits, sign, point and exponent).
#[verifier::external_body]
pub(crate) fn parse_json(text: &str) -> (r: Result<Json, String>)
    ensures
        match r {
            Ok(j) => json_text_value(text@) == Ok::<JsonV, Seq<char>>(j@) && number_texts(j@),
            Err(e) => json_text_value(text@) == Err::<JsonV, Seq<char>>(e@),
        },
{
    match serde_json::from_str::<serde_json::Value>(text) {
        Ok(v) => Ok(json_of_value(&v)),
        Err(e) => Err(e.to_string()),
    }
}

/// A JSON column as the board reads it back: its value, or `null` when the
/// stored text is not JSON.
pub fn stored_json(text: &str) -> (r: Json)
    ensures
        match json_text_value(text@) {
            Ok(v) => r@ == v,
            Err(_) => r@ == JsonV::Null,
        },
        number_texts(r@),
{
    match parse_json(text) {
        Ok(j) => j,
        Err(_) => Json::Null,
    }
}

/// A string value holding the characters of `s`.
pub fn str_value(s: &str) -> (r: Json)
    ensures
        r@ == JsonV::Str(s@),
{
    Json::Str(s.to_owned())
}

/// Appends member `key` with `value` to the members of an object being built.
pub fn push_member(members: &mut Vec<(String, Json)>, key: &str, value: Json)
    ensures
        member_views(final(members)@) == member_views(old(members)@).push((key@, value@)),
{
    let ghost before = members@;
    members.push((key.to_owned(), value));
    assert(members@.drop_last() =~= before);
}

/// The object with `members`, in order.
pub fn object(members: Vec<(String, Json)>) -> (r: Json)
    ensures
        r@ == JsonV::Object(member_views(members@)),
{
    Json::Object(members)
}

/// An optional string as JSON: the string, or `null`.
pub open spec fn opt_string_value(s: Option<Seq<char>>) -> JsonV {
    match s {
        Some(t) => JsonV::Str(t),
        None => JsonV::Null,
    }
}

/// An optional string as JSON: the string, or `null`.
pub fn opt_string_json(s: Option<String>) -> (r: Json)
    ensures
        r@ == opt_string_value(
            match s {
                Some(t) => Some(t@),
                None => None,
            },
        ),
{
    match s {
        Some(t) => Json::Str(t),
        None => Json::Null,
    }
}

/// The array of `items`, in order.
pub fn array(items: Vec<Json>) -> (r: Json)
    ensures
        r@ == JsonV::Array(views(items@)),
{
    Json::Array(items)
}

/// Appends `item` to the items of an array being built.
pub fn push_item(items: &mut Vec<Json>, item: Json)
    ensures
        views(final(items)@) == views(old(items)@).push(item@),
{
    let ghost before = items@;
    items.push(item);
    assert(items@.drop_last() =~= before);
}

/// A hexadecimal digit as `serde_json` writes it, in lower case.
pub open spec fn hex_digit(n: int) -> char {
    seq!['0', '1', '2', '3', '4', '5', '6', '7', '8', '9', 'a', 'b', 'c', 'd', 'e', 'f'][n]
}

/// How `serde_json` writes one character inside a string: a quote and a
/// backslash are escaped with a backslash; backspace, tab, line feed, form
/// feed and carriage return as `\b`, `\t`, `\n`, `\f`, `\r`; any other
/// character below U+0020 as `\u00` and two hexadecimal digits; every other
/// character as it is.
pub open spec fn escaped_char(c: char) -> Seq<char> {
    let u = c as u32;
    if c == '"' {
        seq!['\\', '"']
    } else if c == '\\' {
        seq!['\\', '\\']
    } else if u == 0x08 {
        seq!['\\', 'b']
    } else if u == 0x09 {
        seq!['\\', 't']
    } else if u == 0x0a {
        seq!['\\', 'n']
    } else if u == 0x0c {
        seq!['\\', 'f']
    } else if u == 0x0d {
        seq!['\\', 'r']
    } else if u < 0x20 {
        seq!['\\', 'u', '0', '0', hex_digit((u / 16) as int), hex_digit((u % 16) as int)]
    } else {
        seq![c]
    }
}

/// The characters of `s`, each written as [`escaped_char`] writes it.
pub open spec fn escaped(s: Seq<char>) -> Seq<char>
    decreases s.len(),
{
    if s.len() == 0 {
        Seq::empty()
    } else {
        escaped(s.drop_last()) + escaped_char(s.last())
    }
}

/// The text `serde_json` writes for a JSON string holding `s`: the escaped
/// characters between double quotes.
pub open spec fn string_literal_text(s: Seq<char>) -> Seq<char> {
    seq!['"'] + escaped(s) + seq!['"']
}

/// `serde_json::to_string` on a `&str`: the JSON string literal holding `s`,
/// as [`string_literal_text`] states it (its compact formatter writes a quote,
/// each character escaped by its table, and a quote). Serializing a `str` only
/// writes into a byte vector, which cannot fail, so the error arm is never
/// taken.
#[verifier::external_body]
fn string_literal(s: &str) -> (r: String)
    ensures
        r@ == string_literal_text(s@),
{
    match serde_json::to_string(s) {
        Ok(text) => text,
        Err(_) => String::new(),
    }
}

/// The compact JSON text of a value: no whitespace, object members in their
/// order, integers in decimal, other numbers as their text.
pub open spec fn json_text_spec(j: JsonV) -> Seq<char>
    decreases j,
{
    match j {
        JsonV::Null => "null"@,
        JsonV::Bool(b) => if b {
            "true"@
        } else {
            "false"@
        },
        JsonV::Int(i) => int_text(i),
        JsonV::Num(t) => t,
        JsonV::Str(s) => string_literal_text(s),
        JsonV::Array(items) => seq!['['] + items_text(items) + seq![']'],
        JsonV::Object(members) => seq!['{'] + members_text(members) + seq!['}'],
    }
}

/// The texts of `items`, separated by commas.
pub open spec fn items_text(items: Seq<JsonV>) -> Seq<char>
    decreases items,
{
    if items.len() == 0 {
        Seq::empty()
    } else if items.len() == 1 {
        json_text_spec(items.last())
    } else {
        items_text(items.drop_last()) + seq![','] + json_text_spec(items.last())
    }
}

/// The texts of `members`, each `"key":value`, separated by commas.
pub open spec fn members_text(members: Seq<(Seq<char>, JsonV)>) -> Seq<char>
    decreases members,
{
    if members.len() == 0 {
        Seq::empty()
    } else {
        let last = string_literal_text(members.last().0) + seq![':'] + json_text_spec(
            members.last().1,
        );
        if members.len() == 1 {
            last
        } else {
            members_text(members.drop_last()) + seq![','] + last
        }
    }
}

/// Whether `s` holds no line feed.
pub open spec fn no_line_feed(s: Seq<char>) -> bool {
    forall|i: int| 0 <= i < s.len() ==> s[i] != '\n'
}

/// Whether `c` can stand in the text of a JSON number: a digit, a sign, a
/// decimal point or an exponent mark.
pub open spec fn is_number_char(c: char) -> bool {
    ||| '0' <= c <= '9'
    ||| c == '-'
    ||| c == '+'
    ||| c == '.'
    ||| c == 'e'
    ||| c == 'E'
}

/// Whether `t` is made of the characters of a JSON number.
pub open spec fn number_text(t: Seq<char>) -> bool {
    t.len() > 0 && forall|i: int| 0 <= i < t.len() ==> is_number_char(#[trigger] t[i])
}

/// Whether every number text in `j` is made of the characters of a JSON
/// number, as the numbers that `serde_json` reads are.
pub open spec fn number_texts(j: JsonV) -> bool
    decreases j,
{
    match j {
        JsonV::Num(t) => number_text(t),
        JsonV::Array(items) => items_number_texts(items),
        JsonV::Object(members) => members_number_texts(members),
        _ => true,
    }
}

/// Whether every number text in `items` is made of the characters of a JSON number.
pub open spec fn items_number_texts(items: Seq<JsonV>) -> bool
    decreases items,
{
    if items.len() == 0 {
        true
    } else {
        items_number_texts(items.drop_last()) && number_texts(items.last())
    }
}

/// Whether every number text in the values of `members` is made of the
/// characters of a JSON number.
pub open spec fn members_number_texts(members: Seq<(Seq<char>, JsonV)>) -> bool
    decreases members,
{
    if members.len() == 0 {
        true
    } else {
        members_number_texts(members.drop_last()) && number_texts(
            members.last().1,
        )
    }
}

/// The members' values are checked one by one.
pub proof fn lemma_members_number_texts(members: Seq<(Seq<char>, JsonV)>)
    requires
        forall|i: int| 0 <= i < members.len() ==> number_texts(#[trigger] members[i].1),
    ensures
        members_number_texts(members),
    decreases members.len(),
{
    if members.len() > 0 {
        let rest = members.drop_last();
        assert forall|i: int| 0 <= i < rest.len() implies number_texts(
            #[trigger] rest[i].1,
        ) by {
            assert(rest[i] == members[i]);
        }
        lemma_members_number_texts(rest);
        assert(number_texts(members[members.len() - 1].1));
    }
}

proof fn lemma_concat_no_line_feed(a: Seq<char>, b: Seq<char>)
    requires
        no_line_feed(a),
        no_line_feed(b),
    ensures
        no_line_feed(a + b),
{
    assert forall|i: int| 0 <= i < (a + b).len() implies (a + b)[i] != '\n' by {
        if i < a.len() {
            assert((a + b)[i] == a[i]);
        } else {
            assert((a + b)[i] == b[i - a.len()]);
        }
    }
}

proof fn lemma_escaped_no_line_feed(s: Seq<char>)
    ensures
        no_line_feed(escaped(s)),
    decreases s.len(),
{
    if s.len() > 0 {
        lemma_escaped_no_line_feed(s.drop_last());
        let c = s.last();
        let u = c as u32;
        let e = escaped_char(c);
        if u < 0x20 && c != '"' && c != '\\' && u != 0x08 && u != 0x09 && u != 0x0a && u != 0x0c
            && u != 0x0d {
            let hi = (u / 16) as int;
            let lo = (u % 16) as int;
            assert(0 <= hi < 16 && 0 <= lo < 16);
            let digits = seq![
                '0', '1', '2', '3', '4', '5', '6', '7', '8', '9', 'a', 'b', 'c', 'd', 'e', 'f',
            ];
            assert(forall|n: int| 0 <= n < 16 ==> #[trigger] digits[n] != '\n');
        }
        assert(no_line_feed(e));
        lemma_concat_no_line_feed(escaped(s.drop_last()), e);
    }
}

/// A string literal holds no line feed: `serde_json` escapes it.
pub proof fn lemma_string_literal_no_line_feed(s: Seq<char>)
    ensures
        no_line_feed(string_literal_text(s)),
{
    lemma_escaped_no_line_feed(s);
    lemma_concat_no_line_feed(seq!['"'], escaped(s));
    lemma_concat_no_line_feed(seq!['"'] + escaped(s), seq!['"']);
}

/// The compact text of a value holds no line feed when its numbers are number
/// texts: strings are escaped and nothing else writes one.
pub proof fn lemma_text_no_line_feed(j: JsonV)
    requires
        number_texts(j),
    ensures
        no_line_feed(json_text_spec(j)),
    decreases j,
{
    match j {
        JsonV::Null => {
            reveal_strlit("null");
        },
        JsonV::Bool(b) => {
            reveal_strlit("true");
            reveal_strlit("false");
        },
        JsonV::Int(i) => {
            if i < 0 {
                lemma_nat_text_digits((-i) as nat);
                lemma_concat_no_line_feed(seq!['-'], nat_text((-i) as nat));
            } else {
                lemma_nat_text_digits(i as nat);
            }
        },
        JsonV::Num(t) => {
            assert forall|i: int| 0 <= i < t.len() implies t[i] != '\n' by {
                assert(is_number_char(t[i]));
            }
        },
        JsonV::Str(s) => {
            lemma_string_literal_no_line_feed(s);
        },
        JsonV::Array(items) => {
            lemma_items_no_line_feed(items);
            lemma_concat_no_line_feed(seq!['['], items_text(items));
            lemma_concat_no_line_feed(seq!['['] + items_text(items), seq![']']);
        },
        JsonV::Object(members) => {
            lemma_members_no_line_feed(members);
            lemma_concat_no_line_feed(seq!['{'], members_text(members));
            lemma_concat_no_line_feed(seq!['{'] + members_text(members), seq!['}']);
        },
    }
}

proof fn lemma_items_no_line_feed(items: Seq<JsonV>)
    requires
        items_number_texts(items),
    ensures
        no_line_feed(items_text(items)),
    decreases items,
{
    if items.len() == 1 {
        lemma_text_no_line_feed(items.last());
    } else if items.len() > 1 {
        lemma_items_no_line_feed(items.drop_last());
        lemma_text_no_line_feed(items.last());
        lemma_concat_no_line_feed(items_text(items.drop_last()), seq![',']);
        lemma_concat_no_line_feed(
            items_text(items.drop_last()) + seq![','],
            json_text_spec(items.last()),
        );
    }
}

proof fn lemma_members_no_line_feed(members: Seq<(Seq<char>, JsonV)>)
    requires
        members_number_texts(members),
    ensures
        no_line_feed(members_text(members)),
    decreases members,
{
    if members.len() > 0 {
        let m = members.last();
        lemma_string_literal_no_line_feed(m.0);
        lemma_text_no_line_feed(m.1);
        lemma_concat_no_line_feed(string_literal_text(m.0), seq![':']);
        lemma_concat_no_line_feed(string_literal_text(m.0) + seq![':'], json_text_spec(m.1));
        if members.len() > 1 {
            let last = string_literal_text(m.0) + seq![':'] + json_text_spec(m.1);
            lemma_members_no_line_feed(members.drop_last());
            lemma_concat_no_line_feed(members_text(members.drop_last()), seq![',']);
            lemma_concat_no_line_feed(members_text(members.drop_last()) + seq![','], last);
        }
    }
}

/// The compact JSON text of `j`, as `serde_json::to_string` writes it.
pub fn json_text(j: &Json) -> (r: String)
    ensures
        r@ == json_text_spec(j@),
    decreases j,
{
    match j {
        Json::Null => "null".to_owned(),
        Json::Bool(b) => if *b {
            "true".to_owned()
        } else {
            "false".to_owned()
        },
        Json::Int(i) => i64_text(*i),
        Json::Num(t) => t.as_str().to_owned(),
        Json::Str(s) => string_literal(s.as_str()),
        Json::Array(v) => {
            let ghost vs = views(v@);
            proof {
                lemma_views(v@);
            }
            let mut out = String::new();
            push_char(&mut out, '[');
            let mut i: usize = 0;
            while i < v.len()
                invariant
                    i <= v.len(),
                    *j == Json::Array(*v),
                    vs == views(v@),
                    vs.len() == v@.len(),
                    forall|k: int| 0 <= k < v@.len() ==> #[trigger] vs[k] == v@[k]@,
                    out@ == seq!['['] + items_text(vs.take(i as int)),
                decreases v.len() - i,
            {
                proof {
                    assert(decreases_to!(*j => (*j)->Array_0));
                    assert(decreases_to!(*v => v@));
                    assert(decreases_to!(v@ => v@[i as int]));
                }
                let t = json_text(&v[i]);
                if i > 0 {
                    push_char(&mut out, ',');
                }
                out.append(t.as_str());
                proof {
                    let next = vs.take(i + 1);
                    assert(next.drop_last() =~= vs.take(i as int));
                    assert(next.last() == v@[i as int]@);
                    if i == 0 {
                        assert(vs.take(0) =~= Seq::<JsonV>::empty());
                    }
                }
                i = i + 1;
            }
            push_char(&mut out, ']');
            assert(vs.take(v.len() as int) =~= vs);
            out
        },
        Json::Object(m) => {
            let ghost ms = member_views(m@);
            proof {
                lemma_member_views(m@);
            }
            let mut out = String::new();
            push_char(&mut out, '{');
            let mut i: usize = 0;
            while i < m.len()
                invariant
                    i <= m.len(),
                    *j == Json::Object(*m),
                    ms == member_views(m@),
                    ms.len() == m@.len(),
                    forall|k: int|
                        0 <= k < m@.len() ==> #[trigger] ms[k] == (m@[k].0@, m@[k].1@),
                    out@ == seq!['{'] + members_text(ms.take(i as int)),
                decreases m.len() - i,
            {
                proof {
                    assert(decreases_to!(*j => (*j)->Object_0));
                    assert(decreases_to!(*m => m@));
                    assert(decreases_to!(m@ => m@[i as int]));
                    assert(decreases_to!(m@[i as int] => m@[i as int].1));
                }
                let key = string_literal(m[i].0.as_str());
                let t = json_text(&m[i].1);
                if i > 0 {
                    push_char(&mut out, ',');
                }
                out.append(key.as_str());
                push_char(&mut out, ':');
                out.append(t.as_str());
                proof {
                    let next = ms.take(i + 1);
                    assert(next.drop_last() =~= ms.take(i as int));
                    assert(next.last() == ms[i as int]);
                    if i == 0 {
                        assert(ms.take(0) =~= Seq::<(Seq<char>, JsonV)>::empty());
                    }
                }
                i = i + 1;
            }
            push_char(&mut out, '}');
            assert(ms.take(m.len() as int) =~= ms);
            out
        },
    }
}

} // verus!
