//! JSON values.
use crate::table::Record;
use crate::text::{
    decimal, decimal_text, is_digit, owned, parse_unsigned, same, text_less, unsigned_value,
};
use vstd::prelude::*;

verus! {

/// A JSON value. A number is kept as the text that serde_json writes for it. An
/// object lists its entries; where a key occurs twice, the first entry counts.
#[derive(Debug)]
pub enum Json {
    Null,
    Bool(bool),
    Number(String),
    Text(String),
    List(Vec<Json>),
    Object(Vec<(String, Json)>),
}

/// A JSON value over character sequences.
pub enum JsonView {
    Null,
    Bool(bool),
    Number(Seq<char>),
    Text(Seq<char>),
    List(Seq<JsonView>),
    Object(Seq<(Seq<char>, JsonView)>),
}

impl View for Json {
    type V = JsonView;

    open spec fn view(&self) -> JsonView {
        json_view(*self)
    }
}

pub open spec fn json_view(j: Json) -> JsonView
    decreases j,
{
    match j {
        Json::Null => JsonView::Null,
        Json::Bool(b) => JsonView::Bool(b),
        Json::Number(n) => JsonView::Number(n@),
        Json::Text(s) => JsonView::Text(s@),
        Json::List(items) => JsonView::List(
            Seq::new(
                items@.len(),
                |i: int|
                    if 0 <= i < items@.len() {
                        json_view(items@[i])
                    } else {
                        JsonView::Null
                    },
            ),
        ),
        Json::Object(entries) => JsonView::Object(
            Seq::new(
                entries@.len(),
                |i: int|
                    if 0 <= i < entries@.len() {
                        (entries@[i].0@, json_view(entries@[i].1))
                    } else {
                        (Seq::empty(), JsonView::Null)
                    },
            ),
        ),
    }
}

pub open spec fn list_view(items: Seq<Json>) -> Seq<JsonView> {
    items.map_values(|j: Json| j@)
}

pub open spec fn entries_view(entries: Seq<(String, Json)>) -> Seq<(Seq<char>, JsonView)> {
    entries.map_values(|e: (String, Json)| (e.0@, e.1@))
}

pub broadcast proof fn lemma_json_list_view(items: Vec<Json>)
    ensures
        #[trigger] (Json::List(items))@ == JsonView::List(list_view(items@)),
{
    let v = Json::List(items);
    assert(v@->List_0 =~= list_view(items@));
}

pub broadcast proof fn lemma_json_object_view(entries: Vec<(String, Json)>)
    ensures
        #[trigger] (Json::Object(entries))@ == JsonView::Object(entries_view(entries@)),
{
    let v = Json::Object(entries);
    assert(v@->Object_0 =~= entries_view(entries@));
}

/// The first entry with a key.
pub open spec fn lookup(entries: Seq<(Seq<char>, JsonView)>, key: Seq<char>) -> Option<JsonView>
    decreases entries.len(),
{
    if entries.len() == 0 {
        None
    } else if entries[0].0 == key {
        Some(entries[0].1)
    } else {
        lookup(entries.drop_first(), key)
    }
}

/// The entry of an object with a key; other values have none.
pub open spec fn field(j: JsonView, key: Seq<char>) -> Option<JsonView> {
    match j {
        JsonView::Object(entries) => lookup(entries, key),
        _ => None,
    }
}

/// The text of a field that holds one.
pub open spec fn text_field(j: JsonView, key: Seq<char>) -> Option<Seq<char>> {
    match field(j, key) {
        Some(JsonView::Text(s)) => Some(s),
        _ => None,
    }
}

impl Json {
    /// Copies the value.
    pub fn duplicate_json(&self) -> (copy: Json)
        ensures
            copy@ == self@,
        decreases *self,
    {
        match self {
            Json::Null => Json::Null,
            Json::Bool(b) => Json::Bool(*b),
            Json::Number(n) => Json::Number(n.clone()),
            Json::Text(s) => Json::Text(s.clone()),
            Json::List(items) => {
                let mut out: Vec<Json> = Vec::new();
                let mut i: usize = 0;
                while i < items.len()
                    invariant
                        i <= items@.len(),
                        out@.len() == i,
                        *self == Json::List(*items),
                        forall|k: int| 0 <= k < i ==> (#[trigger] out@[k])@ == items@[k]@,
                    decreases items@.len() - i,
                {
                    proof {
                        assert(decreases_to!(*self => self->List_0@[i as int]));
                    }
                    out.push(items[i].duplicate_json());
                    i = i + 1;
                }
                proof {
                    broadcast use lemma_json_list_view;
                    assert(list_view(out@) =~= list_view(items@));
                }
                Json::List(out)
            },
            Json::Object(entries) => {
                let mut out: Vec<(String, Json)> = Vec::new();
                let mut i: usize = 0;
                while i < entries.len()
                    invariant
                        i <= entries@.len(),
                        out@.len() == i,
                        *self == Json::Object(*entries),
                        forall|k: int|
                            0 <= k < i ==> (#[trigger] out@[k]).0@ == entries@[k].0@
                                && out@[k].1@ == entries@[k].1@,
                    decreases entries@.len() - i,
                {
                    proof {
                        assert(decreases_to!(*self => self->Object_0@[i as int].1));
                    }
                    out.push((entries[i].0.clone(), entries[i].1.duplicate_json()));
                    i = i + 1;
                }
                proof {
                    broadcast use lemma_json_object_view;
                    assert(entries_view(out@) =~= entries_view(entries@));
                }
                Json::Object(out)
            },
        }
    }
}

/// What serde_json writes for a value, in one line.
pub uninterp spec fn json_text(j: JsonView) -> Seq<char>;

/// What serde_json writes for a value, indented.
pub uninterp spec fn json_pretty(j: JsonView) -> Seq<char>;

/// What serde_json reads from a text: the value, or what it says of a text that is
/// no JSON.
pub uninterp spec fn json_read(text: Seq<char>) -> Result<JsonView, Seq<char>>;

/// What serde_json writes for the floating-point value of a number that is given by
/// its text; nothing where the text is no number.
pub uninterp spec fn float_of(number: Seq<char>) -> Option<Seq<char>>;

/// serde_json's own value, which only passes through.
#[verifier::external_type_specification]
#[verifier::external_body]
pub struct ExValue(serde_json::Value);

/// A value of this library as one of `serde_json::Value`. Nothing is claimed of it.
#[verifier::external_body]
fn to_serde(j: &Json) -> serde_json::Value {
    match j {
        Json::Null => serde_json::Value::Null,
        Json::Bool(b) => serde_json::Value::Bool(*b),
        Json::Number(n) => serde_json::from_str::<serde_json::Number>(n).map_or(
            serde_json::Value::Null, serde_json::Value::Number),
        Json::Text(s) => serde_json::Value::String(s.clone()),
        Json::List(items) => serde_json::Value::Array(items.iter().map(to_serde).collect()),
        Json::Object(entries) => serde_json::Value::Object(
            entries.iter().rev().map(|e| (e.0.clone(), to_serde(&e.1))).collect()),
    }
}

/// A value of `serde_json::Value` as one of this library, the entries of an object in
/// the order in which serde_json walks them. Nothing is claimed of it.
#[verifier::external_body]
fn from_serde(v: serde_json::Value) -> Json {
    match v {
        serde_json::Value::Null => Json::Null,
        serde_json::Value::Bool(b) => Json::Bool(b),
        serde_json::Value::Number(n) => Json::Number(n.to_string()),
        serde_json::Value::String(s) => Json::Text(s),
        serde_json::Value::Array(items) => Json::List(items.into_iter().map(from_serde).collect()),
        serde_json::Value::Object(map) => Json::Object(
            map.into_iter().map(|e| (e.0, from_serde(e.1))).collect()),
    }
}

/// How many lists and objects may stand inside each other in a text that serde_json reads.
pub const NESTING_LIMIT: u8 = 127;

/// Whether a number is written as serde_json writes an integer.
pub open spec fn is_plain_number(number: Seq<char>) -> bool {
    exists|n: int| i64::MIN <= n <= u64::MAX && number == #[trigger] int_text(n)
}

/// Whether a value has the form in which serde_json gives values: whole numbers, the keys
/// of each object in their order and each once, and at most `depth` lists and objects
/// inside each other.
pub open spec fn plain_json(j: JsonView, depth: nat) -> bool
    decreases depth,
{
    match j {
        JsonView::Null => true,
        JsonView::Bool(_) => true,
        JsonView::Text(_) => true,
        JsonView::Number(n) => is_plain_number(n),
        JsonView::List(items) => if depth == 0 {
            false
        } else {
            forall|i: int|
                0 <= i < items.len() ==> plain_json(#[trigger] items[i], (depth - 1) as nat)
        },
        JsonView::Object(entries) => if depth == 0 {
            false
        } else {
            &&& forall|i: int|
                0 <= i < entries.len() ==> plain_json(
                    (#[trigger] entries[i]).1,
                    (depth - 1) as nat,
                )
            &&& forall|i: int, k: int|
                0 <= i < k < entries.len() ==> text_less(
                    (#[trigger] entries[i]).0,
                    (#[trigger] entries[k]).0,
                )
        },
    }
}

/// Whether serde_json reads a value from a text.
pub open spec fn reads_as(text: Seq<char>, j: JsonView) -> bool {
    json_read(text) == Ok::<JsonView, Seq<char>>(j)
}

/// `to_string` of `serde_json::Value`: the value in one line. What it writes is a
/// function of the value alone. A value in the form in which serde_json gives values is
/// read back from it by `serde_json::from_str`.
#[verifier::external_body]
pub(crate) fn write_json(j: &Json) -> (text: String)
    ensures
        text@ == json_text(j@),
        plain_json(j@, NESTING_LIMIT as nat) ==> reads_as(text@, j@),
{
    to_serde(j).to_string()
}

/// `serde_json::to_string_pretty`: the value indented. It cannot fail on a value,
/// and what it writes is a function of the value alone.
#[verifier::external_body]
pub(crate) fn write_json_pretty(j: &Json) -> (text: String)
    ensures
        text@ == json_pretty(j@),
{
    serde_json::to_string_pretty(&to_serde(j)).unwrap_or_default()
}

/// `serde_json::from_str`: the value that a text holds, or what is wrong with the
/// text. Both are functions of the text alone. A text in the form of JSON is longer than
/// the text that it stands for, by its quotes at least.
#[verifier::external_body]
pub(crate) fn read_json(text: &str) -> (out: Result<Json, String>)
    ensures
        match out {
            Ok(j) => json_read(text@) == Ok::<JsonView, Seq<char>>(j@) && (
            j@ matches JsonView::Text(s) ==> s.len() + 2 <= text@.len()),
            Err(e) => json_read(text@) == Err::<JsonView, Seq<char>>(e@),
        },
{
    match serde_json::from_str::<serde_json::Value>(text) {
        Ok(v) => Ok(from_serde(v)),
        Err(e) => Err(e.to_string()),
    }
}

/// `as_f64` of `serde_json::Number` and back: a number as a floating-point value.
/// The result is a function of the number alone.
#[verifier::external_body]
pub(crate) fn number_as_float(number: &str) -> (out: Option<String>)
    ensures
        match out {
            Some(n) => float_of(number@) == Some(n@),
            None => float_of(number@) is None,
        },
{
    serde_json::from_str::<serde_json::Number>(number).ok()
        .and_then(|n| n.as_f64())
        .and_then(serde_json::Number::from_f64)
        .map(|n| n.to_string())
}

/// The unsigned number that a number's text stands for.
pub open spec fn uint_of(number: Seq<char>) -> Option<nat> {
    if number.len() > 0 && is_digit(number[0]) {
        unsigned_value(number, u64::MAX as nat)
    } else {
        None
    }
}

/// The signed number that a number's text stands for.
pub open spec fn int_of(number: Seq<char>) -> Option<int> {
    if number.len() > 1 && number[0] == '-' && is_digit(number[1]) {
        match unsigned_value(number.skip(1), 0x8000_0000_0000_0000) {
            Some(n) => Some(-(n as int)),
            None => None,
        }
    } else if number.len() > 0 && is_digit(number[0]) {
        match unsigned_value(number, i64::MAX as nat) {
            Some(n) => Some(n as int),
            None => None,
        }
    } else {
        None
    }
}

/// The text of a signed number.
pub open spec fn int_text(n: int) -> Seq<char> {
    if n < 0 {
        seq!['-'] + decimal((-n) as nat)
    } else {
        decimal(n as nat)
    }
}

/// A text, or null where there is none.
pub open spec fn opt_text_json(s: Option<Seq<char>>) -> JsonView {
    match s {
        Some(s) => JsonView::Text(s),
        None => JsonView::Null,
    }
}

/// A number, or null where there is none.
pub open spec fn opt_uint_json(n: Option<nat>) -> JsonView {
    match n {
        Some(n) => JsonView::Number(decimal(n)),
        None => JsonView::Null,
    }
}

/// The view of a text that may be missing.
pub open spec fn opt_view(s: Option<String>) -> Option<Seq<char>> {
    match s {
        Some(s) => Some(s@),
        None => None,
    }
}

pub open spec fn bool_field(j: JsonView, key: Seq<char>) -> Option<bool> {
    match field(j, key) {
        Some(JsonView::Bool(b)) => Some(b),
        _ => None,
    }
}

pub open spec fn uint_field(j: JsonView, key: Seq<char>) -> Option<nat> {
    match field(j, key) {
        Some(JsonView::Number(n)) => uint_of(n),
        _ => None,
    }
}

pub open spec fn int_field(j: JsonView, key: Seq<char>) -> Option<int> {
    match field(j, key) {
        Some(JsonView::Number(n)) => int_of(n),
        _ => None,
    }
}

/// The floating-point value of a field that holds a number, as a number's text.
pub open spec fn float_field(j: JsonView, key: Seq<char>) -> Option<Seq<char>> {
    match field(j, key) {
        Some(JsonView::Number(n)) => float_of(n),
        _ => None,
    }
}

/// `entries` with `value` under `key`: in the place of the entry that has the key, or
/// at the end.
pub open spec fn with_entry(
    entries: Seq<(Seq<char>, JsonView)>,
    key: Seq<char>,
    value: JsonView,
) -> Seq<(Seq<char>, JsonView)>
    decreases entries.len(),
{
    if entries.len() == 0 {
        seq![(key, value)]
    } else if entries[0].0 == key {
        seq![(key, value)] + entries.drop_first()
    } else {
        seq![entries[0]] + with_entry(entries.drop_first(), key, value)
    }
}

/// `entries` without those that have the key.
pub open spec fn without_entry(
    entries: Seq<(Seq<char>, JsonView)>,
    key: Seq<char>,
) -> Seq<(Seq<char>, JsonView)>
    decreases entries.len(),
{
    if entries.len() == 0 {
        Seq::empty()
    } else if entries[0].0 == key {
        without_entry(entries.drop_first(), key)
    } else {
        seq![entries[0]] + without_entry(entries.drop_first(), key)
    }
}

/// The entries of an object; none of another value.
pub open spec fn object_entries(j: Option<JsonView>) -> Seq<(Seq<char>, JsonView)> {
    match j {
        Some(JsonView::Object(entries)) => entries,
        _ => Seq::empty(),
    }
}

/// What was put under a key is found there, and nothing else has changed.
pub proof fn law_with_entry(
    entries: Seq<(Seq<char>, JsonView)>,
    key: Seq<char>,
    value: JsonView,
    other: Seq<char>,
)
    ensures
        lookup(with_entry(entries, key, value), key) == Some(value),
        other != key ==> lookup(with_entry(entries, key, value), other) == lookup(entries, other),
    decreases entries.len(),
{
    let out = with_entry(entries, key, value);
    if entries.len() == 0 {
        assert(out.drop_first() =~= Seq::<(Seq<char>, JsonView)>::empty());
        assert(lookup(out.drop_first(), other) is None);
    } else if entries[0].0 == key {
        assert(out.drop_first() =~= entries.drop_first());
    } else {
        law_with_entry(entries.drop_first(), key, value, other);
        assert(out.drop_first() =~= with_entry(entries.drop_first(), key, value));
    }
}

/// What was taken away under a key is gone, and nothing else has changed.
pub proof fn law_without_entry(
    entries: Seq<(Seq<char>, JsonView)>,
    key: Seq<char>,
    other: Seq<char>,
)
    ensures
        lookup(without_entry(entries, key), key) is None,
        other != key ==> lookup(without_entry(entries, key), other) == lookup(entries, other),
    decreases entries.len(),
{
    let out = without_entry(entries, key);
    if entries.len() > 0 {
        law_without_entry(entries.drop_first(), key, other);
        if entries[0].0 != key {
            assert(out.drop_first() =~= without_entry(entries.drop_first(), key));
        }
    }
}

proof fn lemma_lookup_skip(entries: Seq<(Seq<char>, JsonView)>, key: Seq<char>, at: int)
    requires
        0 <= at <= entries.len(),
        forall|k: int| 0 <= k < at ==> (#[trigger] entries[k]).0 != key,
    ensures
        lookup(entries, key) == lookup(entries.skip(at), key),
    decreases at,
{
    if at == 0 {
        assert(entries.skip(0) =~= entries);
    } else {
        let rest = entries.drop_first();
        assert(entries[0].0 != key);
        assert forall|k: int| 0 <= k < at - 1 implies (#[trigger] rest[k]).0 != key by {
            assert(entries[k + 1].0 != key);
        }
        lemma_lookup_skip(rest, key, at - 1);
        assert(rest.skip(at - 1) =~= entries.skip(at));
    }
}

proof fn lemma_with_entry_at(
    entries: Seq<(Seq<char>, JsonView)>,
    key: Seq<char>,
    value: JsonView,
    at: int,
)
    requires
        0 <= at <= entries.len(),
        forall|k: int| 0 <= k < at ==> (#[trigger] entries[k]).0 != key,
        at < entries.len() ==> entries[at].0 == key,
    ensures
        with_entry(entries, key, value) == if at < entries.len() {
            entries.update(at, (key, value))
        } else {
            entries.push((key, value))
        },
    decreases at,
{
    if at == 0 {
        if entries.len() > 0 {
            assert(seq![(key, value)] + entries.drop_first() =~= entries.update(0, (key, value)));
        } else {
            assert(entries.push((key, value)) =~= seq![(key, value)]);
        }
    } else {
        let rest = entries.drop_first();
        assert(entries[0].0 != key);
        assert forall|k: int| 0 <= k < at - 1 implies (#[trigger] rest[k]).0 != key by {
            assert(entries[k + 1].0 != key);
        }
        lemma_with_entry_at(rest, key, value, at - 1);
        if at < entries.len() {
            assert(seq![entries[0]] + rest.update(at - 1, (key, value)) =~= entries.update(
                at,
                (key, value),
            ));
        } else {
            assert(seq![entries[0]] + rest.push((key, value)) =~= entries.push((key, value)));
        }
    }
}

proof fn lemma_without_entry_snoc(
    entries: Seq<(Seq<char>, JsonView)>,
    key: Seq<char>,
)
    requires
        entries.len() > 0,
    ensures
        without_entry(entries, key) == without_entry(entries.drop_last(), key)
            + if entries.last().0 == key {
            Seq::<(Seq<char>, JsonView)>::empty()
        } else {
            seq![entries.last()]
        },
    decreases entries.len(),
{
    let tail = if entries.last().0 == key {
        Seq::<(Seq<char>, JsonView)>::empty()
    } else {
        seq![entries.last()]
    };
    if entries.len() == 1 {
        assert(entries.drop_first() =~= Seq::<(Seq<char>, JsonView)>::empty());
        assert(entries.drop_last() =~= Seq::<(Seq<char>, JsonView)>::empty());
        assert(without_entry(entries, key) =~= without_entry(entries.drop_last(), key) + tail);
    } else {
        let rest = entries.drop_first();
        lemma_without_entry_snoc(rest, key);
        assert(rest.drop_last() =~= entries.drop_last().drop_first());
        assert(entries.drop_last()[0] == entries[0]);
        assert(without_entry(entries, key) =~= without_entry(entries.drop_last(), key) + tail);
    }
}

/// Reading the text of an unsigned number gives the number back.
pub proof fn law_uint_round_trip(n: nat)
    requires
        n <= u64::MAX,
    ensures
        uint_of(decimal(n)) == Some(n),
{
    crate::text::law_decimal_round_trip(n, u64::MAX as nat);
    crate::text::lemma_decimal_value(n);
    assert(is_digit(decimal(n)[0]));
}

/// Reading the text of a signed number gives the number back.
pub proof fn law_int_round_trip(n: int)
    requires
        i64::MIN <= n <= i64::MAX,
    ensures
        int_of(int_text(n)) == Some(n),
{
    let size: nat = if n < 0 { (-n) as nat } else { n as nat };
    crate::text::lemma_decimal_value(size);
    assert(is_digit(decimal(size)[0]));
    if n < 0 {
        crate::text::law_decimal_round_trip(size, 0x8000_0000_0000_0000);
        assert(int_text(n).skip(1) =~= decimal(size));
        assert(int_text(n)[1] == decimal(size)[0]);
    } else {
        crate::text::law_decimal_round_trip(size, i64::MAX as nat);
    }
}

/// Reads a number's text as an unsigned number.
pub fn uint_value(number: &str) -> (out: Option<u64>)
    ensures
        match out {
            Some(n) => uint_of(number@) == Some(n as nat),
            None => uint_of(number@) is None,
        },
{
    let chars = crate::text::chars_of(number);
    if chars.len() == 0 || !('0' <= chars[0] && chars[0] <= '9') {
        return None;
    }
    parse_unsigned(number, u64::MAX)
}

/// Reads a number's text as a signed number.
pub fn int_value(number: &str) -> (out: Option<i64>)
    ensures
        match out {
            Some(n) => int_of(number@) == Some(n as int),
            None => int_of(number@) is None,
        },
{
    let chars = crate::text::chars_of(number);
    if chars.len() > 1 && chars[0] == '-' && '0' <= chars[1] && chars[1] <= '9' {
        let digits = crate::text::text_of(&chars, 1, chars.len());
        proof {
            assert(digits@ =~= number@.skip(1));
        }
        match parse_unsigned(digits.as_str(), 0x8000_0000_0000_0000) {
            Some(n) => if n == 0x8000_0000_0000_0000 {
                Some(i64::MIN)
            } else {
                Some(-(n as i64))
            },
            None => None,
        }
    } else if chars.len() > 0 && '0' <= chars[0] && chars[0] <= '9' {
        match parse_unsigned(number, i64::MAX as u64) {
            Some(n) => Some(n as i64),
            None => None,
        }
    } else {
        None
    }
}

/// The digits of a signed number.
pub fn signed_text(n: i64) -> (out: String)
    ensures
        out@ == int_text(n as int),
{
    if n < 0 {
        let size: u64 = if n == i64::MIN { 0x8000_0000_0000_0000 } else { (-n) as u64 };
        let digits = decimal_text(size);
        let text = crate::text::cat("-", digits.as_str());
        proof {
            reveal_strlit("-");
            assert(text@ =~= seq!['-'] + decimal(size as nat));
        }
        text
    } else {
        decimal_text(n as u64)
    }
}

impl Json {
    /// A text value.
    pub fn text(s: &str) -> (j: Json)
        ensures
            j@ == JsonView::Text(s@),
    {
        Json::Text(owned(s))
    }

    /// A text value, or null.
    pub fn opt_text(s: &Option<String>) -> (j: Json)
        ensures
            j@ == opt_text_json(opt_view(*s)),
    {
        match s {
            Some(s) => Json::Text(s.clone()),
            None => Json::Null,
        }
    }

    /// An unsigned number.
    pub fn unsigned(n: u64) -> (j: Json)
        ensures
            j@ == JsonView::Number(decimal(n as nat)),
    {
        Json::Number(decimal_text(n))
    }

    /// A signed number.
    pub fn signed(n: i64) -> (j: Json)
        ensures
            j@ == JsonView::Number(int_text(n as int)),
    {
        Json::Number(signed_text(n))
    }

    /// An object with the given entries.
    pub fn object(entries: Vec<(String, Json)>) -> (j: Json)
        ensures
            j@ == JsonView::Object(entries_view(entries@)),
    {
        broadcast use lemma_json_object_view;

        Json::Object(entries)
    }

    /// A list of the given values.
    pub fn list(items: Vec<Json>) -> (j: Json)
        ensures
            j@ == JsonView::List(list_view(items@)),
    {
        broadcast use lemma_json_list_view;

        Json::List(items)
    }

    /// The value under a key of an object.
    pub fn get(&self, key: &str) -> (out: Option<&Json>)
        ensures
            match out {
                Some(j) => field(self@, key@) == Some(j@),
                None => field(self@, key@) is None,
            },
    {
        broadcast use lemma_json_object_view;

        match self {
            Json::Object(entries) => {
                let ghost all = entries_view(entries@);
                let mut i: usize = 0;
                while i < entries.len()
                    invariant
                        i <= entries@.len(),
                        all == entries_view(entries@),
                        self@ == JsonView::Object(all),
                        forall|k: int| 0 <= k < i ==> (#[trigger] all[k]).0 != key@,
                    decreases entries@.len() - i,
                {
                    if same(entries[i].0.as_str(), key) {
                        proof {
                            lemma_lookup_skip(all, key@, i as int);
                            assert(all.skip(i as int)[0] == all[i as int]);
                        }
                        return Some(&entries[i].1);
                    }
                    i = i + 1;
                }
                proof {
                    lemma_lookup_skip(all, key@, i as int);
                }
                None
            },
            _ => None,
        }
    }

    /// The text under a key.
    pub fn get_text(&self, key: &str) -> (out: Option<String>)
        ensures
            opt_view(out) == text_field(self@, key@),
    {
        match self.get(key) {
            Some(Json::Text(s)) => Some(s.clone()),
            _ => None,
        }
    }

    /// The truth value under a key.
    pub fn get_bool(&self, key: &str) -> (out: Option<bool>)
        ensures
            out == bool_field(self@, key@),
    {
        match self.get(key) {
            Some(Json::Bool(b)) => Some(*b),
            _ => None,
        }
    }

    /// The unsigned number under a key.
    pub fn get_uint(&self, key: &str) -> (out: Option<u64>)
        ensures
            match out {
                Some(n) => uint_field(self@, key@) == Some(n as nat),
                None => uint_field(self@, key@) is None,
            },
    {
        match self.get(key) {
            Some(Json::Number(n)) => uint_value(n.as_str()),
            _ => None,
        }
    }

    /// The signed number under a key.
    pub fn get_int(&self, key: &str) -> (out: Option<i64>)
        ensures
            match out {
                Some(n) => int_field(self@, key@) == Some(n as int),
                None => int_field(self@, key@) is None,
            },
    {
        match self.get(key) {
            Some(Json::Number(n)) => int_value(n.as_str()),
            _ => None,
        }
    }

    /// The floating-point value under a key, as a number's text.
    pub fn get_float(&self, key: &str) -> (out: Option<String>)
        ensures
            opt_view(out) == float_field(self@, key@),
    {
        match self.get(key) {
            Some(Json::Number(n)) => number_as_float(n.as_str()),
            _ => None,
        }
    }
}

/// The entries of an object value, copied; none of another value.
pub fn copy_entries(j: &Option<Json>) -> (out: Vec<(String, Json)>)
    ensures
        entries_view(out@) == object_entries(json_opt_view(*j)),
{
    broadcast use lemma_json_object_view;

    let mut out: Vec<(String, Json)> = Vec::new();
    if let Some(Json::Object(entries)) = j {
        let mut i: usize = 0;
        while i < entries.len()
            invariant
                i <= entries@.len(),
                out@.len() == i,
                forall|k: int|
                    0 <= k < i ==> (#[trigger] out@[k]).0@ == entries@[k].0@ && out@[k].1@
                        == entries@[k].1@,
            decreases entries@.len() - i,
        {
            out.push((entries[i].0.clone(), entries[i].1.duplicate_json()));
            i = i + 1;
        }
        proof {
            assert(entries_view(out@) =~= entries_view(entries@));
        }
    } else {
        proof {
            assert(entries_view(out@) =~= Seq::<(Seq<char>, JsonView)>::empty());
        }
    }
    out
}

/// The view of a value that may be missing.
pub open spec fn json_opt_view(j: Option<Json>) -> Option<JsonView> {
    match j {
        Some(j) => Some(j@),
        None => None,
    }
}

/// Copies a value that may be missing.
pub fn copy_opt_json(j: &Option<Json>) -> (out: Option<Json>)
    ensures
        json_opt_view(out) == json_opt_view(*j),
{
    match j {
        Some(j) => Some(j.duplicate_json()),
        None => None,
    }
}

/// An entry of an object.
pub fn entry(key: &str, value: Json) -> (e: (String, Json))
    ensures
        e.0@ == key@,
        e.1 == value,
{
    (owned(key), value)
}

/// A record that is given as a list of its fields, in the order of their names, as an object;
/// any other value as it is. The fields behind the first `least` may be missing.
pub open spec fn named_items(j: JsonView, names: Seq<Seq<char>>, least: nat) -> JsonView {
    match j {
        JsonView::List(items) => if least <= items.len() <= names.len() {
            JsonView::Object(Seq::new(items.len(), |i: int| (names[i], items[i])))
        } else {
            j
        },
        _ => j,
    }
}

pub open spec fn name_views(names: Seq<&str>) -> Seq<Seq<char>> {
    names.map_values(|name: &str| name@)
}

/// Gives the fields of a record that is a list their names.
pub fn name_items(j: &Json, names: &Vec<&str>, least: usize) -> (out: Json)
    ensures
        out@ == named_items(j@, name_views(names@), least as nat),
{
    broadcast use {lemma_json_list_view, lemma_json_object_view};

    match j {
        Json::List(items) => {
            if items.len() < least || items.len() > names.len() {
                return j.duplicate_json();
            }
            let mut entries: Vec<(String, Json)> = Vec::new();
            let mut i: usize = 0;
            while i < items.len()
                invariant
                    i <= items@.len() <= names@.len(),
                    entries@.len() == i,
                    forall|k: int|
                        0 <= k < i ==> (#[trigger] entries@[k]).0@ == names@[k]@ && entries@[k].1@
                            == items@[k]@,
                decreases items@.len() - i,
            {
                entries.push(entry(names[i], items[i].duplicate_json()));
                i = i + 1;
            }
            proof {
                assert(entries_view(entries@) =~= named_items(
                    j@,
                    name_views(names@),
                    least as nat,
                )->Object_0);
            }
            Json::object(entries)
        },
        _ => j.duplicate_json(),
    }
}

/// The value of the first entry with a key, found at its place.
pub proof fn lemma_lookup_at(entries: Seq<(Seq<char>, JsonView)>, key: Seq<char>, at: int)
    requires
        0 <= at < entries.len(),
        entries[at].0 == key,
        forall|k: int| 0 <= k < at ==> (#[trigger] entries[k]).0 != key,
    ensures
        lookup(entries, key) == Some(entries[at].1),
{
    lemma_lookup_skip(entries, key, at);
    assert(entries.skip(at)[0] == entries[at]);
}

/// Puts a value under a key.
pub fn put_entry(entries: &mut Vec<(String, Json)>, key: &str, value: Json)
    ensures
        entries_view(final(entries)@) == with_entry(entries_view(old(entries)@), key@, value@),
{
    let ghost before = entries_view(entries@);
    let mut i: usize = 0;
    while i < entries.len() && !same(entries[i].0.as_str(), key)
        invariant
            i <= entries@.len(),
            before == entries_view(entries@),
            forall|k: int| 0 <= k < i ==> (#[trigger] before[k]).0 != key@,
        ensures
            i < entries@.len() ==> before[i as int].0 == key@,
        decreases entries@.len() - i,
    {
        i = i + 1;
    }
    proof {
        lemma_with_entry_at(before, key@, value@, i as int);
    }
    let entry = (owned(key), value);
    if i < entries.len() {
        entries.set(i, entry);
        proof {
            assert(entries_view(entries@) =~= before.update(i as int, (key@, value@)));
        }
    } else {
        entries.push(entry);
        proof {
            assert(entries_view(entries@) =~= before.push((key@, value@)));
        }
    }
}

/// Takes away what stands under a key.
pub fn drop_entry(entries: Vec<(String, Json)>, key: &str) -> (out: Vec<(String, Json)>)
    ensures
        entries_view(out@) == without_entry(entries_view(entries@), key@),
{
    let ghost before = entries_view(entries@);
    let mut out: Vec<(String, Json)> = Vec::new();
    let mut i: usize = 0;
    proof {
        assert(entries_view(out@) =~= Seq::<(Seq<char>, JsonView)>::empty());
        assert(before.take(0) =~= Seq::<(Seq<char>, JsonView)>::empty());
    }
    while i < entries.len()
        invariant
            i <= entries@.len(),
            before == entries_view(entries@),
            entries_view(out@) == without_entry(before.take(i as int), key@),
        decreases entries@.len() - i,
    {
        proof {
            lemma_without_entry_snoc(before.take(i + 1), key@);
            assert(before.take(i + 1).drop_last() =~= before.take(i as int));
            assert(before.take(i + 1).last() == before[i as int]);
        }
        let ghost kept = entries_view(out@);
        if !same(entries[i].0.as_str(), key) {
            out.push((entries[i].0.clone(), entries[i].1.duplicate_json()));
            proof {
                assert(entries_view(out@) =~= kept.push(before[i as int]));
                assert(kept + seq![before[i as int]] =~= kept.push(before[i as int]));
            }
        } else {
            proof {
                assert(kept + Seq::<(Seq<char>, JsonView)>::empty() =~= kept);
            }
        }
        i = i + 1;
    }
    proof {
        assert(before.take(i as int) =~= before);
    }
    out
}

} // verus!
