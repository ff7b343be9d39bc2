//! The extra fields of a channel: a JSON object whose scalar members are
//! merged into the payload.

use crate::error::{EmissaryError, ErrorView};
use crate::payload::{lemma_fields_map_at, lemma_fields_map_dom, Payload};
use crate::value::{decimal, decimal_text, FieldValue, FieldView};
use serde_json::Value;
use vstd::prelude::*;

verus! {

/// A JSON number: its value as a signed 64-bit integer where it has one, and
/// its text.
#[derive(Clone, Debug, PartialEq, Eq)]
pub struct JsonNumber {
    pub integer: Option<i64>,
    pub text: String,
}

/// The value of one member of a JSON object, as far as a payload reads it:
/// a scalar in full, an array or a nested object by its kind alone.
#[derive(Clone, Debug, PartialEq, Eq)]
pub enum JsonValue {
    Null,
    Bool(bool),
    Number(JsonNumber),
    Str(String),
    Array,
    Object,
}

/// One member of a JSON object.
#[derive(Clone, Debug, PartialEq, Eq)]
pub struct JsonMember {
    pub name: String,
    pub value: JsonValue,
}

/// The mathematical value of a [`JsonValue`].
pub enum JsonView {
    Null,
    Bool(bool),
    Number { integer: Option<i64>, text: Seq<char> },
    Str(Seq<char>),
    Array,
    Object,
}

/// The mathematical value of a [`JsonMember`].
pub struct MemberView {
    pub name: Seq<char>,
    pub value: JsonView,
}

impl View for JsonValue {
    type V = JsonView;

    open spec fn view(&self) -> JsonView {
        match self {
            JsonValue::Null => JsonView::Null,
            JsonValue::Bool(b) => JsonView::Bool(*b),
            JsonValue::Number(n) => JsonView::Number { integer: n.integer, text: n.text@ },
            JsonValue::Str(s) => JsonView::Str(s@),
            JsonValue::Array => JsonView::Array,
            JsonValue::Object => JsonView::Object,
        }
    }
}

impl View for JsonMember {
    type V = MemberView;

    open spec fn view(&self) -> MemberView {
        MemberView { name: self.name@, value: self.value@ }
    }
}

/// The members of a vector, each by its mathematical value.
pub open spec fn members_view(members: Seq<JsonMember>) -> Seq<MemberView> {
    members.map_values(|m: JsonMember| m@)
}

/// No two members share a name.
pub open spec fn distinct_members(members: Seq<MemberView>) -> bool {
    forall|i: int, j: int| 0 <= i < j < members.len() ==> members[i].name != members[j].name
}

/// The field that a member's value becomes. A string, a number and a
/// boolean are taken; a number is an integer where it has a signed 64-bit
/// value and a decimal number otherwise. Null, an array and a nested object
/// are skipped.
pub open spec fn decode(value: JsonView) -> Option<FieldView> {
    match value {
        JsonView::Str(s) => Some(FieldView::Str(s)),
        JsonView::Number { integer: Some(i), text } => Some(FieldView::Int(i)),
        JsonView::Number { integer: None, text } => Some(FieldView::Float(text)),
        JsonView::Bool(b) => Some(FieldView::Bool(b)),
        JsonView::Null => None,
        JsonView::Array => None,
        JsonView::Object => None,
    }
}

/// The mapping after one member is merged in: its field replaces whatever
/// the name held; a skipped member changes nothing.
pub open spec fn merge_member(fields: Map<Seq<char>, FieldView>, member: MemberView) -> Map<
    Seq<char>,
    FieldView,
> {
    match decode(member.value) {
        Some(v) => fields.insert(member.name, v),
        None => fields,
    }
}

/// The mapping after the members are merged in, first to last.
pub open spec fn merge_members(fields: Map<Seq<char>, FieldView>, members: Seq<MemberView>) -> Map<
    Seq<char>,
    FieldView,
>
    decreases members.len(),
{
    if members.len() == 0 {
        fields
    } else {
        merge_member(merge_members(fields, members.drop_last()), members.last())
    }
}

/// A name is in the merged mapping exactly when it was there before or a
/// member that is not skipped carries it.
pub proof fn lemma_merge_members_names(
    fields: Map<Seq<char>, FieldView>,
    members: Seq<MemberView>,
    name: Seq<char>,
)
    ensures
        merge_members(fields, members).contains_key(name) <==> fields.contains_key(name) || exists|
            i: int,
        |
            0 <= i < members.len() && members[i].name == name && decode(members[i].value) is Some,
    decreases members.len(),
{
    if members.len() > 0 {
        let front = members.drop_last();
        let last = members.last();
        lemma_merge_members_names(fields, front, name);
        if merge_members(fields, members).contains_key(name) && !fields.contains_key(name) {
            if merge_members(fields, front).contains_key(name) {
                let i = choose|i: int|
                    0 <= i < front.len() && front[i].name == name && decode(front[i].value) is Some;
                assert(members[i].name == name && decode(members[i].value) is Some);
            } else {
                let i = members.len() - 1;
                assert(members[i].name == name && decode(members[i].value) is Some);
            }
        }
        if exists|i: int|
            0 <= i < members.len() && members[i].name == name && decode(members[i].value) is Some {
            let i = choose|i: int|
                0 <= i < members.len() && members[i].name == name && decode(members[i].value)
                    is Some;
            if i < members.len() - 1 {
                assert(front[i].name == name && decode(front[i].value) is Some);
            }
        }
    }
}

/// A name that only skipped members carry, or none, keeps what it had.
pub proof fn lemma_merge_members_keeps(
    fields: Map<Seq<char>, FieldView>,
    members: Seq<MemberView>,
    name: Seq<char>,
)
    requires
        forall|i: int|
            0 <= i < members.len() && members[i].name == name ==> decode(members[i].value) is None,
    ensures
        merge_members(fields, members).contains_key(name) == fields.contains_key(name),
        fields.contains_key(name) ==> merge_members(fields, members)[name] == fields[name],
    decreases members.len(),
{
    if members.len() > 0 {
        let front = members.drop_last();
        assert forall|i: int| 0 <= i < front.len() && front[i].name == name implies decode(
            front[i].value,
        ) is None by {
            assert(front[i] == members[i]);
        }
        lemma_merge_members_keeps(fields, front, name);
        let last = members[members.len() - 1];
        assert(last.name == name ==> decode(last.value) is None);
    }
}

/// Where each name occurs once, a member that is not skipped is in the
/// merged mapping with its decoded value, and a skipped member leaves its
/// name with what it had.
pub proof fn lemma_merge_members_at(
    fields: Map<Seq<char>, FieldView>,
    members: Seq<MemberView>,
    i: int,
)
    requires
        distinct_members(members),
        0 <= i < members.len(),
    ensures
        match decode(members[i].value) {
            Some(v) => merge_members(fields, members).contains_key(members[i].name)
                && merge_members(fields, members)[members[i].name] == v,
            None => merge_members(fields, members).contains_key(members[i].name)
                == fields.contains_key(members[i].name) && (fields.contains_key(members[i].name)
                ==> merge_members(fields, members)[members[i].name] == fields[members[i].name]),
        },
    decreases members.len(),
{
    let front = members.drop_last();
    let name = members[i].name;
    if i == members.len() - 1 {
        assert forall|j: int| 0 <= j < front.len() implies front[j].name != name by {
            assert(front[j] == members[j]);
        }
        lemma_merge_members_keeps(fields, front, name);
    } else {
        assert(distinct_members(front));
        assert(front[i] == members[i]);
        lemma_merge_members_at(fields, front, i);
        assert(members.last().name != name);
    }
}

proof fn lemma_same_members_agree(
    fields: Map<Seq<char>, FieldView>,
    a: Seq<MemberView>,
    b: Seq<MemberView>,
    name: Seq<char>,
)
    requires
        distinct_members(a),
        distinct_members(b),
        a.to_multiset() == b.to_multiset(),
    ensures
        merge_members(fields, a).contains_key(name) == merge_members(fields, b).contains_key(name),
        merge_members(fields, a).contains_key(name) ==> merge_members(fields, a)[name]
            == merge_members(fields, b)[name],
{
    a.to_multiset_ensures();
    b.to_multiset_ensures();
    if exists|i: int| 0 <= i < a.len() && a[i].name == name {
        let i = choose|i: int| 0 <= i < a.len() && a[i].name == name;
        assert(a.contains(a[i]));
        assert(b.to_multiset().count(a[i]) > 0);
        assert(b.contains(a[i]));
        let j = choose|j: int| 0 <= j < b.len() && b[j] == a[i];
        lemma_merge_members_at(fields, a, i);
        lemma_merge_members_at(fields, b, j);
    } else {
        assert forall|j: int| 0 <= j < b.len() implies b[j].name != name by {
            assert(b.contains(b[j]));
            assert(a.to_multiset().count(b[j]) > 0);
            assert(a.contains(b[j]));
            let i = choose|i: int| 0 <= i < a.len() && a[i] == b[j];
            assert(a[i].name == b[j].name);
        }
        lemma_merge_members_keeps(fields, a, name);
        lemma_merge_members_keeps(fields, b, name);
    }
}

/// Where each name occurs once, the order of the members does not matter:
/// two sequences of the same members give the same mapping.
pub proof fn lemma_merge_members_any_order(
    fields: Map<Seq<char>, FieldView>,
    a: Seq<MemberView>,
    b: Seq<MemberView>,
)
    requires
        distinct_members(a),
        distinct_members(b),
        a.to_multiset() == b.to_multiset(),
    ensures
        merge_members(fields, a) == merge_members(fields, b),
{
    let ma = merge_members(fields, a);
    let mb = merge_members(fields, b);
    assert forall|name: Seq<char>| #[trigger] ma.dom().contains(name) == mb.dom().contains(name) by {
        lemma_same_members_agree(fields, a, b, name);
    }
    assert forall|name: Seq<char>| ma.dom().contains(name) implies #[trigger] ma[name]
        == mb[name] by {
        lemma_same_members_agree(fields, a, b, name);
    }
    assert(ma =~= mb);
}

impl JsonValue {
    /// The field that this value becomes in a payload, or `None` where the
    /// value is skipped.
    pub fn decode(&self) -> (r: Option<FieldValue>)
        ensures
            match r {
                Some(v) => decode(self@) == Some(v@),
                None => decode(self@) is None,
            },
    {
        match self {
            JsonValue::Str(s) => Some(FieldValue::Str(s.clone())),
            JsonValue::Number(n) => match n.integer {
                Some(i) => Some(FieldValue::Int(i)),
                None => Some(FieldValue::Float(n.text.clone())),
            },
            JsonValue::Bool(b) => Some(FieldValue::Bool(*b)),
            JsonValue::Null => None,
            JsonValue::Array => None,
            JsonValue::Object => None,
        }
    }
}

impl Payload {
    /// Merges the members into the payload, first to last: each scalar
    /// member sets the field of its name, each other member is skipped.
    pub fn merge(&mut self, members: &Vec<JsonMember>)
        ensures
            final(self)@ == merge_members(old(self)@, members_view(members@)),
    {
        let ghost all = members_view(members@);
        let mut i: usize = 0;
        while i < members.len()
            invariant
                i <= members@.len(),
                all == members_view(members@),
                self@ == merge_members(old(self)@, all.take(i as int)),
            decreases members@.len() - i,
        {
            let member = &members[i];
            proof {
                assert(all.take(i as int + 1).drop_last() =~= all.take(i as int));
                assert(all.take(i as int + 1).last() == member@);
            }
            match member.value.decode() {
                Some(value) => {
                    self.insert(member.name.clone(), value);
                },
                None => {},
            }
            i += 1;
        }
        proof {
            assert(all.take(i as int) =~= all);
        }
    }
}

/// The JSON value that a field is written as: an integer and a decimal
/// number as a number, a string as a string, a boolean as a boolean.
pub open spec fn encode(value: FieldView) -> JsonView {
    match value {
        FieldView::Int(i) => JsonView::Number { integer: Some(i), text: decimal(i as int) },
        FieldView::Float(text) => JsonView::Number { integer: None, text },
        FieldView::Str(s) => JsonView::Str(s),
        FieldView::Bool(b) => JsonView::Bool(b),
    }
}

/// The members are the mapping written as a JSON object: one member for
/// each name, with the field's value encoded, in any order.
pub open spec fn written(fields: Map<Seq<char>, FieldView>, members: Seq<MemberView>) -> bool {
    &&& distinct_members(members)
    &&& forall|i: int|
        0 <= i < members.len() ==> fields.contains_key(#[trigger] members[i].name)
            && members[i].value == encode(fields[members[i].name])
    &&& forall|name: Seq<char>| #[trigger]
        fields.contains_key(name) ==> exists|i: int|
            0 <= i < members.len() && members[i].name == name
}

/// No field is lost or changed by writing it: a written value decodes to
/// the field it was.
pub proof fn lemma_decode_encode(value: FieldView)
    ensures
        decode(encode(value)) == Some(value),
{
}

/// A mapping written as a JSON object and read back, into a mapping without
/// fields, is the same mapping.
pub proof fn lemma_written_reads_back(fields: Map<Seq<char>, FieldView>, members: Seq<MemberView>)
    requires
        written(fields, members),
    ensures
        merge_members(Map::<Seq<char>, FieldView>::empty(), members) == fields,
{
    let empty = Map::<Seq<char>, FieldView>::empty();
    let merged = merge_members(empty, members);
    assert forall|name: Seq<char>| #[trigger]
        merged.dom().contains(name) == fields.dom().contains(name) by {
        lemma_merge_members_names(empty, members, name);
        if fields.contains_key(name) {
            let i = choose|i: int| 0 <= i < members.len() && members[i].name == name;
            lemma_decode_encode(fields[name]);
            assert(members[i].name == name && decode(members[i].value) is Some);
        }
    }
    assert forall|name: Seq<char>| merged.dom().contains(name) implies #[trigger] merged[name]
        == fields[name] by {
        lemma_merge_members_names(empty, members, name);
        let i = choose|i: int|
            0 <= i < members.len() && members[i].name == name && decode(members[i].value) is Some;
        lemma_merge_members_at(empty, members, i);
        lemma_decode_encode(fields[name]);
    }
    assert(merged =~= fields);
}

impl FieldValue {
    /// The JSON value that the field is written as.
    pub fn encode(&self) -> (r: JsonValue)
        ensures
            r@ == encode(self@),
    {
        match self {
            FieldValue::Int(i) => JsonValue::Number(
                JsonNumber { integer: Some(*i), text: decimal_text(*i) },
            ),
            FieldValue::Float(text) => JsonValue::Number(
                JsonNumber { integer: None, text: text.clone() },
            ),
            FieldValue::Str(s) => JsonValue::Str(s.clone()),
            FieldValue::Bool(b) => JsonValue::Bool(*b),
        }
    }
}

impl Payload {
    /// The payload written as a JSON object: one member for each field.
    pub fn members(&self) -> (r: Vec<JsonMember>)
        ensures
            written(self@, members_view(r@)),
    {
        let fields = self.fields();
        let mut out: Vec<JsonMember> = Vec::new();
        let mut i: usize = 0;
        while i < fields.len()
            invariant
                i <= fields@.len(),
                out@.len() == i,
                forall|j: int|
                    0 <= j < i ==> (#[trigger] out@[j]).name@ == fields@[j].name@ && out@[j].value@
                        == encode(fields@[j].value@),
            decreases fields@.len() - i,
        {
            let field = &fields[i];
            out.push(JsonMember { name: field.name.clone(), value: field.value.encode() });
            i += 1;
        }
        proof {
            let members = members_view(out@);
            assert forall|j: int| 0 <= j < members.len() implies self@.contains_key(
                #[trigger] members[j].name,
            ) && members[j].value == encode(self@[members[j].name]) by {
                assert(members[j] == out@[j]@);
                lemma_fields_map_at(fields@, j);
            }
            assert forall|name: Seq<char>| #[trigger] self@.contains_key(name) implies exists|
                j: int,
            |
                0 <= j < members.len() && members[j].name == name by {
                lemma_fields_map_dom(fields@, name);
                let j = choose|j: int| 0 <= j < fields@.len() && fields@[j].name@ == name;
                assert(members[j] == out@[j]@);
            }
            assert(distinct_members(members)) by {
                assert forall|a: int, b: int| 0 <= a < b < members.len() implies members[a].name
                    != members[b].name by {
                    assert(members[a] == out@[a]@);
                    assert(members[b] == out@[b]@);
                }
            }
        }
        out
    }
}

/// The error of the JSON parser; nothing is read from it.
#[verifier::external_type_specification]
#[verifier::external_body]
pub struct ExJsonError(serde_json::Error);

/// What the JSON parser makes of a text: `None` where the text is not JSON,
/// `Some(None)` where it is JSON but no object, else the members of the
/// object, in the order in which the parser's map holds them.
pub uninterp spec fn json_object(text: Seq<char>) -> Option<Option<Seq<MemberView>>>;

/// Calls `serde_json::from_str` for a `serde_json::Value` and hands out the
/// members of the object it finds, through `Value::as_object` and the map's
/// iterator; a number is handed out as what `Number::as_i64` and the
/// number's `to_string` return.
///
/// Believed without proof: the result depends on the text alone; it is an
/// error exactly where the text is not JSON, and `None` exactly where the
/// JSON is no object; the map holds each name once.
#[verifier::external_body]
fn read_members(text: &str) -> (r: Result<Option<Vec<JsonMember>>, serde_json::Error>)
    ensures
        match r {
            Ok(Some(members)) => json_object(text@) == Some(Some(members_view(members@)))
                && distinct_members(members_view(members@)),
            Ok(None) => json_object(text@) == Some(None::<Seq<MemberView>>),
            Err(_) => json_object(text@) is None,
        },
{
    let document: Value = serde_json::from_str(text)?;
    let Some(object) = document.as_object() else { return Ok(None) };
    let mut members = Vec::new();
    for (name, value) in object {
        let value = match value {
            Value::Null => JsonValue::Null,
            Value::Bool(b) => JsonValue::Bool(*b),
            Value::Number(n) => JsonValue::Number(JsonNumber { integer: n.as_i64(), text: n.to_string() }),
            Value::String(s) => JsonValue::Str(s.clone()),
            Value::Array(_) => JsonValue::Array,
            Value::Object(_) => JsonValue::Object,
        };
        members.push(JsonMember { name: name.clone(), value });
    }
    Ok(Some(members))
}

/// Reads the extra fields of a channel: the members of the JSON object that
/// the text holds, `None` where the text is JSON of another kind, and
/// `DataParseError` where it is not JSON.
pub fn parse_data(text: &str) -> (r: Result<Option<Vec<JsonMember>>, EmissaryError>)
    ensures
        match r {
            Ok(Some(members)) => json_object(text@) == Some(Some(members_view(members@)))
                && distinct_members(members_view(members@)),
            Ok(None) => json_object(text@) == Some(None::<Seq<MemberView>>),
            Err(e) => json_object(text@) is None && e@ == ErrorView::DataParseError,
        },
{
    match read_members(text) {
        Ok(members) => Ok(members),
        Err(_) => Err(EmissaryError::DataParseError),
    }
}

} // verus!
