//! The payload: a flat mapping from field names to scalar values.

use crate::value::{FieldValue, FieldView};
use vstd::prelude::*;

verus! {

/// One named field of a payload.
#[derive(Clone, Debug, PartialEq, Eq)]
pub struct Field {
    pub name: String,
    pub value: FieldValue,
}

/// The mapping that a sequence of fields stands for: a later field replaces
/// an earlier one of the same name.
pub open spec fn fields_map(s: Seq<Field>) -> Map<Seq<char>, FieldView>
    decreases s.len(),
{
    if s.len() == 0 {
        Map::empty()
    } else {
        fields_map(s.drop_last()).insert(s.last().name@, s.last().value@)
    }
}

/// No two fields of the sequence share a name.
pub open spec fn distinct_names(s: Seq<Field>) -> bool {
    forall|i: int, j: int| 0 <= i < j < s.len() ==> s[i].name@ != s[j].name@
}

/// A name is in the mapping exactly when some field carries it.
pub proof fn lemma_fields_map_dom(s: Seq<Field>, name: Seq<char>)
    ensures
        fields_map(s).contains_key(name) <==> exists|i: int| 0 <= i < s.len() && s[i].name@ == name,
    decreases s.len(),
{
    if s.len() > 0 {
        let front = s.drop_last();
        lemma_fields_map_dom(front, name);
        if fields_map(s).contains_key(name) {
            if s.last().name@ == name {
                assert(s[s.len() - 1].name@ == name);
            } else {
                let i = choose|i: int| 0 <= i < front.len() && front[i].name@ == name;
                assert(s[i].name@ == name);
            }
        }
        if exists|i: int| 0 <= i < s.len() && s[i].name@ == name {
            let i = choose|i: int| 0 <= i < s.len() && s[i].name@ == name;
            if i < s.len() - 1 {
                assert(front[i].name@ == name);
            }
        }
    }
}

/// Where names are distinct, each field's name maps to that field's value.
pub proof fn lemma_fields_map_at(s: Seq<Field>, i: int)
    requires
        distinct_names(s),
        0 <= i < s.len(),
    ensures
        fields_map(s).contains_key(s[i].name@),
        fields_map(s)[s[i].name@] == s[i].value@,
    decreases s.len(),
{
    if i < s.len() - 1 {
        let front = s.drop_last();
        assert(distinct_names(front));
        lemma_fields_map_at(front, i);
        assert(front[i] == s[i]);
    }
}

/// Where names are distinct, putting a field in the place of one with the
/// same name is an insertion into the mapping, and names stay distinct.
pub proof fn lemma_fields_map_replace(s: Seq<Field>, i: int, field: Field)
    requires
        distinct_names(s),
        0 <= i < s.len(),
        s[i].name@ == field.name@,
    ensures
        distinct_names(s.update(i, field)),
        fields_map(s.update(i, field)) == fields_map(s).insert(field.name@, field.value@),
    decreases s.len(),
{
    let t = s.update(i, field);
    assert(distinct_names(t)) by {
        assert forall|a: int, b: int| 0 <= a < b < t.len() implies t[a].name@ != t[b].name@ by {
            assert(t[a].name@ == s[a].name@);
            assert(t[b].name@ == s[b].name@);
        }
    }
    let front = s.drop_last();
    if i == s.len() - 1 {
        assert(t.drop_last() =~= front);
        assert(fields_map(t) =~= fields_map(s).insert(field.name@, field.value@));
    } else {
        assert(distinct_names(front));
        lemma_fields_map_replace(front, i, field);
        assert(t.drop_last() =~= front.update(i, field));
        assert(s.last().name@ != field.name@);
        assert(fields_map(t) =~= fields_map(s).insert(field.name@, field.value@));
    }
}

/// Where names are distinct, the mapping has as many names as there are
/// fields.
pub proof fn lemma_fields_map_len(s: Seq<Field>)
    requires
        distinct_names(s),
    ensures
        fields_map(s).dom().finite(),
        fields_map(s).dom().len() == s.len(),
    decreases s.len(),
{
    if s.len() > 0 {
        let front = s.drop_last();
        assert(distinct_names(front));
        lemma_fields_map_len(front);
        lemma_fields_map_dom(front, s.last().name@);
        if fields_map(front).contains_key(s.last().name@) {
            let i = choose|i: int| 0 <= i < front.len() && front[i].name@ == s.last().name@;
            assert(s[i].name@ == s[s.len() - 1].name@);
        }
    }
}

/// A flat mapping from field names to values, in which a name occurs once.
#[derive(Debug)]
pub struct Payload {
    fields: Vec<Field>,
}

impl View for Payload {
    type V = Map<Seq<char>, FieldView>;

    closed spec fn view(&self) -> Map<Seq<char>, FieldView> {
        fields_map(self.fields@)
    }
}

impl Payload {
    #[verifier::type_invariant]
    spec fn names_are_distinct(self) -> bool {
        distinct_names(self.fields@)
    }

    /// A payload without fields.
    pub fn new() -> (r: Payload)
        ensures
            r@ == Map::<Seq<char>, FieldView>::empty(),
    {
        Payload { fields: Vec::new() }
    }

    fn position(&self, name: &String) -> (r: Option<usize>)
        ensures
            match r {
                Some(i) => i < self.fields@.len() && self.fields@[i as int].name@ == name@,
                None => forall|i: int| 0 <= i < self.fields@.len() ==> self.fields@[i].name@ != name@,
            },
    {
        let mut i: usize = 0;
        while i < self.fields.len()
            invariant
                i <= self.fields@.len(),
                forall|j: int| 0 <= j < i ==> self.fields@[j].name@ != name@,
            decreases self.fields@.len() - i,
        {
            if self.fields[i].name == *name {
                return Some(i);
            }
            i += 1;
        }
        None
    }

    /// The number of fields.
    pub fn len(&self) -> (r: usize)
        ensures
            self@.dom().finite(),
            r == self@.dom().len(),
    {
        proof {
            use_type_invariant(self);
            lemma_fields_map_len(self.fields@);
        }
        self.fields.len()
    }

    /// Whether the payload has no field.
    pub fn is_empty(&self) -> (r: bool)
        ensures
            r == (self@ == Map::<Seq<char>, FieldView>::empty()),
    {
        proof {
            use_type_invariant(self);
            lemma_fields_map_len(self.fields@);
            if self.fields@.len() == 0 {
                assert(self@ =~= Map::<Seq<char>, FieldView>::empty());
            } else {
                lemma_fields_map_at(self.fields@, 0);
            }
        }
        self.fields.len() == 0
    }

    /// Whether a field of this name is present.
    pub fn contains_key(&self, name: &str) -> (r: bool)
        ensures
            r == self@.contains_key(name@),
    {
        self.get(name).is_some()
    }

    /// The value of the field of this name, if it is present.
    pub fn get(&self, name: &str) -> (r: Option<&FieldValue>)
        ensures
            match r {
                Some(v) => self@.contains_key(name@) && v@ == self@[name@],
                None => !self@.contains_key(name@),
            },
    {
        let owned = name.to_owned();
        proof {
            use_type_invariant(self);
            lemma_fields_map_dom(self.fields@, name@);
        }
        match self.position(&owned) {
            Some(i) => {
                proof {
                    lemma_fields_map_at(self.fields@, i as int);
                }
                Some(&self.fields[i].value)
            },
            None => None,
        }
    }

    /// Sets the field of this name to the value, replacing the value it had
    /// if it was present.
    pub fn insert(&mut self, name: String, value: FieldValue)
        ensures
            final(self)@ == old(self)@.insert(name@, value@),
    {
        proof {
            use_type_invariant(&*self);
        }
        let field = Field { name, value };
        let found = self.position(&field.name);
        let mut fields: Vec<Field> = Vec::new();
        std::mem::swap(&mut self.fields, &mut fields);
        match found {
            Some(i) => {
                proof {
                    lemma_fields_map_replace(fields@, i as int, field);
                }
                fields.set(i, field);
            },
            None => {
                let ghost before = fields@;
                fields.push(field);
                proof {
                    assert(fields@.drop_last() =~= before);
                }
            },
        }
        self.fields = fields;
    }

    /// The fields of the payload, each name once.
    pub fn fields(&self) -> (r: &Vec<Field>)
        ensures
            distinct_names(r@),
            fields_map(r@) == self@,
    {
        proof {
            use_type_invariant(self);
        }
        &self.fields
    }
}

} // verus!
