//! Attribute values: the typed literals that an expression refers to through
//! its value placeholders.

use vstd::prelude::*;

verus! {

/// A typed literal of the document store.
///
/// A number travels as its decimal text. The entries of a map are kept in the
/// order in which they were given.
#[derive(Debug, PartialEq)]
pub enum AttributeValue {
    /// Binary data.
    B(Vec<u8>),
    /// A boolean.
    Bool(bool),
    /// A set of binary values.
    Bs(Vec<Vec<u8>>),
    /// A list of values.
    L(Vec<AttributeValue>),
    /// A map from attribute names to values.
    M(Vec<(String, AttributeValue)>),
    /// A number, as text.
    N(String),
    /// A set of numbers, each as text.
    Ns(Vec<String>),
    /// The null value.
    Null(bool),
    /// A string.
    S(String),
    /// A set of strings.
    Ss(Vec<String>),
}

/// What an [`AttributeValue`] is, mathematically.
pub enum ValueModel {
    B(Seq<u8>),
    Bool(bool),
    Bs(Seq<Seq<u8>>),
    L(Seq<ValueModel>),
    M(Seq<(Seq<char>, ValueModel)>),
    N(Seq<char>),
    Ns(Seq<Seq<char>>),
    Null(bool),
    S(Seq<char>),
    Ss(Seq<Seq<char>>),
}

/// The texts of a sequence of strings.
pub open spec fn texts(strings: Seq<String>) -> Seq<Seq<char>> {
    strings.map_values(|s: String| s@)
}

/// The contents of a sequence of byte vectors.
pub open spec fn blobs(vectors: Seq<Vec<u8>>) -> Seq<Seq<u8>> {
    vectors.map_values(|v: Vec<u8>| v@)
}

/// The model of one value.
pub open spec fn value_model(value: AttributeValue) -> ValueModel
    decreases value,
{
    match value {
        AttributeValue::B(bytes) => ValueModel::B(bytes@),
        AttributeValue::Bool(b) => ValueModel::Bool(b),
        AttributeValue::Bs(set) => ValueModel::Bs(blobs(set@)),
        AttributeValue::L(items) => ValueModel::L(
            Seq::new(
                items@.len(),
                |i: int|
                    if 0 <= i < items@.len() {
                        value_model(items@[i])
                    } else {
                        ValueModel::Null(true)
                    },
            ),
        ),
        AttributeValue::M(entries) => ValueModel::M(
            Seq::new(
                entries@.len(),
                |i: int|
                    if 0 <= i < entries@.len() {
                        (entries@[i].0@, value_model(entries@[i].1))
                    } else {
                        (Seq::empty(), ValueModel::Null(true))
                    },
            ),
        ),
        AttributeValue::N(text) => ValueModel::N(text@),
        AttributeValue::Ns(set) => ValueModel::Ns(texts(set@)),
        AttributeValue::Null(b) => ValueModel::Null(b),
        AttributeValue::S(text) => ValueModel::S(text@),
        AttributeValue::Ss(set) => ValueModel::Ss(texts(set@)),
    }
}

/// The models of a sequence of values.
pub open spec fn value_models(values: Seq<AttributeValue>) -> Seq<ValueModel> {
    values.map_values(|v: AttributeValue| value_model(v))
}

impl View for AttributeValue {
    type V = ValueModel;

    open spec fn view(&self) -> ValueModel {
        value_model(*self)
    }
}

/// Copies a vector of strings.
pub(crate) fn clone_strings(strings: &Vec<String>) -> (copy: Vec<String>)
    ensures
        texts(copy@) == texts(strings@),
{
    let mut copy: Vec<String> = Vec::new();
    let mut i: usize = 0;
    while i < strings.len()
        invariant
            i <= strings.len(),
            copy@.len() == i,
            forall|j: int| 0 <= j < i ==> copy@[j]@ == strings@[j]@,
        decreases strings.len() - i,
    {
        copy.push(strings[i].clone());
        i += 1;
    }
    assert(texts(copy@) =~= texts(strings@));
    copy
}

/// Copies a vector of byte vectors.
pub(crate) fn clone_blobs(vectors: &Vec<Vec<u8>>) -> (copy: Vec<Vec<u8>>)
    ensures
        blobs(copy@) == blobs(vectors@),
{
    let mut copy: Vec<Vec<u8>> = Vec::new();
    let mut i: usize = 0;
    while i < vectors.len()
        invariant
            i <= vectors.len(),
            copy@.len() == i,
            forall|j: int| 0 <= j < i ==> copy@[j]@ == vectors@[j]@,
        decreases vectors.len() - i,
    {
        let item = vectors[i].clone();
        assert(item@ =~= vectors@[i as int]@);
        copy.push(item);
        i += 1;
    }
    assert(blobs(copy@) =~= blobs(vectors@));
    copy
}

impl Clone for AttributeValue {
    /// A copy that stands for the same value.
    fn clone(&self) -> (copy: Self)
        ensures
            copy@ == self@,
        decreases self,
    {
        match self {
            AttributeValue::B(bytes) => {
                let copy = bytes.clone();
                assert(copy@ =~= bytes@);
                AttributeValue::B(copy)
            },
            AttributeValue::Bool(b) => AttributeValue::Bool(*b),
            AttributeValue::Bs(set) => AttributeValue::Bs(clone_blobs(set)),
            AttributeValue::L(items) => {
                let mut copy: Vec<AttributeValue> = Vec::new();
                let mut i: usize = 0;
                while i < items.len()
                    invariant
                        i <= items.len(),
                        copy@.len() == i,
                        forall|j: int| 0 <= j < i ==> copy@[j]@ == items@[j]@,
                        self is L,
                        self->L_0 == *items,
                    decreases items.len() - i,
                {
                    copy.push(items[i].clone());
                    i += 1;
                }
                let copy = AttributeValue::L(copy);
                assert(copy@->L_0 =~= self@->L_0);
                copy
            },
            AttributeValue::M(entries) => {
                let mut copy: Vec<(String, AttributeValue)> = Vec::new();
                let mut i: usize = 0;
                while i < entries.len()
                    invariant
                        i <= entries.len(),
                        copy@.len() == i,
                        forall|j: int|
                            0 <= j < i ==> copy@[j].0@ == entries@[j].0@ && copy@[j].1@
                                == entries@[j].1@,
                        self is M,
                        self->M_0 == *entries,
                    decreases entries.len() - i,
                {
                    let entry = &entries[i];
                    copy.push((entry.0.clone(), entry.1.clone()));
                    i += 1;
                }
                let copy = AttributeValue::M(copy);
                assert(copy@->M_0 =~= self@->M_0);
                copy
            },
            AttributeValue::N(text) => AttributeValue::N(text.clone()),
            AttributeValue::Ns(set) => AttributeValue::Ns(clone_strings(set)),
            AttributeValue::Null(b) => AttributeValue::Null(*b),
            AttributeValue::S(text) => AttributeValue::S(text.clone()),
            AttributeValue::Ss(set) => AttributeValue::Ss(clone_strings(set)),
        }
    }
}

/// Copies a vector of values.
pub(crate) fn clone_values(values: &Vec<AttributeValue>) -> (copy: Vec<AttributeValue>)
    ensures
        value_models(copy@) == value_models(values@),
{
    let mut copy: Vec<AttributeValue> = Vec::new();
    let mut i: usize = 0;
    while i < values.len()
        invariant
            i <= values.len(),
            copy@.len() == i,
            forall|j: int| 0 <= j < i ==> copy@[j]@ == values@[j]@,
        decreases values.len() - i,
    {
        copy.push(values[i].clone());
        i += 1;
    }
    assert(value_models(copy@) =~= value_models(values@));
    copy
}

} // verus!
