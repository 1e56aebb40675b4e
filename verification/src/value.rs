//! The reply tree a node sends back, and its mathematical model.

use vstd::prelude::*;

verus! {

/// A parsed reply from a node.
#[derive(Debug, PartialEq, Eq, Hash)]
pub enum Value {
    /// The nil reply.
    Nil,
    /// An integer reply.
    Int(i64),
    /// A binary-safe string.
    Data(Vec<u8>),
    /// A nested array of replies.
    Bulk(Vec<Value>),
    /// A status line.
    Status(String),
    /// The status line `OK`.
    Okay,
}

/// Mathematical model of a [`Value`]: the same tree over sequences.
pub enum ValueModel {
    Nil,
    Int(i64),
    Data(Seq<u8>),
    Bulk(Seq<ValueModel>),
    Status(Seq<char>),
    Okay,
}

impl View for Value {
    type V = ValueModel;

    open spec fn view(&self) -> ValueModel
        decreases self, 0nat,
    {
        match self {
            Value::Nil => ValueModel::Nil,
            Value::Int(n) => ValueModel::Int(*n),
            Value::Data(bytes) => ValueModel::Data(bytes@),
            Value::Bulk(items) => ValueModel::Bulk(models_upto(items@, items@.len())),
            Value::Status(text) => ValueModel::Status(text@),
            Value::Okay => ValueModel::Okay,
        }
    }
}

/// The models of the first `count` values.
pub open spec fn models_upto(values: Seq<Value>, count: nat) -> Seq<ValueModel>
    decreases values, count,
{
    if count == 0 || count > values.len() {
        Seq::empty()
    } else {
        models_upto(values, (count - 1) as nat).push(values[count - 1].view())
    }
}

/// The models of a list of values.
pub open spec fn models(values: Seq<Value>) -> Seq<ValueModel> {
    Seq::new(values.len(), |i: int| values[i]@)
}

/// The models of a list with one more value.
pub proof fn lemma_models_push(values: Seq<Value>, value: Value)
    ensures
        models(values.push(value)) == models(values).push(value@),
{
}

proof fn lemma_models_upto(values: Seq<Value>, count: nat)
    requires
        count <= values.len(),
    ensures
        models_upto(values, count) == models(values).subrange(0, count as int),
    decreases count,
{
    if count > 0 {
        lemma_models_upto(values, (count - 1) as nat);
        assert(models(values).subrange(0, count as int) =~= models(values).subrange(
            0,
            count - 1,
        ).push(values[count - 1]@));
    }
}

/// The model of an array is the array of the models.
pub proof fn lemma_bulk_model(v: Value)
    requires
        v is Bulk,
    ensures
        v@ == ValueModel::Bulk(models(v->Bulk_0@)),
{
    let items = v->Bulk_0;
    lemma_models_upto(items@, items@.len());
    assert(models(items@).subrange(0, items@.len() as int) =~= models(items@));
}

impl Value {
    /// A deep copy.
    pub fn duplicate(&self) -> (copy: Value)
        ensures
            copy@ == self@,
        decreases self,
    {
        match self {
            Value::Nil => Value::Nil,
            Value::Int(n) => Value::Int(*n),
            Value::Data(bytes) => Value::Data(bytes.clone()),
            Value::Bulk(items) => {
                let mut out: Vec<Value> = Vec::new();
                let mut i: usize = 0;
                while i < items.len()
                    invariant
                        *self == Value::Bulk(*items),
                        i <= items.len(),
                        out.len() == i,
                        forall|j: int| 0 <= j < i ==> out@[j]@ == items@[j]@,
                    decreases items.len() - i,
                {
                    assert(decreases_to!(*self => self->Bulk_0));
                    out.push(items[i].duplicate());
                    i += 1;
                }
                let copy = Value::Bulk(out);
                proof {
                    lemma_bulk_model(copy);
                    lemma_bulk_model(*self);
                    assert(models(out@) =~= models(items@));
                }
                copy
            }
            Value::Status(text) => Value::Status(text.clone()),
            Value::Okay => Value::Okay,
        }
    }
}

} // verus!
