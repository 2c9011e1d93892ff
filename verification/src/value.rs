//! The dynamic value representation: a generic value whose `Obj` shape is an
//! ordered list of string-keyed entries, together with its mathematical model
//! and the executable helpers (lookup, deep clone, deep equality) that the
//! converters are built on.

use vstd::prelude::*;

verus! {

/// Mathematical model of a dynamic value. An object is modelled as the
/// ordered sequence of its key/value entries; a key occurring twice is
/// resolved by first-match lookup.
#[verifier::ext_equal]
pub enum ValModel {
    Null,
    IntVal(i64),
    StrVal(Seq<char>),
    BoolVal(bool),
    ObjVal(Seq<(Seq<char>, ValModel)>),
}

/// A key/value entry of an object value.
#[derive(Debug)]
pub struct Entry {
    pub key: String,
    pub val: Value,
}

/// A dynamic value: the shapes a request-time input can take. The `ObjVal`
/// shape is an ordered mapping from string keys to dynamic values.
#[derive(Debug)]
pub enum Value {
    Null,
    IntVal(i64),
    StrVal(String),
    BoolVal(bool),
    ObjVal(Vec<Entry>),
}

/// Model of a sequence of object entries.
pub open spec fn entries_model(es: Seq<Entry>) -> Seq<(Seq<char>, ValModel)>
    decreases es,
{
    if es.len() == 0 {
        Seq::empty()
    } else {
        seq![(es[0].key@, v_model(es[0].val))] + entries_model(es.skip(1))
    }
}

/// Model of a dynamic value.
pub open spec fn v_model(v: Value) -> ValModel
    decreases v,
{
    match v {
        Value::Null => ValModel::Null,
        Value::IntVal(n) => ValModel::IntVal(n),
        Value::StrVal(s) => ValModel::StrVal(s@),
        Value::BoolVal(b) => ValModel::BoolVal(b),
        Value::ObjVal(es) => ValModel::ObjVal(entries_model(es@)),
    }
}

impl View for Value {
    type V = ValModel;

    open spec fn view(&self) -> ValModel {
        v_model(*self)
    }
}

impl View for Entry {
    type V = (Seq<char>, ValModel);

    open spec fn view(&self) -> (Seq<char>, ValModel) {
        (self.key@, self.val@)
    }
}

/// The entry list is modelled pointwise.
pub proof fn lemma_entries_model(es: Seq<Entry>)
    ensures
        entries_model(es).len() == es.len(),
        forall|i: int|
            0 <= i < es.len() ==> entries_model(es)[i] == (es[i].key@, v_model(es[i].val)),
    decreases es,
{
    if es.len() > 0 {
        lemma_entries_model(es.skip(1));
    }
}

/// First-match lookup of a key among modelled entries.
pub open spec fn lookup(es: Seq<(Seq<char>, ValModel)>, k: Seq<char>) -> Option<ValModel>
    decreases es,
{
    if es.len() == 0 {
        Option::None
    } else if es[0].0 == k {
        Option::Some(es[0].1)
    } else {
        lookup(es.skip(1), k)
    }
}

/// The keys of a modelled entry list, in order.
pub open spec fn entry_keys(es: Seq<(Seq<char>, ValModel)>) -> Seq<Seq<char>> {
    es.map_values(|e: (Seq<char>, ValModel)| e.0)
}

/// All keys of an entry list are pairwise distinct.
pub open spec fn distinct_keys(es: Seq<(Seq<char>, ValModel)>) -> bool {
    forall|i: int, j: int| 0 <= i < j < es.len() ==> es[i].0 != es[j].0
}

/// When a key is found at an index before which it does not occur, lookup
/// returns the value at that index.
pub proof fn lemma_lookup_at(es: Seq<(Seq<char>, ValModel)>, k: Seq<char>, i: int)
    requires
        0 <= i < es.len(),
        es[i].0 == k,
        forall|j: int| 0 <= j < i ==> es[j].0 != k,
    ensures
        lookup(es, k) == Option::Some(es[i].1),
    decreases i,
{
    if i > 0 {
        lemma_lookup_at(es.skip(1), k, i - 1);
    }
}

/// When a key occurs nowhere, lookup misses.
pub proof fn lemma_lookup_none(es: Seq<(Seq<char>, ValModel)>, k: Seq<char>)
    requires
        forall|j: int| 0 <= j < es.len() ==> es[j].0 != k,
    ensures
        lookup(es, k) is None,
    decreases es,
{
    if es.len() > 0 {
        lemma_lookup_none(es.skip(1), k);
    }
}

/// Under distinct keys, lookup finds exactly the entry that is contained.
pub proof fn lemma_lookup_contains(es: Seq<(Seq<char>, ValModel)>, k: Seq<char>, v: ValModel)
    requires
        distinct_keys(es),
        es.contains((k, v)),
    ensures
        lookup(es, k) == Option::Some(v),
    decreases es,
{
    let i = choose|i: int| 0 <= i < es.len() && es[i] == (k, v);
    if es[0].0 == k {
        assert(i == 0);
    } else {
        assert(es.skip(1)[i - 1] == (k, v));
        assert(es.skip(1).contains((k, v)));
        lemma_lookup_contains(es.skip(1), k, v);
    }
}

/// Deep clone of an object's entry list; the model is kept.
pub fn entries_clone(es: &Vec<Entry>) -> (r: Vec<Entry>)
    ensures
        entries_model(r@) == entries_model(es@),
        r@.len() == es@.len(),
    decreases es@,
{
    let mut out: Vec<Entry> = Vec::new();
    let mut i: usize = 0;
    proof {
        lemma_entries_model(es@);
    }
    while i < es.len()
        invariant
            i <= es.len(),
            out@.len() == i,
            forall|j: int|
                0 <= j < i ==> #[trigger] out@[j].key@ == es@[j].key@ && v_model(out@[j].val)
                    == v_model(es@[j].val),
        decreases es.len() - i,
    {
        proof {
            assert(decreases_to!(es@ => es@[i as int]));
        }
        let v = value_clone(&es[i].val);
        out.push(Entry { key: es[i].key.clone(), val: v });
        i += 1;
    }
    proof {
        lemma_entries_model(out@);
        assert(entries_model(out@) =~= entries_model(es@));
    }
    out
}

/// Deep clone of a dynamic value; the model is kept.
pub fn value_clone(v: &Value) -> (r: Value)
    ensures
        r@ == v@,
    decreases v,
{
    match v {
        Value::Null => Value::Null,
        Value::IntVal(n) => Value::IntVal(*n),
        Value::StrVal(s) => Value::StrVal(s.clone()),
        Value::BoolVal(b) => Value::BoolVal(*b),
        Value::ObjVal(es) => Value::ObjVal(entries_clone(es)),
    }
}

/// Looks a key up in an object's entry list, handing back a deep clone of the
/// first value stored under it.
pub fn obj_get(es: &Vec<Entry>, key: &String) -> (r: Option<Value>)
    ensures
        match r {
            Option::Some(v) => lookup(entries_model(es@), key@) == Option::Some(v@),
            Option::None => lookup(entries_model(es@), key@) is None,
        },
{
    proof {
        lemma_entries_model(es@);
    }
    let mut i: usize = 0;
    while i < es.len()
        invariant
            i <= es.len(),
            forall|j: int| 0 <= j < i ==> #[trigger] entries_model(es@)[j].0 != key@,
        decreases es.len() - i,
    {
        proof {
            lemma_entries_model(es@);
        }
        if es[i].key.eq(key) {
            proof {
                lemma_lookup_at(entries_model(es@), key@, i as int);
            }
            return Option::Some(value_clone(&es[i].val));
        }
        i += 1;
    }
    proof {
        lemma_lookup_none(entries_model(es@), key@);
    }
    Option::None
}

/// Deep structural equality of dynamic values, decided against the model.
pub fn value_eq(a: &Value, b: &Value) -> (r: bool)
    ensures
        r == (a@ == b@),
    decreases a,
{
    match (a, b) {
        (Value::Null, Value::Null) => true,
        (Value::IntVal(x), Value::IntVal(y)) => x == y,
        (Value::StrVal(x), Value::StrVal(y)) => x.eq(y),
        (Value::BoolVal(x), Value::BoolVal(y)) => x == y,
        (Value::ObjVal(xs), Value::ObjVal(ys)) => entries_eq(xs, ys),
        _ => false,
    }
}

/// Deep structural equality of two entry lists, decided against the model.
pub fn entries_eq(xs: &Vec<Entry>, ys: &Vec<Entry>) -> (r: bool)
    ensures
        r == (entries_model(xs@) == entries_model(ys@)),
    decreases xs@,
{
    proof {
        lemma_entries_model(xs@);
        lemma_entries_model(ys@);
    }
    if xs.len() != ys.len() {
        return false;
    }
    let mut i: usize = 0;
    while i < xs.len()
        invariant
            i <= xs.len(),
            xs@.len() == ys@.len(),
            forall|j: int|
                0 <= j < i ==> #[trigger] entries_model(xs@)[j] == entries_model(ys@)[j],
        decreases xs.len() - i,
    {
        proof {
            lemma_entries_model(xs@);
            lemma_entries_model(ys@);
            assert(decreases_to!(xs@ => xs@[i as int]));
        }
        if !xs[i].key.eq(&ys[i].key) {
            assert(entries_model(xs@)[i as int].0 != entries_model(ys@)[i as int].0);
            return false;
        }
        if !value_eq(&xs[i].val, &ys[i].val) {
            assert(entries_model(xs@)[i as int].1 != entries_model(ys@)[i as int].1);
            return false;
        }
        i += 1;
    }
    proof {
        lemma_entries_model(xs@);
        lemma_entries_model(ys@);
        assert(entries_model(xs@) =~= entries_model(ys@));
    }
    true
}

} // verus!
