//! The values that a session stores.
use vstd::prelude::*;

verus! {

broadcast use vstd::std_specs::vec::group_vec_axioms;

/// A JSON-compatible value held in session data.
///
/// Numbers are the integers that fit in an `i64`. The fields of an object
/// keep their order; in a well-formed value (see [`well_formed`]) each field
/// name occurs once.
#[derive(Debug, PartialEq, Eq)]
pub enum JsonValue {
    Null,
    Bool(bool),
    Number(i64),
    String(String),
    Array(Vec<JsonValue>),
    Object(Vec<(String, JsonValue)>),
}

/// The field names of an object are unique, and every nested value is
/// well formed too.
pub open spec fn well_formed(v: JsonValue) -> bool
    decreases v,
{
    match v {
        JsonValue::Array(items) => items_well_formed(items@),
        JsonValue::Object(fields) => {
            &&& forall|i: int, j: int| 0 <= i < j < fields@.len() ==> fields@[i].0@ != fields@[j].0@
            &&& fields_well_formed(fields@)
        },
        _ => true,
    }
}

pub open spec fn items_well_formed(items: Seq<JsonValue>) -> bool
    decreases items,
{
    if items.len() == 0 {
        true
    } else {
        items_well_formed(items.subrange(0, items.len() - 1)) && well_formed(items[items.len() - 1])
    }
}

pub open spec fn fields_well_formed(fields: Seq<(String, JsonValue)>) -> bool
    decreases fields,
{
    if fields.len() == 0 {
        true
    } else {
        fields_well_formed(fields.subrange(0, fields.len() - 1)) && well_formed(fields[fields.len() - 1].1)
    }
}

/// `a` and `b` hold the same value: the same scalars and texts, the same
/// items in the same order, the same fields in the same order.
pub open spec fn same_value(a: JsonValue, b: JsonValue) -> bool
    decreases a,
{
    match a {
        JsonValue::Array(xs) => b is Array && same_items(xs@, b->Array_0@),
        JsonValue::Object(xs) => b is Object && same_fields(xs@, b->Object_0@),
        JsonValue::String(x) => b is String && x@ == b->String_0@,
        _ => b == a,
    }
}

pub open spec fn same_items(xs: Seq<JsonValue>, ys: Seq<JsonValue>) -> bool
    decreases xs,
{
    if xs.len() == 0 {
        ys.len() == 0
    } else {
        &&& ys.len() == xs.len()
        &&& same_items(xs.subrange(0, xs.len() - 1), ys.subrange(0, ys.len() - 1))
        &&& same_value(xs[xs.len() - 1], ys[ys.len() - 1])
    }
}

pub open spec fn same_fields(xs: Seq<(String, JsonValue)>, ys: Seq<(String, JsonValue)>) -> bool
    decreases xs,
{
    if xs.len() == 0 {
        ys.len() == 0
    } else {
        &&& ys.len() == xs.len()
        &&& same_fields(xs.subrange(0, xs.len() - 1), ys.subrange(0, ys.len() - 1))
        &&& xs[xs.len() - 1].0@ == ys[ys.len() - 1].0@
        &&& same_value(xs[xs.len() - 1].1, ys[ys.len() - 1].1)
    }
}

proof fn lemma_items_prefix(items: Seq<JsonValue>, n: int)
    requires
        items_well_formed(items),
        0 <= n <= items.len(),
    ensures
        items_well_formed(items.subrange(0, n)),
        n > 0 ==> well_formed(items[n - 1]),
    decreases items.len(),
{
    if n < items.len() {
        let t = items.subrange(0, items.len() - 1);
        lemma_items_prefix(t, n);
        assert(t.subrange(0, n) =~= items.subrange(0, n));
    } else {
        assert(items.subrange(0, n) =~= items);
    }
}

proof fn lemma_fields_prefix(fields: Seq<(String, JsonValue)>, n: int)
    requires
        fields_well_formed(fields),
        0 <= n <= fields.len(),
    ensures
        fields_well_formed(fields.subrange(0, n)),
        n > 0 ==> well_formed(fields[n - 1].1),
    decreases fields.len(),
{
    if n < fields.len() {
        let t = fields.subrange(0, fields.len() - 1);
        lemma_fields_prefix(t, n);
        assert(t.subrange(0, n) =~= fields.subrange(0, n));
    } else {
        assert(fields.subrange(0, n) =~= fields);
    }
}

impl JsonValue {
    /// A copy of this value.
    pub fn duplicate(&self) -> (r: JsonValue)
        ensures
            same_value(*self, r),
            well_formed(*self) ==> well_formed(r),
            !(self is Array) && !(self is Object) ==> r == *self,
        decreases *self,
    {
        match self {
            JsonValue::Null => JsonValue::Null,
            JsonValue::Bool(b) => JsonValue::Bool(*b),
            JsonValue::Number(n) => JsonValue::Number(*n),
            JsonValue::String(s) => JsonValue::String(s.clone()),
            JsonValue::Array(items) => {
                let mut out: Vec<JsonValue> = Vec::new();
                let mut i: usize = 0;
                assert(items@.subrange(0, 0) =~= Seq::<JsonValue>::empty());
                while i < items.len()
                    invariant
                        *self == JsonValue::Array(*items),
                        i <= items@.len(),
                        same_items(items@.subrange(0, i as int), out@),
                        items_well_formed(items@) ==> items_well_formed(items@.subrange(0, i as int))
                            && items_well_formed(out@),
                    decreases items@.len() - i,
                {
                    proof {
                        vstd::std_specs::vec::axiom_vec_decreases_to_view(*items);
                        assert(decreases_to!(*self => self->Array_0));
                        assert(decreases_to!(*items => items@));
                        assert(decreases_to!(items@ => items@[i as int]));
                    }
                    let item = items[i].duplicate();
                    let ghost before = out@;
                    out.push(item);
                    proof {
                        let p = items@.subrange(0, i + 1);
                        assert(p.subrange(0, i as int) =~= items@.subrange(0, i as int));
                        assert(out@.subrange(0, i as int) =~= before);
                        assert(p[i as int] == items@[i as int]);
                        if items_well_formed(items@) {
                            lemma_items_prefix(items@, i + 1);
                        }
                    }
                    i = i + 1;
                }
                assert(items@.subrange(0, i as int) =~= items@);
                JsonValue::Array(out)
            },
            JsonValue::Object(fields) => {
                let mut out: Vec<(String, JsonValue)> = Vec::new();
                let mut i: usize = 0;
                assert(fields@.subrange(0, 0) =~= Seq::<(String, JsonValue)>::empty());
                while i < fields.len()
                    invariant
                        *self == JsonValue::Object(*fields),
                        i <= fields@.len(),
                        out@.len() == i,
                        forall|j: int| 0 <= j < i ==> #[trigger] out@[j].0@ == fields@[j].0@,
                        same_fields(fields@.subrange(0, i as int), out@),
                        fields_well_formed(fields@) ==> fields_well_formed(fields@.subrange(0, i as int))
                            && fields_well_formed(out@),
                    decreases fields@.len() - i,
                {
                    proof {
                        vstd::std_specs::vec::axiom_vec_decreases_to_view(*fields);
                        assert(decreases_to!(*self => self->Object_0));
                        assert(decreases_to!(*fields => fields@));
                        assert(decreases_to!(fields@ => fields@[i as int]));
                        assert(decreases_to!(fields@[i as int] => fields@[i as int].1));
                    }
                    let value = fields[i].1.duplicate();
                    let ghost before = out@;
                    out.push((fields[i].0.clone(), value));
                    proof {
                        let p = fields@.subrange(0, i + 1);
                        assert(p.subrange(0, i as int) =~= fields@.subrange(0, i as int));
                        assert(out@.subrange(0, i as int) =~= before);
                        assert(p[i as int] == fields@[i as int]);
                        if fields_well_formed(fields@) {
                            lemma_fields_prefix(fields@, i + 1);
                        }
                    }
                    i = i + 1;
                }
                assert(fields@.subrange(0, i as int) =~= fields@);
                JsonValue::Object(out)
            },
        }
    }

    /// The text of a string value.
    pub fn as_str(&self) -> (r: Option<&str>)
        ensures
            r.is_some() <==> self is String,
            r.is_some() ==> r.unwrap()@ == self->String_0@,
    {
        match self {
            JsonValue::String(s) => Some(s.as_str()),
            _ => None,
        }
    }
}

impl Clone for JsonValue {
    fn clone(&self) -> (r: JsonValue)
        ensures
            same_value(*self, r),
    {
        self.duplicate()
    }
}

/// A type that can be read back out of a stored value.
pub trait FromJsonValue: Sized {
    /// What `v` decodes to, if it decodes to this type at all.
    spec fn decoded(v: JsonValue) -> Option<Self>;

    fn from_json_value(v: &JsonValue) -> (r: Option<Self>)
        ensures
            r == Self::decoded(*v),
    ;
}

impl FromJsonValue for i32 {
    open spec fn decoded(v: JsonValue) -> Option<i32> {
        match v {
            JsonValue::Number(n) => if i32::MIN <= n <= i32::MAX {
                Some(n as i32)
            } else {
                None
            },
            _ => None,
        }
    }

    fn from_json_value(v: &JsonValue) -> (r: Option<i32>) {
        match v {
            JsonValue::Number(n) => if i32::MIN as i64 <= *n && *n <= i32::MAX as i64 {
                Some(*n as i32)
            } else {
                None
            },
            _ => None,
        }
    }
}

impl FromJsonValue for i64 {
    open spec fn decoded(v: JsonValue) -> Option<i64> {
        match v {
            JsonValue::Number(n) => Some(n),
            _ => None,
        }
    }

    fn from_json_value(v: &JsonValue) -> (r: Option<i64>) {
        match v {
            JsonValue::Number(n) => Some(*n),
            _ => None,
        }
    }
}

impl FromJsonValue for u64 {
    open spec fn decoded(v: JsonValue) -> Option<u64> {
        match v {
            JsonValue::Number(n) => if n >= 0 {
                Some(n as u64)
            } else {
                None
            },
            _ => None,
        }
    }

    fn from_json_value(v: &JsonValue) -> (r: Option<u64>) {
        match v {
            JsonValue::Number(n) => if *n >= 0 {
                Some(*n as u64)
            } else {
                None
            },
            _ => None,
        }
    }
}

impl FromJsonValue for bool {
    open spec fn decoded(v: JsonValue) -> Option<bool> {
        match v {
            JsonValue::Bool(b) => Some(b),
            _ => None,
        }
    }

    fn from_json_value(v: &JsonValue) -> (r: Option<bool>) {
        match v {
            JsonValue::Bool(b) => Some(*b),
            _ => None,
        }
    }
}

impl FromJsonValue for String {
    open spec fn decoded(v: JsonValue) -> Option<String> {
        match v {
            JsonValue::String(s) => Some(s),
            _ => None,
        }
    }

    fn from_json_value(v: &JsonValue) -> (r: Option<String>) {
        match v {
            JsonValue::String(s) => Some(s.clone()),
            _ => None,
        }
    }
}

} // verus!
