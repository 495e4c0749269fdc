//! JSON values up to the order of an object's fields.
use vstd::prelude::*;

use crate::json::{find, index_of, FieldsView, JsonView, NumberView};

verus! {

/// A JSON value whose objects have no order.
pub enum Meaning {
    Null,
    Bool(bool),
    Number(NumberView),
    String(Seq<char>),
    Array(Seq<Meaning>),
    Object(Map<Seq<char>, Meaning>),
}

/// The value without the order of its objects' fields.
pub open spec fn meaning(value: JsonView) -> Meaning
    decreases value,
{
    match value {
        JsonView::Null => Meaning::Null,
        JsonView::Bool(b) => Meaning::Bool(b),
        JsonView::Number(n) => Meaning::Number(n),
        JsonView::String(s) => Meaning::String(s),
        JsonView::Array(items) => Meaning::Array(
            Seq::new(
                items.len(),
                |i: int|
                    if 0 <= i < items.len() {
                        meaning(items[i])
                    } else {
                        Meaning::Null
                    },
            ),
        ),
        JsonView::Object(fields) => Meaning::Object(
            Map::new(
                |key: Seq<char>| index_of(fields, key) < fields.len(),
                |key: Seq<char>|
                    if 0 <= index_of(fields, key) < fields.len() {
                        meaning(fields[index_of(fields, key) as int].1)
                    } else {
                        Meaning::Null
                    },
            ),
        ),
    }
}

/// The meaning of a field, where there is one.
pub open spec fn meaning_at(fields: FieldsView, key: Seq<char>) -> Option<Meaning> {
    match find(fields, key) {
        Some(value) => Some(meaning(value)),
        None => None,
    }
}

/// The two values are the same JSON: they differ at most in the order of the
/// fields of their objects.
pub open spec fn same_json(a: JsonView, b: JsonView) -> bool {
    meaning(a) == meaning(b)
}

/// Two objects whose fields have the same meanings are the same JSON.
pub proof fn lemma_same_object(a: FieldsView, b: FieldsView)
    requires
        forall|key: Seq<char>| #[trigger] meaning_at(a, key) == meaning_at(b, key),
    ensures
        same_json(JsonView::Object(a), JsonView::Object(b)),
{
    let ma = meaning(JsonView::Object(a))->Object_0;
    let mb = meaning(JsonView::Object(b))->Object_0;
    assert forall|key: Seq<char>| ma.dom().contains(key) == mb.dom().contains(key) by {
        assert(meaning_at(a, key) == meaning_at(b, key));
    }
    assert forall|key: Seq<char>| ma.dom().contains(key) implies ma[key] == mb[key] by {
        assert(meaning_at(a, key) == meaning_at(b, key));
    }
    assert(ma.dom() =~= mb.dom());
    assert(ma =~= mb);
}

/// The fields of the same JSON have the same meanings.
pub proof fn lemma_same_fields(a: FieldsView, b: FieldsView, key: Seq<char>)
    requires
        same_json(JsonView::Object(a), JsonView::Object(b)),
    ensures
        meaning_at(a, key) == meaning_at(b, key),
{
    let ma = meaning(JsonView::Object(a))->Object_0;
    let mb = meaning(JsonView::Object(b))->Object_0;
    assert(ma.dom().contains(key) == mb.dom().contains(key));
    assert(ma.dom().contains(key) ==> ma[key] == mb[key]);
}

/// Two arrays whose items have the same meanings are the same JSON.
pub proof fn lemma_same_array(a: Seq<JsonView>, b: Seq<JsonView>)
    requires
        a.len() == b.len(),
        forall|i: int| 0 <= i < a.len() ==> same_json(#[trigger] a[i], b[i]),
    ensures
        same_json(JsonView::Array(a), JsonView::Array(b)),
{
    let ma = meaning(JsonView::Array(a))->Array_0;
    let mb = meaning(JsonView::Array(b))->Array_0;
    assert forall|i: int| 0 <= i < ma.len() implies ma[i] == mb[i] by {
        assert(same_json(a[i], b[i]));
    }
    assert(ma =~= mb);
}

} // verus!
