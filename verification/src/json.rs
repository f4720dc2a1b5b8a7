//! A small JSON document model: the value tree, its mathematical view, and
//! helpers for reading object fields.  The codec between trees and text
//! lives in the submodules [`render`] and [`parse`].

use vstd::prelude::*;

pub mod parse;
pub mod render;

verus! {

/// A JSON value.
///
/// Numbers come in two forms: `Int` carries an integer that fits in `i64`,
/// and `NumText` carries the raw decimal text of any other number
/// (fractions, exponents, out-of-range integers), kept verbatim.
#[derive(Debug)]
pub enum Json {
    Null,
    Bool(bool),
    Int(i64),
    NumText(String),
    Str(String),
    Arr(Vec<Json>),
    Obj(Vec<(String, Json)>),
}

/// The mathematical shape of a [`Json`] tree.
#[verifier::ext_equal]
pub enum JsonView {
    Null,
    Bool(bool),
    Int(int),
    NumText(Seq<char>),
    Str(Seq<char>),
    Arr(Seq<JsonView>),
    Obj(Seq<(Seq<char>, JsonView)>),
}

impl View for Json {
    type V = JsonView;

    open spec fn view(&self) -> JsonView
        decreases self,
    {
        match self {
            Json::Null => JsonView::Null,
            Json::Bool(b) => JsonView::Bool(*b),
            Json::Int(n) => JsonView::Int(*n as int),
            Json::NumText(t) => JsonView::NumText(t@),
            Json::Str(s) => JsonView::Str(s@),
            Json::Arr(items) => JsonView::Arr(json_seq_view(items@)),
            Json::Obj(fields) => JsonView::Obj(json_fields_view(fields@)),
        }
    }
}

/// The element-wise view of a sequence of JSON values.
pub open spec fn json_seq_view(items: Seq<Json>) -> Seq<JsonView>
    decreases items,
{
    if items.len() == 0 {
        Seq::empty()
    } else {
        json_seq_view(items.drop_last()).push(items.last()@)
    }
}

/// The element-wise view of an object's field list.
pub open spec fn json_fields_view(fields: Seq<(String, Json)>) -> Seq<(Seq<char>, JsonView)>
    decreases fields,
{
    if fields.len() == 0 {
        Seq::empty()
    } else {
        json_fields_view(fields.drop_last()).push((fields.last().0@, fields.last().1@))
    }
}

/// `json_seq_view` is the element-wise image of the sequence.
pub proof fn lemma_json_seq_view(items: Seq<Json>)
    ensures
        json_seq_view(items).len() == items.len(),
        forall|i: int| 0 <= i < items.len() ==> #[trigger] json_seq_view(items)[i] == items[i]@,
    decreases items,
{
    if items.len() > 0 {
        lemma_json_seq_view(items.drop_last());
        assert(json_seq_view(items) == json_seq_view(items.drop_last()).push(items.last()@));
        assert forall|i: int| 0 <= i < items.len() implies #[trigger] json_seq_view(items)[i]
            == items[i]@ by {
            if i < items.len() - 1 {
                assert(json_seq_view(items)[i] == json_seq_view(items.drop_last())[i]);
                assert(items.drop_last()[i] == items[i]);
            }
        }
    }
}

/// `json_fields_view` is the element-wise image of the field list.
pub proof fn lemma_json_fields_view(fields: Seq<(String, Json)>)
    ensures
        json_fields_view(fields).len() == fields.len(),
        forall|i: int| 0 <= i < fields.len() ==> #[trigger] json_fields_view(fields)[i] == (
        fields[i].0@,
        fields[i].1@,
        ),
    decreases fields,
{
    if fields.len() > 0 {
        lemma_json_fields_view(fields.drop_last());
        assert(json_fields_view(fields) == json_fields_view(fields.drop_last()).push((
        fields.last().0@,
        fields.last().1@,
        )));
        assert forall|i: int| 0 <= i < fields.len() implies #[trigger] json_fields_view(fields)[i]
            == (fields[i].0@, fields[i].1@) by {
            if i < fields.len() - 1 {
                assert(json_fields_view(fields)[i] == json_fields_view(fields.drop_last())[i]);
                assert(fields.drop_last()[i] == fields[i]);
            }
        }
    }
}

/// The value of the first field named `key`, if any.
pub open spec fn obj_get(fields: Seq<(Seq<char>, JsonView)>, key: Seq<char>) -> Option<JsonView>
    decreases fields.len(),
{
    if fields.len() == 0 {
        None
    } else if fields[0].0 == key {
        Some(fields[0].1)
    } else {
        obj_get(fields.drop_first(), key)
    }
}

proof fn lemma_obj_get_at(fields: Seq<(Seq<char>, JsonView)>, key: Seq<char>, i: int)
    requires
        0 <= i < fields.len(),
        forall|j: int| 0 <= j < i ==> fields[j].0 != key,
        fields[i].0 == key,
    ensures
        obj_get(fields, key) == Some(fields[i].1),
    decreases i,
{
    if i > 0 {
        let rest = fields.drop_first();
        assert forall|j: int| 0 <= j < i - 1 implies rest[j].0 != key by {
            assert(rest[j] == fields[j + 1]);
        }
        lemma_obj_get_at(rest, key, i - 1);
    }
}

proof fn lemma_obj_get_none(fields: Seq<(Seq<char>, JsonView)>, key: Seq<char>)
    requires
        forall|j: int| 0 <= j < fields.len() ==> fields[j].0 != key,
    ensures
        obj_get(fields, key) is None,
    decreases fields.len(),
{
    if fields.len() > 0 {
        let rest = fields.drop_first();
        assert forall|j: int| 0 <= j < rest.len() implies rest[j].0 != key by {
            assert(rest[j] == fields[j + 1]);
        }
        lemma_obj_get_none(rest, key);
    }
}

impl Clone for Json {
    /// A deep copy with the same mathematical value.
    fn clone(&self) -> (r: Json)
        ensures
            r@ == self@,
        decreases self,
    {
        match self {
            Json::Null => Json::Null,
            Json::Bool(b) => Json::Bool(*b),
            Json::Int(n) => Json::Int(*n),
            Json::NumText(t) => Json::NumText(t.clone()),
            Json::Str(s) => Json::Str(s.clone()),
            Json::Arr(items) => {
                let mut out: Vec<Json> = Vec::new();
                let n = items.len();
                let mut i: usize = 0;
                while i < n
                    invariant
                        n == items@.len(),
                        i <= n,
                        out@.len() == i,
                        *self == Json::Arr(*items),
                        forall|k: int| 0 <= k < i ==> #[trigger] out@[k]@ == items@[k]@,
                    decreases n - i,
                {
                    proof {
                        let ghost selfv = *self;
                        assert(selfv == Json::Arr(*items));
                        assert(decreases_to!(selfv => selfv->Arr_0));
                        assert(decreases_to!(*items => items@));
                        assert(decreases_to!(items@ => items@[i as int]));
                    }
                    out.push(items[i].clone());
                    i = i + 1;
                }
                let r = Json::Arr(out);
                proof {
                    lemma_json_seq_view(out@);
                    lemma_json_seq_view(items@);
                    assert(json_seq_view(out@) =~= json_seq_view(items@));
                }
                r
            },
            Json::Obj(fields) => {
                let mut out: Vec<(String, Json)> = Vec::new();
                let n = fields.len();
                let mut i: usize = 0;
                while i < n
                    invariant
                        n == fields@.len(),
                        i <= n,
                        out@.len() == i,
                        *self == Json::Obj(*fields),
                        forall|k: int|
                            0 <= k < i ==> #[trigger] out@[k].0@ == fields@[k].0@ && out@[k].1@
                                == fields@[k].1@,
                    decreases n - i,
                {
                    proof {
                        let ghost selfv = *self;
                        assert(selfv == Json::Obj(*fields));
                        assert(decreases_to!(selfv => selfv->Obj_0));
                        assert(decreases_to!(*fields => fields@));
                        assert(decreases_to!(fields@ => fields@[i as int]));
                        assert(decreases_to!(fields@[i as int] => fields@[i as int].1));
                    }
                    out.push((fields[i].0.clone(), fields[i].1.clone()));
                    i = i + 1;
                }
                let r = Json::Obj(out);
                proof {
                    lemma_json_fields_view(out@);
                    lemma_json_fields_view(fields@);
                    assert(json_fields_view(out@) =~= json_fields_view(fields@));
                }
                r
            },
        }
    }
}

/// The text of a required string field: present with a string value, or
/// nothing.
pub open spec fn str_field(fields: Seq<(Seq<char>, JsonView)>, key: Seq<char>) -> Option<
    Seq<char>,
> {
    match obj_get(fields, key) {
        Some(JsonView::Str(s)) => Some(s),
        _ => None,
    }
}

/// The text of an optional string field.  The outer `None` means the field
/// is present but not a string; absent and `null` fields give `Some(None)`.
pub open spec fn opt_str_field(fields: Seq<(Seq<char>, JsonView)>, key: Seq<char>) -> Option<
    Option<Seq<char>>,
> {
    match obj_get(fields, key) {
        None => Some(None),
        Some(JsonView::Null) => Some(None),
        Some(JsonView::Str(s)) => Some(Some(s)),
        Some(_) => None,
    }
}

/// The value of an optional integer field, with the same conventions as
/// [`opt_str_field`].
pub open spec fn opt_int_field(fields: Seq<(Seq<char>, JsonView)>, key: Seq<char>) -> Option<
    Option<int>,
> {
    match obj_get(fields, key) {
        None => Some(None),
        Some(JsonView::Null) => Some(None),
        Some(JsonView::Int(n)) => Some(Some(n)),
        Some(_) => None,
    }
}

/// The value of a required integer field: present with an integer value, or
/// nothing.
pub open spec fn int_field(fields: Seq<(Seq<char>, JsonView)>, key: Seq<char>) -> Option<int> {
    match obj_get(fields, key) {
        Some(JsonView::Int(n)) => Some(n),
        _ => None,
    }
}

/// The decimal text of an optional numeric field.  An integer is rendered
/// in decimal; any other number keeps its raw text.  The outer `None` means
/// the field is present but not a number.
pub open spec fn opt_num_field(fields: Seq<(Seq<char>, JsonView)>, key: Seq<char>) -> Option<
    Option<Seq<char>>,
> {
    match obj_get(fields, key) {
        None => Some(None),
        Some(JsonView::Null) => Some(None),
        Some(JsonView::Int(n)) => Some(Some(crate::text::int_dec_chars(n))),
        Some(JsonView::NumText(t)) => Some(Some(t)),
        Some(_) => None,
    }
}

/// An optional field: absent and `null` fields give `None`.
pub open spec fn opt_field(fields: Seq<(Seq<char>, JsonView)>, key: Seq<char>) -> Option<
    JsonView,
> {
    match obj_get(fields, key) {
        None => None,
        Some(JsonView::Null) => None,
        Some(v) => Some(v),
    }
}

/// Appends one field to an object under construction.
pub fn push_field(fields: &mut Vec<(String, Json)>, key: &str, value: Json)
    ensures
        json_fields_view(final(fields)@) == json_fields_view(old(fields)@).push(
            (key@, value@),
        ),
{
    let ghost old_fields = fields@;
    let ghost value_view = value@;
    fields.push((key.to_owned(), value));
    proof {
        assert(fields@.drop_last() =~= old_fields);
        assert(json_fields_view(fields@) == json_fields_view(old_fields).push(
            (key@, value_view),
        ));
    }
}

/// Looks a field up in an object's field list; the first match wins.
pub fn json_obj_get<'a>(fields: &'a Vec<(String, Json)>, key: &str) -> (r: Option<&'a Json>)
    ensures
        match r {
            Some(v) => obj_get(json_fields_view(fields@), key@) == Some(v@),
            None => obj_get(json_fields_view(fields@), key@) is None,
        },
{
    let n = fields.len();
    let mut i: usize = 0;
    while i < n
        invariant
            n == fields@.len(),
            i <= n,
            forall|j: int| 0 <= j < i ==> fields@[j].0@ != key@,
        decreases n - i,
    {
        if crate::text::str_eq(fields[i].0.as_str(), key) {
            proof {
                lemma_json_fields_view(fields@);
                lemma_obj_get_at(json_fields_view(fields@), key@, i as int);
            }
            return Some(&fields[i].1);
        }
        i = i + 1;
    }
    proof {
        lemma_json_fields_view(fields@);
        lemma_obj_get_none(json_fields_view(fields@), key@);
    }
    None
}

} // verus!
