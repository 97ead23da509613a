//! The wire format: decoded values written as JSON, and JSON read as the
//! values of a declared type.
//!
//! Reading goes by the type descriptor: it decides what a piece of JSON may
//! be, which members of an object are looked at, and which may be missing.
//! A reference is followed to the declared type of its name; how many
//! references may be followed on the way down is bounded by a depth, so that
//! reading ends also where the declarations run in a cycle.

use crate::datum::{
    is_key, lemma_last_entry, lemma_table_push, lemma_view_parts, member_models, models,
    table_model, Datum, DatumModel, Member, MemberModel,
};
use crate::descriptor::{PrimitiveKind, TypeDescriptor};
use crate::json::{
    documents_of, json_array, json_as_array, json_as_bool, json_as_i64, json_as_object, json_as_str,
    json_bool, json_is_null, json_is_number, json_null, json_object, json_of, json_signed, json_string,
    lemma_members_of_distinct, lemma_members_step, lists_members, members_from, members_insert,
    members_list, members_new, members_of, parse_json, parsed, render_json, rendered, JsonModel,
};
use crate::names::distinct_names;
use crate::registry::SchemaDescriptor;
use crate::text::{same_text, signed_decimal, text_of};
use vstd::prelude::*;

verus! {

/// Whether a piece of JSON is a number.
pub open spec fn is_number(json: JsonModel) -> bool {
    json is Number || json is Fraction
}

/// The JSON form of a numeral, given what the numeral reads as: the number
/// that it reads as, and the string of its characters where it reads as
/// none.
pub open spec fn encoded_numeral(numeral: Seq<char>, document: Option<JsonModel>) -> JsonModel {
    match document {
        Some(json) => if is_number(json) {
            json
        } else {
            JsonModel::String(numeral)
        },
        None => JsonModel::String(numeral),
    }
}

/// The JSON form of a value: an absent value is `null`; a numeral is the
/// number that `serde_json` reads from it; a sequence is an array of the
/// forms of its elements; a map is an object with the form of each value
/// under the value's key; an object is an object with the form of each
/// field's value under the field's name.
pub open spec fn encoded(value: DatumModel) -> JsonModel
    decreases value,
{
    match value {
        DatumModel::Null => JsonModel::Null,
        DatumModel::Bool(b) => JsonModel::Bool(b),
        DatumModel::Integer(i) => JsonModel::Number(i),
        DatumModel::Decimal(numeral) => encoded_numeral(numeral, parsed(numeral)),
        DatumModel::Text(s) => JsonModel::String(s),
        DatumModel::List(items) => JsonModel::Array(
            Seq::new(
                items.len(),
                |i: int|
                    if 0 <= i < items.len() {
                        encoded(items[i])
                    } else {
                        JsonModel::Null
                    },
            ),
        ),
        DatumModel::Table(table) => JsonModel::Object(
            Map::new(
                |k: Seq<char>| table.dom().contains(k),
                |k: Seq<char>|
                    if table.dom().contains(k) {
                        encoded(table[k])
                    } else {
                        JsonModel::Null
                    },
            ),
        ),
        DatumModel::Object(members) => JsonModel::Object(members_from(encoded_fields(members))),
    }
}

/// Each field's name with the JSON form of its value.
pub open spec fn encoded_fields(members: Seq<MemberModel>) -> Seq<(Seq<char>, JsonModel)>
    decreases members,
{
    Seq::new(
        members.len(),
        |i: int|
            if 0 <= i < members.len() {
                (members[i].name, encoded(members[i].value))
            } else {
                (Seq::empty(), JsonModel::Null)
            },
    )
}

/// The JSON form of each value, in order.
pub open spec fn encoded_items(items: Seq<DatumModel>) -> Seq<JsonModel> {
    Seq::new(items.len(), |i: int| encoded(items[i]))
}

/// The JSON form of each value of a map, under the value's key.
pub open spec fn encoded_table(table: Map<Seq<char>, DatumModel>) -> Map<Seq<char>, JsonModel> {
    Map::new(|k: Seq<char>| table.dom().contains(k), |k: Seq<char>| encoded(table[k]))
}

/// Each member's name with the JSON form of its value.
pub open spec fn encoded_members(members: Seq<MemberModel>) -> Seq<(Seq<char>, JsonModel)> {
    Seq::new(members.len(), |i: int| (members[i].name, encoded(members[i].value)))
}

/// The JSON form of a value with parts, by the forms of its parts.
pub proof fn lemma_encoded_parts(value: DatumModel)
    ensures
        value matches DatumModel::List(items) ==> encoded(value) == JsonModel::Array(
            encoded_items(items),
        ),
        value matches DatumModel::Table(table) ==> encoded(value) == JsonModel::Object(
            encoded_table(table),
        ),
        value matches DatumModel::Object(members) ==> encoded(value) == JsonModel::Object(
            members_from(encoded_members(members)),
        ),
{
    match value {
        DatumModel::List(items) => {
            assert(encoded(value)->Array_0 =~= encoded_items(items));
        },
        DatumModel::Table(table) => {
            assert(encoded(value)->Object_0 =~= encoded_table(table));
        },
        DatumModel::Object(members) => {
            assert(encoded_fields(members) =~= encoded_members(members));
        },
        _ => {},
    }
}

/// The JSON form of a numeral, given what the numeral was read as.
pub fn encode_numeral(numeral: &str, document: Option<serde_json::Value>) -> (json:
    serde_json::Value)
    ensures
        json_of(json) == encoded_numeral(
            numeral@,
            match document {
                Some(value) => Some(json_of(value)),
                None => None,
            },
        ),
{
    match document {
        Some(value) => if json_is_number(&value) {
            value
        } else {
            json_string(numeral)
        },
        None => json_string(numeral),
    }
}

/// The JSON form of a value.
#[verifier::loop_isolation(false)]
pub fn encode(value: &Datum) -> (json: serde_json::Value)
    ensures
        json_of(json) == encoded(value@),
    decreases value,
{
    proof {
        lemma_view_parts(*value);
        lemma_encoded_parts(value@);
    }
    match value {
        Datum::Null => json_null(),
        Datum::Bool(b) => json_bool(*b),
        Datum::Integer(i) => json_signed(*i),
        Datum::Decimal(numeral) => encode_numeral(numeral.as_str(), parse_json(numeral.as_str())),
        Datum::Text(s) => json_string(s.as_str()),
        Datum::List(items) => {
            let mut values: Vec<serde_json::Value> = Vec::new();
            let mut i: usize = 0;
            while i < items.len()
                invariant
                    i <= items.len(),
                    values.len() == i,
                    forall|k: int|
                        0 <= k < i ==> json_of(#[trigger] values@[k]) == encoded(items@[k]@),
                decreases items.len() - i,
            {
                values.push(encode(&items[i]));
                i += 1;
            }
            assert(documents_of(values@) =~= encoded_items(models(items@)));
            json_array(values)
        },
        Datum::Table(entries) => {
            let mut members = members_new();
            let mut i: usize = 0;
            while i < entries.len()
                invariant
                    i <= entries.len(),
                    members_of(members) == encoded_table(table_model(entries@.take(i as int))),
                decreases entries.len() - i,
            {
                let json = encode(&entries[i].value);
                members_insert(&mut members, entries[i].name.clone(), json);
                proof {
                    assert(entries@.take(i + 1) =~= entries@.take(i as int).push(entries@[i as int]));
                    lemma_table_push(entries@.take(i as int), entries@[i as int]);
                }
                i += 1;
            }
            assert(entries@.take(i as int) =~= entries@);
            json_object(members)
        },
        Datum::Object(fields) => {
            let mut members = members_new();
            let ghost listed = encoded_members(member_models(fields@));
            let mut i: usize = 0;
            while i < fields.len()
                invariant
                    i <= fields.len(),
                    members_of(members) == members_from(listed.take(i as int)),
                decreases fields.len() - i,
            {
                proof {
                    lemma_members_step(listed, i as int);
                }
                let json = encode(&fields[i].value);
                members_insert(&mut members, fields[i].name.clone(), json);
                i += 1;
            }
            assert(listed.take(i as int) =~= listed);
            json_object(members)
        },
    }
}

/// The declared type of the given name: that of the first declaration of
/// the name.
pub open spec fn declared_type(types: Seq<SchemaDescriptor>, name: Seq<char>) -> Option<
    TypeDescriptor,
>
    decreases types.len(),
{
    if types.len() == 0 {
        None
    } else if types[0].name@ == name {
        Some(types[0].ty)
    } else {
        declared_type(types.drop_first(), name)
    }
}

/// Whether an integer fits 64 bits with a sign.
pub open spec fn fits_i64(n: int) -> bool {
    i64::MIN <= n <= i64::MAX
}

/// What a primitive of the given kind reads from a piece of JSON: a string
/// from a string, a boolean from a boolean, an integer from a number that is
/// an integer of 64 bits. A number reads any JSON number: an integer of 64
/// bits as that integer, any other number as its numeral.
pub open spec fn decoded_primitive(json: JsonModel, kind: PrimitiveKind) -> Option<DatumModel> {
    match (kind, json) {
        (PrimitiveKind::String, JsonModel::String(s)) => Some(DatumModel::Text(s)),
        (PrimitiveKind::Boolean, JsonModel::Bool(b)) => Some(DatumModel::Bool(b)),
        (PrimitiveKind::Integer, JsonModel::Number(n)) => if fits_i64(n) {
            Some(DatumModel::Integer(n))
        } else {
            None
        },
        (PrimitiveKind::Number, JsonModel::Number(n)) => if fits_i64(n) {
            Some(DatumModel::Integer(n))
        } else {
            Some(DatumModel::Decimal(signed_decimal(n)))
        },
        (PrimitiveKind::Number, JsonModel::Fraction(numeral)) => Some(DatumModel::Decimal(numeral)),
        _ => None,
    }
}

/// The value of the type `ty` that a piece of JSON stands for; `None` where
/// it stands for none.
///
/// An optional type reads `null` as the absent value. A sequence reads an
/// array, element by element; a map reads an object, member by member. An
/// object reads an object: each field from the member of its name, a field
/// that is not required from a missing member as the absent value; members
/// that are no fields are passed over. A reference reads what the declared
/// type of its name reads, as long as `depth` allows another reference to be
/// followed.
pub open spec fn decoded(
    json: JsonModel,
    ty: TypeDescriptor,
    types: Seq<SchemaDescriptor>,
    depth: nat,
) -> Option<DatumModel>
    decreases depth, ty,
{
    match ty {
        TypeDescriptor::Primitive(kind, _) => decoded_primitive(json, kind),
        TypeDescriptor::Optional(inner) => if json is Null {
            Some(DatumModel::Null)
        } else {
            decoded(json, *inner, types, depth)
        },
        TypeDescriptor::Sequence(inner) => match json {
            JsonModel::Array(items) => if forall|i: int|
                0 <= i < items.len() ==> decoded(#[trigger] items[i], *inner, types, depth)
                    is Some {
                Some(
                    DatumModel::List(
                        Seq::new(
                            items.len(),
                            |i: int|
                                if 0 <= i < items.len() {
                                    decoded(items[i], *inner, types, depth)->0
                                } else {
                                    DatumModel::Null
                                },
                        ),
                    ),
                )
            } else {
                None
            },
            _ => None,
        },
        TypeDescriptor::StringMap(inner) => match json {
            JsonModel::Object(members) => if forall|k: Seq<char>| #[trigger]
                members.contains_key(k) ==> decoded(members[k], *inner, types, depth) is Some {
                Some(
                    DatumModel::Table(
                        Map::new(
                            |k: Seq<char>| members.contains_key(k),
                            |k: Seq<char>| decoded(members[k], *inner, types, depth)->0,
                        ),
                    ),
                )
            } else {
                None
            },
            _ => None,
        },
        TypeDescriptor::Object(_, fields) => match json {
            JsonModel::Object(members) => if forall|i: int|
                0 <= i < fields@.len() ==> if members.contains_key((#[trigger] fields@[i]).name@) {
                    decoded(members[fields@[i].name@], fields@[i].ty, types, depth) is Some
                } else {
                    !fields@[i].required
                } {
                Some(
                    DatumModel::Object(
                        Seq::new(
                            fields@.len(),
                            |i: int|
                                if 0 <= i < fields@.len() {
                                    MemberModel {
                                        name: fields@[i].name@,
                                        value: if members.contains_key(fields@[i].name@) {
                                            decoded(
                                                members[fields@[i].name@],
                                                fields@[i].ty,
                                                types,
                                                depth,
                                            )->0
                                        } else {
                                            DatumModel::Null
                                        },
                                    }
                                } else {
                                    MemberModel { name: Seq::empty(), value: DatumModel::Null }
                                },
                        ),
                    ),
                )
            } else {
                None
            },
            _ => None,
        },
        TypeDescriptor::Reference(name) => if depth > 0 && declared_type(types, name@) is Some {
            decoded(json, declared_type(types, name@)->0, types, (depth - 1) as nat)
        } else {
            None
        },
    }
}

fn find_type<'a>(types: &'a Vec<SchemaDescriptor>, name: &str) -> (found: Option<
    &'a TypeDescriptor,
>)
    ensures
        match found {
            Some(ty) => declared_type(types@, name@) == Some(*ty),
            None => declared_type(types@, name@) is None,
        },
{
    let key = String::from_str(name);
    let mut i: usize = 0;
    assert(types@.skip(0) =~= types@);
    while i < types.len()
        invariant
            i <= types.len(),
            key@ == name@,
            declared_type(types@, name@) == declared_type(types@.skip(i as int), name@),
        decreases types.len() - i,
    {
        if types[i].name == key {
            return Some(&types[i].ty);
        }
        assert(types@.skip(i as int).drop_first() =~= types@.skip(i + 1));
        i += 1;
    }
    None
}

fn find_member<'a>(
    entries: &Vec<(String, &'a serde_json::Value)>,
    name: &str,
    Ghost(members): Ghost<Map<Seq<char>, JsonModel>>,
) -> (found: Option<&'a serde_json::Value>)
    requires
        lists_members(entries@, members),
    ensures
        match found {
            Some(value) => members.contains_key(name@) && members[name@] == json_of(*value),
            None => !members.contains_key(name@),
        },
{
    let key = String::from_str(name);
    let mut i: usize = 0;
    while i < entries.len()
        invariant
            i <= entries.len(),
            key@ == name@,
            lists_members(entries@, members),
            forall|k: int| 0 <= k < i ==> (#[trigger] entries@[k]).0@ != name@,
        decreases entries.len() - i,
    {
        if entries[i].0 == key {
            return Some(entries[i].1);
        }
        i += 1;
    }
    None
}

fn decode_primitive(json: &serde_json::Value, kind: PrimitiveKind) -> (value: Option<Datum>)
    ensures
        match value {
            Some(d) => decoded_primitive(json_of(*json), kind) == Some(d@),
            None => decoded_primitive(json_of(*json), kind) is None,
        },
{
    match kind {
        PrimitiveKind::String => match json_as_str(json) {
            Some(s) => Some(Datum::Text(String::from_str(s))),
            None => None,
        },
        PrimitiveKind::Boolean => match json_as_bool(json) {
            Some(b) => Some(Datum::Bool(b)),
            None => None,
        },
        PrimitiveKind::Integer => match json_as_i64(json) {
            Some(i) => Some(Datum::Integer(i)),
            None => None,
        },
        PrimitiveKind::Number => match json_as_i64(json) {
            Some(i) => Some(Datum::Integer(i)),
            None => if json_is_number(json) {
                match render_json(json) {
                    Some(numeral) => Some(Datum::Decimal(numeral)),
                    None => None,
                }
            } else {
                None
            },
        },
    }
}

/// The value of the type `ty` that a piece of JSON stands for.
#[verifier::loop_isolation(false)]
pub fn decode(
    json: &serde_json::Value,
    ty: &TypeDescriptor,
    types: &Vec<SchemaDescriptor>,
    depth: usize,
) -> (value: Option<Datum>)
    ensures
        match value {
            Some(d) => decoded(json_of(*json), *ty, types@, depth as nat) == Some(d@),
            None => decoded(json_of(*json), *ty, types@, depth as nat) is None,
        },
    decreases depth, ty,
{
    match ty {
        TypeDescriptor::Primitive(kind, _) => decode_primitive(json, *kind),
        TypeDescriptor::Optional(inner) => {
            if json_is_null(json) {
                Some(Datum::Null)
            } else {
                decode(json, inner, types, depth)
            }
        },
        TypeDescriptor::Sequence(inner) => match json_as_array(json) {
            None => None,
            Some(items) => {
                let ghost docs = documents_of(items@);
                let mut out: Vec<Datum> = Vec::new();
                let mut i: usize = 0;
                while i < items.len()
                    invariant
                        i <= items.len(),
                        out.len() == i,
                        forall|k: int|
                            0 <= k < i ==> decoded(#[trigger] docs[k], **inner, types@, depth as nat)
                                == Some(out@[k]@),
                    decreases items.len() - i,
                {
                    assert(docs[i as int] == json_of(items@[i as int]));
                    match decode(&items[i], inner, types, depth) {
                        None => {
                            return None;
                        },
                        Some(d) => {
                            out.push(d);
                        },
                    }
                    i += 1;
                }
                let value = Datum::List(out);
                proof {
                    lemma_view_parts(value);
                    let wanted = decoded(json_of(*json), *ty, types@, depth as nat);
                    assert(wanted->0->List_0 =~= models(out@));
                }
                Some(value)
            },
        },
        TypeDescriptor::StringMap(inner) => match json_as_object(json) {
            None => None,
            Some(members) => {
                let list = members_list(members);
                let ghost m = members_of(*members);
                let mut entries: Vec<Member> = Vec::new();
                let mut i: usize = 0;
                while i < list.len()
                    invariant
                        i <= list.len(),
                        entries.len() == i,
                        lists_members(list@, m),
                        forall|k: int|
                            0 <= k < i ==> (#[trigger] entries@[k]).name@ == list@[k].0@ && decoded(
                                m[list@[k].0@],
                                **inner,
                                types@,
                                depth as nat,
                            ) == Some(entries@[k].value@),
                    decreases list.len() - i,
                {
                    match decode(list[i].1, inner, types, depth) {
                        None => {
                            return None;
                        },
                        Some(d) => {
                            entries.push(Member { name: list[i].0.clone(), value: d });
                        },
                    }
                    i += 1;
                }
                let value = Datum::Table(entries);
                proof {
                    lemma_view_parts(value);
                    assert forall|k: Seq<char>| #[trigger] m.contains_key(k) implies decoded(
                        m[k],
                        **inner,
                        types@,
                        depth as nat,
                    ) is Some && is_key(entries@, k) by {
                        let at = choose|at: int| 0 <= at < list@.len() && (#[trigger] list@[at]).0@ == k;
                        assert(entries@[at].name@ == k);
                    }
                    let wanted = decoded(json_of(*json), *ty, types@, depth as nat);
                    let table = wanted->0->Table_0;
                    assert forall|k: Seq<char>| is_key(entries@, k) implies m.contains_key(k)
                        && table_model(entries@)[k] == table[k] by {
                        lemma_last_entry(entries@, k);
                    }
                    assert(table_model(entries@) =~= table);
                }
                Some(value)
            },
        },
        TypeDescriptor::Object(_, fields) => match json_as_object(json) {
            None => None,
            Some(members) => {
                let list = members_list(members);
                let ghost m = members_of(*members);
                let mut out: Vec<Member> = Vec::new();
                let mut i: usize = 0;
                while i < fields.len()
                    invariant
                        i <= fields.len(),
                        out.len() == i,
                        lists_members(list@, m),
                        forall|k: int|
                            0 <= k < i ==> (#[trigger] out@[k]).name@ == fields@[k].name@ && if m.contains_key(
                                fields@[k].name@,
                            ) {
                                decoded(m[fields@[k].name@], fields@[k].ty, types@, depth as nat)
                                    == Some(out@[k].value@)
                            } else {
                                !fields@[k].required && out@[k].value@ == DatumModel::Null
                            },
                    decreases fields.len() - i,
                {
                    let field = &fields[i];
                    match find_member(&list, field.name.as_str(), Ghost(m)) {
                        Some(found) => match decode(found, &field.ty, types, depth) {
                            None => {
                                return None;
                            },
                            Some(d) => {
                                out.push(Member { name: field.name.clone(), value: d });
                            },
                        },
                        None => {
                            if field.required {
                                return None;
                            }
                            out.push(Member { name: field.name.clone(), value: Datum::Null });
                        },
                    }
                    i += 1;
                }
                let value = Datum::Object(out);
                proof {
                    lemma_view_parts(value);
                    let wanted = decoded(json_of(*json), *ty, types@, depth as nat);
                    assert forall|k: int| 0 <= k < fields@.len() implies if m.contains_key(
                        (#[trigger] fields@[k]).name@,
                    ) {
                        decoded(m[fields@[k].name@], fields@[k].ty, types@, depth as nat) is Some
                    } else {
                        !fields@[k].required
                    } by {
                        assert(out@[k].name@ == fields@[k].name@);
                    }
                    assert(wanted->0->Object_0 =~= member_models(out@));
                }
                Some(value)
            },
        },
        TypeDescriptor::Reference(name) => {
            if depth == 0 {
                return None;
            }
            match find_type(types, name.as_str()) {
                Some(target) => decode(json, target, types, depth - 1),
                None => None,
            }
        },
    }
}

/// The value that a piece of JSON stands for where no type is declared: a
/// number as `decoded_primitive` reads a number, an array as a sequence, an
/// object as a map. The parts of an array or an object are read in the same
/// way as long as `depth` allows; below that, each part is read as the absent
/// value.
pub open spec fn untyped(json: JsonModel, depth: nat) -> DatumModel
    decreases depth,
{
    match json {
        JsonModel::Null => DatumModel::Null,
        JsonModel::Bool(b) => DatumModel::Bool(b),
        JsonModel::Number(n) => if fits_i64(n) {
            DatumModel::Integer(n)
        } else {
            DatumModel::Decimal(signed_decimal(n))
        },
        JsonModel::Fraction(numeral) => DatumModel::Decimal(numeral),
        JsonModel::String(s) => DatumModel::Text(s),
        JsonModel::Array(items) => DatumModel::List(
            Seq::new(
                items.len(),
                |i: int|
                    if depth > 0 && 0 <= i < items.len() {
                        untyped(items[i], (depth - 1) as nat)
                    } else {
                        DatumModel::Null
                    },
            ),
        ),
        JsonModel::Object(members) => DatumModel::Table(
            Map::new(
                |k: Seq<char>| members.contains_key(k),
                |k: Seq<char>|
                    if depth > 0 && members.contains_key(k) {
                        untyped(members[k], (depth - 1) as nat)
                    } else {
                        DatumModel::Null
                    },
            ),
        ),
    }
}

/// The value that a piece of JSON stands for where no type is declared.
#[verifier::loop_isolation(false)]
pub fn read_untyped(json: &serde_json::Value, depth: usize) -> (value: Datum)
    ensures
        value@ == untyped(json_of(*json), depth as nat),
    decreases depth,
{
    if json_is_null(json) {
        return Datum::Null;
    }
    if let Some(b) = json_as_bool(json) {
        return Datum::Bool(b);
    }
    if let Some(s) = json_as_str(json) {
        return Datum::Text(String::from_str(s));
    }
    if let Some(number) = decode_primitive(json, PrimitiveKind::Number) {
        return number;
    }
    if let Some(items) = json_as_array(json) {
        let ghost docs = documents_of(items@);
        let mut out: Vec<Datum> = Vec::new();
        let mut i: usize = 0;
        while i < items.len()
            invariant
                i <= items.len(),
                out.len() == i,
                forall|k: int|
                    0 <= k < i ==> (#[trigger] out@[k])@ == if depth > 0 {
                        untyped(docs[k], (depth - 1) as nat)
                    } else {
                        DatumModel::Null
                    },
            decreases items.len() - i,
        {
            assert(docs[i as int] == json_of(items@[i as int]));
            if depth > 0 {
                out.push(read_untyped(&items[i], depth - 1));
            } else {
                out.push(Datum::Null);
            }
            i += 1;
        }
        let value = Datum::List(out);
        proof {
            lemma_view_parts(value);
            assert(untyped(json_of(*json), depth as nat)->List_0 =~= models(out@));
        }
        return value;
    }
    if let Some(members) = json_as_object(json) {
        let list = members_list(members);
        let ghost m = members_of(*members);
        let mut entries: Vec<Member> = Vec::new();
        let mut i: usize = 0;
        while i < list.len()
            invariant
                i <= list.len(),
                entries.len() == i,
                lists_members(list@, m),
                forall|k: int|
                    0 <= k < i ==> (#[trigger] entries@[k]).name@ == list@[k].0@
                        && entries@[k].value@ == if depth > 0 {
                        untyped(m[list@[k].0@], (depth - 1) as nat)
                    } else {
                        DatumModel::Null
                    },
            decreases list.len() - i,
        {
            let part = if depth > 0 {
                read_untyped(list[i].1, depth - 1)
            } else {
                Datum::Null
            };
            entries.push(Member { name: list[i].0.clone(), value: part });
            i += 1;
        }
        let value = Datum::Table(entries);
        proof {
            lemma_view_parts(value);
            let table = untyped(json_of(*json), depth as nat)->Table_0;
            assert forall|k: Seq<char>| #[trigger] m.contains_key(k) implies is_key(entries@, k) by {
                let at = choose|at: int| 0 <= at < list@.len() && (#[trigger] list@[at]).0@ == k;
                assert(entries@[at].name@ == k);
            }
            assert forall|k: Seq<char>| is_key(entries@, k) implies m.contains_key(k)
                && table_model(entries@)[k] == table[k] by {
                lemma_last_entry(entries@, k);
            }
            assert(table_model(entries@) =~= table);
        }
        return value;
    }
    Datum::Null
}

/// Whether a numeral reads back as itself: `serde_json` reads it as a number
/// that is no integer of 64 bits, and writes that number as the same numeral.
pub open spec fn reads_back(numeral: Seq<char>) -> bool {
    match parsed(numeral) {
        Some(JsonModel::Fraction(written)) => written == numeral,
        Some(JsonModel::Number(n)) => !fits_i64(n) && signed_decimal(n) == numeral,
        _ => false,
    }
}

/// Whether a numeral reads back as itself.
pub fn numeral_reads_back(numeral: &str) -> (ok: bool)
    ensures
        ok == reads_back(numeral@),
{
    match parse_json(numeral) {
        None => false,
        Some(value) => {
            if json_as_i64(&value).is_some() || !json_is_number(&value) {
                return false;
            }
            match render_json(&value) {
                Some(written) => same_text(written.as_str(), numeral),
                None => false,
            }
        },
    }
}

/// Whether a value is one of the type `ty`.
///
/// The value of a primitive is of the primitive's kind; the value of a
/// number is an integer of 64 bits, or a numeral that reads back as itself. The value of an optional type is absent or one of the
/// inner type. A sequence holds values of its element type, a map values of
/// its value type. An object has the fields of its type, in their order and
/// under their names, which differ from each other. A reference stands for
/// the declared type of its name, as long as `depth` allows another
/// reference to be followed.
pub open spec fn conforms(
    value: DatumModel,
    ty: TypeDescriptor,
    types: Seq<SchemaDescriptor>,
    depth: nat,
) -> bool
    decreases depth, ty,
{
    match ty {
        TypeDescriptor::Primitive(kind, _) => match (kind, value) {
            (PrimitiveKind::String, DatumModel::Text(_)) => true,
            (PrimitiveKind::Boolean, DatumModel::Bool(_)) => true,
            (PrimitiveKind::Integer, DatumModel::Integer(i)) => fits_i64(i),
            (PrimitiveKind::Number, DatumModel::Integer(i)) => fits_i64(i),
            (PrimitiveKind::Number, DatumModel::Decimal(numeral)) => reads_back(numeral),
            _ => false,
        },
        TypeDescriptor::Optional(inner) => value is Null || conforms(value, *inner, types, depth),
        TypeDescriptor::Sequence(inner) => value is List && forall|i: int|
            0 <= i < value->List_0.len() ==> conforms(
                #[trigger] value->List_0[i],
                *inner,
                types,
                depth,
            ),
        TypeDescriptor::StringMap(inner) => value is Table && forall|k: Seq<char>| #[trigger]
            value->Table_0.contains_key(k) ==> conforms(value->Table_0[k], *inner, types, depth),
        TypeDescriptor::Object(_, fields) => {
            &&& value is Object
            &&& value->Object_0.len() == fields@.len()
            &&& forall|i: int, j: int|
                0 <= i < fields@.len() && 0 <= j < fields@.len() && i != j ==> (
                #[trigger] fields@[i]).name@ != (#[trigger] fields@[j]).name@
            &&& forall|i: int|
                0 <= i < fields@.len() ==> value->Object_0[i].name == (#[trigger] fields@[i]).name@
                    && conforms(value->Object_0[i].value, fields@[i].ty, types, depth)
        },
        TypeDescriptor::Reference(name) => depth > 0 && declared_type(types, name@) is Some
            && conforms(value, declared_type(types, name@)->0, types, (depth - 1) as nat),
    }
}

/// Writing a value of a declared type as JSON and reading the JSON back as
/// that type gives the value again: for primitives, optional types,
/// sequences, maps and objects, nested in each other to any depth. Of a
/// number held as a numeral this is so where the numeral reads back as
/// itself.
pub proof fn lemma_round_trip(
    value: DatumModel,
    ty: TypeDescriptor,
    types: Seq<SchemaDescriptor>,
    depth: nat,
)
    requires
        conforms(value, ty, types, depth),
    ensures
        decoded(encoded(value), ty, types, depth) == Some(value),
    decreases depth, ty,
{
    lemma_encoded_parts(value);
    match ty {
        TypeDescriptor::Primitive(_, _) => {},
        TypeDescriptor::Optional(inner) => {
            if !(value is Null) {
                lemma_round_trip(value, *inner, types, depth);
            }
        },
        TypeDescriptor::Sequence(inner) => {
            let items = value->List_0;
            let docs = encoded_items(items);
            assert forall|i: int| 0 <= i < docs.len() implies decoded(
                #[trigger] docs[i],
                *inner,
                types,
                depth,
            ) == Some(items[i]) by {
                lemma_round_trip(items[i], *inner, types, depth);
            }
            let back = decoded(encoded(value), ty, types, depth);
            assert(back->0->List_0 =~= items);
        },
        TypeDescriptor::StringMap(inner) => {
            let table = value->Table_0;
            let docs = encoded_table(table);
            assert forall|k: Seq<char>| #[trigger] docs.contains_key(k) implies decoded(
                docs[k],
                *inner,
                types,
                depth,
            ) == Some(table[k]) by {
                lemma_round_trip(table[k], *inner, types, depth);
            }
            let back = decoded(encoded(value), ty, types, depth);
            assert(back->0->Table_0 =~= table);
        },
        TypeDescriptor::Object(_, fields) => {
            let members = value->Object_0;
            let pairs = encoded_members(members);
            let docs = members_from(pairs);
            assert(distinct_names(pairs)) by {
                assert forall|a: int, b: int|
                    0 <= a < pairs.len() && 0 <= b < pairs.len() && a != b implies #[trigger] pairs[a].0
                    != #[trigger] pairs[b].0 by {
                    assert(members[a].name == fields@[a].name@);
                    assert(members[b].name == fields@[b].name@);
                }
            }
            assert forall|i: int| 0 <= i < fields@.len() implies docs.contains_key(
                (#[trigger] fields@[i]).name@,
            ) && decoded(docs[fields@[i].name@], fields@[i].ty, types, depth) == Some(
                members[i].value,
            ) by {
                lemma_members_of_distinct(pairs, i);
                lemma_round_trip(members[i].value, fields@[i].ty, types, depth);
            }
            let back = decoded(encoded(value), ty, types, depth);
            assert(back->0->Object_0 =~= members);
        },
        TypeDescriptor::Reference(name) => {
            lemma_round_trip(value, declared_type(types, name@)->0, types, (depth - 1) as nat);
        },
    }
}

/// How many references reading follows on its way down where nothing else
/// is asked for.
pub const REFERENCE_DEPTH: usize = 128;

/// Why a text was not read as a value of a type.
#[derive(Clone, Copy, PartialEq, Eq, Structural, Debug)]
pub enum DecodeError {
    /// The text is not JSON.
    Syntax,
    /// The text is JSON, but not a value of the type.
    Shape,
}

/// What `decode_text` gives for a text, given what the text parses to.
pub open spec fn read_from(
    document: Option<JsonModel>,
    ty: TypeDescriptor,
    types: Seq<SchemaDescriptor>,
    depth: nat,
) -> Result<DatumModel, DecodeError> {
    match document {
        None => Err(DecodeError::Syntax),
        Some(json) => match decoded(json, ty, types, depth) {
            Some(value) => Ok(value),
            None => Err(DecodeError::Shape),
        },
    }
}

/// The value of the type `ty` that a JSON text stands for.
pub fn decode_text(text: &str, ty: &TypeDescriptor, types: &Vec<SchemaDescriptor>, depth: usize) -> (result:
    Result<Datum, DecodeError>)
    ensures
        match result {
            Ok(value) => read_from(parsed(text@), *ty, types@, depth as nat) matches Ok(v) && v
                == value@,
            Err(error) => read_from(parsed(text@), *ty, types@, depth as nat) matches Err(e) && e
                == error,
        },
{
    match parse_json(text) {
        None => Err(DecodeError::Syntax),
        Some(json) => match decode(&json, ty, types, depth) {
            Some(value) => Ok(value),
            None => Err(DecodeError::Shape),
        },
    }
}

/// A value written as JSON text: the text that `serde_json` writes for the
/// JSON form of the value.
pub fn encode_text(value: &Datum) -> (text: Option<String>)
    ensures
        exists|json: serde_json::Value|
            json_of(json) == encoded(value@) && text_of(text) == #[trigger] rendered(json),
{
    let json = encode(value);
    render_json(&json)
}

} // verus!
