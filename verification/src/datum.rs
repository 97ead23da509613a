//! Decoded values: what a request body or a response holds once it has been
//! read against a declared type.

use vstd::prelude::*;

verus! {

/// A decoded value.
#[derive(Debug)]
pub enum Datum {
    /// An optional value that is absent.
    Null,
    Bool(bool),
    Integer(i64),
    /// A number that is no integer of 64 bits, held as its numeral.
    Decimal(String),
    Text(String),
    /// The elements of a sequence, in order.
    List(Vec<Datum>),
    /// The entries of a map keyed by strings.
    Table(Vec<Member>),
    /// The fields of an object.
    Object(Vec<Member>),
}

/// A field of an object, or an entry of a map: a name with its value.
#[derive(Debug)]
pub struct Member {
    pub name: String,
    pub value: Datum,
}

/// What a `Datum` holds. A map is held as a map: the order of its entries
/// does not count, and of two entries with one key the later counts.
#[verifier::ext_equal]
pub enum DatumModel {
    Null,
    Bool(bool),
    Integer(int),
    Decimal(Seq<char>),
    Text(Seq<char>),
    List(Seq<DatumModel>),
    Table(Map<Seq<char>, DatumModel>),
    Object(Seq<MemberModel>),
}

/// What a `Member` holds.
#[verifier::ext_equal]
pub struct MemberModel {
    pub name: Seq<char>,
    pub value: DatumModel,
}

/// Whether an entry has the key `key`.
pub open spec fn is_key(entries: Seq<Member>, key: Seq<char>) -> bool {
    exists|i: int| 0 <= i < entries.len() && (#[trigger] entries[i]).name@ == key
}

/// `at` is the position of the last entry with the key `key`.
pub open spec fn is_last_entry(entries: Seq<Member>, key: Seq<char>, at: int) -> bool {
    &&& 0 <= at < entries.len()
    &&& entries[at].name@ == key
    &&& forall|j: int| at < j < entries.len() ==> (#[trigger] entries[j]).name@ != key
}

/// The position of the last entry with the key `key`.
pub open spec fn last_entry(entries: Seq<Member>, key: Seq<char>) -> int {
    choose|at: int| is_last_entry(entries, key, at)
}

impl View for Datum {
    type V = DatumModel;

    open spec fn view(&self) -> DatumModel
        decreases self,
    {
        match self {
            Datum::Null => DatumModel::Null,
            Datum::Bool(b) => DatumModel::Bool(*b),
            Datum::Integer(i) => DatumModel::Integer(*i as int),
            Datum::Decimal(numeral) => DatumModel::Decimal(numeral@),
            Datum::Text(s) => DatumModel::Text(s@),
            Datum::List(items) => DatumModel::List(
                Seq::new(
                    items@.len(),
                    |i: int|
                        if 0 <= i < items@.len() {
                            items@[i]@
                        } else {
                            DatumModel::Null
                        },
                ),
            ),
            Datum::Table(entries) => DatumModel::Table(
                Map::new(
                    |k: Seq<char>| is_key(entries@, k),
                    |k: Seq<char>|
                        {
                            let i = last_entry(entries@, k);
                            if 0 <= i < entries@.len() {
                                entries@[i].value@
                            } else {
                                DatumModel::Null
                            }
                        },
                ),
            ),
            Datum::Object(fields) => DatumModel::Object(
                Seq::new(
                    fields@.len(),
                    |i: int|
                        if 0 <= i < fields@.len() {
                            MemberModel { name: fields@[i].name@, value: fields@[i].value@ }
                        } else {
                            MemberModel { name: Seq::empty(), value: DatumModel::Null }
                        },
                ),
            ),
        }
    }
}

impl View for Member {
    type V = MemberModel;

    open spec fn view(&self) -> MemberModel {
        MemberModel { name: self.name@, value: self.value@ }
    }
}

/// The model of each member, in order.
pub open spec fn member_models(members: Seq<Member>) -> Seq<MemberModel> {
    members.map_values(|m: Member| m@)
}

/// The model of each value, in order.
pub open spec fn models(items: Seq<Datum>) -> Seq<DatumModel> {
    items.map_values(|d: Datum| d@)
}

/// The map that a list of entries stands for.
pub open spec fn table_model(entries: Seq<Member>) -> Map<Seq<char>, DatumModel> {
    Map::new(|k: Seq<char>| is_key(entries, k), |k: Seq<char>| entries[last_entry(entries, k)].value@)
}

/// Every key has a last entry.
pub proof fn lemma_last_entry(entries: Seq<Member>, key: Seq<char>)
    requires
        is_key(entries, key),
    ensures
        is_last_entry(entries, key, last_entry(entries, key)),
    decreases entries.len(),
{
    let n = entries.len() - 1;
    if entries[n].name@ == key {
        assert(is_last_entry(entries, key, n));
    } else {
        let earlier = entries.drop_last();
        let i = choose|i: int| 0 <= i < entries.len() && (#[trigger] entries[i]).name@ == key;
        assert(earlier[i].name@ == key);
        lemma_last_entry(earlier, key);
        let at = last_entry(earlier, key);
        assert forall|j: int| at < j < entries.len() implies (#[trigger] entries[j]).name@ != key by {
            if j < n {
                assert(earlier[j] == entries[j]);
            }
        }
        assert(is_last_entry(entries, key, at));
    }
}

/// One entry more is one key more, or a new value for a key.
pub proof fn lemma_table_push(entries: Seq<Member>, entry: Member)
    ensures
        table_model(entries.push(entry)) == table_model(entries).insert(entry.name@, entry.value@),
{
    let longer = entries.push(entry);
    let n = entries.len() as int;
    let wanted = table_model(entries).insert(entry.name@, entry.value@);
    assert forall|k: Seq<char>| table_model(longer).dom().contains(k) <==> wanted.dom().contains(
        k,
    ) by {
        if is_key(entries, k) {
            let i = choose|i: int| 0 <= i < entries.len() && (#[trigger] entries[i]).name@ == k;
            assert(longer[i].name@ == k);
        }
    }
    assert forall|k: Seq<char>| table_model(longer).dom().contains(k) implies table_model(
        longer,
    )[k] == wanted[k] by {
        lemma_last_entry(longer, k);
        let at = last_entry(longer, k);
        if k == entry.name@ {
            assert(longer[n].name@ == k);
        } else {
            lemma_last_entry(entries, k);
            assert forall|j: int| at < j < entries.len() implies (#[trigger] entries[j]).name@
                != k by {
                assert(longer[j] == entries[j]);
            }
        }
    }
}

/// What the view of a value with parts holds, part by part.
pub proof fn lemma_view_parts(value: Datum)
    ensures
        value matches Datum::List(items) ==> value@ == DatumModel::List(models(items@)),
        value matches Datum::Table(entries) ==> value@ == DatumModel::Table(table_model(entries@)),
        value matches Datum::Object(fields) ==> value@ == DatumModel::Object(
            member_models(fields@),
        ),
{
    match value {
        Datum::List(items) => {
            assert(value@->List_0 =~= models(items@));
        },
        Datum::Table(entries) => {
            assert forall|k: Seq<char>| is_key(entries@, k) implies value@->Table_0[k]
                == table_model(entries@)[k] by {
                lemma_last_entry(entries@, k);
            }
            assert(value@->Table_0 =~= table_model(entries@));
        },
        Datum::Object(fields) => {
            assert(value@->Object_0 =~= member_models(fields@));
        },
        _ => {},
    }
}

} // verus!
