//! A JSON document as plain data, with a mathematical model.
//!
//! Objects are key/value pair lists; their model is a map in which a later
//! entry for a key overrides an earlier one. Numbers carry their decimal
//! lexeme, so no numeric precision is lost or touched here.

use vstd::prelude::*;

verus! {

/// A JSON value held as plain data.
pub enum Json {
    Null,
    Bool(bool),
    /// A number, kept as its decimal lexeme.
    Num(String),
    Str(String),
    Arr(Vec<Json>),
    Obj(Vec<(String, Json)>),
}

/// The mathematical model of a JSON value: objects become maps from key to
/// model, so two documents are equal exactly when they agree structurally,
/// whatever the order of their object entries.
#[verifier::ext_equal]
pub enum JsonModel {
    Null,
    Bool(bool),
    Num(Seq<char>),
    Str(Seq<char>),
    Arr(Seq<JsonModel>),
    Obj(Map<Seq<char>, JsonModel>),
}

/// The model of a JSON value.
pub open spec fn json_model(j: Json) -> JsonModel
    decreases j,
{
    match j {
        Json::Null => JsonModel::Null,
        Json::Bool(b) => JsonModel::Bool(b),
        Json::Num(s) => JsonModel::Num(s@),
        Json::Str(s) => JsonModel::Str(s@),
        Json::Arr(items) => JsonModel::Arr(arr_model(items@)),
        Json::Obj(entries) => JsonModel::Obj(entries_model(entries@)),
    }
}

/// The models of the elements of an array, in order.
pub open spec fn arr_model(items: Seq<Json>) -> Seq<JsonModel>
    decreases items,
{
    if items.len() == 0 {
        Seq::empty()
    } else {
        arr_model(items.drop_last()).push(json_model(items.last()))
    }
}

/// The map an entry list stands for: a later entry for a key wins.
pub open spec fn entries_model(entries: Seq<(String, Json)>) -> Map<Seq<char>, JsonModel>
    decreases entries,
{
    if entries.len() == 0 {
        Map::empty()
    } else {
        entries_model(entries.drop_last()).insert(
            entries.last().0@,
            json_model(entries.last().1),
        )
    }
}

impl View for Json {
    type V = JsonModel;

    open spec fn view(&self) -> JsonModel {
        json_model(*self)
    }
}

/// A key is in the model exactly when some entry carries it.
pub proof fn lemma_entries_model_dom(entries: Seq<(String, Json)>, k: Seq<char>)
    ensures
        entries_model(entries).contains_key(k) <==> (exists|i: int|
            0 <= i < entries.len() && entries[i].0@ == k),
    decreases entries,
{
    if entries.len() > 0 {
        lemma_entries_model_dom(entries.drop_last(), k);
        if entries.last().0@ == k {
            assert(entries[entries.len() - 1].0@ == k);
        } else if exists|i: int| 0 <= i < entries.len() && entries[i].0@ == k {
            let i = choose|i: int| 0 <= i < entries.len() && entries[i].0@ == k;
            assert(entries.drop_last()[i] == entries[i]);
        }
    }
}

/// Concatenating entry lists unites their maps; the right side wins.
pub proof fn lemma_entries_model_concat(a: Seq<(String, Json)>, b: Seq<(String, Json)>)
    ensures
        entries_model(a + b) == entries_model(a).union_prefer_right(entries_model(b)),
    decreases b,
{
    if b.len() == 0 {
        assert(a + b =~= a);
        assert(entries_model(a).union_prefer_right(entries_model(b)) =~= entries_model(a));
    } else {
        lemma_entries_model_concat(a, b.drop_last());
        assert((a + b).drop_last() =~= a + b.drop_last());
        assert(entries_model(a).union_prefer_right(entries_model(b.drop_last())).insert(
            b.last().0@,
            json_model(b.last().1),
        ) =~= entries_model(a).union_prefer_right(entries_model(b)));
    }
}

/// The number lexemes the codec itself prints: parsing one back and printing
/// the parse again returns it unchanged.
pub uninterp spec fn canonical_number(s: Seq<char>) -> bool;

/// Every number lexeme anywhere in the value is one the codec printed.
pub open spec fn nums_canonical(j: Json) -> bool
    decreases j,
{
    match j {
        Json::Num(s) => canonical_number(s@),
        Json::Arr(items) => forall|i: int|
            0 <= i < items@.len() ==> nums_canonical(#[trigger] items@[i]),
        Json::Obj(entries) => forall|i: int|
            0 <= i < entries@.len() ==> nums_canonical(#[trigger] entries@[i].1),
        _ => true,
    }
}

/// Entries drawn from a list whose values all have canonical numbers have
/// them too.
pub proof fn lemma_nums_canonical_from(sub: Seq<(String, Json)>, sup: Seq<(String, Json)>)
    requires
        forall|i: int| 0 <= i < sub.len() ==> sup.contains(#[trigger] sub[i]),
        forall|i: int| 0 <= i < sup.len() ==> nums_canonical(#[trigger] sup[i].1),
    ensures
        forall|i: int| 0 <= i < sub.len() ==> nums_canonical(#[trigger] sub[i].1),
{
    assert forall|i: int| 0 <= i < sub.len() implies nums_canonical(#[trigger] sub[i].1) by {
        let j = choose|j: int| 0 <= j < sup.len() && sup[j] == sub[i];
        assert(nums_canonical(sup[j].1));
    }
}

/// The set of key views that a list of names stands for.
pub open spec fn name_set(names: Seq<String>) -> Set<Seq<char>> {
    names.map_values(|s: String| s@).to_set()
}

/// Whether a key occurs in a list of names.
pub fn name_listed(names: &Vec<String>, key: &String) -> (r: bool)
    ensures
        r == name_set(names@).contains(key@),
{
    let mut i: usize = 0;
    while i < names.len()
        invariant
            0 <= i <= names@.len(),
            forall|j: int| 0 <= j < i ==> names@[j]@ != key@,
        decreases names@.len() - i,
    {
        if names[i] == *key {
            proof {
                let m = names@.map_values(|s: String| s@);
                assert(m[i as int] == key@);
                assert(m.contains(key@));
            }
            return true;
        }
        i += 1;
    }
    proof {
        let m = names@.map_values(|s: String| s@);
        assert forall|j: int| 0 <= j < m.len() implies m[j] != key@ by {
            assert(names@[j]@ != key@);
        }
        assert(!m.contains(key@));
    }
    false
}

/// The keys of an entry list, as owned strings, in order.
pub fn keys_of(entries: &Vec<(String, Json)>) -> (r: Vec<String>)
    ensures
        r@.len() == entries@.len(),
        forall|i: int| 0 <= i < r@.len() ==> r@[i]@ == entries@[i].0@,
{
    let mut r: Vec<String> = Vec::new();
    let mut i: usize = 0;
    while i < entries.len()
        invariant
            0 <= i <= entries@.len(),
            r@.len() == i,
            forall|j: int| 0 <= j < i ==> r@[j]@ == entries@[j].0@,
        decreases entries@.len() - i,
    {
        r.push(entries[i].0.clone());
        i += 1;
    }
    r
}

/// A name list made of exactly the keys of an entry list covers its domain.
pub proof fn lemma_name_set_dom(names: Seq<String>, entries: Seq<(String, Json)>)
    requires
        names.len() == entries.len(),
        forall|i: int| 0 <= i < names.len() ==> names[i]@ == entries[i].0@,
    ensures
        name_set(names) == entries_model(entries).dom(),
{
    let m = names.map_values(|s: String| s@);
    assert forall|k: Seq<char>|
        name_set(names).contains(k) <==> entries_model(entries).dom().contains(k) by {
        lemma_entries_model_dom(entries, k);
        if name_set(names).contains(k) {
            let i = choose|i: int| 0 <= i < m.len() && m[i] == k;
            assert(entries[i].0@ == k);
        }
        if entries_model(entries).contains_key(k) {
            let i = choose|i: int| 0 <= i < entries.len() && entries[i].0@ == k;
            assert(m[i] == k);
            assert(m.contains(k));
        }
    }
    assert(name_set(names) =~= entries_model(entries).dom());
}

/// Splits an entry list into the entries whose key is not `key` and the value
/// that `key` maps to, if any.
pub fn obj_take(entries: Vec<(String, Json)>, key: &String) -> (r: (
    Vec<(String, Json)>,
    Option<Json>,
))
    ensures
        entries_model(r.0@) == entries_model(entries@).remove(key@),
        match r.1 {
            Some(v) => entries_model(entries@).contains_key(key@)
                && json_model(v) == entries_model(entries@)[key@],
            None => !entries_model(entries@).contains_key(key@),
        },
        forall|i: int| 0 <= i < r.0@.len() ==> entries@.contains(#[trigger] r.0@[i]),
        r.1 matches Some(v) ==> exists|i: int|
            0 <= i < entries@.len() && entries@[i].1 == v,
{
    let ghost orig = entries@;
    let mut input = entries;
    let mut out: Vec<(String, Json)> = Vec::new();
    let mut found: Option<Json> = None;
    while input.len() > 0
        invariant
            input@.len() <= orig.len(),
            input@ == orig.subrange(orig.len() - input@.len(), orig.len() as int),
            entries_model(out@) == entries_model(
                orig.subrange(0, orig.len() - input@.len()),
            ).remove(key@),
            match found {
                Some(v) => entries_model(orig.subrange(0, orig.len() - input@.len()))
                    .contains_key(key@) && json_model(v) == entries_model(
                    orig.subrange(0, orig.len() - input@.len()),
                )[key@],
                None => !entries_model(orig.subrange(0, orig.len() - input@.len()))
                    .contains_key(key@),
            },
            forall|t: int| 0 <= t < out@.len() ==> orig.contains(#[trigger] out@[t]),
            found matches Some(v) ==> exists|t: int| 0 <= t < orig.len() && orig[t].1 == v,
        decreases input@.len(),
    {
        let ghost j = orig.len() - input@.len();
        let (pk, pv) = input.remove(0);
        proof {
            assert(orig.subrange(j, orig.len() as int).drop_first() =~= orig.subrange(
                j + 1,
                orig.len() as int,
            ));
            assert(input@ =~= orig.subrange(j + 1, orig.len() as int));
            assert(orig.subrange(0, j + 1).drop_last() =~= orig.subrange(0, j));
            assert(orig.subrange(0, j + 1).last() == orig[j]);
            assert(entries_model(orig.subrange(0, j + 1)) == entries_model(
                orig.subrange(0, j),
            ).insert(orig[j].0@, json_model(orig[j].1)));
        }
        if pk == *key {
            proof {
                assert(entries_model(orig.subrange(0, j + 1)).remove(key@) =~= entries_model(
                    orig.subrange(0, j),
                ).remove(key@));
            }
            found = Some(pv);
        } else {
            proof {
                assert(entries_model(orig.subrange(0, j + 1)).remove(key@) =~= entries_model(
                    orig.subrange(0, j),
                ).remove(key@).insert(pk@, json_model(pv)));
                assert(out@.push((pk, pv)).drop_last() =~= out@);
                assert(entries_model(out@.push((pk, pv))) == entries_model(out@).insert(
                    pk@,
                    json_model(pv),
                ));
            }
            out.push((pk, pv));
        }
    }
    proof {
        assert(orig.subrange(0, orig.len() as int) =~= orig);
    }
    (out, found)
}

/// Keeps only the entries whose key is not in the name list.
pub fn filter_out_names(entries: Vec<(String, Json)>, names: &Vec<String>) -> (r: Vec<
    (String, Json),
>)
    ensures
        entries_model(r@) == entries_model(entries@).remove_keys(name_set(names@)),
        forall|i: int| 0 <= i < r@.len() ==> entries@.contains(#[trigger] r@[i]),
{
    let ghost orig = entries@;
    let ghost nset = name_set(names@);
    let mut input = entries;
    let mut out: Vec<(String, Json)> = Vec::new();
    while input.len() > 0
        invariant
            nset == name_set(names@),
            input@.len() <= orig.len(),
            input@ == orig.subrange(orig.len() - input@.len(), orig.len() as int),
            entries_model(out@) == entries_model(
                orig.subrange(0, orig.len() - input@.len()),
            ).remove_keys(nset),
            forall|t: int| 0 <= t < out@.len() ==> orig.contains(#[trigger] out@[t]),
        decreases input@.len(),
    {
        let ghost j = orig.len() - input@.len();
        let (pk, pv) = input.remove(0);
        proof {
            assert(orig.subrange(j, orig.len() as int).drop_first() =~= orig.subrange(
                j + 1,
                orig.len() as int,
            ));
            assert(input@ =~= orig.subrange(j + 1, orig.len() as int));
            assert(orig.subrange(0, j + 1).drop_last() =~= orig.subrange(0, j));
            assert(orig.subrange(0, j + 1).last() == orig[j]);
            assert(entries_model(orig.subrange(0, j + 1)) == entries_model(
                orig.subrange(0, j),
            ).insert(orig[j].0@, json_model(orig[j].1)));
        }
        if name_listed(names, &pk) {
            proof {
                assert(entries_model(orig.subrange(0, j + 1)).remove_keys(nset)
                    =~= entries_model(orig.subrange(0, j)).remove_keys(nset));
            }
        } else {
            proof {
                assert(entries_model(orig.subrange(0, j + 1)).remove_keys(nset)
                    =~= entries_model(orig.subrange(0, j)).remove_keys(nset).insert(
                    pk@,
                    json_model(pv),
                ));
                assert(out@.push((pk, pv)).drop_last() =~= out@);
                assert(entries_model(out@.push((pk, pv))) == entries_model(out@).insert(
                    pk@,
                    json_model(pv),
                ));
            }
            out.push((pk, pv));
        }
    }
    proof {
        assert(orig.subrange(0, orig.len() as int) =~= orig);
    }
    out
}

} // verus!
