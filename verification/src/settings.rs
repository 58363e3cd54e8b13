//! The settings-document merge engine.
//!
//! A settings document is a JSON object; its `"hooks"` entry holds one value
//! per hook-event name. Merging integrates a caller-supplied fragment into
//! that section, entry by entry and shallowly; removal deletes named entries
//! from it. Everything else in the document is left alone.

use vstd::prelude::*;

use vstd::string::StringExecFns;

use crate::codec::{parse_json, parsed_json, pretty_of, to_pretty};
use crate::json::{
    entries_model, filter_out_names, json_model, keys_of, lemma_entries_model_concat,
    lemma_name_set_dom, lemma_nums_canonical_from, name_set, nums_canonical, obj_take, Json,
    JsonModel,
};

verus! {

/// The key of the hooks section.
pub open spec fn hooks_key() -> Seq<char> {
    "hooks"@
}

/// The top-level map of a document; a non-object document counts as empty.
pub open spec fn root_map(m: JsonModel) -> Map<Seq<char>, JsonModel> {
    match m {
        JsonModel::Obj(o) => o,
        _ => Map::empty(),
    }
}

/// The hooks section a merge starts from: the existing entry, or a fresh
/// empty object where the document has none.
pub open spec fn hooks_before(m: JsonModel) -> JsonModel {
    if root_map(m).contains_key(hooks_key()) {
        root_map(m)[hooks_key()]
    } else {
        JsonModel::Obj(Map::empty())
    }
}

/// The document a merge produces: the fragment's entries overwrite the hooks
/// section's shallowly, sibling entries stay. A non-object document is
/// replaced by an empty one first; a non-object hooks entry, or a non-object
/// fragment, leaves the section as it was.
pub open spec fn merge_model(m: JsonModel, f: JsonModel) -> JsonModel {
    let merged = match (hooks_before(m), f) {
        (JsonModel::Obj(h), JsonModel::Obj(fo)) => JsonModel::Obj(h.union_prefer_right(fo)),
        _ => hooks_before(m),
    };
    JsonModel::Obj(root_map(m).insert(hooks_key(), merged))
}

/// The document a removal produces: the named entries leave the hooks
/// section; a document without an object there is untouched.
pub open spec fn remove_model(m: JsonModel, names: Set<Seq<char>>) -> JsonModel {
    match m {
        JsonModel::Obj(root) => {
            if root.contains_key(hooks_key()) && root[hooks_key()] is Obj {
                JsonModel::Obj(
                    root.insert(
                        hooks_key(),
                        JsonModel::Obj((root[hooks_key()]->Obj_0).remove_keys(names)),
                    ),
                )
            } else {
                m
            }
        },
        _ => m,
    }
}

/// Merges a fragment into a document's hooks section. Values are moved, not
/// rebuilt, so canonical number lexemes stay canonical.
pub fn merge_fragment(settings: Json, fragment: Json) -> (r: Json)
    ensures
        json_model(r) == merge_model(json_model(settings), json_model(fragment)),
        nums_canonical(settings) && nums_canonical(fragment) ==> nums_canonical(r),
{
    let ghost s0 = settings;
    let ghost f0 = fragment;
    let ghost sm = json_model(settings);
    let ghost fm = json_model(fragment);
    let ghost cano = nums_canonical(s0) && nums_canonical(f0);
    let hk: String = "hooks".to_owned();
    let root: Vec<(String, Json)> = match settings {
        Json::Obj(e) => e,
        _ => Vec::new(),
    };
    let ghost rootv = root@;
    proof {
        assert(entries_model(rootv) =~= root_map(sm));
        if cano {
            assert(forall|i: int|
                0 <= i < rootv.len() ==> nums_canonical(#[trigger] rootv[i].1));
        }
    }
    let (mut rest, hooks_opt) = obj_take(root, &hk);
    let hooks_val: Json = match hooks_opt {
        Some(h) => h,
        None => Json::Obj(Vec::new()),
    };
    let ghost hv0 = hooks_val;
    proof {
        assert(json_model(hooks_val) == hooks_before(sm));
        if cano {
            lemma_nums_canonical_from(rest@, rootv);
            if hv0 is Obj {
                assert(forall|i: int|
                    0 <= i < hv0->Obj_0@.len() ==> nums_canonical(
                        #[trigger] hv0->Obj_0@[i].1,
                    )) by {
                    if exists|t: int| 0 <= t < rootv.len() && rootv[t].1 == hv0 {
                        let t = choose|t: int| 0 <= t < rootv.len() && rootv[t].1 == hv0;
                        assert(nums_canonical(rootv[t].1));
                    }
                }
            }
        }
    }
    let new_hooks: Json = match (hooks_val, fragment) {
        (Json::Obj(hentries), Json::Obj(fentries)) => {
            let fnames = keys_of(&fentries);
            proof {
                lemma_name_set_dom(fnames@, fentries@);
            }
            let mut merged = filter_out_names(hentries, &fnames);
            let mut ftail = fentries;
            let ghost keptv = merged@;
            let ghost fv = ftail@;
            merged.append(&mut ftail);
            proof {
                lemma_entries_model_concat(keptv, fv);
                assert(entries_model(merged@) =~= (hooks_before(sm)->Obj_0).union_prefer_right(
                    fm->Obj_0,
                ));
                if cano {
                    lemma_nums_canonical_from(keptv, hv0->Obj_0@);
                    assert(forall|i: int|
                        0 <= i < fv.len() ==> nums_canonical(#[trigger] fv[i].1));
                    assert(forall|i: int|
                        0 <= i < merged@.len() ==> nums_canonical(#[trigger] merged@[i].1))
                        by {
                        assert forall|i: int|
                            0 <= i < merged@.len() implies nums_canonical(
                            #[trigger] merged@[i].1,
                        ) by {
                            if i < keptv.len() {
                                assert(merged@[i] == keptv[i]);
                            } else {
                                assert(merged@[i] == fv[i - keptv.len()]);
                            }
                        }
                    }
                }
            }
            Json::Obj(merged)
        },
        (hv, _) => hv,
    };
    proof {
        if cano {
            assert(nums_canonical(new_hooks));
        }
    }
    let ghost rest0 = rest@;
    rest.push((hk, new_hooks));
    proof {
        assert(rest@.drop_last() =~= rest0);
        assert(entries_model(rest@) == entries_model(rest0).insert(
            hooks_key(),
            json_model(new_hooks),
        ));
        assert(entries_model(rest@) =~= root_map(sm).insert(
            hooks_key(),
            json_model(new_hooks),
        ));
        if cano {
            assert(forall|i: int|
                0 <= i < rest@.len() ==> nums_canonical(#[trigger] rest@[i].1));
        }
    }
    Json::Obj(rest)
}

/// Deletes the named entries from a document's hooks section. Values are
/// moved, not rebuilt, so canonical number lexemes stay canonical.
pub fn remove_events(settings: Json, names: &Vec<String>) -> (r: Json)
    ensures
        json_model(r) == remove_model(json_model(settings), name_set(names@)),
        nums_canonical(settings) ==> nums_canonical(r),
{
    let ghost s0 = settings;
    let ghost sm = json_model(settings);
    let ghost cano = nums_canonical(s0);
    match settings {
        Json::Obj(root) => {
            let ghost rootv = root@;
            proof {
                if cano {
                    assert(forall|i: int|
                        0 <= i < rootv.len() ==> nums_canonical(#[trigger] rootv[i].1));
                }
            }
            let hk: String = "hooks".to_owned();
            let (mut rest, hooks_opt) = obj_take(root, &hk);
            let ghost ho0 = hooks_opt;
            proof {
                if cano {
                    lemma_nums_canonical_from(rest@, rootv);
                    if ho0 is Some {
                        let t = choose|t: int| 0 <= t < rootv.len() && rootv[t].1 == ho0->0;
                        assert(nums_canonical(rootv[t].1));
                    }
                }
            }
            match hooks_opt {
                Some(Json::Obj(h)) => {
                    proof {
                        if cano {
                            assert(ho0->0 == Json::Obj(h));
                            assert(forall|i: int|
                                0 <= i < h@.len() ==> nums_canonical(#[trigger] h@[i].1));
                        }
                    }
                    let kept = filter_out_names(h, names);
                    let ghost hv = h@;
                    let ghost keptv = kept@;
                    let ghost rest0 = rest@;
                    rest.push((hk, Json::Obj(kept)));
                    proof {
                        assert(rest@.drop_last() =~= rest0);
                        assert(entries_model(rest@) == entries_model(rest0).insert(
                            hooks_key(),
                            json_model(Json::Obj(kept)),
                        ));
                        assert(entries_model(rest@) =~= root_map(sm).insert(
                            hooks_key(),
                            JsonModel::Obj(
                                (root_map(sm)[hooks_key()]->Obj_0).remove_keys(name_set(names@)),
                            ),
                        ));
                        if cano {
                            lemma_nums_canonical_from(keptv, hv);
                            assert(forall|i: int|
                                0 <= i < rest@.len() ==> nums_canonical(#[trigger] rest@[i].1));
                        }
                    }
                    Json::Obj(rest)
                },
                Some(other) => {
                    let ghost ov = json_model(other);
                    let ghost rest0 = rest@;
                    rest.push((hk, other));
                    proof {
                        assert(rest@.drop_last() =~= rest0);
                        assert(entries_model(rest@) == entries_model(rest0).insert(
                            hooks_key(),
                            ov,
                        ));
                        assert(entries_model(rest@) =~= root_map(sm));
                        if cano {
                            assert(forall|i: int|
                                0 <= i < rest@.len() ==> nums_canonical(#[trigger] rest@[i].1));
                        }
                    }
                    Json::Obj(rest)
                },
                None => {
                    proof {
                        assert(entries_model(rest@) =~= root_map(sm));
                        if cano {
                            assert(forall|i: int|
                                0 <= i < rest@.len() ==> nums_canonical(#[trigger] rest@[i].1));
                        }
                    }
                    Json::Obj(rest)
                },
            }
        },
        s => s,
    }
}

/// Merging touches no top-level entry besides the hooks section: any other
/// key is present afterwards exactly when it was before, with the same value.
pub proof fn lemma_merge_preserves_siblings(s: JsonModel, f: JsonModel, k: Seq<char>)
    requires
        s is Obj,
        k != hooks_key(),
    ensures
        merge_model(s, f)->Obj_0.contains_key(k) <==> s->Obj_0.contains_key(k),
        s->Obj_0.contains_key(k) ==> merge_model(s, f)->Obj_0[k] == s->Obj_0[k],
{
}

/// Merging overwrites shallowly: every key of an object fragment ends up in
/// the hooks section bound to exactly the fragment's value, whenever the
/// section was an object or absent before.
pub proof fn lemma_merge_overwrites(s: JsonModel, f: JsonModel, e: Seq<char>)
    requires
        f is Obj,
        f->Obj_0.contains_key(e),
        hooks_before(s) is Obj,
    ensures
        merge_model(s, f)->Obj_0.contains_key(hooks_key()),
        merge_model(s, f)->Obj_0[hooks_key()] is Obj,
        merge_model(s, f)->Obj_0[hooks_key()]->Obj_0.contains_key(e),
        merge_model(s, f)->Obj_0[hooks_key()]->Obj_0[e] == f->Obj_0[e],
{
}

/// Merging the same fragment a second time changes nothing.
pub proof fn lemma_merge_idempotent(s: JsonModel, f: JsonModel)
    ensures
        merge_model(merge_model(s, f), f) == merge_model(s, f),
{
    let r1 = merge_model(s, f);
    let h1 = match (hooks_before(s), f) {
        (JsonModel::Obj(h), JsonModel::Obj(fo)) => JsonModel::Obj(h.union_prefer_right(fo)),
        _ => hooks_before(s),
    };
    assert(root_map(r1).contains_key(hooks_key()));
    assert(hooks_before(r1) == h1);
    if h1 is Obj && f is Obj {
        assert((h1->Obj_0).union_prefer_right(f->Obj_0) =~= h1->Obj_0);
    }
    let h2 = match (hooks_before(r1), f) {
        (JsonModel::Obj(h), JsonModel::Obj(fo)) => JsonModel::Obj(h.union_prefer_right(fo)),
        _ => hooks_before(r1),
    };
    assert(h2 == h1);
    assert(root_map(r1).insert(hooks_key(), h1) =~= root_map(r1));
}

/// Removing the same names a second time changes nothing.
pub proof fn lemma_remove_idempotent(s: JsonModel, names: Set<Seq<char>>)
    ensures
        remove_model(remove_model(s, names), names) == remove_model(s, names),
{
    let r1 = remove_model(s, names);
    if s is Obj && s->Obj_0.contains_key(hooks_key()) && s->Obj_0[hooks_key()] is Obj {
        let root = s->Obj_0;
        let h = root[hooks_key()]->Obj_0;
        assert(r1->Obj_0.contains_key(hooks_key()));
        assert(h.remove_keys(names).remove_keys(names) =~= h.remove_keys(names));
        assert(r1->Obj_0.insert(
            hooks_key(),
            JsonModel::Obj(h.remove_keys(names).remove_keys(names)),
        ) =~= r1->Obj_0);
    }
}

/// Removal leaves every hook event it was not asked about untouched.
pub proof fn lemma_remove_preserves_unnamed(s: JsonModel, names: Set<Seq<char>>, n: Seq<char>)
    requires
        s is Obj,
        s->Obj_0.contains_key(hooks_key()),
        s->Obj_0[hooks_key()] is Obj,
        !names.contains(n),
    ensures
        remove_model(s, names)->Obj_0[hooks_key()]->Obj_0.contains_key(n)
            <==> s->Obj_0[hooks_key()]->Obj_0.contains_key(n),
        s->Obj_0[hooks_key()]->Obj_0.contains_key(n)
            ==> remove_model(s, names)->Obj_0[hooks_key()]->Obj_0[n]
            == s->Obj_0[hooks_key()]->Obj_0[n],
{
}

/// Merging an object fragment into an empty document yields a document whose
/// only entry is the hooks section, equal to the fragment.
pub proof fn lemma_merge_into_empty(f: JsonModel)
    requires
        f is Obj,
    ensures
        merge_model(JsonModel::Obj(Map::empty()), f) == JsonModel::Obj(
            Map::empty().insert(hooks_key(), f),
        ),
{
    let s = JsonModel::Obj(Map::<Seq<char>, JsonModel>::empty());
    assert(!root_map(s).contains_key(hooks_key()));
    assert(Map::<Seq<char>, JsonModel>::empty().union_prefer_right(f->Obj_0) =~= f->Obj_0);
    assert(JsonModel::Obj(f->Obj_0) == f);
}

/// Merging an object fragment over a non-object document replaces the
/// document: the result's only entry is the hooks section, equal to the
/// fragment.
pub proof fn lemma_merge_over_non_object(s: JsonModel, f: JsonModel)
    requires
        !(s is Obj),
        f is Obj,
    ensures
        merge_model(s, f) == JsonModel::Obj(Map::empty().insert(hooks_key(), f)),
{
    assert(root_map(s) =~= Map::<Seq<char>, JsonModel>::empty());
    assert(!root_map(s).contains_key(hooks_key()));
    assert(Map::<Seq<char>, JsonModel>::empty().union_prefer_right(f->Obj_0) =~= f->Obj_0);
    assert(JsonModel::Obj(f->Obj_0) == f);
    assert(root_map(s).insert(hooks_key(), f) =~= Map::empty().insert(hooks_key(), f));
}

/// Re-merging a written document is a no-op: where the text a merge wrote
/// parses back (as it does within the codec's nesting limit), a second merge
/// of the same fragment produces that text again.
pub proof fn lemma_merge_text_idempotent(s: JsonModel, f: JsonModel, out: Seq<char>)
    requires
        out == pretty_of(merge_model(s, f)),
        parsed_json(out) == Some(merge_model(s, f)),
    ensures
        pretty_of(merge_model(parsed_json(out)->0, f)) == out,
{
    lemma_merge_idempotent(s, f);
}

/// Re-removing from a written document is a no-op: where the text a removal
/// wrote parses back, removing the same names again produces that text again.
pub proof fn lemma_remove_text_idempotent(s: JsonModel, names: Set<Seq<char>>, out: Seq<char>)
    requires
        out == pretty_of(remove_model(s, names)),
        parsed_json(out) == Some(remove_model(s, names)),
    ensures
        pretty_of(remove_model(parsed_json(out)->0, names)) == out,
{
    lemma_remove_idempotent(s, names);
}

/// Merging a fragment and then removing all its keys deletes them for good:
/// the hooks section ends as it began, minus the fragment's keys. Entries
/// the merge overwrote are not restored.
pub proof fn lemma_merge_then_remove(s: JsonModel, f: JsonModel)
    requires
        s is Obj,
        s->Obj_0.contains_key(hooks_key()),
        s->Obj_0[hooks_key()] is Obj,
        f is Obj,
    ensures
        remove_model(merge_model(s, f), f->Obj_0.dom())->Obj_0.contains_key(hooks_key()),
        remove_model(merge_model(s, f), f->Obj_0.dom())->Obj_0[hooks_key()] == JsonModel::Obj(
            (s->Obj_0[hooks_key()]->Obj_0).remove_keys(f->Obj_0.dom()),
        ),
{
    let h = s->Obj_0[hooks_key()]->Obj_0;
    let fo = f->Obj_0;
    let r1 = merge_model(s, f);
    assert(r1->Obj_0.contains_key(hooks_key()));
    assert(r1->Obj_0[hooks_key()] == JsonModel::Obj(h.union_prefer_right(fo)));
    assert(h.union_prefer_right(fo).remove_keys(fo.dom()) =~= h.remove_keys(fo.dom()));
}

/// A settings-engine failure, carrying the parser's diagnostic.
#[derive(Debug)]
pub enum SettingsError {
    /// The existing settings text did not parse (merge).
    ParseExistingSettings(String),
    /// The fragment text did not parse (merge).
    ParseFragment(String),
    /// The settings text did not parse (removal).
    ParseSettings(String),
}

impl SettingsError {
    /// The diagnostic handed to the UI, naming what failed.
    pub fn message(&self) -> (r: String)
        ensures
            self is ParseExistingSettings ==> r@ == "Failed to parse existing settings: "@
                + self->ParseExistingSettings_0@,
            self is ParseFragment ==> r@ == "Failed to parse hooks JSON: "@
                + self->ParseFragment_0@,
            self is ParseSettings ==> r@ == "Failed to parse settings: "@
                + self->ParseSettings_0@,
    {
        match self {
            SettingsError::ParseExistingSettings(e) => "Failed to parse existing settings: "
                .to_owned()
                .concat(e.as_str()),
            SettingsError::ParseFragment(e) => "Failed to parse hooks JSON: ".to_owned().concat(
                e.as_str(),
            ),
            SettingsError::ParseSettings(e) => "Failed to parse settings: ".to_owned().concat(
                e.as_str(),
            ),
        }
    }
}

/// The document the engine starts a merge from: a missing or unreadable file
/// counts as an empty object.
pub open spec fn existing_model(existing: Option<&str>) -> Option<JsonModel> {
    match existing {
        None => Some(JsonModel::Obj(Map::empty())),
        Some(t) => parsed_json(t@),
    }
}

/// Merges a hooks fragment into a settings document given as text, returning
/// the new text to be written back. `existing` is `None` where the file was
/// missing or unreadable.
pub fn merge_hooks_text(existing: Option<&str>, hooks_json: &str) -> (r: Result<
    String,
    SettingsError,
>)
    ensures
        r is Ok <==> (existing_model(existing) is Some && parsed_json(hooks_json@) is Some),
        r is Ok ==> r->Ok_0@ == pretty_of(
            merge_model(existing_model(existing)->0, parsed_json(hooks_json@)->0),
        ),
        r is Ok && parsed_json(r->Ok_0@) is Some ==> parsed_json(r->Ok_0@) == Some(
            merge_model(existing_model(existing)->0, parsed_json(hooks_json@)->0),
        ),
        existing_model(existing) is None ==> r is Err && r->Err_0 is ParseExistingSettings,
        existing_model(existing) is Some && parsed_json(hooks_json@) is None ==> r is Err
            && r->Err_0 is ParseFragment,
{
    let settings: Json = match existing {
        Some(t) => match parse_json(t) {
            Ok(j) => j,
            Err(e) => {
                return Err(SettingsError::ParseExistingSettings(e));
            },
        },
        None => Json::Obj(Vec::new()),
    };
    proof {
        assert(existing_model(existing) == Some(json_model(settings)));
    }
    let fragment: Json = match parse_json(hooks_json) {
        Ok(j) => j,
        Err(e) => {
            return Err(SettingsError::ParseFragment(e));
        },
    };
    proof {
        assert(nums_canonical(settings));
        assert(nums_canonical(fragment));
    }
    let merged = merge_fragment(settings, fragment);
    Ok(to_pretty(&merged))
}

/// Deletes named hook events from a settings document given as text,
/// returning the new text to be written back.
pub fn remove_hooks_text(existing: &str, names: &Vec<String>) -> (r: Result<
    String,
    SettingsError,
>)
    ensures
        r is Ok <==> parsed_json(existing@) is Some,
        r is Ok ==> r->Ok_0@ == pretty_of(
            remove_model(parsed_json(existing@)->0, name_set(names@)),
        ),
        r is Ok && parsed_json(r->Ok_0@) is Some ==> parsed_json(r->Ok_0@) == Some(
            remove_model(parsed_json(existing@)->0, name_set(names@)),
        ),
        r is Err ==> r->Err_0 is ParseSettings,
{
    let settings: Json = match parse_json(existing) {
        Ok(j) => j,
        Err(e) => {
            return Err(SettingsError::ParseSettings(e));
        },
    };
    proof {
        assert(nums_canonical(settings));
    }
    let trimmed = remove_events(settings, names);
    Ok(to_pretty(&trimmed))
}

} // verus!
