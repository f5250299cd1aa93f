//! Finding models by what people type: a part of a name, a part of a creator.

use vstd::prelude::*;
use crate::bindings::{lowercase, unicode_lower};
use crate::models::llm::LlmModel;
use crate::text::{chars_of, contains, find_in, str_contains, str_equal};

verus! {

/// Whether `search` finds `model` by name: it is part of the slug as written, or
/// part of the name when both are put in lower case.
pub open spec fn name_matches(model: LlmModel, search: Seq<char>) -> bool {
    contains(model.slug@, search) || contains(unicode_lower(model.name@), unicode_lower(search))
}

/// The text of an optional name; a missing one counts as empty.
pub open spec fn text_or_empty(o: Option<String>) -> Seq<char> {
    match o {
        Some(s) => s@,
        None => Seq::empty(),
    }
}

/// Whether `creator` finds `model` by creator: it is part of the creator slug as
/// written, or part of the creator name when both are put in lower case.
pub open spec fn creator_matches(model: LlmModel, creator: Seq<char>) -> bool {
    contains(text_or_empty(model.creator_slug), creator) || contains(
        unicode_lower(model.creator@),
        unicode_lower(creator),
    )
}

/// Those of the first `n` models that `search` finds by name, in order.
pub open spec fn found_by_name(models: Seq<LlmModel>, search: Seq<char>, n: nat) -> Seq<LlmModel>
    decreases n,
{
    if n == 0 {
        Seq::empty()
    } else {
        let before = found_by_name(models, search, (n - 1) as nat);
        if name_matches(models[n - 1], search) {
            before.push(models[n - 1])
        } else {
            before
        }
    }
}

/// Those of the first `n` models that `creator` finds by creator, in order.
pub open spec fn found_by_creator(models: Seq<LlmModel>, creator: Seq<char>, n: nat) -> Seq<
    LlmModel,
>
    decreases n,
{
    if n == 0 {
        Seq::empty()
    } else {
        let before = found_by_creator(models, creator, (n - 1) as nat);
        if creator_matches(models[n - 1], creator) {
            before.push(models[n - 1])
        } else {
            before
        }
    }
}

/// The models that a list of references points to.
pub open spec fn pointed(list: Seq<&LlmModel>) -> Seq<LlmModel> {
    list.map_values(|m: &LlmModel| *m)
}

/// Decides [`name_matches`], with the search in lower case at hand.
fn matches_name(model: &LlmModel, search: &str, search_lower: &Vec<char>) -> (r: bool)
    requires
        search_lower@ == unicode_lower(search@),
    ensures
        r == name_matches(*model, search@),
{
    if str_contains(model.slug.as_str(), search) {
        return true;
    }
    let name = chars_of(lowercase(model.name.as_str()).as_str());
    find_in(&name, search_lower)
}

/// Filters models by a search term: those found by [`name_matches`], in order.
pub fn filter_models_by_name<'a>(models: &'a [LlmModel], search: &str) -> (found: Vec<&'a LlmModel>)
    ensures
        pointed(found@) == found_by_name(models@, search@, models@.len()),
{
    let search_lower = chars_of(lowercase(search).as_str());
    let mut found: Vec<&'a LlmModel> = Vec::new();
    let mut i: usize = 0;
    assert(pointed(found@) =~= Seq::<LlmModel>::empty());
    while i < models.len()
        invariant
            i <= models.len(),
            search_lower@ == unicode_lower(search@),
            pointed(found@) == found_by_name(models@, search@, i as nat),
        decreases models.len() - i,
    {
        if matches_name(&models[i], search, &search_lower) {
            let ghost before = found@;
            found.push(&models[i]);
            assert(pointed(found@) =~= pointed(before).push(models@[i as int]));
        }
        i += 1;
    }
    found
}

/// Filters models by creator: those found by [`creator_matches`], in order.
pub fn filter_models_by_creator<'a>(models: &'a [LlmModel], creator: &str) -> (found: Vec<
    &'a LlmModel,
>)
    ensures
        pointed(found@) == found_by_creator(models@, creator@, models@.len()),
{
    let creator_lower = chars_of(lowercase(creator).as_str());
    let wanted = chars_of(creator);
    let mut found: Vec<&'a LlmModel> = Vec::new();
    let mut i: usize = 0;
    assert(pointed(found@) =~= Seq::<LlmModel>::empty());
    while i < models.len()
        invariant
            i <= models.len(),
            creator_lower@ == unicode_lower(creator@),
            wanted@ == creator@,
            pointed(found@) == found_by_creator(models@, creator@, i as nat),
        decreases models.len() - i,
    {
        let model = &models[i];
        let slug: Vec<char> = match &model.creator_slug {
            Some(s) => chars_of(s.as_str()),
            None => Vec::new(),
        };
        let hit = find_in(&slug, &wanted) || find_in(
            &chars_of(lowercase(model.creator.as_str()).as_str()),
            &creator_lower,
        );
        if hit {
            let ghost before = found@;
            found.push(model);
            assert(pointed(found@) =~= pointed(before).push(models@[i as int]));
        }
        i += 1;
    }
    found
}

/// Whether one of `list` has the id `id`.
pub open spec fn has_id(list: Seq<LlmModel>, id: Seq<char>) -> bool {
    exists|i: int| 0 <= i < list.len() && (#[trigger] list[i]).id@ == id
}

/// What is gathered after the first `s` searches and, of search `s`, the first
/// `m` models: each model that a search finds by name, unless a model with its
/// id was gathered before.
pub open spec fn gathered(models: Seq<LlmModel>, searches: Seq<String>, s: nat, m: nat) -> Seq<
    LlmModel,
>
    decreases s, m,
{
    if m > 0 {
        let before = gathered(models, searches, s, (m - 1) as nat);
        let model = models[m - 1];
        if name_matches(model, searches[s as int]@) && !has_id(before, model.id@) {
            before.push(model)
        } else {
            before
        }
    } else if s > 0 {
        gathered(models, searches, (s - 1) as nat, models.len())
    } else {
        Seq::empty()
    }
}

/// Decides [`has_id`].
fn seen(list: &Vec<&LlmModel>, id: &str) -> (r: bool)
    ensures
        r == has_id(pointed(list@), id@),
{
    let mut i: usize = 0;
    while i < list.len()
        invariant
            i <= list.len(),
            forall|j: int| 0 <= j < i ==> (#[trigger] pointed(list@)[j]).id@ != id@,
        decreases list.len() - i,
    {
        if str_equal(list[i].id.as_str(), id) {
            assert(pointed(list@)[i as int].id@ == id@);
            return true;
        }
        i += 1;
    }
    false
}

/// Finds all models that any of the search terms finds by name, each model once,
/// in the order in which they are first found.
pub fn find_models_by_names<'a>(models: &'a [LlmModel], searches: &[String]) -> (found: Vec<
    &'a LlmModel,
>)
    ensures
        pointed(found@) == gathered(models@, searches@, searches@.len(), 0),
{
    let mut found: Vec<&'a LlmModel> = Vec::new();
    assert(pointed(found@) =~= Seq::<LlmModel>::empty());
    let mut s: usize = 0;
    while s < searches.len()
        invariant
            s <= searches.len(),
            pointed(found@) == gathered(models@, searches@, s as nat, 0),
        decreases searches.len() - s,
    {
        let search = searches[s].as_str();
        let search_lower = chars_of(lowercase(search).as_str());
        let mut m: usize = 0;
        while m < models.len()
            invariant
                m <= models.len(),
                s < searches.len(),
                search@ == searches@[s as int]@,
                search_lower@ == unicode_lower(search@),
                pointed(found@) == gathered(models@, searches@, s as nat, m as nat),
            decreases models.len() - m,
        {
            let model = &models[m];
            if matches_name(model, search, &search_lower) && !seen(&found, model.id.as_str()) {
                let ghost before = found@;
                found.push(model);
                assert(pointed(found@) =~= pointed(before).push(models@[m as int]));
            }
            m += 1;
        }
        s += 1;
    }
    found
}

} // verus!
