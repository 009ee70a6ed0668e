//! Reconciling the candidates of the directory with the registry on record.

use crate::position::{first_index, lemma_first_index_push};
use crate::site::{OnionSite, SiteView};
use crate::text::{lemma_lex_le_transitive, lemma_lex_lt_asymmetric, lex_le, lex_lt, text_lt};
use vstd::hash_map::StringHashMap;
use vstd::prelude::*;
use vstd::seq_lib::{to_multiset_build, to_multiset_insert};

verus! {

/// The registry as a mapping from key to record.
pub type Registry = Map<Seq<char>, SiteView>;

/// The mapping that the records on file give: where two of them share a key,
/// the later one stands.
pub open spec fn seeded(existing: Seq<SiteView>) -> Registry
    decreases existing.len(),
{
    if existing.len() == 0 {
        Map::empty()
    } else {
        seeded(existing.drop_last()).insert(existing.last().name, existing.last())
    }
}

/// The mapping after the candidates were offered to it one by one: a candidate
/// enters only where its key is still free.
pub open spec fn admitted(registry: Registry, candidates: Seq<SiteView>) -> Registry
    decreases candidates.len(),
{
    if candidates.len() == 0 {
        registry
    } else {
        let before = admitted(registry, candidates.drop_last());
        let candidate = candidates.last();
        if before.contains_key(candidate.name) {
            before
        } else {
            before.insert(candidate.name, candidate)
        }
    }
}

/// The registry that reconciling `candidates` with `existing` gives.
pub open spec fn merged(candidates: Seq<SiteView>, existing: Seq<SiteView>) -> Registry {
    admitted(seeded(existing), candidates)
}

/// No two records of `sites` have the same key.
pub open spec fn keys_distinct(sites: Seq<SiteView>) -> bool {
    forall|i: int, j: int|
        0 <= i < sites.len() && 0 <= j < sites.len() && i != j ==> (#[trigger] sites[i]).name != (
        #[trigger] sites[j]).name
}

/// `sites` holds the records of `registry`, each of them once.
pub open spec fn lists(sites: Seq<SiteView>, registry: Registry) -> bool {
    &&& keys_distinct(sites)
    &&& forall|i: int|
        0 <= i < sites.len() ==> registry.contains_key((#[trigger] sites[i]).name)
            && registry[sites[i].name] == sites[i]
    &&& forall|key: Seq<char>| #[trigger]
        registry.contains_key(key) ==> exists|i: int|
            0 <= i < sites.len() && (#[trigger] sites[i]).name == key
}

/// The titles of `sites` ascend in lexicographic order by code point.
pub open spec fn sorted_by_title(sites: Seq<SiteView>) -> bool {
    forall|i: int, j: int|
        0 <= i <= j < sites.len() ==> lex_le((#[trigger] sites[i]).title, (#[trigger] sites[j]).title)
}

/// The keys of `sites`, in their order.
pub open spec fn keys_of(sites: Seq<SiteView>) -> Seq<Seq<char>> {
    sites.map_values(|site: SiteView| site.name)
}

/// When `key` first came up: its first place among the keys of the records on
/// file, followed by those of the candidates.
pub open spec fn arrival(key: Seq<char>, candidates: Seq<SiteView>, existing: Seq<SiteView>) -> int {
    first_index(keys_of(existing + candidates), key)
}

/// Records of `sites` with the same title stand in the order in which their
/// keys first came up.
pub open spec fn ties_by_arrival(
    sites: Seq<SiteView>,
    candidates: Seq<SiteView>,
    existing: Seq<SiteView>,
) -> bool {
    forall|i: int, j: int|
        0 <= i < j < sites.len() && (#[trigger] sites[i]).title == (#[trigger] sites[j]).title
            ==> arrival(sites[i].name, candidates, existing) < arrival(
            sites[j].name,
            candidates,
            existing,
        )
}

/// Whether `out` is what reconciling `candidates` with `existing` gives: the
/// records of the reconciled registry, each of them once, sorted by title,
/// and records with the same title in the order in which their keys first
/// came up.
pub open spec fn reconciles(
    out: Seq<SiteView>,
    candidates: Seq<SiteView>,
    existing: Seq<SiteView>,
) -> bool {
    &&& lists(out, merged(candidates, existing))
    &&& sorted_by_title(out)
    &&& ties_by_arrival(out, candidates, existing)
}

/// Where a record with the title `title` enters `sorted`: behind the last
/// record whose title does not come after `title`.
pub open spec fn slot_for(sorted: Seq<SiteView>, title: Seq<char>) -> int
    decreases sorted.len(),
{
    if sorted.len() == 0 || lex_le(sorted.last().title, title) {
        sorted.len() as int
    } else {
        slot_for(sorted.drop_last(), title)
    }
}

/// `sites` sorted by title, records with the same title in the order that
/// they have in `sites`.
pub open spec fn sorted_stably(sites: Seq<SiteView>) -> Seq<SiteView>
    decreases sites.len(),
{
    if sites.len() == 0 {
        Seq::empty()
    } else {
        let sorted = sorted_stably(sites.drop_last());
        sorted.insert(slot_for(sorted, sites.last().title), sites.last())
    }
}

/// The slot for a title is within the sequence; every record from the slot on
/// has a title that comes after it, and the record before the slot has none.
pub proof fn lemma_slot_for(sorted: Seq<SiteView>, title: Seq<char>)
    ensures
        0 <= slot_for(sorted, title) <= sorted.len(),
        forall|j: int|
            slot_for(sorted, title) <= j < sorted.len() ==> lex_lt(title, (#[trigger] sorted[j]).title),
        slot_for(sorted, title) > 0 ==> lex_le(sorted[slot_for(sorted, title) - 1].title, title),
    decreases sorted.len(),
{
    if sorted.len() > 0 && !lex_le(sorted.last().title, title) {
        let rest = sorted.drop_last();
        lemma_slot_for(rest, title);
        assert forall|j: int| slot_for(sorted, title) <= j < sorted.len() implies lex_lt(
            title,
            (#[trigger] sorted[j]).title,
        ) by {
            if j < rest.len() {
                assert(rest[j] == sorted[j]);
            }
        }
    }
}

/// The stable sort holds the records that it was given, sorted by title.
pub proof fn lemma_sorted_stably_sorts(sites: Seq<SiteView>)
    ensures
        sorted_by_title(sorted_stably(sites)),
        sorted_stably(sites).to_multiset() == sites.to_multiset(),
        sorted_stably(sites).len() == sites.len(),
    decreases sites.len(),
{
    if sites.len() == 0 {
        assert(sites =~= Seq::<SiteView>::empty());
    } else {
        let rest = sites.drop_last();
        let record = sites.last();
        let before = sorted_stably(rest);
        let at = slot_for(before, record.title);
        let after = before.insert(at, record);
        lemma_sorted_stably_sorts(rest);
        lemma_slot_for(before, record.title);
        to_multiset_insert(before, at, record);
        assert(rest.push(record) =~= sites);
        to_multiset_build(rest, record);
        assert forall|i: int, j: int| 0 <= i <= j < after.len() implies lex_le(
            (#[trigger] after[i]).title,
            (#[trigger] after[j]).title,
        ) by {
            if i == j {
                crate::text::lemma_lex_lt_irreflexive(after[i].title);
            } else if j < at {
                assert(after[i] == before[i] && after[j] == before[j]);
            } else if j == at {
                assert(after[i] == before[i]);
                assert(lex_le(before[i].title, before[at - 1].title));
                lemma_lex_le_transitive(before[i].title, before[at - 1].title, record.title);
            } else if i < at {
                assert(after[i] == before[i] && after[j] == before[j - 1]);
            } else if i == at {
                assert(after[j] == before[j - 1]);
                lemma_lex_lt_asymmetric(record.title, before[j - 1].title);
            } else {
                assert(after[i] == before[i - 1] && after[j] == before[j - 1]);
            }
        }
    }
}

/// The stable sort keeps an order that the records had: where `rank` rises
/// along `sites`, it rises along every run of records with the same title in
/// the sorted sequence.
pub proof fn lemma_sorted_stably_keeps_order(sites: Seq<SiteView>, rank: spec_fn(SiteView) -> int)
    requires
        forall|i: int, j: int|
            0 <= i < j < sites.len() ==> rank(#[trigger] sites[i]) < rank(#[trigger] sites[j]),
    ensures
        forall|i: int, j: int|
            0 <= i < j < sorted_stably(sites).len() && (#[trigger] sorted_stably(sites)[i]).title == (
            #[trigger] sorted_stably(sites)[j]).title ==> rank(sorted_stably(sites)[i]) < rank(
                sorted_stably(sites)[j],
            ),
    decreases sites.len(),
{
    broadcast use vstd::seq_lib::group_to_multiset_ensures;

    if sites.len() > 0 {
        let rest = sites.drop_last();
        let record = sites.last();
        let before = sorted_stably(rest);
        let at = slot_for(before, record.title);
        let after = before.insert(at, record);
        assert forall|i: int, j: int| 0 <= i < j < rest.len() implies rank(#[trigger] rest[i]) < rank(
            #[trigger] rest[j],
        ) by {
            assert(rest[i] == sites[i] && rest[j] == sites[j]);
        }
        lemma_sorted_stably_keeps_order(rest, rank);
        lemma_sorted_stably_sorts(rest);
        lemma_slot_for(before, record.title);
        assert forall|i: int, j: int|
            0 <= i < j < after.len() && (#[trigger] after[i]).title == (#[trigger] after[j]).title implies rank(
            after[i],
        ) < rank(after[j]) by {
            if j < at {
                assert(after[i] == before[i] && after[j] == before[j]);
            } else if j == at {
                assert(after[i] == before[i]);
                assert(before.contains(before[i]));
                assert(rest.to_multiset().count(before[i]) > 0);
                assert(rest.contains(before[i]));
                let m = choose|m: int| 0 <= m < rest.len() && rest[m] == before[i];
                assert(sites[m] == rest[m]);
                assert(rank(sites[m]) < rank(sites[sites.len() - 1]));
            } else if i < at {
                assert(after[i] == before[i] && after[j] == before[j - 1]);
            } else if i == at {
                assert(after[j] == before[j - 1]);
                assert(lex_lt(record.title, before[j - 1].title));
                crate::text::lemma_lex_lt_irreflexive(record.title);
            } else {
                assert(after[i] == before[i - 1] && after[j] == before[j - 1]);
            }
        }
    }
}

/// Sorts records by title, ascending; records with the same title keep their
/// order.
pub fn sort_by_title(sites: Vec<OnionSite>) -> (out: Vec<OnionSite>)
    ensures
        out.deep_view() == sorted_stably(sites.deep_view()),
        sorted_by_title(out.deep_view()),
        out.deep_view().to_multiset() == sites.deep_view().to_multiset(),
{
    let ghost all = sites.deep_view();
    let mut out: Vec<OnionSite> = Vec::new();
    proof {
        assert(out.deep_view() =~= sorted_stably(all.take(0)));
    }
    for site in it: sites
        invariant
            it.seq().len() == all.len(),
            forall|i: int| 0 <= i < all.len() ==> (#[trigger] it.seq()[i])@ == all[i],
            out.deep_view() == sorted_stably(all.take(it.index() as int)),
    {
        let ghost k = it.index() as int;
        let ghost before = out.deep_view();
        let ghost record = site@;
        let mut at: usize = out.len();
        proof {
            assert(before.take(at as int) =~= before);
        }
        while at > 0 && text_lt(site.title.as_str(), out[at - 1].title.as_str())
            invariant
                at <= out.len(),
                before == out.deep_view(),
                record == site@,
                slot_for(before, record.title) == slot_for(before.take(at as int), record.title),
            decreases at,
        {
            proof {
                assert(before.take(at as int).last() == before[at - 1]);
                assert(before.take(at as int).drop_last() =~= before.take(at - 1));
            }
            at -= 1;
        }
        proof {
            if at > 0 {
                assert(before.take(at as int).last() == before[at - 1]);
            }
            assert(slot_for(before, record.title) == at);
        }
        out.insert(at, site);
        proof {
            assert(out.deep_view() =~= before.insert(at as int, record));
            assert(all.take(k + 1).drop_last() =~= all.take(k));
            assert(all.take(k + 1).last() == record);
        }
    }
    proof {
        assert(all.take(all.len() as int) =~= all);
        lemma_sorted_stably_sorts(all);
    }
    out
}

/// The records of `sites` stand in the order in which their keys first came
/// up in `keys`, and every key of `keys` has a record in `registry`.
spec fn arranged(sites: Seq<SiteView>, keys: Seq<Seq<char>>, registry: Registry) -> bool {
    &&& forall|i: int| 0 <= i < sites.len() ==> first_index(keys, (#[trigger] sites[i]).name) < keys.len()
    &&& forall|i: int, j: int|
        0 <= i < j < sites.len() ==> first_index(keys, (#[trigger] sites[i]).name) < first_index(
            keys,
            (#[trigger] sites[j]).name,
        )
    &&& forall|key: Seq<char>| #![trigger first_index(keys, key)]
        first_index(keys, key) < keys.len() ==> registry.contains_key(key)
}

/// A key that came up before, coming up again, leaves the arrangement of
/// records that kept their keys.
proof fn lemma_arranged_again(
    sites: Seq<SiteView>,
    after: Seq<SiteView>,
    keys: Seq<Seq<char>>,
    key: Seq<char>,
    registry: Registry,
    grown: Registry,
)
    requires
        arranged(sites, keys, registry),
        after.len() == sites.len(),
        forall|i: int| 0 <= i < sites.len() ==> (#[trigger] after[i]).name == sites[i].name,
        forall|k: Seq<char>| registry.contains_key(k) ==> grown.contains_key(k),
        grown.contains_key(key),
    ensures
        arranged(after, keys.push(key), grown),
{
    let more = keys.push(key);
    assert forall|i: int| 0 <= i < after.len() implies first_index(more, (#[trigger] after[i]).name)
        < more.len() && first_index(more, after[i].name) == first_index(keys, sites[i].name) by {
        assert(first_index(keys, sites[i].name) < keys.len());
        lemma_first_index_push(keys, key, after[i].name);
    }
    assert forall|k: Seq<char>| #![trigger first_index(more, k)]
        first_index(more, k) < more.len() implies grown.contains_key(k) by {
        lemma_first_index_push(keys, key, k);
        if first_index(keys, k) < keys.len() {
            assert(registry.contains_key(k));
        }
    }
}

/// A key that comes up for the first time puts its record behind all others.
proof fn lemma_arranged_extended(
    sites: Seq<SiteView>,
    record: SiteView,
    keys: Seq<Seq<char>>,
    registry: Registry,
)
    requires
        arranged(sites, keys, registry),
        !registry.contains_key(record.name),
    ensures
        arranged(sites.push(record), keys.push(record.name), registry.insert(record.name, record)),
{
    let after = sites.push(record);
    let more = keys.push(record.name);
    let grown = registry.insert(record.name, record);
    lemma_first_index_push(keys, record.name, record.name);
    assert(first_index(keys, record.name) == keys.len());
    assert forall|i: int| 0 <= i < after.len() implies first_index(more, (#[trigger] after[i]).name)
        < more.len() && (i < sites.len() ==> first_index(more, after[i].name) == first_index(
        keys,
        sites[i].name,
    )) by {
        if i < sites.len() {
            assert(first_index(keys, sites[i].name) < keys.len());
            lemma_first_index_push(keys, record.name, after[i].name);
        }
    }
    assert forall|i: int, j: int| 0 <= i < j < after.len() implies first_index(
        more,
        (#[trigger] after[i]).name,
    ) < first_index(more, (#[trigger] after[j]).name) by {
        assert(first_index(more, after[i].name) == first_index(keys, sites[i].name));
        if j < sites.len() {
            assert(first_index(more, after[j].name) == first_index(keys, sites[j].name));
        }
    }
    assert forall|k: Seq<char>| #![trigger first_index(more, k)]
        first_index(more, k) < more.len() implies grown.contains_key(k) by {
        lemma_first_index_push(keys, record.name, k);
        if first_index(keys, k) < keys.len() {
            assert(registry.contains_key(k));
        }
    }
}

/// Where each key's record stands in `sites`.
spec fn locates(slots: Map<Seq<char>, usize>, sites: Seq<SiteView>, registry: Registry) -> bool {
    &&& slots.dom() == registry.dom()
    &&& forall|key: Seq<char>| #[trigger]
        slots.contains_key(key) ==> slots[key] < sites.len() && sites[slots[key] as int].name == key
}

/// A listing stays one when its records are put in another order.
pub proof fn lemma_lists_reordered(sites: Seq<SiteView>, reordered: Seq<SiteView>, registry: Registry)
    requires
        lists(sites, registry),
        reordered.to_multiset() == sites.to_multiset(),
    ensures
        lists(reordered, registry),
{
    broadcast use vstd::seq_lib::group_to_multiset_ensures;

    assert forall|i: int| 0 <= i < reordered.len() implies registry.contains_key(
        (#[trigger] reordered[i]).name,
    ) && registry[reordered[i].name] == reordered[i] by {
        assert(reordered.contains(reordered[i]));
        assert(sites.to_multiset().count(reordered[i]) > 0);
        assert(sites.contains(reordered[i]));
        let j = choose|j: int| 0 <= j < sites.len() && sites[j] == reordered[i];
        assert(registry.contains_key(sites[j].name));
    }
    assert forall|key: Seq<char>| #[trigger] registry.contains_key(key) implies exists|i: int|
        0 <= i < reordered.len() && (#[trigger] reordered[i]).name == key by {
        let j = choose|j: int| 0 <= j < sites.len() && (#[trigger] sites[j]).name == key;
        assert(sites.contains(sites[j]));
        assert(reordered.to_multiset().count(sites[j]) > 0);
        assert(reordered.contains(sites[j]));
        let i = choose|i: int| 0 <= i < reordered.len() && reordered[i] == sites[j];
        assert(reordered[i].name == key);
    }
    assert(sites.no_duplicates()) by {
        assert forall|i: int, j: int| 0 <= i < sites.len() && 0 <= j < sites.len() && i != j implies sites[i]
            != sites[j] by {
            assert(sites[i].name != sites[j].name);
        }
    }
    sites.lemma_multiset_has_no_duplicates();
    reordered.lemma_multiset_has_no_duplicates_conv();
    assert forall|i: int, j: int|
        0 <= i < reordered.len() && 0 <= j < reordered.len() && i != j implies (
    #[trigger] reordered[i]).name != (#[trigger] reordered[j]).name by {
        if reordered[i].name == reordered[j].name {
            assert(registry[reordered[i].name] == reordered[i]);
            assert(registry[reordered[j].name] == reordered[j]);
            assert(reordered[i] == reordered[j]);
        }
    }
}

/// The records on file, one for each key: where two of them share a key, the
/// later one takes the place of the earlier.
fn seed(existing_sites: Vec<OnionSite>) -> (out: (Vec<OnionSite>, StringHashMap<usize>))
    ensures
        lists(out.0.deep_view(), seeded(existing_sites.deep_view())),
        locates(out.1@, out.0.deep_view(), seeded(existing_sites.deep_view())),
        arranged(
            out.0.deep_view(),
            keys_of(existing_sites.deep_view()),
            seeded(existing_sites.deep_view()),
        ),
{
    let ghost all = existing_sites.deep_view();
    let mut sites: Vec<OnionSite> = Vec::new();
    let mut slots: StringHashMap<usize> = StringHashMap::new();
    proof {
        assert(all.take(0) =~= Seq::<SiteView>::empty());
        assert(slots@.dom() =~= seeded(all.take(0)).dom());
        assert(keys_of(all.take(0)) =~= Seq::<Seq<char>>::empty());
    }
    for site in it: existing_sites
        invariant
            it.seq().len() == all.len(),
            forall|i: int| 0 <= i < all.len() ==> (#[trigger] it.seq()[i])@ == all[i],
            lists(sites.deep_view(), seeded(all.take(it.index() as int))),
            locates(slots@, sites.deep_view(), seeded(all.take(it.index() as int))),
            arranged(
                sites.deep_view(),
                keys_of(all.take(it.index() as int)),
                seeded(all.take(it.index() as int)),
            ),
    {
        let ghost k = it.index() as int;
        let ghost before = sites.deep_view();
        let ghost registry = seeded(all.take(k));
        let ghost record = site@;
        let ghost keys = keys_of(all.take(k));
        proof {
            assert(all.take(k + 1).drop_last() =~= all.take(k));
            assert(seeded(all.take(k + 1)) == registry.insert(record.name, record));
            assert(keys_of(all.take(k + 1)) =~= keys.push(record.name));
        }
        let found: Option<usize> = match slots.get(site.name.as_str()) {
            Some(at) => Some(*at),
            None => None,
        };
        match found {
            Some(at) => {
                sites.set(at, site);
                proof {
                    let after = sites.deep_view();
                    assert(after =~= before.update(at as int, record));
                    lemma_lists_replaced(before, at as int, record, registry);
                    assert(slots@.dom() =~= registry.insert(record.name, record).dom());
                    lemma_arranged_again(
                        before,
                        after,
                        keys,
                        record.name,
                        registry,
                        registry.insert(record.name, record),
                    );
                }
            },
            None => {
                let key = site.name.clone();
                slots.insert(key, sites.len());
                sites.push(site);
                proof {
                    let after = sites.deep_view();
                    assert(after =~= before.push(record));
                    lemma_lists_extended(before, record, registry);
                    assert(slots@.dom() =~= registry.insert(record.name, record).dom());
                    lemma_arranged_extended(before, record, keys, registry);
                }
            },
        }
    }
    proof {
        assert(all.take(all.len() as int) =~= all);
    }
    (sites, slots)
}

/// Replacing a record by one with the same key lists the registry in which
/// that key has the new record.
pub proof fn lemma_lists_replaced(sites: Seq<SiteView>, at: int, record: SiteView, registry: Registry)
    requires
        lists(sites, registry),
        0 <= at < sites.len(),
        sites[at].name == record.name,
    ensures
        lists(sites.update(at, record), registry.insert(record.name, record)),
{
    let after = sites.update(at, record);
    let grown = registry.insert(record.name, record);
    assert forall|i: int, j: int| 0 <= i < after.len() && 0 <= j < after.len() && i != j implies (
    #[trigger] after[i]).name != (#[trigger] after[j]).name by {
        assert(after[i].name == sites[i].name && after[j].name == sites[j].name);
    }
    assert forall|i: int| 0 <= i < after.len() implies grown.contains_key((#[trigger] after[i]).name)
        && grown[after[i].name] == after[i] by {
        if i != at {
            assert(sites[i].name != sites[at].name);
            assert(registry[sites[i].name] == sites[i]);
        }
    }
    assert forall|key: Seq<char>| #[trigger] grown.contains_key(key) implies exists|i: int|
        0 <= i < after.len() && (#[trigger] after[i]).name == key by {
        if key == record.name {
            assert(after[at].name == key);
        } else {
            let i = choose|i: int| 0 <= i < sites.len() && (#[trigger] sites[i]).name == key;
            assert(after[i].name == key);
        }
    }
}

/// Appending a record whose key is free lists the registry with that record
/// added.
pub proof fn lemma_lists_extended(sites: Seq<SiteView>, record: SiteView, registry: Registry)
    requires
        lists(sites, registry),
        !registry.contains_key(record.name),
    ensures
        lists(sites.push(record), registry.insert(record.name, record)),
{
    let after = sites.push(record);
    let grown = registry.insert(record.name, record);
    assert forall|i: int, j: int| 0 <= i < after.len() && 0 <= j < after.len() && i != j implies (
    #[trigger] after[i]).name != (#[trigger] after[j]).name by {
        if i < sites.len() {
            assert(registry.contains_key(sites[i].name));
        }
        if j < sites.len() {
            assert(registry.contains_key(sites[j].name));
        }
    }
    assert forall|i: int| 0 <= i < after.len() implies grown.contains_key((#[trigger] after[i]).name)
        && grown[after[i].name] == after[i] by {
        if i < sites.len() {
            assert(registry.contains_key(sites[i].name));
            assert(registry[sites[i].name] == sites[i]);
        }
    }
    assert forall|key: Seq<char>| #[trigger] grown.contains_key(key) implies exists|i: int|
        0 <= i < after.len() && (#[trigger] after[i]).name == key by {
        if key == record.name {
            assert(after[sites.len() as int].name == key);
        } else {
            let i = choose|i: int| 0 <= i < sites.len() && (#[trigger] sites[i]).name == key;
            assert(after[i].name == key);
        }
    }
}

/// Reconciles the candidates of the directory with the records on file.
///
/// Every record on file stays as it is: a candidate whose key is on file is
/// dropped, whatever its title and address. Of the records on file that share
/// a key the last one stands, and of the candidates that share a new key the
/// first. The result holds one record for each key, sorted by title; records
/// with the same title stand in the order in which their keys first came up,
/// on file first and then among the candidates.
pub fn merge_onion_sites(github_sites: Vec<OnionSite>, existing_sites: Vec<OnionSite>) -> (out: Vec<
    OnionSite,
>)
    ensures
        reconciles(out.deep_view(), github_sites.deep_view(), existing_sites.deep_view()),
{
    let ghost candidates = github_sites.deep_view();
    let ghost existing = existing_sites.deep_view();
    let ghost start = seeded(existing);
    let (mut sites, mut slots) = seed(existing_sites);
    proof {
        assert(candidates.take(0) =~= Seq::<SiteView>::empty());
        assert(existing + candidates.take(0) =~= existing);
    }
    for site in it: github_sites
        invariant
            it.seq().len() == candidates.len(),
            forall|i: int| 0 <= i < candidates.len() ==> (#[trigger] it.seq()[i])@ == candidates[i],
            lists(sites.deep_view(), admitted(start, candidates.take(it.index() as int))),
            locates(slots@, sites.deep_view(), admitted(start, candidates.take(it.index() as int))),
            arranged(
                sites.deep_view(),
                keys_of(existing + candidates.take(it.index() as int)),
                admitted(start, candidates.take(it.index() as int)),
            ),
    {
        let ghost k = it.index() as int;
        let ghost before = sites.deep_view();
        let ghost registry = admitted(start, candidates.take(k));
        let ghost record = site@;
        let ghost keys = keys_of(existing + candidates.take(k));
        proof {
            assert(candidates.take(k + 1).drop_last() =~= candidates.take(k));
            assert(keys_of(existing + candidates.take(k + 1)) =~= keys.push(record.name));
        }
        if !slots.contains_key(site.name.as_str()) {
            let key = site.name.clone();
            slots.insert(key, sites.len());
            sites.push(site);
            proof {
                let after = sites.deep_view();
                assert(after =~= before.push(record));
                lemma_lists_extended(before, record, registry);
                assert(slots@.dom() =~= registry.insert(record.name, record).dom());
                lemma_arranged_extended(before, record, keys, registry);
            }
        } else {
            proof {
                lemma_arranged_again(before, before, keys, record.name, registry, registry);
            }
        }
    }
    proof {
        assert(candidates.take(candidates.len() as int) =~= candidates);
    }
    let ghost gathered = sites.deep_view();
    let out = sort_by_title(sites);
    proof {
        lemma_lists_reordered(gathered, out.deep_view(), merged(candidates, existing));
        let keys = keys_of(existing + candidates);
        lemma_sorted_stably_keeps_order(gathered, |site: SiteView| first_index(keys, site.name));
    }
    out
}

} // verus!
