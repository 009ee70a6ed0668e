//! What holds of every reconciliation, proved from the model of the registry.

use crate::merge::{
    admitted, arrival, keys_distinct, keys_of, lemma_lists_extended, lemma_lists_reordered,
    lemma_sorted_stably_keeps_order, lemma_sorted_stably_sorts, lists, merged, reconciles, seeded,
    sorted_by_title, sorted_stably, ties_by_arrival, Registry,
};
use crate::position::{first_index, lemma_first_index_found};
use crate::site::SiteView;
use crate::text::{lemma_lex_le_antisymmetric, lemma_lex_lt_asymmetric, lemma_lex_lt_irreflexive, lex_lt};
use vstd::prelude::*;

verus! {

/// Offering candidates to a registry keeps every record that it held, and
/// gives every candidate's key a record.
pub proof fn lemma_admitted_extends(registry: Registry, candidates: Seq<SiteView>)
    ensures
        forall|key: Seq<char>| #[trigger]
            registry.contains_key(key) ==> admitted(registry, candidates).contains_key(key)
                && admitted(registry, candidates)[key] == registry[key],
        forall|i: int|
            0 <= i < candidates.len() ==> admitted(registry, candidates).contains_key(
                (#[trigger] candidates[i]).name,
            ),
    decreases candidates.len(),
{
    if candidates.len() > 0 {
        let rest = candidates.drop_last();
        lemma_admitted_extends(registry, rest);
        assert forall|i: int| 0 <= i < candidates.len() implies admitted(
            registry,
            candidates,
        ).contains_key((#[trigger] candidates[i]).name) by {
            if i < rest.len() {
                assert(rest[i] == candidates[i]);
            }
        }
    }
}

/// Offering candidates to a registry that holds all their keys changes
/// nothing.
pub proof fn lemma_admitted_known(registry: Registry, candidates: Seq<SiteView>)
    requires
        forall|i: int| 0 <= i < candidates.len() ==> registry.contains_key((#[trigger] candidates[i]).name),
    ensures
        admitted(registry, candidates) == registry,
    decreases candidates.len(),
{
    if candidates.len() > 0 {
        let rest = candidates.drop_last();
        assert forall|i: int| 0 <= i < rest.len() implies registry.contains_key((#[trigger] rest[i]).name) by {
            assert(rest[i] == candidates[i]);
        }
        lemma_admitted_known(registry, rest);
        assert(registry.contains_key(candidates[candidates.len() - 1].name));
    }
}

/// A key has a record among those on file exactly if a record on file has
/// that key.
pub proof fn lemma_seeded_keys(existing: Seq<SiteView>)
    ensures
        forall|key: Seq<char>| #[trigger]
            seeded(existing).contains_key(key) <==> exists|i: int|
                0 <= i < existing.len() && (#[trigger] existing[i]).name == key,
    decreases existing.len(),
{
    if existing.len() > 0 {
        let rest = existing.drop_last();
        let last = existing.last();
        lemma_seeded_keys(rest);
        assert forall|key: Seq<char>| #[trigger] seeded(existing).contains_key(key) implies exists|i: int|
            0 <= i < existing.len() && (#[trigger] existing[i]).name == key by {
            if key == last.name {
                assert(existing[existing.len() - 1].name == key);
            } else {
                assert(seeded(rest).contains_key(key));
                let i = choose|i: int| 0 <= i < rest.len() && (#[trigger] rest[i]).name == key;
                assert(existing[i].name == key);
            }
        }
        assert forall|key: Seq<char>|
            (exists|i: int| 0 <= i < existing.len() && (#[trigger] existing[i]).name == key) implies #[trigger]
            seeded(existing).contains_key(key) by {
            let i = choose|i: int| 0 <= i < existing.len() && (#[trigger] existing[i]).name == key;
            if i < rest.len() {
                assert(rest[i].name == key);
                assert(seeded(rest).contains_key(key));
            }
        }
    }
}

/// Records with distinct keys list the registry that they seed.
pub proof fn lemma_seeded_lists(existing: Seq<SiteView>)
    requires
        keys_distinct(existing),
    ensures
        lists(existing, seeded(existing)),
    decreases existing.len(),
{
    if existing.len() > 0 {
        let rest = existing.drop_last();
        let last = existing.last();
        assert(keys_distinct(rest)) by {
            assert forall|i: int, j: int| 0 <= i < rest.len() && 0 <= j < rest.len() && i != j implies (
            #[trigger] rest[i]).name != (#[trigger] rest[j]).name by {
                assert(rest[i] == existing[i] && rest[j] == existing[j]);
            }
        }
        lemma_seeded_lists(rest);
        lemma_seeded_keys(rest);
        if seeded(rest).contains_key(last.name) {
            let i = choose|i: int| 0 <= i < rest.len() && (#[trigger] rest[i]).name == last.name;
            assert(existing[i].name == existing[existing.len() - 1].name);
        }
        lemma_lists_extended(rest, last, seeded(rest));
        assert(rest.push(last) =~= existing);
    } else {
        assert(seeded(existing) =~= Map::<Seq<char>, SiteView>::empty());
    }
}

/// A listing is the listing of one registry only.
pub proof fn lemma_listing_determines_registry(sites: Seq<SiteView>, one: Registry, other: Registry)
    requires
        lists(sites, one),
        lists(sites, other),
    ensures
        one == other,
{
    assert forall|key: Seq<char>| one.contains_key(key) implies other.contains_key(key) && other[key]
        == one[key] by {
        let i = choose|i: int| 0 <= i < sites.len() && (#[trigger] sites[i]).name == key;
        assert(other.contains_key(sites[i].name));
    }
    assert forall|key: Seq<char>| other.contains_key(key) implies one.contains_key(key) by {
        let i = choose|i: int| 0 <= i < sites.len() && (#[trigger] sites[i]).name == key;
        assert(one.contains_key(sites[i].name));
    }
    assert(one =~= other);
}

/// Two listings of one registry hold the same records, in whatever order.
pub proof fn lemma_listings_agree(one: Seq<SiteView>, other: Seq<SiteView>, registry: Registry)
    requires
        lists(one, registry),
        lists(other, registry),
    ensures
        one.to_multiset() == other.to_multiset(),
{
    broadcast use vstd::seq_lib::group_to_multiset_ensures;

    lemma_listing_has_no_duplicates(one, registry);
    lemma_listing_has_no_duplicates(other, registry);
    one.lemma_multiset_has_no_duplicates();
    other.lemma_multiset_has_no_duplicates();
    assert forall|record: SiteView| one.to_multiset().count(record) == other.to_multiset().count(
        record,
    ) by {
        if one.contains(record) {
            let i = choose|i: int| 0 <= i < one.len() && one[i] == record;
            let j = choose|j: int| 0 <= j < other.len() && (#[trigger] other[j]).name == one[i].name;
            assert(other[j] == record);
            assert(other.contains(record));
        }
        if other.contains(record) {
            let j = choose|j: int| 0 <= j < other.len() && other[j] == record;
            let i = choose|i: int| 0 <= i < one.len() && (#[trigger] one[i]).name == other[j].name;
            assert(one[i] == record);
            assert(one.contains(record));
        }
    }
    assert(one.to_multiset() =~= other.to_multiset());
}

/// A listing holds no record twice.
pub proof fn lemma_listing_has_no_duplicates(sites: Seq<SiteView>, registry: Registry)
    requires
        lists(sites, registry),
    ensures
        sites.no_duplicates(),
{
    assert forall|i: int, j: int| 0 <= i < sites.len() && 0 <= j < sites.len() && i != j implies sites[i]
        != sites[j] by {
        assert(sites[i].name != sites[j].name);
    }
}

/// Candidates with distinct keys, offered to an empty registry, give the
/// registry that they would seed.
pub proof fn lemma_admitted_seeds(candidates: Seq<SiteView>)
    requires
        keys_distinct(candidates),
    ensures
        merged(candidates, Seq::empty()) == seeded(candidates),
    decreases candidates.len(),
{
    if candidates.len() > 0 {
        let rest = candidates.drop_last();
        let last = candidates.last();
        assert(keys_distinct(rest)) by {
            assert forall|i: int, j: int| 0 <= i < rest.len() && 0 <= j < rest.len() && i != j implies (
            #[trigger] rest[i]).name != (#[trigger] rest[j]).name by {
                assert(rest[i] == candidates[i] && rest[j] == candidates[j]);
            }
        }
        lemma_admitted_seeds(rest);
        lemma_seeded_keys(rest);
        if seeded(rest).contains_key(last.name) {
            let i = choose|i: int| 0 <= i < rest.len() && (#[trigger] rest[i]).name == last.name;
            assert(candidates[i].name == candidates[candidates.len() - 1].name);
        }
    }
}

/// Among records with distinct keys, followed by any others, the key of each
/// first comes up where its record stands.
pub proof fn lemma_arrival_of_listed(sites: Seq<SiteView>, others: Seq<SiteView>, at: int)
    requires
        keys_distinct(sites),
        0 <= at < sites.len(),
    ensures
        first_index(keys_of(sites + others), sites[at].name) == at,
{
    let keys = keys_of(sites + others);
    assert(keys[at] == sites[at].name);
    assert forall|i: int| 0 <= i < at implies keys[i] != sites[at].name by {
        assert(keys[i] == sites[i].name);
    }
    lemma_first_index_found(keys, at, sites[at].name);
}

/// Whether `one` stands before `other` in a reconciled registry: by title,
/// and by the arrival of the key where the titles are the same.
pub open spec fn stands_before(
    one: SiteView,
    other: SiteView,
    candidates: Seq<SiteView>,
    existing: Seq<SiteView>,
) -> bool {
    lex_lt(one.title, other.title) || (one.title == other.title && arrival(
        one.name,
        candidates,
        existing,
    ) < arrival(other.name, candidates, existing))
}

/// In a reconciled registry every record stands before those behind it.
pub proof fn lemma_reconciled_ascends(
    out: Seq<SiteView>,
    candidates: Seq<SiteView>,
    existing: Seq<SiteView>,
    i: int,
    j: int,
)
    requires
        reconciles(out, candidates, existing),
        0 <= i < j < out.len(),
    ensures
        stands_before(out[i], out[j], candidates, existing),
        !stands_before(out[j], out[i], candidates, existing),
        out[i] != out[j],
{
    let a = out[i];
    let b = out[j];
    if a.title != b.title {
        if !lex_lt(a.title, b.title) {
            lemma_lex_le_antisymmetric(a.title, b.title);
        }
        lemma_lex_lt_asymmetric(a.title, b.title);
    } else {
        lemma_lex_lt_irreflexive(a.title);
    }
}

/// Two sequences that hold the same records, each in ascending order, are the
/// same sequence.
proof fn lemma_same_records_same_order(
    one: Seq<SiteView>,
    other: Seq<SiteView>,
    from: int,
    candidates: Seq<SiteView>,
    existing: Seq<SiteView>,
)
    requires
        reconciles(one, candidates, existing),
        reconciles(other, candidates, existing),
        0 <= from <= one.len(),
        one.len() == other.len(),
        forall|i: int| 0 <= i < from ==> one[i] == other[i],
    ensures
        one == other,
    decreases one.len() - from,
{
    if from == one.len() {
        assert(one =~= other);
    } else {
        let registry = merged(candidates, existing);
        let a = one[from];
        let b = other[from];
        if a != b {
            // `a` stands in `other`, and behind `from`, as the records before are those of `one`.
            let j = choose|j: int| 0 <= j < other.len() && (#[trigger] other[j]).name == a.name;
            assert(registry[other[j].name] == other[j] && registry[one[from].name] == one[from]);
            assert(other[j] == a);
            if j < from {
                assert(one[j] == other[j]);
                lemma_reconciled_ascends(one, candidates, existing, j, from);
            }
            let i = choose|i: int| 0 <= i < one.len() && (#[trigger] one[i]).name == b.name;
            assert(registry[one[i].name] == one[i] && registry[other[from].name] == other[from]);
            assert(one[i] == b);
            if i < from {
                assert(one[i] == other[i]);
                lemma_reconciled_ascends(other, candidates, existing, i, from);
            }
            lemma_reconciled_ascends(other, candidates, existing, from, j);
            lemma_reconciled_ascends(one, candidates, existing, from, i);
        }
        lemma_same_records_same_order(one, other, from + 1, candidates, existing);
    }
}

/// Reconciling has one result: two sequences that both are what reconciling
/// `candidates` with `existing` gives are the same.
pub proof fn lemma_reconciled_is_determined(
    candidates: Seq<SiteView>,
    existing: Seq<SiteView>,
    one: Seq<SiteView>,
    other: Seq<SiteView>,
)
    requires
        reconciles(one, candidates, existing),
        reconciles(other, candidates, existing),
    ensures
        one == other,
{
    lemma_listings_agree(one, other, merged(candidates, existing));
    vstd::seq_lib::to_multiset_len(one);
    vstd::seq_lib::to_multiset_len(other);
    lemma_same_records_same_order(one, other, 0, candidates, existing);
}

/// With no record on file, reconciling candidates whose keys are distinct
/// gives all of them, sorted by title, those with the same title in their
/// order. (Of candidates that share a key only the first enters.)
pub proof fn lemma_merge_without_history(candidates: Seq<SiteView>, out: Seq<SiteView>)
    requires
        keys_distinct(candidates),
        reconciles(out, candidates, Seq::empty()),
    ensures
        out == sorted_stably(candidates),
        out.to_multiset() == candidates.to_multiset(),
        sorted_by_title(out),
{
    let empty = Seq::<SiteView>::empty();
    let sorted = sorted_stably(candidates);
    let keys = keys_of(empty + candidates);
    assert(empty + candidates =~= candidates);
    lemma_admitted_seeds(candidates);
    lemma_seeded_lists(candidates);
    lemma_sorted_stably_sorts(candidates);
    lemma_lists_reordered(candidates, sorted, merged(candidates, empty));
    assert forall|i: int, j: int| 0 <= i < j < candidates.len() implies first_index(
        keys,
        (#[trigger] candidates[i]).name,
    ) < first_index(keys, (#[trigger] candidates[j]).name) by {
        lemma_arrival_of_listed(candidates, empty, i);
        lemma_arrival_of_listed(candidates, empty, j);
        assert(candidates + empty =~= candidates);
    }
    lemma_sorted_stably_keeps_order(candidates, |site: SiteView| first_index(keys, site.name));
    assert(ties_by_arrival(sorted, candidates, empty));
    lemma_reconciled_is_determined(candidates, empty, out, sorted);
}

/// Reconciling keeps every record on file: where the records on file have
/// distinct keys, each of them is in the result as it was, whatever the
/// candidates hold.
pub proof fn lemma_merge_keeps_existing(
    candidates: Seq<SiteView>,
    existing: Seq<SiteView>,
    out: Seq<SiteView>,
)
    requires
        keys_distinct(existing),
        reconciles(out, candidates, existing),
    ensures
        forall|i: int| 0 <= i < existing.len() ==> out.contains(#[trigger] existing[i]),
{
    lemma_seeded_lists(existing);
    lemma_admitted_extends(seeded(existing), candidates);
    assert forall|i: int| 0 <= i < existing.len() implies out.contains(#[trigger] existing[i]) by {
        let key = existing[i].name;
        assert(seeded(existing).contains_key(key));
        assert(merged(candidates, existing).contains_key(key));
        let j = choose|j: int| 0 <= j < out.len() && (#[trigger] out[j]).name == key;
        assert(out[j] == existing[i]);
    }
}

/// Every record that the records on file seed is one of them.
pub proof fn lemma_seeded_from_existing(existing: Seq<SiteView>)
    ensures
        forall|key: Seq<char>| #[trigger]
            seeded(existing).contains_key(key) ==> existing.contains(seeded(existing)[key])
                && seeded(existing)[key].name == key,
    decreases existing.len(),
{
    if existing.len() > 0 {
        let rest = existing.drop_last();
        lemma_seeded_from_existing(rest);
        assert forall|key: Seq<char>| #[trigger] seeded(existing).contains_key(key) implies existing.contains(
            seeded(existing)[key],
        ) && seeded(existing)[key].name == key by {
            if key == existing.last().name {
                assert(existing[existing.len() - 1] == seeded(existing)[key]);
            } else {
                let i = choose|i: int| 0 <= i < rest.len() && rest[i] == seeded(rest)[key];
                assert(existing[i] == seeded(existing)[key]);
            }
        }
    }
}

/// Reconciling invents nothing: every record of the result is a record on
/// file or a candidate, as it was.
pub proof fn lemma_merge_invents_nothing(
    candidates: Seq<SiteView>,
    existing: Seq<SiteView>,
    out: Seq<SiteView>,
)
    requires
        reconciles(out, candidates, existing),
    ensures
        forall|i: int|
            0 <= i < out.len() ==> existing.contains(#[trigger] out[i]) || candidates.contains(out[i]),
{
    lemma_seeded_from_existing(existing);
    lemma_admitted_from(seeded(existing), candidates);
    assert forall|i: int| 0 <= i < out.len() implies existing.contains(#[trigger] out[i])
        || candidates.contains(out[i]) by {
        assert(merged(candidates, existing).contains_key(out[i].name));
    }
}

/// Every record of a registry to which candidates were offered was in the
/// registry before or is one of the candidates.
pub proof fn lemma_admitted_from(registry: Registry, candidates: Seq<SiteView>)
    ensures
        forall|key: Seq<char>| #[trigger]
            admitted(registry, candidates).contains_key(key) ==> (registry.contains_key(key)
                && admitted(registry, candidates)[key] == registry[key]) || candidates.contains(
                admitted(registry, candidates)[key],
            ),
    decreases candidates.len(),
{
    if candidates.len() > 0 {
        let rest = candidates.drop_last();
        let last = candidates.last();
        lemma_admitted_from(registry, rest);
        lemma_admitted_extends(registry, rest);
        let before = admitted(registry, rest);
        let after = admitted(registry, candidates);
        assert forall|key: Seq<char>| #[trigger] after.contains_key(key) implies (registry.contains_key(
            key,
        ) && after[key] == registry[key]) || candidates.contains(after[key]) by {
            if before.contains_key(key) {
                assert(after[key] == before[key]);
                if rest.contains(before[key]) {
                    let i = choose|i: int| 0 <= i < rest.len() && rest[i] == before[key];
                    assert(candidates[i] == before[key]);
                }
            } else {
                assert(after[key] == last);
                assert(candidates[candidates.len() - 1] == last);
            }
        }
    }
}

/// A candidate with the key of the one record on file is dropped, whatever
/// else it holds: the result is that record alone, as it was.
pub proof fn lemma_merge_preserves_history(record: SiteView, candidate: SiteView, out: Seq<SiteView>)
    requires
        candidate.name == record.name,
        reconciles(out, seq![candidate], seq![record]),
    ensures
        out == seq![record],
{
    broadcast use vstd::seq_lib::group_to_multiset_ensures;

    let existing = seq![record];
    let candidates = seq![candidate];
    assert(keys_distinct(existing));
    lemma_seeded_lists(existing);
    assert(seeded(existing).contains_key(existing[0].name));
    assert(candidates[0].name == record.name);
    lemma_admitted_known(seeded(existing), candidates);
    lemma_listings_agree(out, existing, seeded(existing));
    assert(out.len() == 1) by {
        vstd::seq_lib::to_multiset_len(out);
        vstd::seq_lib::to_multiset_len(existing);
    }
    assert(out[0].name == record.name) by {
        assert(seeded(existing).contains_key(out[0].name));
        lemma_seeded_keys(existing);
    }
    assert(out =~= seq![record]);
}

/// Reconciling again changes nothing: with the result of one reconciliation
/// on file, the same candidates give the same registry, and the same result.
pub proof fn lemma_merge_idempotent(
    candidates: Seq<SiteView>,
    existing: Seq<SiteView>,
    first: Seq<SiteView>,
    second: Seq<SiteView>,
)
    requires
        reconciles(first, candidates, existing),
        reconciles(second, candidates, first),
    ensures
        merged(candidates, first) == merged(candidates, existing),
        second == first,
{
    let registry = merged(candidates, existing);
    lemma_seeded_lists(first);
    lemma_listing_determines_registry(first, seeded(first), registry);
    lemma_admitted_extends(seeded(existing), candidates);
    lemma_admitted_known(registry, candidates);
    assert forall|i: int, j: int|
        0 <= i < j < first.len() && (#[trigger] first[i]).title == (#[trigger] first[j]).title implies arrival(
        first[i].name,
        candidates,
        first,
    ) < arrival(first[j].name, candidates, first) by {
        lemma_arrival_of_listed(first, candidates, i);
        lemma_arrival_of_listed(first, candidates, j);
    }
    assert(reconciles(first, candidates, first));
    lemma_reconciled_is_determined(candidates, first, second, first);
}

} // verus!
