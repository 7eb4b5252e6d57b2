//! Properties that relate the library's functions to one another.
use vstd::prelude::*;

use crate::cache::{is_fresh, lookup, StoredView, NANOS_PER_SECOND};
use crate::manifest::{
    regex_compiles, rule_view, rules_upto, spec_entry_rules, spec_location, spec_pattern,
    spec_translate, EntryView, ManifestFault,
};
use crate::resolver::{Interval, ResolverView};
use crate::text::decimal;

verus! {

/// Translating one manifest twice gives the same rules in the same order,
/// or the same fault.
pub proof fn lemma_translation_repeatable(
    release_key: Seq<char>,
    reads: Seq<EntryView>,
    variants: Seq<EntryView>,
    first: Result<Seq<ResolverView>, ManifestFault>,
    second: Result<Seq<ResolverView>, ManifestFault>,
)
    requires
        first == spec_translate(release_key, reads, variants),
        second == spec_translate(release_key, reads, variants),
    ensures
        first == second,
{
}

/// A record stored at `T` with a window of `M` seconds is returned at
/// every time before `T + M`, and at no time from `T + M` on.
pub proof fn lemma_freshness_window(records: Map<Seq<char>, StoredView>, key: Seq<char>, now: u128)
    requires
        records.contains_key(key),
    ensures
        (now as int) < records[key].stored + records[key].max_age * NANOS_PER_SECOND ==> lookup(
            records,
            key,
            now,
        ) == Some(records[key].rules),
        (now as int) >= records[key].stored + records[key].max_age * NANOS_PER_SECOND ==> lookup(
            records,
            key,
            now,
        ) is None,
{
}

/// Rules stored under a key are read back unchanged from that key while
/// their window lasts.
pub proof fn lemma_put_then_get(
    records: Map<Seq<char>, StoredView>,
    key: Seq<char>,
    rules: Seq<ResolverView>,
    max_age: u64,
    stored: u128,
    now: u128,
)
    requires
        is_fresh(stored, max_age, now),
    ensures
        lookup(
            records.insert(key, StoredView { rules, max_age, stored }),
            key,
            now,
        ) == Some(rules),
{
}

/// An entry with `N` restrictions, a usable URI and a pattern that is a
/// valid regular expression gives exactly `N`
/// rules, the `k`-th holding the `k`-th restriction's reference name alone
/// and its interval; an entry with a usable URI and no restrictions gives
/// none, and an entry whose URI cannot be used fails, restrictions or not.
pub proof fn lemma_fan_out(release_key: Seq<char>, e: EntryView)
    ensures
        spec_location(e.url, e.format) is Ok && e.restrictions.len() == 0 ==> spec_entry_rules(
            release_key,
            e,
        ) == Ok::<
            Seq<ResolverView>,
            ManifestFault,
        >(Seq::empty()),
        spec_location(e.url, e.format) matches Err(f) ==> spec_entry_rules(release_key, e) == Err::<
            Seq<ResolverView>,
            ManifestFault,
        >(f),
        spec_location(e.url, e.format) is Ok && regex_compiles(spec_pattern(release_key, e.id)) ==> {
            &&& spec_entry_rules(release_key, e) matches Ok(v)
            &&& v.len() == e.restrictions.len()
            &&& forall|k: int|
                0 <= k < v.len() ==> {
                    &&& #[trigger] v[k].reference_names == seq![
                        decimal(e.restrictions[k].chromosome as nat),
                    ]
                    &&& v[k].interval == Interval {
                        start: e.restrictions[k].start,
                        end: e.restrictions[k].end,
                    }
                    &&& v[k].formats == seq![e.format]
                }
        },
{
    if spec_location(e.url, e.format) is Ok && regex_compiles(spec_pattern(release_key, e.id))
        && e.restrictions.len() > 0 {
        let (bucket, template) = spec_location(e.url, e.format)->Ok_0;
        let v = spec_entry_rules(release_key, e)->Ok_0;
        assert forall|k: int| 0 <= k < v.len() implies #[trigger] v[k] == rule_view(
            release_key,
            e.id,
            bucket,
            template,
            e.format,
            e.restrictions[k],
        ) by {}
    }
}

/// Two resolutions of one release that both miss the cache and read the
/// same manifest translate it to the same rules; after both have stored
/// them, the cache holds one record under the key, with those rules,
/// whichever store came last.
pub proof fn lemma_concurrent_miss(
    records: Map<Seq<char>, StoredView>,
    key: Seq<char>,
    release_key: Seq<char>,
    reads: Seq<EntryView>,
    variants: Seq<EntryView>,
    first: Seq<ResolverView>,
    second: Seq<ResolverView>,
    first_max_age: u64,
    second_max_age: u64,
    first_stored: u128,
    second_stored: u128,
)
    requires
        spec_translate(release_key, reads, variants) == Ok::<Seq<ResolverView>, ManifestFault>(first),
        spec_translate(release_key, reads, variants) == Ok::<Seq<ResolverView>, ManifestFault>(second),
    ensures
        first == second,
        ({
            let after = records.insert(
                key,
                StoredView { rules: first, max_age: first_max_age, stored: first_stored },
            ).insert(key, StoredView { rules: second, max_age: second_max_age, stored: second_stored });
            &&& after.dom() == records.dom().insert(key)
            &&& after[key].rules == first
            &&& after.remove(key) == records.remove(key)
        }),
{
    let after = records.insert(
        key,
        StoredView { rules: first, max_age: first_max_age, stored: first_stored },
    ).insert(key, StoredView { rules: second, max_age: second_max_age, stored: second_stored });
    assert(after.dom() =~= records.dom().insert(key));
    assert(after.remove(key) =~= records.remove(key));
}

/// The number of restrictions of the first `n` entries: where the rules of
/// entry `n` begin.
pub open spec fn restriction_count(entries: Seq<EntryView>, n: nat) -> nat
    decreases n,
{
    if n == 0 {
        0
    } else {
        restriction_count(entries, (n - 1) as nat) + entries[n - 1].restrictions.len()
    }
}

/// The rule for restriction `i` of entry `e`, whose URI is usable.
pub open spec fn entry_rule(release_key: Seq<char>, e: EntryView, i: int) -> ResolverView {
    let (bucket, template) = spec_location(e.url, e.format)->Ok_0;
    rule_view(release_key, e.id, bucket, template, e.format, e.restrictions[i])
}

/// The rules of entry `k` lie before those of any later entry.
pub proof fn lemma_count_monotone(entries: Seq<EntryView>, k: nat, n: nat)
    requires
        k < n <= entries.len(),
    ensures
        restriction_count(entries, k) + entries[k as int].restrictions.len() <= restriction_count(
            entries,
            n,
        ),
    decreases n - k,
{
    if k + 1 < n {
        lemma_count_monotone(entries, k, (n - 1) as nat);
    }
}

proof fn lemma_prefix_fan_out(release_key: Seq<char>, entries: Seq<EntryView>, n: nat, v: Seq<ResolverView>)
    requires
        n <= entries.len(),
        rules_upto(release_key, entries, n) == Ok::<Seq<ResolverView>, ManifestFault>(v),
    ensures
        v.len() == restriction_count(entries, n),
        forall|k: int, i: int|
            0 <= k < n && 0 <= i < entries[k].restrictions.len() ==> spec_location(
                entries[k].url,
                entries[k].format,
            ) is Ok && v[restriction_count(entries, k as nat) + i] == #[trigger] entry_rule(
                release_key,
                entries[k],
                i,
            ),
    decreases n,
{
    if n > 0 {
        let m = (n - 1) as nat;
        let a = rules_upto(release_key, entries, m)->Ok_0;
        let e = entries[m as int];
        let b = spec_entry_rules(release_key, e)->Ok_0;
        lemma_prefix_fan_out(release_key, entries, m, a);
        assert(v == a + b);
        assert(b.len() == e.restrictions.len());
        assert forall|k: int, i: int|
            0 <= k < n && 0 <= i < entries[k].restrictions.len() implies spec_location(
                entries[k].url,
                entries[k].format,
            ) is Ok && v[restriction_count(entries, k as nat) + i] == #[trigger] entry_rule(
                release_key,
                entries[k],
                i,
            ) by {
            if k < m {
                lemma_count_monotone(entries, k as nat, m);
            } else {
                assert(k == m);
            }
        }
    }
}

/// Each restriction `i` of each entry `k` of a translated manifest has its
/// own rule, with its reference name alone and its interval: the `k`-th
/// alignment entry's rules start at the number of restrictions of the
/// alignment entries before it, and the variant entries' rules follow all
/// of those. No other rule is produced.
pub proof fn lemma_manifest_fan_out(
    release_key: Seq<char>,
    reads: Seq<EntryView>,
    variants: Seq<EntryView>,
    v: Seq<ResolverView>,
)
    requires
        spec_translate(release_key, reads, variants) == Ok::<Seq<ResolverView>, ManifestFault>(v),
    ensures
        v.len() == restriction_count(reads, reads.len()) + restriction_count(
            variants,
            variants.len(),
        ),
        forall|k: int, i: int|
            0 <= k < reads.len() && 0 <= i < reads[k].restrictions.len() ==> v[restriction_count(
                reads,
                k as nat,
            ) + i] == #[trigger] entry_rule(release_key, reads[k], i),
        forall|k: int, i: int|
            0 <= k < variants.len() && 0 <= i < variants[k].restrictions.len() ==> v[restriction_count(
                reads,
                reads.len(),
            ) + restriction_count(variants, k as nat) + i] == #[trigger] entry_rule(
                release_key,
                variants[k],
                i,
            ),
        forall|k: int, i: int|
            0 <= k < reads.len() && 0 <= i < reads[k].restrictions.len() ==> {
                &&& (#[trigger] entry_rule(release_key, reads[k], i)).reference_names == seq![
                    decimal(reads[k].restrictions[i].chromosome as nat),
                ]
                &&& entry_rule(release_key, reads[k], i).interval == Interval {
                    start: reads[k].restrictions[i].start,
                    end: reads[k].restrictions[i].end,
                }
            },
{
    let a = rules_upto(release_key, reads, reads.len())->Ok_0;
    let b = rules_upto(release_key, variants, variants.len())->Ok_0;
    lemma_prefix_fan_out(release_key, reads, reads.len(), a);
    lemma_prefix_fan_out(release_key, variants, variants.len(), b);
    assert(v == a + b);
    assert forall|k: int, i: int|
        0 <= k < reads.len() && 0 <= i < reads[k].restrictions.len() implies v[restriction_count(
            reads,
            k as nat,
        ) + i] == #[trigger] entry_rule(release_key, reads[k], i) by {
        lemma_count_monotone(reads, k as nat, reads.len());
    }
    assert forall|k: int, i: int|
        0 <= k < variants.len() && 0 <= i < variants[k].restrictions.len() implies v[restriction_count(
            reads,
            reads.len(),
        ) + restriction_count(variants, k as nat) + i] == #[trigger] entry_rule(
            release_key,
            variants[k],
            i,
        ) by {
        lemma_count_monotone(variants, k as nat, variants.len());
        assert(b[restriction_count(variants, k as nat) + i] == entry_rule(release_key, variants[k], i));
    }
}

} // verus!
