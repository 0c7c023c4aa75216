//! What holds of the normal form and of the sum of lengths.
use crate::decimal::{clamp_micros, magnitude, Decimal};
use crate::intermediate_node::length::{
    absorb, absorb_leaf, absorb_leaves, accumulate, collapse, empty_scope, entry_terms, live,
    live_scope, merge_relative, spec_containing_block_relative, spec_terms_relative, written,
    scope_terms, spec_add, spec_collect, spec_normalise, term_of, LengthView, Scope,
};
use crate::ordered_map::{
    key_index, lemma_key_index_in_range, put, stored, TermEntries, TermKeyView, TermTotal,
};
use vstd::prelude::*;

verus! {

/// Whether no two entries have the same key.
pub open spec fn distinct_keys(entries: TermEntries) -> bool {
    forall|i: int, j: int|
        0 <= i < j < entries.len() ==> (#[trigger] entries[i]).0 != (#[trigger] entries[j]).0
}

/// Whether a scope is as flattening a sum leaves it: no key twice, units
/// among the values and custom properties among the variables, and no value
/// relative to anything.
pub open spec fn scope_ok(scope: Scope) -> bool {
    &&& distinct_keys(scope.values)
    &&& distinct_keys(scope.variables)
    &&& forall|i: int|
        0 <= i < scope.values.len() ==> (#[trigger] scope.values[i]).0 is Unit
            && scope.values[i].1.relative == Some(false)
    &&& forall|i: int|
        0 <= i < scope.variables.len() ==> (#[trigger] scope.variables[i]).0 is Variable
}

/// A key that no entry has is not found.
pub proof fn lemma_key_absent(entries: TermEntries, key: TermKeyView)
    requires
        forall|i: int| 0 <= i < entries.len() ==> (#[trigger] entries[i]).0 != key,
    ensures
        key_index(entries, key) == -1,
    decreases entries.len(),
{
    if entries.len() > 0 {
        assert(entries.last() == entries[entries.len() - 1]);
        assert forall|i: int| 0 <= i < entries.drop_last().len() implies (
        #[trigger] entries.drop_last()[i]).0 != key by {
            assert(entries.drop_last()[i] == entries[i]);
        }
        lemma_key_absent(entries.drop_last(), key);
    }
}

/// A new value under a key that has an entry leaves every key where it is.
pub proof fn lemma_key_index_update(entries: TermEntries, i: int, value: TermTotal, key: TermKeyView)
    requires
        0 <= i < entries.len(),
    ensures
        key_index(entries.update(i, (entries[i].0, value)), key) == key_index(entries, key),
    decreases entries.len(),
{
    let updated = entries.update(i, (entries[i].0, value));
    assert(updated.last().0 == entries.last().0);
    if entries.last().0 != key {
        if i == entries.len() - 1 {
            assert(updated.drop_last() =~= entries.drop_last());
        } else {
            assert(updated.drop_last() =~= entries.drop_last().update(
                i,
                (entries.drop_last()[i].0, value),
            ));
            lemma_key_index_update(entries.drop_last(), i, value, key);
        }
    }
}

/// After a value is stored under a key, that key holds the value and every
/// other key holds what it held.
pub proof fn lemma_stored_after_put(
    entries: TermEntries,
    key: TermKeyView,
    value: TermTotal,
    other: TermKeyView,
)
    ensures
        stored(put(entries, key, value), other) == if other == key {
            Some(value)
        } else {
            stored(entries, other)
        },
{
    lemma_key_index_in_range(entries, key);
    lemma_key_index_in_range(entries, other);
    let index = key_index(entries, key);
    if index < 0 {
        let pushed = entries.push((key, value));
        assert(pushed.last() == (key, value));
        assert(pushed.drop_last() == entries);
        if other != key && key_index(entries, other) >= 0 {
            assert(pushed[key_index(entries, other)] == entries[key_index(entries, other)]);
        }
    } else {
        assert(entries.update(index, (key, value)) == entries.update(
            index,
            (entries[index].0, value),
        ));
        lemma_key_index_update(entries, index, value, other);
    }
}

/// Storing under a key leaves no key twice.
pub proof fn lemma_put_keeps_keys(entries: TermEntries, key: TermKeyView, value: TermTotal)
    requires
        distinct_keys(entries),
    ensures
        distinct_keys(put(entries, key, value)),
        put(entries, key, value).len() >= entries.len(),
        forall|i: int|
            0 <= i < put(entries, key, value).len() ==> (#[trigger] put(entries, key, value)[i]).0
                == key || (i < entries.len() && put(entries, key, value)[i] == entries[i]),
{
    lemma_key_index_in_range(entries, key);
    let index = key_index(entries, key);
    let after = put(entries, key, value);
    if index < 0 {
        assert forall|i: int| 0 <= i < entries.len() implies (#[trigger] entries[i]).0 != key by {
            if entries[i].0 == key {
                lemma_key_found(entries, key, i);
            }
        }
        assert forall|i: int, j: int| 0 <= i < j < after.len() implies (#[trigger] after[i]).0 != (
        #[trigger] after[j]).0 by {
            assert(after[i] == entries[i]);
            if j < entries.len() {
                assert(after[j] == entries[j]);
            }
        }
    } else {
        assert forall|i: int, j: int| 0 <= i < j < after.len() implies (#[trigger] after[i]).0 != (
        #[trigger] after[j]).0 by {
            assert(after[i].0 == entries[i].0);
            assert(after[j].0 == entries[j].0);
        }
    }
}

/// A key that an entry has is found.
pub proof fn lemma_key_found(entries: TermEntries, key: TermKeyView, i: int)
    requires
        0 <= i < entries.len(),
        entries[i].0 == key,
    ensures
        key_index(entries, key) >= i,
    decreases entries.len(),
{
    if entries.last().0 != key {
        assert(entries.drop_last()[i] == entries[i]);
        lemma_key_found(entries.drop_last(), key, i);
    }
}

/// Two relativity facts combine the same way in either order.
pub proof fn lemma_merge_relative_laws(a: Option<bool>, b: Option<bool>, c: Option<bool>)
    ensures
        merge_relative(a, b) == merge_relative(b, a),
        merge_relative(merge_relative(a, b), c) == merge_relative(a, merge_relative(b, c)),
        merge_relative(a, Some(false)) == a,
        merge_relative(Some(false), a) == a,
{
}

/// Meeting one term keeps a scope in order.
pub proof fn lemma_absorb_leaf_ok(scope: Scope, term: LengthView)
    requires
        scope_ok(scope),
    ensures
        scope_ok(absorb_leaf(scope, term)),
{
    let after = absorb_leaf(scope, term);
    match term {
        LengthView::Value { unit, value } => {
            if value.micros != 0 {
                let key = TermKeyView::Unit(unit);
                lemma_key_index_in_range(scope.values, key);
                let before = match stored(scope.values, key) {
                    Some(total) => total,
                    None => TermTotal { amount: Decimal { micros: 0 }, relative: Some(false) },
                };
                assert(before.relative == Some(false));
                let total = TermTotal {
                    amount: Decimal {
                        micros: clamp_micros(before.amount.micros + value.micros) as i64,
                    },
                    relative: merge_relative(before.relative, Some(false)),
                };
                lemma_put_keeps_keys(scope.values, key, total);
                assert(after.values == put(scope.values, key, total));
                assert forall|i: int| 0 <= i < after.values.len() implies (
                #[trigger] after.values[i]).0 is Unit && after.values[i].1.relative == Some(
                    false,
                ) by {
                    if after.values[i].0 == key {
                        lemma_stored_after_put(scope.values, key, total, key);
                        lemma_key_index_in_range(after.values, key);
                        lemma_key_found(after.values, key, i);
                        assert(key_index(after.values, key) == i) by {
                            let k = key_index(after.values, key);
                            if k != i {
                                assert(after.values[i].0 != after.values[k].0);
                            }
                        }
                    } else {
                        assert(after.values[i] == scope.values[i]);
                    }
                }
            }
        },
        LengthView::Var { name, containing_block_relative, multiplier } => {
            let key = TermKeyView::Variable(name);
            let before = match stored(scope.variables, key) {
                Some(total) => total,
                None => TermTotal { amount: Decimal { micros: 0 }, relative: Some(false) },
            };
            let total = TermTotal {
                amount: Decimal {
                    micros: clamp_micros(before.amount.micros + multiplier.micros) as i64,
                },
                relative: merge_relative(before.relative, containing_block_relative),
            };
            lemma_put_keeps_keys(scope.variables, key, total);
            assert(after.variables == put(scope.variables, key, total));
            assert forall|i: int| 0 <= i < after.variables.len() implies (
            #[trigger] after.variables[i]).0 is Variable by {
                if after.variables[i].0 != key {
                    assert(after.variables[i] == scope.variables[i]);
                }
            }
        },
        _ => {},
    }
}

/// Meeting some terms keeps a scope in order.
pub proof fn lemma_absorb_leaves_ok(scope: Scope, terms: Seq<LengthView>)
    requires
        scope_ok(scope),
    ensures
        scope_ok(absorb_leaves(scope, terms)),
    decreases terms.len(),
{
    if terms.len() > 0 {
        lemma_absorb_leaves_ok(scope, terms.drop_last());
        lemma_absorb_leaf_ok(absorb_leaves(scope, terms.drop_last()), terms.last());
    }
}

/// Flattening a sum keeps a scope in order.
pub proof fn lemma_collect_ok(scope: Scope, terms: Seq<LengthView>)
    requires
        scope_ok(scope),
    ensures
        scope_ok(spec_collect(scope, terms)),
    decreases terms.len(),
{
    if terms.len() > 0 {
        lemma_collect_ok(scope, terms.drop_last());
        let before = spec_collect(scope, terms.drop_last());
        match spec_normalise(terms.last()) {
            LengthView::Addition { terms: inner } => {
                lemma_absorb_leaves_ok(before, inner);
            },
            other => {
                lemma_absorb_leaf_ok(before, other);
            },
        }
    }
}

/// What holds of the entries that are left when those with an amount of zero
/// are gone: each is one of the entries and holds an amount other than zero,
/// no key is there twice, and every key holds what it held or nothing where
/// it held zero.
pub proof fn lemma_live(entries: TermEntries, key: TermKeyView)
    requires
        distinct_keys(entries),
    ensures
        distinct_keys(live(entries)),
        forall|i: int|
            0 <= i < live(entries).len() ==> entries.contains(#[trigger] live(entries)[i])
                && live(entries)[i].1.amount.micros != 0,
        live(live(entries)) == live(entries),
        entry_amount(live(entries), key) == entry_amount(entries, key),
        entries_weight(live(entries)) == entries_weight(entries),
    decreases entries.len(),
{
    if entries.len() > 0 {
        let before = entries.drop_last();
        let last = entries.last();
        assert forall|i: int, j: int| 0 <= i < j < before.len() implies (#[trigger] before[i]).0
            != (#[trigger] before[j]).0 by {
            assert(before[i] == entries[i]);
            assert(before[j] == entries[j]);
        }
        lemma_live(before, key);
        lemma_key_index_in_range(before, key);
        lemma_key_index_in_range(live(before), key);
        let kept = live(before);
        assert forall|i: int| 0 <= i < kept.len() implies entries.contains(#[trigger] kept[i])
            && kept[i].0 != last.0 by {
            assert(before.contains(kept[i]));
            let j = choose|j: int| 0 <= j < before.len() && before[j] == kept[i];
            assert(entries[j] == kept[i]);
            assert(entries[j].0 != entries[entries.len() - 1].0);
        }
        assert(entries.contains(last)) by {
            assert(entries[entries.len() - 1] == last);
        }
        if last.0 == key {
            assert forall|i: int| 0 <= i < before.len() implies (#[trigger] before[i]).0 != key by {
                assert(before[i] == entries[i]);
                assert(entries[i].0 != entries[entries.len() - 1].0);
            }
            lemma_key_absent(before, key);
            lemma_key_absent(kept, key);
        } else {
            if key_index(before, key) >= 0 {
                assert(entries[key_index(before, key)] == before[key_index(before, key)]);
            }
            if last.1.amount.micros != 0 && key_index(kept, key) >= 0 {
                assert(kept.push(last)[key_index(kept, key)] == kept[key_index(kept, key)]);
            }
        }
        if last.1.amount.micros != 0 {
            let all = kept.push(last);
            assert(all.drop_last() == kept);
            assert(all.last() == last);
            assert forall|i: int, j: int| 0 <= i < j < all.len() implies (#[trigger] all[i]).0 != (
            #[trigger] all[j]).0 by {
                assert(all[i] == kept[i]);
                if j < kept.len() {
                    assert(all[j] == kept[j]);
                }
            }
            assert forall|i: int| 0 <= i < all.len() implies entries.contains(#[trigger] all[i])
                && all[i].1.amount.micros != 0 by {
                if i < kept.len() {
                    assert(all[i] == kept[i]);
                }
            }
        }
    }
}

/// A scope that is in order stays so when the units whose amounts have come
/// to zero are gone.
pub proof fn lemma_live_scope_ok(scope: Scope)
    requires
        scope_ok(scope),
    ensures
        scope_ok(live_scope(scope)),
        live_scope(live_scope(scope)) == live_scope(scope),
        forall|i: int|
            0 <= i < live(scope.values).len() ==> (#[trigger] live(
                scope.values,
            )[i]).1.amount.micros != 0,
{
    lemma_live(scope.values, TermKeyView::Unit(crate::intermediate_node::LengthUnit::Px));
    let kept = live(scope.values);
    assert forall|i: int| 0 <= i < kept.len() implies (#[trigger] kept[i]).0 is Unit
        && kept[i].1.relative == Some(false) by {
        assert(scope.values.contains(kept[i]));
        let j = choose|j: int| 0 <= j < scope.values.len() && scope.values[j] == kept[i];
        assert(scope.values[j].0 is Unit);
    }
}

/// The first `k` entries of a scope, the custom properties first.
pub open spec fn scope_prefix(scope: Scope, k: int) -> Scope {
    if k <= scope.variables.len() {
        Scope { values: Seq::empty(), variables: scope.variables.take(k) }
    } else {
        Scope { values: scope.values.take(k - scope.variables.len()), variables: scope.variables }
    }
}

/// Flattening the first `k` terms of a scope gives the first `k` entries of
/// the scope back.
pub proof fn lemma_collect_scope_terms(scope: Scope, k: int)
    requires
        scope_ok(scope),
        forall|i: int| 0 <= i < scope.values.len() ==> (#[trigger] scope.values[i]).1.amount.micros != 0,
        0 <= k <= scope.variables.len() + scope.values.len(),
    ensures
        spec_collect(empty_scope(), scope_terms(scope).take(k)) == scope_prefix(scope, k),
    decreases k,
{
    let terms = scope_terms(scope);
    let variables = scope.variables;
    let values = scope.values;
    if k == 0 {
        assert(scope_prefix(scope, 0).variables =~= Seq::<(TermKeyView, TermTotal)>::empty());
    } else {
        lemma_collect_scope_terms(scope, k - 1);
        assert(terms.take(k).drop_last() == terms.take(k - 1));
        assert(terms.take(k).last() == terms[k - 1]);
        let before = scope_prefix(scope, k - 1);
        if k - 1 < variables.len() {
            let entry = variables[k - 1];
            assert(terms[k - 1] == term_of(entry));
            assert(entry.0 is Variable);
            let done = variables.take(k - 1);
            assert forall|i: int| 0 <= i < done.len() implies (#[trigger] done[i]).0 != entry.0 by {
                assert(done[i] == variables[i]);
            }
            lemma_key_absent(done, entry.0);
            let term = term_of(entry);
            assert(spec_normalise(term) == term);
            assert(before.variables == done);
            assert(stored(done, entry.0).is_none());
            let total = TermTotal {
                amount: Decimal { micros: clamp_micros(0 + entry.1.amount.micros) as i64 },
                relative: merge_relative(Some(false), entry.1.relative),
            };
            assert(total.amount.micros == entry.1.amount.micros);
            assert(total.amount == entry.1.amount);
            assert(total.relative == entry.1.relative) by {
                lemma_merge_relative_laws(entry.1.relative, None, None);
            }
            assert(total == entry.1);
            assert(accumulate(done, entry.0, entry.1.amount, entry.1.relative) == done.push(
                (entry.0, total),
            ));
            assert(done.push(entry) =~= variables.take(k));
            assert(absorb(before, term).variables == variables.take(k));
            assert(absorb(before, term).values == before.values);
            if k == variables.len() {
                assert(variables.take(k) == variables);
                assert(values.take(0) =~= Seq::<(TermKeyView, TermTotal)>::empty());
            }
        } else {
            let j = k - 1 - variables.len();
            let entry = values[j];
            assert(terms[k - 1] == term_of(entry));
            assert(entry.0 is Unit);
            let done = values.take(j);
            assert forall|i: int| 0 <= i < done.len() implies (#[trigger] done[i]).0 != entry.0 by {
                assert(done[i] == values[i]);
            }
            lemma_key_absent(done, entry.0);
            let term = term_of(entry);
            assert(spec_normalise(term) == term);
            assert(before.values == done);
            assert(before.variables == variables);
            assert(stored(done, entry.0).is_none());
            let total = TermTotal {
                amount: Decimal { micros: clamp_micros(0 + entry.1.amount.micros) as i64 },
                relative: merge_relative(Some(false), Some(false)),
            };
            assert(total.amount.micros == entry.1.amount.micros);
            assert(total.amount == entry.1.amount);
            assert(total.relative == entry.1.relative) by {
                lemma_merge_relative_laws(entry.1.relative, None, None);
            }
            assert(total == entry.1);
            assert(accumulate(done, entry.0, entry.1.amount, Some(false)) == done.push(
                (entry.0, total),
            ));
            assert(done.push(entry) =~= values.take(j + 1));
            assert(absorb(before, term).values == values.take(j + 1));
            assert(absorb(before, term).variables == variables);
        }
    }
}

/// The normal form of a normal form is that normal form.
pub proof fn lemma_normalise_idempotent(l: LengthView)
    ensures
        spec_normalise(spec_normalise(l)) == spec_normalise(l),
{
    match l {
        LengthView::Addition { terms } => {
            lemma_collect_ok(empty_scope(), terms);
            let scope = live_scope(spec_collect(empty_scope(), terms));
            lemma_live_scope_ok(spec_collect(empty_scope(), terms));
            if scope.values.len() == 0 && scope.variables.len() == 0 {
            } else if scope.values.len() == 0 && scope.variables.len() == 1 {
                assert(scope.variables[0].0 is Variable);
            } else if scope.values.len() == 1 && scope.variables.len() == 0 {
                assert(scope.values[0].0 is Unit);
                assert(scope.values[0].1.amount.micros != 0);
            } else {
                let all = scope_terms(scope);
                lemma_collect_scope_terms(
                    scope,
                    (scope.variables.len() + scope.values.len()) as int,
                );
                assert(all.take(all.len() as int) == all);
                assert(scope.values.take(scope.values.len() as int) == scope.values);
                assert(scope.variables.take(scope.variables.len() as int) == scope.variables);
                assert(spec_collect(empty_scope(), all) == scope);
            }
        },
        _ => {},
    }
}

/// How much of what `key` names a length holds: the sum of the amounts of
/// all its terms under that key, as a mathematical integer.
pub open spec fn amount(l: LengthView, key: TermKeyView) -> int
    decreases l, 1int,
{
    match l {
        LengthView::Zero => 0,
        LengthView::Value { unit, value } => if key == TermKeyView::Unit(unit) {
            value.micros as int
        } else {
            0
        },
        LengthView::Var { name, multiplier, .. } => if key == TermKeyView::Variable(name) {
            multiplier.micros as int
        } else {
            0
        },
        LengthView::Addition { terms } => amounts(terms, key),
    }
}

/// [`amount`], of the terms of a sum.
pub open spec fn amounts(terms: Seq<LengthView>, key: TermKeyView) -> int
    decreases terms, 0int,
{
    if terms.len() == 0 {
        0
    } else {
        amounts(terms.drop_last(), key) + amount(terms.last(), key)
    }
}

/// What a length says of whether the custom property that `key` names is
/// relative to the containing block: what all its terms under that key say
/// together.
pub open spec fn relativity(l: LengthView, key: TermKeyView) -> Option<bool>
    decreases l, 1int,
{
    match l {
        LengthView::Var { name, containing_block_relative, .. } => if key == TermKeyView::Variable(
            name,
        ) {
            containing_block_relative
        } else {
            Some(false)
        },
        LengthView::Addition { terms } => relativities(terms, key),
        _ => Some(false),
    }
}

/// [`relativity`], of the terms of a sum.
pub open spec fn relativities(terms: Seq<LengthView>, key: TermKeyView) -> Option<bool>
    decreases terms, 0int,
{
    if terms.len() == 0 {
        Some(false)
    } else {
        merge_relative(relativities(terms.drop_last(), key), relativity(terms.last(), key))
    }
}

/// The sum of the sizes of the amounts of all terms of a length. While it
/// fits a decimal, no sum inside the length leaves the representable range.
pub open spec fn weight(l: LengthView) -> nat
    decreases l, 1int,
{
    match l {
        LengthView::Zero => 0,
        LengthView::Value { value, .. } => magnitude(value.micros as int),
        LengthView::Var { multiplier, .. } => magnitude(multiplier.micros as int),
        LengthView::Addition { terms } => weights(terms),
    }
}

/// [`weight`], of the terms of a sum.
pub open spec fn weights(terms: Seq<LengthView>) -> nat
    decreases terms, 0int,
{
    if terms.len() == 0 {
        0
    } else {
        weights(terms.drop_last()) + weight(terms.last())
    }
}

/// The amount that some entries hold under `key`.
pub open spec fn entry_amount(entries: TermEntries, key: TermKeyView) -> int {
    match stored(entries, key) {
        Some(total) => total.amount.micros as int,
        None => 0,
    }
}

/// What some entries say of the relativity of `key`.
pub open spec fn entry_relativity(entries: TermEntries, key: TermKeyView) -> Option<bool> {
    match stored(entries, key) {
        Some(total) => total.relative,
        None => Some(false),
    }
}

/// The sum of the sizes of the amounts of some entries.
pub open spec fn entries_weight(entries: TermEntries) -> nat
    decreases entries.len(),
{
    if entries.len() == 0 {
        0
    } else {
        entries_weight(entries.drop_last()) + magnitude(entries.last().1.amount.micros as int)
    }
}

/// The amount that a scope holds under `key`.
pub open spec fn scope_amount(scope: Scope, key: TermKeyView) -> int {
    match key {
        TermKeyView::Unit(_) => entry_amount(scope.values, key),
        TermKeyView::Variable(_) => entry_amount(scope.variables, key),
    }
}

/// What a scope says of the relativity of `key`.
pub open spec fn scope_relativity(scope: Scope, key: TermKeyView) -> Option<bool> {
    match key {
        TermKeyView::Unit(_) => Some(false),
        TermKeyView::Variable(_) => entry_relativity(scope.variables, key),
    }
}

/// The sum of the sizes of all amounts of a scope.
pub open spec fn scope_weight(scope: Scope) -> nat {
    entries_weight(scope.values) + entries_weight(scope.variables)
}

/// No entry is larger than all of them together.
pub proof fn lemma_member_weight(entries: TermEntries, i: int)
    requires
        0 <= i < entries.len(),
    ensures
        magnitude(entries[i].1.amount.micros as int) <= entries_weight(entries),
    decreases entries.len(),
{
    if i < entries.len() - 1 {
        assert(entries.drop_last()[i] == entries[i]);
        lemma_member_weight(entries.drop_last(), i);
    }
}

/// A new value in place of an entry changes the weight by the difference of
/// the two.
pub proof fn lemma_weight_update(entries: TermEntries, i: int, entry: (TermKeyView, TermTotal))
    requires
        0 <= i < entries.len(),
    ensures
        entries_weight(entries.update(i, entry)) + magnitude(entries[i].1.amount.micros as int)
            == entries_weight(entries) + magnitude(entry.1.amount.micros as int),
    decreases entries.len(),
{
    let updated = entries.update(i, entry);
    if i == entries.len() - 1 {
        assert(updated.drop_last() =~= entries.drop_last());
        assert(updated.last() == entry);
    } else {
        assert(updated.drop_last() =~= entries.drop_last().update(i, entry));
        assert(updated.last() == entries.last());
        assert(entries.drop_last()[i] == entries[i]);
        lemma_weight_update(entries.drop_last(), i, entry);
    }
}

/// What adding an amount under a key does to some entries, while the sum
/// stays in range: the key holds that much more, says what it said together
/// with what the amount says, and no other key changes.
pub proof fn lemma_accumulate(
    entries: TermEntries,
    key: TermKeyView,
    added: Decimal,
    relative: Option<bool>,
    other: TermKeyView,
)
    requires
        entries_weight(entries) + magnitude(added.micros as int) <= i64::MAX,
    ensures
        entry_amount(accumulate(entries, key, added, relative), other) == entry_amount(
            entries,
            other,
        ) + if other == key {
            added.micros as int
        } else {
            0
        },
        entry_relativity(accumulate(entries, key, added, relative), other) == if other == key {
            merge_relative(entry_relativity(entries, key), relative)
        } else {
            entry_relativity(entries, other)
        },
        entries_weight(accumulate(entries, key, added, relative)) <= entries_weight(entries)
            + magnitude(added.micros as int),
{
    lemma_key_index_in_range(entries, key);
    let index = key_index(entries, key);
    let before = match stored(entries, key) {
        Some(total) => total,
        None => TermTotal { amount: Decimal { micros: 0 }, relative: Some(false) },
    };
    if index >= 0 {
        lemma_member_weight(entries, index);
    }
    let total = TermTotal {
        amount: Decimal { micros: clamp_micros(before.amount.micros + added.micros) as i64 },
        relative: merge_relative(before.relative, relative),
    };
    assert(total.amount.micros == before.amount.micros + added.micros);
    assert(accumulate(entries, key, added, relative) == put(entries, key, total));
    lemma_stored_after_put(entries, key, total, other);
    if index < 0 {
        assert(entries.push((key, total)).drop_last() == entries);
        assert(entries.push((key, total)).last() == (key, total));
    } else {
        lemma_weight_update(entries, index, (key, total));
    }
}

/// Whether a term is no sum.
pub open spec fn is_leaf(l: LengthView) -> bool {
    !(l is Addition)
}

/// Whether a length is no sum or a sum of terms that are no sums.
pub open spec fn is_flat(l: LengthView) -> bool {
    match l {
        LengthView::Addition { terms } => forall|i: int|
            0 <= i < terms.len() ==> is_leaf(#[trigger] terms[i]),
        _ => true,
    }
}

/// What meeting one term that is no sum does to a scope, while the sums
/// stay in range.
pub proof fn lemma_absorb_leaf(scope: Scope, term: LengthView, key: TermKeyView)
    requires
        is_leaf(term),
        scope_weight(scope) + weight(term) <= i64::MAX,
    ensures
        scope_amount(absorb_leaf(scope, term), key) == scope_amount(scope, key) + amount(
            term,
            key,
        ),
        scope_relativity(absorb_leaf(scope, term), key) == merge_relative(
            scope_relativity(scope, key),
            relativity(term, key),
        ),
        scope_weight(absorb_leaf(scope, term)) <= scope_weight(scope) + weight(term),
{
    lemma_merge_relative_laws(scope_relativity(scope, key), None, None);
    match term {
        LengthView::Value { unit, value } => {
            if value.micros != 0 {
                lemma_accumulate(scope.values, TermKeyView::Unit(unit), value, Some(false), key);
            }
        },
        LengthView::Var { name, containing_block_relative, multiplier } => {
            lemma_accumulate(
                scope.variables,
                TermKeyView::Variable(name),
                multiplier,
                containing_block_relative,
                key,
            );
        },
        _ => {},
    }
}

/// What meeting some terms that are no sums does to a scope.
pub proof fn lemma_absorb_leaves(scope: Scope, terms: Seq<LengthView>, key: TermKeyView)
    requires
        forall|i: int| 0 <= i < terms.len() ==> is_leaf(#[trigger] terms[i]),
        scope_weight(scope) + weights(terms) <= i64::MAX,
    ensures
        scope_amount(absorb_leaves(scope, terms), key) == scope_amount(scope, key) + amounts(
            terms,
            key,
        ),
        scope_relativity(absorb_leaves(scope, terms), key) == merge_relative(
            scope_relativity(scope, key),
            relativities(terms, key),
        ),
        scope_weight(absorb_leaves(scope, terms)) <= scope_weight(scope) + weights(terms),
    decreases terms.len(),
{
    if terms.len() == 0 {
        lemma_merge_relative_laws(scope_relativity(scope, key), None, None);
    } else {
        assert forall|i: int| 0 <= i < terms.drop_last().len() implies is_leaf(
            #[trigger] terms.drop_last()[i],
        ) by {
            assert(terms.drop_last()[i] == terms[i]);
        }
        lemma_absorb_leaves(scope, terms.drop_last(), key);
        assert(is_leaf(terms[terms.len() - 1]));
        lemma_absorb_leaf(absorb_leaves(scope, terms.drop_last()), terms.last(), key);
        lemma_merge_relative_laws(
            scope_relativity(scope, key),
            relativities(terms.drop_last(), key),
            relativity(terms.last(), key),
        );
    }
}

/// The amounts of the terms that stand for some entries are the amounts of
/// the entries.
pub proof fn lemma_entry_terms(entries: TermEntries, key: TermKeyView)
    requires
        distinct_keys(entries),
    ensures
        amounts(entry_terms(entries), key) == entry_amount(
            entries,
            key,
        ),
        relativities(entry_terms(entries), key) == (
        match key {
            TermKeyView::Unit(_) => Some(false),
            TermKeyView::Variable(_) => entry_relativity(entries, key),
        }),
        weights(entry_terms(entries)) == entries_weight(
            entries,
        ),
        forall|i: int|
            0 <= i < entries.len() ==> is_leaf(
                #[trigger] entry_terms(entries)[i],
            ),
    decreases entries.len(),
{
    let terms = entry_terms(entries);
    if entries.len() == 0 {
        assert(stored(entries, key).is_none());
    } else {
        let before = entries.drop_last();
        let last = entries.last();
        assert(entry_terms(before) =~= terms.drop_last());
        assert(terms.last() == term_of(last));
        assert forall|i: int, j: int| 0 <= i < j < before.len() implies (#[trigger] before[i]).0
            != (#[trigger] before[j]).0 by {
            assert(before[i] == entries[i]);
            assert(before[j] == entries[j]);
        }
        lemma_entry_terms(before, key);
        lemma_key_index_in_range(before, key);
        assert(weight(term_of(last)) == magnitude(last.1.amount.micros as int));
        lemma_merge_relative_laws(relativities(terms.drop_last(), key), None, None);
        lemma_merge_relative_laws(last.1.relative, None, None);
        if last.0 == key {
            assert forall|i: int| 0 <= i < before.len() implies (#[trigger] before[i]).0 != key by {
                assert(before[i] == entries[i]);
                assert(entries[i].0 != entries[entries.len() - 1].0);
            }
            lemma_key_absent(before, key);
            assert(stored(before, key).is_none());
            assert(key_index(entries, key) == entries.len() - 1);
            assert(stored(entries, key) == Some(last.1));
            assert(amount(term_of(last), key) == last.1.amount.micros);
        } else {
            assert(key_index(entries, key) == key_index(before, key));
            if key_index(before, key) >= 0 {
                assert(entries[key_index(before, key)] == before[key_index(before, key)]);
            }
            assert(stored(entries, key) == stored(before, key));
            assert(amount(term_of(last), key) == 0);
            assert(relativity(term_of(last), key) == Some(false));
        }
        assert forall|i: int| 0 <= i < entries.len() implies is_leaf(#[trigger] terms[i]) by {
            assert(terms[i] == term_of(entries[i]));
        }
    }
}

/// What a single term holds is what a row of just that term holds.
pub proof fn lemma_single_term(term: LengthView, key: TermKeyView)
    ensures
        amounts(seq![term], key) == amount(term, key),
        relativities(seq![term], key) == relativity(term, key),
        weights(seq![term]) == weight(term),
{
    let terms = seq![term];
    assert(terms.drop_last() =~= Seq::<LengthView>::empty());
    assert(terms.last() == term);
    assert(amounts(terms.drop_last(), key) == 0);
    assert(weights(terms.drop_last()) == 0);
    assert(relativities(terms.drop_last(), key) == Some(false));
    lemma_merge_relative_laws(relativity(term, key), None, None);
}

/// The amounts of two rows of terms, one after the other, add up.
pub proof fn lemma_amounts_concat(a: Seq<LengthView>, b: Seq<LengthView>, key: TermKeyView)
    ensures
        amounts(a + b, key) == amounts(a, key) + amounts(b, key),
        relativities(a + b, key) == merge_relative(relativities(a, key), relativities(b, key)),
        weights(a + b) == weights(a) + weights(b),
    decreases b.len(),
{
    if b.len() == 0 {
        assert(a + b =~= a);
        lemma_merge_relative_laws(relativities(a, key), None, None);
    } else {
        assert((a + b).drop_last() =~= a + b.drop_last());
        assert((a + b).last() == b.last());
        lemma_amounts_concat(a, b.drop_last(), key);
        lemma_merge_relative_laws(
            relativities(a, key),
            relativities(b.drop_last(), key),
            relativity(b.last(), key),
        );
    }
}

/// The length that a scope stands for holds what the scope holds.
pub proof fn lemma_collapse(scope: Scope, key: TermKeyView)
    requires
        scope_ok(scope),
    ensures
        amount(collapse(scope), key) == scope_amount(scope, key),
        relativity(collapse(scope), key) == scope_relativity(scope, key),
        weight(collapse(scope)) == scope_weight(scope),
        is_flat(collapse(scope)),
{
    lemma_live_scope_ok(scope);
    lemma_live(scope.values, key);
    lemma_written(live_scope(scope), key);
}

/// A scope written as a length holds what the scope holds.
pub proof fn lemma_written(scope: Scope, key: TermKeyView)
    requires
        scope_ok(scope),
    ensures
        amount(written(scope), key) == scope_amount(scope, key),
        relativity(written(scope), key) == scope_relativity(scope, key),
        weight(written(scope)) == scope_weight(scope),
        is_flat(written(scope)),
{
    let value_terms = entry_terms(scope.values);
    let variable_terms = entry_terms(scope.variables);
    let all = scope_terms(scope);
    lemma_entry_terms(scope.values, key);
    lemma_entry_terms(scope.variables, key);
    lemma_amounts_concat(variable_terms, value_terms, key);
    lemma_merge_relative_laws(scope_relativity(scope, key), None, None);
    lemma_cross_kind(scope.values, key);
    lemma_cross_kind(scope.variables, key);
    assert(amounts(all, key) == scope_amount(scope, key));
    assert(relativities(all, key) == scope_relativity(scope, key));
    assert(weights(all) == scope_weight(scope));
    if scope.values.len() == 0 && scope.variables.len() == 0 {
        assert(all =~= Seq::<LengthView>::empty());
    } else if scope.values.len() == 0 && scope.variables.len() == 1 {
        assert(all =~= seq![term_of(scope.variables[0])]);
        lemma_single_term(term_of(scope.variables[0]), key);
        assert(scope.variables[0].0 is Variable);
    } else if scope.values.len() == 1 && scope.variables.len() == 0 {
        assert(all =~= seq![term_of(scope.values[0])]);
        lemma_single_term(term_of(scope.values[0]), key);
        assert(scope.values[0].0 is Unit);
    } else {
        assert forall|i: int| 0 <= i < all.len() implies is_leaf(#[trigger] all[i]) by {
            if i < variable_terms.len() {
                assert(all[i] == variable_terms[i]);
            } else {
                assert(all[i] == value_terms[i - variable_terms.len()]);
            }
        }
    }
}

/// Entries whose keys all are of one kind hold nothing under a key of the
/// other kind.
pub proof fn lemma_cross_kind(entries: TermEntries, key: TermKeyView)
    requires
        (forall|i: int| 0 <= i < entries.len() ==> (#[trigger] entries[i]).0 is Unit) || (forall|
            i: int,
        | 0 <= i < entries.len() ==> (#[trigger] entries[i]).0 is Variable),
    ensures
        (forall|i: int| 0 <= i < entries.len() ==> (#[trigger] entries[i]).0 is Unit) && key
            is Variable ==> stored(entries, key).is_none(),
        (forall|i: int| 0 <= i < entries.len() ==> (#[trigger] entries[i]).0 is Variable) && key
            is Unit ==> stored(entries, key).is_none(),
{
    lemma_key_index_in_range(entries, key);
}

/// What flattening and adding up keeps: the normal form of a length holds
/// the same amount of every unit and of every custom property as the length,
/// says the same of every custom property, and is no heavier, as long as the
/// weight of the length fits a decimal.
pub proof fn lemma_normalise_keeps_amounts(l: LengthView, key: TermKeyView)
    requires
        weight(l) <= i64::MAX,
    ensures
        amount(spec_normalise(l), key) == amount(l, key),
        relativity(spec_normalise(l), key) == relativity(l, key),
        weight(spec_normalise(l)) <= weight(l),
        is_flat(spec_normalise(l)),
    decreases l, 1int,
{
    match l {
        LengthView::Addition { terms } => {
            lemma_collect_keeps_amounts(empty_scope(), terms, key);
            lemma_collect_ok(empty_scope(), terms);
            lemma_collapse(spec_collect(empty_scope(), terms), key);
            assert(stored(empty_scope().values, key).is_none());
            assert(stored(empty_scope().variables, key).is_none());
            lemma_merge_relative_laws(relativities(terms, key), None, None);
        },
        _ => {},
    }
}

/// What flattening a row of terms into a scope keeps.
pub proof fn lemma_collect_keeps_amounts(scope: Scope, terms: Seq<LengthView>, key: TermKeyView)
    requires
        scope_weight(scope) + weights(terms) <= i64::MAX,
    ensures
        scope_amount(spec_collect(scope, terms), key) == scope_amount(scope, key) + amounts(
            terms,
            key,
        ),
        scope_relativity(spec_collect(scope, terms), key) == merge_relative(
            scope_relativity(scope, key),
            relativities(terms, key),
        ),
        scope_weight(spec_collect(scope, terms)) <= scope_weight(scope) + weights(terms),
    decreases terms, 0int,
{
    if terms.len() == 0 {
        lemma_merge_relative_laws(scope_relativity(scope, key), None, None);
    } else {
        lemma_collect_keeps_amounts(scope, terms.drop_last(), key);
        lemma_normalise_keeps_amounts(terms.last(), key);
        let before = spec_collect(scope, terms.drop_last());
        let term = spec_normalise(terms.last());
        match term {
            LengthView::Addition { terms: inner } => {
                lemma_absorb_leaves(before, inner, key);
            },
            other => {
                lemma_absorb_leaf(before, other, key);
            },
        }
        lemma_merge_relative_laws(
            scope_relativity(scope, key),
            relativities(terms.drop_last(), key),
            relativity(terms.last(), key),
        );
    }
}

/// Whether a length has a term for the custom property that `key` names.
pub open spec fn mentions(l: LengthView, key: TermKeyView) -> bool
    decreases l, 1int,
{
    match l {
        LengthView::Var { name, .. } => key == TermKeyView::Variable(name),
        LengthView::Addition { terms } => mentions_any(terms, key),
        _ => false,
    }
}

/// [`mentions`], of the terms of a sum.
pub open spec fn mentions_any(terms: Seq<LengthView>, key: TermKeyView) -> bool
    decreases terms, 0int,
{
    if terms.len() == 0 {
        false
    } else {
        mentions_any(terms.drop_last(), key) || mentions(terms.last(), key)
    }
}

/// What meeting one term that is no sum does to the custom properties that a
/// scope knows.
pub proof fn lemma_absorb_leaf_mentions(scope: Scope, term: LengthView, key: TermKeyView)
    requires
        is_leaf(term),
    ensures
        stored(absorb_leaf(scope, term).variables, key).is_some() == (stored(
            scope.variables,
            key,
        ).is_some() || mentions(term, key)),
{
    match term {
        LengthView::Var { name, containing_block_relative, multiplier } => {
            let own = TermKeyView::Variable(name);
            let before = match stored(scope.variables, own) {
                Some(total) => total,
                None => TermTotal { amount: Decimal { micros: 0 }, relative: Some(false) },
            };
            let total = TermTotal {
                amount: Decimal {
                    micros: clamp_micros(before.amount.micros + multiplier.micros) as i64,
                },
                relative: merge_relative(before.relative, containing_block_relative),
            };
            assert(absorb_leaf(scope, term).variables == put(scope.variables, own, total));
            lemma_stored_after_put(scope.variables, own, total, key);
        },
        _ => {},
    }
}

/// What meeting some terms that are no sums does to the custom properties
/// that a scope knows.
pub proof fn lemma_absorb_leaves_mentions(scope: Scope, terms: Seq<LengthView>, key: TermKeyView)
    requires
        forall|i: int| 0 <= i < terms.len() ==> is_leaf(#[trigger] terms[i]),
    ensures
        stored(absorb_leaves(scope, terms).variables, key).is_some() == (stored(
            scope.variables,
            key,
        ).is_some() || mentions_any(terms, key)),
    decreases terms.len(),
{
    if terms.len() > 0 {
        assert forall|i: int| 0 <= i < terms.drop_last().len() implies is_leaf(
            #[trigger] terms.drop_last()[i],
        ) by {
            assert(terms.drop_last()[i] == terms[i]);
        }
        lemma_absorb_leaves_mentions(scope, terms.drop_last(), key);
        assert(is_leaf(terms[terms.len() - 1]));
        lemma_absorb_leaf_mentions(absorb_leaves(scope, terms.drop_last()), terms.last(), key);
    }
}

/// The terms that stand for some entries mention the custom properties that
/// the entries are stored under.
pub proof fn lemma_entry_mentions(entries: TermEntries, key: TermKeyView)
    ensures
        mentions_any(entry_terms(entries), key) == (key is Variable && stored(
            entries,
            key,
        ).is_some()),
    decreases entries.len(),
{
    let terms = entry_terms(entries);
    if entries.len() == 0 {
        assert(stored(entries, key).is_none());
    } else {
        let before = entries.drop_last();
        let last = entries.last();
        assert(entry_terms(before) =~= terms.drop_last());
        assert(terms.last() == term_of(last));
        lemma_entry_mentions(before, key);
        lemma_key_index_in_range(before, key);
        assert(mentions(term_of(last), key) == (key is Variable && last.0 == key));
        assert(mentions_any(terms, key) == (mentions_any(terms.drop_last(), key) || mentions(
            terms.last(),
            key,
        )));
        if last.0 == key {
            assert(key_index(entries, key) == entries.len() - 1);
        } else {
            assert(key_index(entries, key) == key_index(before, key));
        }
    }
}

/// Two rows of terms, one after the other, mention what either mentions.
pub proof fn lemma_mentions_concat(a: Seq<LengthView>, b: Seq<LengthView>, key: TermKeyView)
    ensures
        mentions_any(a + b, key) == (mentions_any(a, key) || mentions_any(b, key)),
    decreases b.len(),
{
    if b.len() == 0 {
        assert(a + b =~= a);
    } else {
        assert((a + b).drop_last() =~= a + b.drop_last());
        assert((a + b).last() == b.last());
        lemma_mentions_concat(a, b.drop_last(), key);
    }
}

/// A scope written as a length mentions the custom properties that the scope
/// knows.
pub proof fn lemma_written_mentions(scope: Scope, key: TermKeyView)
    requires
        scope_ok(scope),
    ensures
        mentions(written(scope), key) == stored(scope.variables, key).is_some(),
{
    let value_terms = entry_terms(scope.values);
    let variable_terms = entry_terms(scope.variables);
    let all = scope_terms(scope);
    lemma_entry_mentions(scope.values, key);
    lemma_entry_mentions(scope.variables, key);
    lemma_mentions_concat(variable_terms, value_terms, key);
    lemma_cross_kind(scope.values, key);
    lemma_cross_kind(scope.variables, key);
    assert(mentions_any(all, key) == stored(scope.variables, key).is_some());
    if scope.values.len() == 0 && scope.variables.len() == 0 {
        assert(all =~= Seq::<LengthView>::empty());
    } else if scope.values.len() == 0 && scope.variables.len() == 1 {
        assert(all =~= seq![term_of(scope.variables[0])]);
        assert(all.drop_last() =~= Seq::<LengthView>::empty());
        assert(!mentions_any(all.drop_last(), key));
    } else if scope.values.len() == 1 && scope.variables.len() == 0 {
        assert(all =~= seq![term_of(scope.values[0])]);
        assert(all.drop_last() =~= Seq::<LengthView>::empty());
        assert(!mentions_any(all.drop_last(), key));
    }
}

/// The normal form of a length has a term for a custom property where the
/// length has one.
pub proof fn lemma_normalise_keeps_mentions(l: LengthView, key: TermKeyView)
    ensures
        mentions(spec_normalise(l), key) == mentions(l, key),
    decreases l, 1int,
{
    match l {
        LengthView::Addition { terms } => {
            lemma_collect_keeps_mentions(empty_scope(), terms, key);
            lemma_collect_ok(empty_scope(), terms);
            lemma_live_scope_ok(spec_collect(empty_scope(), terms));
            lemma_written_mentions(live_scope(spec_collect(empty_scope(), terms)), key);
            assert(stored(empty_scope().variables, key).is_none());
        },
        _ => {},
    }
}

/// What flattening a row of terms into a scope does to the custom properties
/// that the scope knows.
pub proof fn lemma_collect_keeps_mentions(scope: Scope, terms: Seq<LengthView>, key: TermKeyView)
    ensures
        stored(spec_collect(scope, terms).variables, key).is_some() == (stored(
            scope.variables,
            key,
        ).is_some() || mentions_any(terms, key)),
    decreases terms, 0int,
{
    if terms.len() > 0 {
        lemma_collect_keeps_mentions(scope, terms.drop_last(), key);
        lemma_normalise_keeps_mentions(terms.last(), key);
        lemma_normalise_is_normal(terms.last());
        let before = spec_collect(scope, terms.drop_last());
        match spec_normalise(terms.last()) {
            LengthView::Addition { terms: inner } => {
                assert forall|i: int| 0 <= i < inner.len() implies is_leaf(#[trigger] inner[i]) by {
                    assert(term_key(inner[i]).is_some());
                }
                lemma_absorb_leaves_mentions(before, inner, key);
            },
            other => {
                lemma_absorb_leaf_mentions(before, other, key);
            },
        }
    }
}

/// The terms of a length in normal form: none, the length itself, or the
/// terms of the sum.
pub open spec fn terms_of(l: LengthView) -> Seq<LengthView> {
    match l {
        LengthView::Zero => Seq::empty(),
        LengthView::Addition { terms } => terms,
        _ => seq![l],
    }
}

/// Whether some terms, taken together, hold just what `term` holds of its
/// unit or custom property.
pub open spec fn describes(terms: Seq<LengthView>, term: LengthView) -> bool {
    match term {
        LengthView::Value { unit, value } => value.micros != 0 && amounts(
            terms,
            TermKeyView::Unit(unit),
        ) == value.micros,
        LengthView::Var { name, containing_block_relative, multiplier } => mentions_any(
            terms,
            TermKeyView::Variable(name),
        ) && amounts(terms, TermKeyView::Variable(name)) == multiplier.micros && relativities(
            terms,
            TermKeyView::Variable(name),
        ) == containing_block_relative,
        _ => false,
    }
}

/// Whether some terms are as the terms of a normal form are: each an amount
/// other than zero of a unit or a multiple of a custom property, no unit and
/// no custom property twice.
pub open spec fn normal_terms(terms: Seq<LengthView>) -> bool {
    &&& forall|i: int|
        0 <= i < terms.len() ==> term_key(#[trigger] terms[i]).is_some() && !is_zero_value(terms[i])
    &&& forall|i: int, j: int|
        0 <= i < j < terms.len() ==> term_key(#[trigger] terms[i]) != term_key(#[trigger] terms[j])
}

/// Terms of which none is for `key` hold nothing under `key`.
pub proof fn lemma_key_unused(terms: Seq<LengthView>, key: TermKeyView)
    requires
        forall|i: int| 0 <= i < terms.len() ==> term_key(#[trigger] terms[i]) != Some(key),
        forall|i: int| 0 <= i < terms.len() ==> is_leaf(#[trigger] terms[i]),
    ensures
        amounts(terms, key) == 0,
        !mentions_any(terms, key),
        relativities(terms, key) == Some(false),
    decreases terms.len(),
{
    if terms.len() > 0 {
        let last = terms.last();
        assert forall|i: int| 0 <= i < terms.drop_last().len() implies term_key(
            #[trigger] terms.drop_last()[i],
        ) != Some(key) && is_leaf(terms.drop_last()[i]) by {
            assert(terms.drop_last()[i] == terms[i]);
        }
        lemma_key_unused(terms.drop_last(), key);
        assert(terms[terms.len() - 1] == last);
        assert(term_key(last) != Some(key));
        assert(is_leaf(last));
        lemma_other_key(last, key);
    }
}

/// A term that is no sum holds nothing under a key that is not its own.
pub proof fn lemma_other_key(term: LengthView, key: TermKeyView)
    requires
        is_leaf(term),
        term_key(term) != Some(key),
    ensures
        amount(term, key) == 0,
        !mentions(term, key),
        relativity(term, key) == Some(false),
{
}

/// A term holds under its own key what it says.
pub proof fn lemma_own_key(term: LengthView, key: TermKeyView)
    requires
        term_key(term) == Some(key),
    ensures
        term matches LengthView::Value { unit, value } ==> key == TermKeyView::Unit(unit) && amount(
            term,
            key,
        ) == value.micros,
        term matches LengthView::Var { name, containing_block_relative, multiplier } ==> key
            == TermKeyView::Variable(name) && amount(term, key) == multiplier.micros && mentions(
            term,
            key,
        ) && relativity(term, key) == containing_block_relative,
        term is Value || term is Var,
{
}

/// A row of terms with one more holds what the row holds and what the last
/// term holds.
pub proof fn lemma_terms_push(before: Seq<LengthView>, last: LengthView, key: TermKeyView)
    ensures
        amounts(before.push(last), key) == amounts(before, key) + amount(last, key),
        mentions_any(before.push(last), key) == (mentions_any(before, key) || mentions(last, key)),
        relativities(before.push(last), key) == merge_relative(
            relativities(before, key),
            relativity(last, key),
        ),
        forall|term: LengthView|
            before.push(last).contains(term) == (before.contains(term) || term == last),
{
    let all = before.push(last);
    assert(all.drop_last() == before);
    assert(all.last() == last);
    assert forall|term: LengthView| all.contains(term) == (before.contains(term) || term
        == last) by {
        if before.contains(term) {
            let i = choose|i: int| 0 <= i < before.len() && before[i] == term;
            assert(all[i] == term);
        }
        if term == last {
            assert(all[all.len() - 1] == term);
        }
        if all.contains(term) {
            let i = choose|i: int| 0 <= i < all.len() && all[i] == term;
            if i < before.len() {
                assert(before[i] == term);
            }
        }
    }
}

/// The terms of a normal form are just the terms that the normal form
/// describes: what a normal form holds of each unit and custom property says
/// which terms it has.
pub proof fn lemma_normal_terms(terms: Seq<LengthView>, term: LengthView)
    requires
        normal_terms(terms),
    ensures
        terms.contains(term) == describes(terms, term),
    decreases terms.len(),
{
    if terms.len() == 0 {
        match term {
            LengthView::Value { unit, value } => {
                assert(amounts(terms, TermKeyView::Unit(unit)) == 0);
            },
            LengthView::Var { name, .. } => {
                assert(!mentions_any(terms, TermKeyView::Variable(name)));
            },
            _ => {},
        }
    } else {
        let before = terms.drop_last();
        let last = terms.last();
        assert(terms[terms.len() - 1] == last);
        assert(before.push(last) =~= terms);
        assert forall|i: int| 0 <= i < before.len() implies term_key(#[trigger] before[i]).is_some()
            && !is_zero_value(before[i]) && is_leaf(before[i]) && term_key(before[i]) != term_key(
            last,
        ) by {
            assert(before[i] == terms[i]);
        }
        assert forall|i: int, j: int| 0 <= i < j < before.len() implies term_key(
            #[trigger] before[i],
        ) != term_key(#[trigger] before[j]) by {
            assert(before[i] == terms[i]);
            assert(before[j] == terms[j]);
        }
        lemma_normal_terms(before, term);
        let own = term_key(last).unwrap();
        lemma_own_key(last, own);
        if before.contains(term) {
            let i = choose|i: int| 0 <= i < before.len() && before[i] == term;
            assert(term_key(term).is_some());
            assert(term_key(term) != term_key(last));
        }
        match term_key(term) {
            Some(key) => {
                lemma_terms_push(before, last, key);
                lemma_own_key(term, key);
                if key == own {
                    lemma_key_unused(before, key);
                    lemma_merge_relative_laws(relativity(last, key), None, None);
                    assert(describes(terms, term) == (term == last));
                } else {
                    lemma_other_key(last, key);
                    lemma_merge_relative_laws(relativities(before, key), None, None);
                    assert(term != last);
                    assert(describes(terms, term) == describes(before, term));
                }
            },
            None => {
                lemma_terms_push(before, last, own);
                assert(term != last);
                assert(!describes(terms, term));
            },
        }
    }
}

/// Whether two lengths have the same terms, in whatever order.
pub open spec fn same_terms(a: LengthView, b: LengthView) -> bool {
    forall|term: LengthView| #[trigger]
        terms_of(a).contains(term) == terms_of(b).contains(term)
}

/// Whether two lengths hold the same amount of every unit and of every
/// custom property, say the same of every custom property, and have terms
/// for the same custom properties.
pub open spec fn same_amounts(a: LengthView, b: LengthView) -> bool {
    forall|key: TermKeyView|
        #![trigger amount(a, key)]
        #![trigger relativity(a, key)]
        #![trigger mentions(a, key)]
        amount(a, key) == amount(b, key) && relativity(a, key) == relativity(b, key) && mentions(
            a,
            key,
        ) == mentions(b, key)
}

/// What a length holds is what its terms hold.
pub proof fn lemma_terms_of(l: LengthView, key: TermKeyView)
    ensures
        amounts(terms_of(l), key) == amount(l, key),
        relativities(terms_of(l), key) == relativity(l, key),
        mentions_any(terms_of(l), key) == mentions(l, key),
        is_normal(l) ==> normal_terms(terms_of(l)),
{
    match l {
        LengthView::Zero => {},
        LengthView::Addition { terms } => {},
        _ => {
            lemma_single_term(l, key);
            assert(seq![l].drop_last() =~= Seq::<LengthView>::empty());
            assert(seq![l].last() == l);
            assert(!mentions_any(seq![l].drop_last(), key));
            assert(terms_of(l)[0] == l);
        },
    }
}

/// Two normal forms that hold the same have the same terms, in whatever
/// order; they are the same where neither is a sum.
pub proof fn lemma_same_amounts_same_terms(a: LengthView, b: LengthView)
    requires
        is_normal(a),
        is_normal(b),
        same_amounts(a, b),
    ensures
        same_terms(a, b),
        !(a is Addition) && !(b is Addition) ==> a == b,
{
    let px = TermKeyView::Unit(crate::intermediate_node::LengthUnit::Px);
    lemma_terms_of(a, px);
    lemma_terms_of(b, px);
    assert forall|term: LengthView| #[trigger]
        terms_of(a).contains(term) == terms_of(b).contains(term) by {
        lemma_normal_terms(terms_of(a), term);
        lemma_normal_terms(terms_of(b), term);
        match term_key(term) {
            Some(key) => {
                lemma_terms_of(a, key);
                lemma_terms_of(b, key);
                assert(amount(a, key) == amount(b, key));
                assert(relativity(a, key) == relativity(b, key));
                assert(mentions(a, key) == mentions(b, key));
            },
            None => {},
        }
    }
    if !(a is Addition) && !(b is Addition) {
        if !(a is Zero) {
            assert(terms_of(a)[0] == a);
            assert(terms_of(a).contains(a));
            assert(terms_of(b).contains(a));
            let i = choose|i: int| 0 <= i < terms_of(b).len() && terms_of(b)[i] == a;
            assert(terms_of(b)[i] == b);
        } else if !(b is Zero) {
            assert(terms_of(b)[0] == b);
            assert(terms_of(b).contains(b));
            assert(terms_of(a).contains(b));
        }
    }
}

/// What a sum of two lengths holds is what the two hold together.
pub proof fn lemma_add_amounts(a: LengthView, b: LengthView, key: TermKeyView)
    requires
        weight(a) + weight(b) <= i64::MAX,
    ensures
        amount(spec_add(a, b), key) == amount(a, key) + amount(b, key),
        relativity(spec_add(a, b), key) == merge_relative(relativity(a, key), relativity(b, key)),
        mentions(spec_add(a, b), key) == (mentions(a, key) || mentions(b, key)),
        weight(spec_add(a, b)) <= weight(a) + weight(b),
{
    let terms = seq![a, b];
    assert(terms.drop_last() =~= seq![a]);
    assert(terms.last() == b);
    assert(terms =~= seq![a].push(b));
    assert(seq![a] =~= Seq::<LengthView>::empty().push(a));
    lemma_terms_push(Seq::<LengthView>::empty(), a, key);
    lemma_terms_push(seq![a], b, key);
    assert(!mentions_any(Seq::<LengthView>::empty(), key));
    assert(mentions_any(terms, key) == (mentions(a, key) || mentions(b, key)));
    assert(mentions(LengthView::Addition { terms }, key) == mentions_any(terms, key));
    lemma_single_term(a, key);
    lemma_normalise_keeps_amounts(LengthView::Addition { terms }, key);
    lemma_normalise_keeps_mentions(LengthView::Addition { terms }, key);
}

/// Adding is commutative up to the normal form: whichever way round two
/// lengths are added, the sum has the same terms, in whatever order, and so
/// holds the same amount of every unit and of every custom property; the two
/// sums are the same where neither is a sum of several terms. This holds as
/// long as the weights of the two together fit a decimal.
pub proof fn lemma_add_commutative(a: LengthView, b: LengthView)
    requires
        weight(a) + weight(b) <= i64::MAX,
    ensures
        same_amounts(spec_add(a, b), spec_add(b, a)),
        same_terms(spec_add(a, b), spec_add(b, a)),
        !(spec_add(a, b) is Addition) && !(spec_add(b, a) is Addition) ==> spec_add(a, b)
            == spec_add(b, a),
{
    assert forall|key: TermKeyView|
        amount(spec_add(a, b), key) == amount(spec_add(b, a), key) && relativity(
            spec_add(a, b),
            key,
        ) == relativity(spec_add(b, a), key) && mentions(spec_add(a, b), key) == mentions(
            spec_add(b, a),
            key,
        ) by {
        lemma_add_amounts(a, b, key);
        lemma_add_amounts(b, a, key);
        lemma_merge_relative_laws(relativity(a, key), relativity(b, key), None);
    }
    lemma_normalise_is_normal(LengthView::Addition { terms: seq![a, b] });
    lemma_normalise_is_normal(LengthView::Addition { terms: seq![b, a] });
    lemma_same_amounts_same_terms(spec_add(a, b), spec_add(b, a));
}

/// Adding is associative up to the normal form: however three lengths are
/// added, the sum has the same terms, in whatever order, and so holds the
/// same amount of every unit and of every custom property; the two sums are
/// the same where neither is a sum of several terms. This holds as long as
/// the weights of the three together fit a decimal.
pub proof fn lemma_add_associative(a: LengthView, b: LengthView, c: LengthView)
    requires
        weight(a) + weight(b) + weight(c) <= i64::MAX,
    ensures
        same_amounts(spec_add(spec_add(a, b), c), spec_add(a, spec_add(b, c))),
        same_terms(spec_add(spec_add(a, b), c), spec_add(a, spec_add(b, c))),
        !(spec_add(spec_add(a, b), c) is Addition) && !(spec_add(a, spec_add(b, c)) is Addition)
            ==> spec_add(spec_add(a, b), c) == spec_add(a, spec_add(b, c)),
{
    assert forall|key: TermKeyView|
        amount(spec_add(spec_add(a, b), c), key) == amount(spec_add(a, spec_add(b, c)), key)
            && relativity(spec_add(spec_add(a, b), c), key) == relativity(
            spec_add(a, spec_add(b, c)),
            key,
        ) && mentions(spec_add(spec_add(a, b), c), key) == mentions(
            spec_add(a, spec_add(b, c)),
            key,
        ) by {
        lemma_add_amounts(a, b, key);
        lemma_add_amounts(b, c, key);
        lemma_add_amounts(spec_add(a, b), c, key);
        lemma_add_amounts(a, spec_add(b, c), key);
        lemma_merge_relative_laws(relativity(a, key), relativity(b, key), relativity(c, key));
    }
    lemma_normalise_is_normal(LengthView::Addition { terms: seq![spec_add(a, b), c] });
    lemma_normalise_is_normal(LengthView::Addition { terms: seq![a, spec_add(b, c)] });
    lemma_same_amounts_same_terms(spec_add(spec_add(a, b), c), spec_add(a, spec_add(b, c)));
}

/// What a term that is no sum and no nothing is accumulated under.
pub open spec fn term_key(l: LengthView) -> Option<TermKeyView> {
    match l {
        LengthView::Value { unit, .. } => Some(TermKeyView::Unit(unit)),
        LengthView::Var { name, .. } => Some(TermKeyView::Variable(name)),
        _ => None,
    }
}

/// Whether a length is an amount of zero of some unit.
pub open spec fn is_zero_value(l: LengthView) -> bool {
    l matches LengthView::Value { value, .. } && value.micros == 0
}

/// Whether a length is in normal form: it holds no amount of zero of a unit;
/// a sum has at least two terms, each an amount of a unit or a multiple of a
/// custom property, no unit and no custom property twice.
pub open spec fn is_normal(l: LengthView) -> bool {
    match l {
        LengthView::Addition { terms } => {
            &&& terms.len() >= 2
            &&& forall|i: int|
                0 <= i < terms.len() ==> term_key(#[trigger] terms[i]).is_some() && !is_zero_value(
                    terms[i],
                )
            &&& forall|i: int, j: int|
                0 <= i < j < terms.len() ==> term_key(#[trigger] terms[i]) != term_key(
                    #[trigger] terms[j],
                )
        },
        _ => !is_zero_value(l),
    }
}

/// The normal form of a length is in normal form.
pub proof fn lemma_normalise_is_normal(l: LengthView)
    ensures
        is_normal(spec_normalise(l)),
{
    match l {
        LengthView::Addition { terms } => {
            lemma_collect_ok(empty_scope(), terms);
            lemma_live_scope_ok(spec_collect(empty_scope(), terms));
            let scope = live_scope(spec_collect(empty_scope(), terms));
            let all = scope_terms(scope);
            let n = scope.variables.len() as int;
            assert forall|i: int| 0 <= i < all.len() implies term_key(#[trigger] all[i]) == Some(
                if i < n {
                    scope.variables[i].0
                } else {
                    scope.values[i - n].0
                },
            ) && !is_zero_value(all[i]) by {
                if i < n {
                    assert(all[i] == term_of(scope.variables[i]));
                    assert(scope.variables[i].0 is Variable);
                } else {
                    assert(all[i] == term_of(scope.values[i - n]));
                    assert(scope.values[i - n].0 is Unit);
                    assert(scope.values[i - n].1.amount.micros != 0);
                }
            }
            assert forall|i: int, j: int| 0 <= i < j < all.len() implies term_key(
                #[trigger] all[i],
            ) != term_key(#[trigger] all[j]) by {
                if j < n {
                    assert(scope.variables[i].0 != scope.variables[j].0);
                } else if i >= n {
                    assert(scope.values[i - n].0 != scope.values[j - n].0);
                } else {
                    assert(scope.variables[i].0 is Variable);
                    assert(scope.values[j - n].0 is Unit);
                }
            }
            if scope.values.len() == 1 && scope.variables.len() == 0 {
                assert(scope.values[0].0 is Unit);
                assert(scope.values[0].1.amount.micros != 0);
            } else if scope.values.len() == 0 && scope.variables.len() == 1 {
                assert(scope.variables[0].0 is Variable);
            }
        },
        _ => {},
    }
}

/// Whether the term at `i` says `relative` of itself.
pub open spec fn term_says(terms: Seq<LengthView>, i: int, relative: Option<bool>) -> bool {
    0 <= i < terms.len() && spec_containing_block_relative(terms[i]) == relative
}

/// A sum is relative to the containing block if one of its terms is; else it
/// is not known to be if that is not known of one of its terms; else it is
/// not.
pub proof fn lemma_relative_of_sum(terms: Seq<LengthView>)
    ensures
        spec_terms_relative(terms) == if exists|i: int| term_says(terms, i, Some(true)) {
            Some(true)
        } else if exists|i: int| term_says(terms, i, None) {
            None
        } else {
            Some(false)
        },
    decreases terms.len(),
{
    if terms.len() > 0 {
        let before = terms.drop_last();
        let last = terms.len() - 1;
        lemma_relative_of_sum(before);
        assert forall|i: int, v: Option<bool>| term_says(before, i, v) implies term_says(
            terms,
            i,
            v,
        ) by {
            assert(before[i] == terms[i]);
        }
        assert forall|i: int, v: Option<bool>| term_says(terms, i, v) && i != last implies term_says(
            before,
            i,
            v,
        ) by {
            assert(before[i] == terms[i]);
        }
        let here = spec_containing_block_relative(terms.last());
        assert(term_says(terms, last, here));
        if exists|i: int| term_says(terms, i, Some(true)) {
            let i = choose|i: int| term_says(terms, i, Some(true));
            if i != last {
                assert(term_says(before, i, Some(true)));
            }
        } else if exists|i: int| term_says(terms, i, None) {
            let i = choose|i: int| term_says(terms, i, None);
            if i != last {
                assert(term_says(before, i, None));
            }
            if exists|i: int| term_says(before, i, Some(true)) {
                let j = choose|i: int| term_says(before, i, Some(true));
                assert(term_says(terms, j, Some(true)));
            }
        } else {
            if exists|i: int| term_says(before, i, Some(true)) {
                let j = choose|i: int| term_says(before, i, Some(true));
                assert(term_says(terms, j, Some(true)));
            }
            if exists|i: int| term_says(before, i, None) {
                let j = choose|i: int| term_says(before, i, None);
                assert(term_says(terms, j, None));
            }
        }
    } else {
        assert(forall|i: int| !term_says(terms, i, Some(true)));
        assert(forall|i: int| !term_says(terms, i, None));
    }
}

} // verus!
