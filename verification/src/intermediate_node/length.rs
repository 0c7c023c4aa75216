//! Symbolic CSS lengths and their normalising addition.
use crate::decimal::{clamp_micros, decimal_text, Decimal, MICROS_PER_UNIT};
use crate::ordered_map::{
    put, stored, term_entries, term_map_get, term_map_insert, term_map_into_entries, term_map_new,
    TermEntries, TermKey, TermKeyView, TermTotal,
};
use crate::text::push_text;
use indexmap::IndexMap;
use vstd::prelude::*;
use vstd::string::StringExecFns;

verus! {

/// Unit of a fixed CSS length.
#[derive(Clone, Copy, Debug, PartialEq, Eq, Hash, Structural)]
pub enum LengthUnit {
    Px,
    Percentage,
}

/// A symbolic CSS length.
#[derive(Debug)]
pub enum Length {
    /// No length at all.
    Zero,
    /// A fixed amount of one unit.
    Value { unit: LengthUnit, value: Decimal },
    /// A multiple of a custom property. `containing_block_relative` is `None`
    /// where it is not known whether the property holds a percentage.
    Var { name: String, containing_block_relative: Option<bool>, multiplier: Decimal },
    /// The sum of its terms.
    Addition { terms: Vec<Length> },
}

/// The mathematical value of a [`Length`].
pub ghost enum LengthView {
    Zero,
    Value { unit: LengthUnit, value: Decimal },
    Var { name: Seq<char>, containing_block_relative: Option<bool>, multiplier: Decimal },
    Addition { terms: Seq<LengthView> },
}

impl View for Length {
    type V = LengthView;

    open spec fn view(&self) -> LengthView {
        length_view(*self)
    }
}

/// The mathematical value of `l`.
pub open spec fn length_view(l: Length) -> LengthView
    decreases l,
{
    match l {
        Length::Zero => LengthView::Zero,
        Length::Value { unit, value } => LengthView::Value { unit, value },
        Length::Var { name, containing_block_relative, multiplier } => LengthView::Var {
            name: name@,
            containing_block_relative,
            multiplier,
        },
        Length::Addition { terms } => LengthView::Addition {
            terms: Seq::new(
                terms.len() as nat,
                |i: int|
                    if 0 <= i < terms.len() {
                        length_view(terms[i])
                    } else {
                        LengthView::Zero
                    },
            ),
        },
    }
}

/// How two relativity facts about one custom property combine: a percentage
/// on either side decides, then ignorance on either side.
pub open spec fn merge_relative(a: Option<bool>, b: Option<bool>) -> Option<bool> {
    if a == Some(true) || b == Some(true) {
        Some(true)
    } else if a.is_none() || b.is_none() {
        None
    } else {
        Some(false)
    }
}

/// Whether a length depends on the size of the containing block: `Some(true)`
/// if any part is a percentage, else `None` if any part is unknown, else
/// `Some(false)`.
pub open spec fn spec_containing_block_relative(l: LengthView) -> Option<bool>
    decreases l,
{
    match l {
        LengthView::Zero => Some(false),
        LengthView::Value { unit, .. } => Some(unit == LengthUnit::Percentage),
        LengthView::Var { containing_block_relative, .. } => containing_block_relative,
        LengthView::Addition { terms } => spec_terms_relative(terms),
    }
}

/// [`spec_containing_block_relative`] of a sum of `terms`.
pub open spec fn spec_terms_relative(terms: Seq<LengthView>) -> Option<bool>
    decreases terms,
{
    if terms.len() == 0 {
        Some(false)
    } else {
        merge_relative(
            spec_terms_relative(terms.drop_last()),
            spec_containing_block_relative(terms.last()),
        )
    }
}

/// The terms met so far while a sum is flattened: what each unit and each
/// custom property has accumulated, in the order of first appearance.
pub ghost struct Scope {
    pub values: TermEntries,
    pub variables: TermEntries,
}

/// The scope that two maps of accumulated terms hold.
pub open spec fn scope_of(
    values: IndexMap<TermKey, TermTotal>,
    variables: IndexMap<TermKey, TermTotal>,
) -> Scope {
    Scope { values: term_entries(values), variables: term_entries(variables) }
}

/// The scope before any term is met.
pub open spec fn empty_scope() -> Scope {
    Scope { values: Seq::empty(), variables: Seq::empty() }
}

/// `entries` after `amount` and `relative` are added to what `key` holds.
pub open spec fn accumulate(
    entries: TermEntries,
    key: TermKeyView,
    amount: Decimal,
    relative: Option<bool>,
) -> TermEntries {
    let before = match stored(entries, key) {
        Some(total) => total,
        None => TermTotal { amount: Decimal { micros: 0 }, relative: Some(false) },
    };
    put(
        entries,
        key,
        TermTotal {
            amount: Decimal {
                micros: clamp_micros(before.amount.micros + amount.micros) as i64,
            },
            relative: merge_relative(before.relative, relative),
        },
    )
}

/// `scope` after one term that is no sum is met. A zero is skipped.
pub open spec fn absorb_leaf(scope: Scope, term: LengthView) -> Scope {
    match term {
        LengthView::Value { unit, value } => if value.micros == 0 {
            scope
        } else {
            Scope {
                values: accumulate(scope.values, TermKeyView::Unit(unit), value, Some(false)),
                ..scope
            }
        },
        LengthView::Var { name, containing_block_relative, multiplier } => Scope {
            variables: accumulate(
                scope.variables,
                TermKeyView::Variable(name),
                multiplier,
                containing_block_relative,
            ),
            ..scope
        },
        _ => scope,
    }
}

/// `scope` after each of `terms` is met in turn.
pub open spec fn absorb_leaves(scope: Scope, terms: Seq<LengthView>) -> Scope
    decreases terms.len(),
{
    if terms.len() == 0 {
        scope
    } else {
        absorb_leaf(absorb_leaves(scope, terms.drop_last()), terms.last())
    }
}

/// `scope` after a normalised term is met: the terms of a sum one by one.
pub open spec fn absorb(scope: Scope, term: LengthView) -> Scope {
    match term {
        LengthView::Addition { terms } => absorb_leaves(scope, terms),
        _ => absorb_leaf(scope, term),
    }
}

/// The term that stands for one entry of a scope.
pub open spec fn term_of(entry: (TermKeyView, TermTotal)) -> LengthView {
    match entry.0 {
        TermKeyView::Unit(unit) => LengthView::Value { unit, value: entry.1.amount },
        TermKeyView::Variable(name) => LengthView::Var {
            name,
            containing_block_relative: entry.1.relative,
            multiplier: entry.1.amount,
        },
    }
}

/// The terms that stand for some entries.
pub open spec fn entry_terms(entries: TermEntries) -> Seq<LengthView> {
    entries.map_values(|e: (TermKeyView, TermTotal)| term_of(e))
}

/// The terms of a scope: the custom properties first, then the units.
pub open spec fn scope_terms(scope: Scope) -> Seq<LengthView> {
    entry_terms(scope.variables) + entry_terms(scope.values)
}

/// The entries that hold an amount other than zero, in their order.
pub open spec fn live(entries: TermEntries) -> TermEntries
    decreases entries.len(),
{
    if entries.len() == 0 {
        Seq::empty()
    } else if entries.last().1.amount.micros == 0 {
        live(entries.drop_last())
    } else {
        live(entries.drop_last()).push(entries.last())
    }
}

/// A scope without the units whose amounts have come to zero.
pub open spec fn live_scope(scope: Scope) -> Scope {
    Scope { values: live(scope.values), ..scope }
}

/// A scope written as a length: nothing, its one term, or the sum of its
/// terms.
pub open spec fn written(scope: Scope) -> LengthView {
    if scope.values.len() == 0 && scope.variables.len() == 0 {
        LengthView::Zero
    } else if scope.values.len() == 0 && scope.variables.len() == 1 {
        term_of(scope.variables[0])
    } else if scope.values.len() == 1 && scope.variables.len() == 0 {
        term_of(scope.values[0])
    } else {
        LengthView::Addition { terms: scope_terms(scope) }
    }
}

/// The length that a scope stands for: what is left of it, once the units
/// whose amounts have come to zero are gone, written as a length.
pub open spec fn collapse(scope: Scope) -> LengthView {
    written(live_scope(scope))
}

/// The normal form of a length: a sum is flattened, the amounts of each unit
/// and of each custom property are added up, and what is left is written as
/// shortly as it can be.
pub open spec fn spec_normalise(l: LengthView) -> LengthView
    decreases l, 1int,
{
    match l {
        LengthView::Zero => l,
        LengthView::Value { value, .. } => if value.micros == 0 {
            LengthView::Zero
        } else {
            l
        },
        LengthView::Var { .. } => l,
        LengthView::Addition { terms } => collapse(spec_collect(empty_scope(), terms)),
    }
}

/// `scope` after each of `terms` is normalised and met in turn.
pub open spec fn spec_collect(scope: Scope, terms: Seq<LengthView>) -> Scope
    decreases terms, 0int,
{
    if terms.len() == 0 {
        scope
    } else {
        absorb(spec_collect(scope, terms.drop_last()), spec_normalise(terms.last()))
    }
}

/// The sum of two lengths, in normal form.
pub open spec fn spec_add(a: LengthView, b: LengthView) -> LengthView {
    spec_normalise(LengthView::Addition { terms: seq![a, b] })
}

/// Whether a length needs arithmetic to be written down: a sum, or a custom
/// property taken other than once.
pub open spec fn spec_requires_calc(l: LengthView) -> bool {
    match l {
        LengthView::Zero => false,
        LengthView::Value { .. } => false,
        LengthView::Addition { .. } => true,
        LengthView::Var { multiplier, .. } => multiplier.micros != MICROS_PER_UNIT,
    }
}

/// How a unit is written in CSS.
pub open spec fn unit_text(unit: LengthUnit) -> Seq<char> {
    match unit {
        LengthUnit::Px => "px"@,
        LengthUnit::Percentage => "%"@,
    }
}

/// How a length is written in CSS. Only a sum, and a custom property taken
/// other than once, are wrapped in `calc(` and `)`.
pub open spec fn length_text(l: LengthView) -> Seq<char>
    decreases l, 1int,
{
    let body = match l {
        LengthView::Zero => "0"@,
        LengthView::Value { unit, value } => decimal_text(value.micros as int) + unit_text(unit),
        LengthView::Var { name, multiplier, .. } => {
            let factor = if multiplier.micros != MICROS_PER_UNIT {
                decimal_text(multiplier.micros as int) + "*"@
            } else {
                Seq::<char>::empty()
            };
            factor + "var(--"@ + name + ")"@
        },
        LengthView::Addition { terms } => terms_text(terms),
    };
    if spec_requires_calc(l) {
        "calc("@ + body + ")"@
    } else {
        body
    }
}

/// The terms of a sum as they are written in CSS, with ` + ` between them.
pub open spec fn terms_text(terms: Seq<LengthView>) -> Seq<char>
    decreases terms, 0int,
{
    if terms.len() == 0 {
        Seq::empty()
    } else if terms.len() == 1 {
        length_text(terms[0])
    } else {
        terms_text(terms.drop_last()) + " + "@ + length_text(terms.last())
    }
}

/// The view of a sum is the sequence of the views of its terms.
pub proof fn lemma_addition_view(l: Length)
    requires
        l is Addition,
    ensures
        l@ is Addition,
        l@->terms.len() == l->terms.len(),
        forall|j: int| 0 <= j < l->terms.len() ==> #[trigger] l@->terms[j] == l->terms[j]@,
{
    match l {
        Length::Addition { terms } => {
            assert(l@->terms.len() == terms.len());
        },
        _ => {},
    }
}

fn merge_relative_exec(a: Option<bool>, b: Option<bool>) -> (r: Option<bool>)
    ensures
        r == merge_relative(a, b),
{
    match (a, b) {
        (Some(true), _) => Some(true),
        (_, Some(true)) => Some(true),
        (None, _) => None,
        (_, None) => None,
        _ => Some(false),
    }
}

fn accumulate_into(
    map: &mut IndexMap<TermKey, TermTotal>,
    key: TermKey,
    amount: Decimal,
    relative: Option<bool>,
)
    ensures
        term_entries(*final(map)) == accumulate(term_entries(*old(map)), key@, amount, relative),
{
    let before = match term_map_get(map, &key) {
        Some(total) => total,
        None => TermTotal { amount: Decimal::zero(), relative: Some(false) },
    };
    let total = TermTotal {
        amount: before.amount.add(amount),
        relative: merge_relative_exec(before.relative, relative),
    };
    term_map_insert(map, key, total);
}

fn absorb_leaf_into(
    term: &Length,
    values: &mut IndexMap<TermKey, TermTotal>,
    variables: &mut IndexMap<TermKey, TermTotal>,
)
    ensures
        scope_of(*final(values), *final(variables))
            == absorb_leaf(
            scope_of(*old(values), *old(variables)),
            term@,
        ),
{
    match term {
        Length::Value { unit, value } => {
            if !value.is_zero() {
                accumulate_into(values, TermKey::Unit(*unit), *value, Some(false));
            }
        },
        Length::Var { name, containing_block_relative, multiplier } => {
            accumulate_into(
                variables,
                TermKey::Variable(name.clone()),
                *multiplier,
                *containing_block_relative,
            );
        },
        _ => {},
    }
}

fn absorb_into(
    term: &Length,
    values: &mut IndexMap<TermKey, TermTotal>,
    variables: &mut IndexMap<TermKey, TermTotal>,
)
    ensures
        scope_of(*final(values), *final(variables))
            == absorb(
            scope_of(*old(values), *old(variables)),
            term@,
        ),
{
    match term {
        Length::Addition { terms } => {
            proof {
                lemma_addition_view(*term);
            }
            let ghost start = scope_of(*values, *variables);
            let mut i: usize = 0;
            while i < terms.len()
                invariant
                    i <= terms.len(),
                    term@ is Addition,
                    term@->terms.len() == terms.len(),
                    forall|j: int| 0 <= j < terms.len() ==> #[trigger] term@->terms[j] == terms[j]@,
                    scope_of(*values, *variables)
                        == absorb_leaves(start, term@->terms.take(i as int)),
                decreases terms.len() - i,
            {
                proof {
                    let ts = term@->terms;
                    assert(ts.take(i + 1).drop_last() == ts.take(i as int));
                    assert(ts.take(i + 1).last() == ts[i as int]);
                }
                absorb_leaf_into(&terms[i], values, variables);
                i += 1;
            }
            proof {
                assert(term@->terms.take(i as int) == term@->terms);
            }
        },
        _ => {
            absorb_leaf_into(term, values, variables);
        },
    }
}

fn term_from(entry: &(TermKey, TermTotal)) -> (r: Length)
    ensures
        r@ == term_of((entry.0@, entry.1)),
{
    match &entry.0 {
        TermKey::Unit(unit) => Length::Value { unit: *unit, value: entry.1.amount },
        TermKey::Variable(name) => Length::Var {
            name: name.clone(),
            containing_block_relative: entry.1.relative,
            multiplier: entry.1.amount,
        },
    }
}

/// The values of some lengths.
pub open spec fn lengths_view(lengths: Seq<Length>) -> Seq<LengthView> {
    Seq::new(lengths.len(), |i: int| lengths[i]@)
}

/// The entries that are written down: all of them, or those that hold an
/// amount other than zero.
pub open spec fn kept(entries: TermEntries, live_only: bool) -> TermEntries {
    if live_only {
        live(entries)
    } else {
        entries
    }
}

fn terms_from(entries: &Vec<(TermKey, TermTotal)>, live_only: bool, Ghost(model): Ghost<
    TermEntries,
>) -> (terms: Vec<Length>)
    requires
        entries@.len() == model.len(),
        forall|i: int|
            0 <= i < entries@.len() ==> (#[trigger] entries@[i]).0@ == model[i].0 && entries@[i].1
                == model[i].1,
    ensures
        lengths_view(terms@) == entry_terms(kept(model, live_only)),
{
    let mut terms: Vec<Length> = Vec::new();
    let mut i: usize = 0;
    while i < entries.len()
        invariant
            i <= entries.len(),
            entries@.len() == model.len(),
            forall|j: int|
                0 <= j < entries@.len() ==> (#[trigger] entries@[j]).0@ == model[j].0
                    && entries@[j].1 == model[j].1,
            lengths_view(terms@) == entry_terms(kept(model.take(i as int), live_only)),
        decreases entries.len() - i,
    {
        proof {
            assert(model.take(i + 1).drop_last() == model.take(i as int));
            assert(model.take(i + 1).last() == model[i as int]);
            assert(entries@[i as int].1 == model[i as int].1);
        }
        let ghost before = lengths_view(terms@);
        let ghost kept_before = kept(model.take(i as int), live_only);
        if !live_only || !entries[i].1.amount.is_zero() {
            let term = term_from(&entries[i]);
            terms.push(term);
            proof {
                assert(kept(model.take(i + 1), live_only) =~= kept_before.push(model[i as int]));
                assert(lengths_view(terms@) =~= before.push(term_of(model[i as int])));
                assert(entry_terms(kept_before.push(model[i as int])) =~= entry_terms(
                    kept_before,
                ).push(term_of(model[i as int])));
            }
        }
        i += 1;
    }
    proof {
        assert(model.take(i as int) == model);
    }
    terms
}

fn collapse_scope(values: IndexMap<TermKey, TermTotal>, variables: IndexMap<TermKey, TermTotal>) -> (r:
    Length)
    ensures
        r@ == collapse(scope_of(values, variables)),
{
    let ghost all = scope_of(values, variables);
    let ghost scope = live_scope(all);
    let values = term_map_into_entries(values);
    let variables = term_map_into_entries(variables);
    let mut value_terms = terms_from(&values, true, Ghost(all.values));
    let mut variable_terms = terms_from(&variables, false, Ghost(all.variables));
    let ghost value_views = lengths_view(value_terms@);
    let ghost variable_views = lengths_view(variable_terms@);
    proof {
        assert(value_views.len() == scope.values.len());
        assert(variable_views.len() == scope.variables.len());
    }
    if value_terms.len() == 0 && variable_terms.len() == 0 {
        Length::Zero
    } else if value_terms.len() == 0 && variable_terms.len() == 1 {
        proof {
            assert(variable_views[0] == term_of(scope.variables[0]));
        }
        match variable_terms.pop() {
            Some(term) => term,
            None => Length::Zero,
        }
    } else if value_terms.len() == 1 && variable_terms.len() == 0 {
        proof {
            assert(value_views[0] == term_of(scope.values[0]));
        }
        match value_terms.pop() {
            Some(term) => term,
            None => Length::Zero,
        }
    } else {
        variable_terms.append(&mut value_terms);
        let r = Length::Addition { terms: variable_terms };
        proof {
            lemma_addition_view(r);
            assert(r@->terms =~= variable_views + value_views) by {
                assert forall|i: int| 0 <= i < r@->terms.len() implies r@->terms[i] == (
                variable_views + value_views)[i] by {
                    if i < variable_views.len() {
                        assert(variable_views[i] == r->terms@[i]@);
                    } else {
                        assert(value_views[i - variable_views.len()] == r->terms@[i]@);
                    }
                }
            }
        }
        r
    }
}

impl Clone for Length {
    fn clone(&self) -> (r: Length)
        ensures
            r@ == self@,
        decreases self,
    {
        match self {
            Length::Zero => Length::Zero,
            Length::Value { unit, value } => Length::Value { unit: *unit, value: *value },
            Length::Var { name, containing_block_relative, multiplier } => Length::Var {
                name: name.clone(),
                containing_block_relative: *containing_block_relative,
                multiplier: *multiplier,
            },
            Length::Addition { terms } => {
                let mut copy: Vec<Length> = Vec::new();
                let mut i: usize = 0;
                proof {
                    lemma_addition_view(*self);
                }
                while i < terms.len()
                    invariant
                        i <= terms.len(),
                        copy.len() == i,
                        forall|j: int| 0 <= j < terms.len() ==> decreases_to!(self => terms[j]),
                        forall|j: int| 0 <= j < i ==> #[trigger] copy[j]@ == terms[j]@,
                    decreases terms.len() - i,
                {
                    let t = terms[i].clone();
                    copy.push(t);
                    i += 1;
                }
                let r = Length::Addition { terms: copy };
                proof {
                    lemma_addition_view(r);
                    assert(r@->terms =~= self@->terms);
                }
                r
            },
        }
    }
}

impl PartialEq for Length {
    fn eq(&self, other: &Length) -> (r: bool) {
        self.equals(other)
    }
}

impl vstd::std_specs::cmp::PartialEqSpecImpl for Length {
    open spec fn obeys_eq_spec() -> bool {
        true
    }

    open spec fn eq_spec(&self, other: &Length) -> bool {
        self@ == other@
    }
}

impl LengthUnit {
    /// The unit as it is written in CSS.
    pub fn to_css_string(&self) -> (r: String)
        ensures
            r@ == unit_text(*self),
    {
        match self {
            LengthUnit::Px => String::from_str("px"),
            LengthUnit::Percentage => String::from_str("%"),
        }
    }
}

impl Length {
    /// A pixel length, or `Zero` where there are no pixels.
    pub fn new_from_option_pixels(pixels: Option<Decimal>) -> (r: Length)
        ensures
            r@ == match pixels {
                None => LengthView::Zero,
                Some(p) => if p.micros == 0 {
                    LengthView::Zero
                } else {
                    LengthView::Value { unit: LengthUnit::Px, value: p }
                },
            },
    {
        match pixels {
            None => Length::Zero,
            Some(p) => if p.is_zero() {
                Length::Zero
            } else {
                Length::Value { unit: LengthUnit::Px, value: p }
            },
        }
    }

    /// The normal form of the length.
    pub fn normalise(self) -> (r: Length)
        ensures
            r@ == spec_normalise(self@),
    {
        self.normalised()
    }

    /// The normal form of the length, which is left as it is.
    pub fn normalised(&self) -> (r: Length)
        ensures
            r@ == spec_normalise(self@),
        decreases self,
    {
        match self {
            Length::Zero => Length::Zero,
            Length::Value { unit, value } => if value.is_zero() {
                Length::Zero
            } else {
                Length::Value { unit: *unit, value: *value }
            },
            Length::Var { .. } => self.clone(),
            Length::Addition { terms } => {
                let mut values = term_map_new();
                let mut variables = term_map_new();
                proof {
                    lemma_addition_view(*self);
                }
                let mut i: usize = 0;
                while i < terms.len()
                    invariant
                        i <= terms.len(),
                        self@ is Addition,
                        self@->terms.len() == terms.len(),
                        forall|j: int|
                            0 <= j < terms.len() ==> #[trigger] self@->terms[j] == terms[j]@,
                        forall|j: int| 0 <= j < terms.len() ==> decreases_to!(self => terms[j]),
                        scope_of(values, variables)
                            == spec_collect(empty_scope(), self@->terms.take(i as int)),
                    decreases terms.len() - i,
                {
                    proof {
                        let ts = self@->terms;
                        assert(ts.take(i + 1).drop_last() == ts.take(i as int));
                        assert(ts.take(i + 1).last() == ts[i as int]);
                    }
                    let term = terms[i].normalised();
                    absorb_into(&term, &mut values, &mut variables);
                    i += 1;
                }
                proof {
                    assert(self@->terms.take(i as int) == self@->terms);
                }
                collapse_scope(values, variables)
            },
        }
    }

    /// The sum of two lengths, in normal form.
    pub fn add(self, other: Length) -> (r: Length)
        ensures
            r@ == spec_add(self@, other@),
    {
        let mut terms: Vec<Length> = Vec::new();
        terms.push(self);
        terms.push(other);
        let sum = Length::Addition { terms };
        proof {
            lemma_addition_view(sum);
            assert(sum@->terms =~= seq![self@, other@]);
        }
        sum.normalise()
    }

    /// Whether the length can only be written as a `calc()` expression.
    pub fn requires_calc(&self) -> (r: bool)
        ensures
            r == spec_requires_calc(self@),
    {
        match self {
            Length::Zero => false,
            Length::Value { .. } => false,
            Length::Addition { .. } => true,
            Length::Var { multiplier, .. } => !multiplier.is_one(),
        }
    }

    /// Adds the length, as it is written in CSS, at the end of `s`.
    pub fn write_to(&self, s: &mut String)
        ensures
            final(s)@ == old(s)@ + length_text(self@),
        decreases self,
    {
        let calc = self.requires_calc();
        if calc {
            push_text(s, "calc(");
        }
        let ghost before = s@;
        match self {
            Length::Zero => {
                push_text(s, "0");
            },
            Length::Value { unit, value } => {
                value.write_to(s);
                push_text(s, unit.to_css_string().as_str());
                proof {
                    assert(s@ =~= before + (decimal_text(value.micros as int) + unit_text(*unit)));
                }
            },
            Length::Var { name, multiplier, .. } => {
                if !multiplier.is_one() {
                    multiplier.write_to(s);
                    push_text(s, "*");
                }
                push_text(s, "var(--");
                push_text(s, name.as_str());
                push_text(s, ")");
                proof {
                    let factor = if multiplier.micros != MICROS_PER_UNIT {
                        decimal_text(multiplier.micros as int) + "*"@
                    } else {
                        Seq::<char>::empty()
                    };
                    assert(s@ =~= before + (factor + "var(--"@ + name@ + ")"@));
                }
            },
            Length::Addition { terms } => {
                proof {
                    lemma_addition_view(*self);
                }
                let mut i: usize = 0;
                while i < terms.len()
                    invariant
                        i <= terms.len(),
                        self@ is Addition,
                        self@->terms.len() == terms.len(),
                        forall|j: int|
                            0 <= j < terms.len() ==> #[trigger] self@->terms[j] == terms[j]@,
                        forall|j: int| 0 <= j < terms.len() ==> decreases_to!(self => terms[j]),
                        s@ == before + terms_text(self@->terms.take(i as int)),
                    decreases terms.len() - i,
                {
                    let ghost mid = s@;
                    if i != 0 {
                        push_text(s, " + ");
                    }
                    terms[i].write_to(s);
                    proof {
                        let ts = self@->terms;
                        assert(ts.take(i + 1).drop_last() == ts.take(i as int));
                        assert(ts.take(i + 1).last() == ts[i as int]);
                        assert(ts.take(i + 1)[0] == ts[0]);
                        assert(s@ =~= before + terms_text(ts.take(i + 1)));
                    }
                    i += 1;
                }
                proof {
                    assert(self@->terms.take(i as int) == self@->terms);
                }
            },
        }
        if calc {
            push_text(s, ")");
        }
        proof {
            assert(s@ =~= old(s)@ + length_text(self@));
        }
    }

    /// The length as it is written in CSS.
    pub fn to_css_string(&self) -> (r: String)
        ensures
            r@ == length_text(self@),
    {
        let mut s = String::new();
        self.write_to(&mut s);
        s
    }

    /// Whether two lengths are the same expression.
    pub fn equals(&self, other: &Length) -> (r: bool)
        ensures
            r == (self@ == other@),
        decreases self,
    {
        match (self, other) {
            (Length::Zero, Length::Zero) => true,
            (Length::Value { unit, value }, Length::Value { unit: u, value: v }) => *unit == *u
                && *value == *v,
            (
                Length::Var { name, containing_block_relative, multiplier },
                Length::Var { name: n, containing_block_relative: c, multiplier: m },
            ) => {
                let same_relative = match (containing_block_relative, c) {
                    (None, None) => true,
                    (Some(a), Some(b)) => *a == *b,
                    _ => false,
                };
                *name == *n && same_relative && *multiplier == *m
            },
            (Length::Addition { terms }, Length::Addition { terms: others }) => {
                proof {
                    lemma_addition_view(*self);
                    lemma_addition_view(*other);
                }
                if terms.len() != others.len() {
                    return false;
                }
                let mut i: usize = 0;
                while i < terms.len()
                    invariant
                        i <= terms.len(),
                        terms.len() == others.len(),
                        forall|j: int| 0 <= j < terms.len() ==> decreases_to!(self => terms[j]),
                        forall|j: int| 0 <= j < i ==> #[trigger] terms[j]@ == others[j]@,
                        self@ is Addition,
                        other@ is Addition,
                        self@->terms.len() == terms.len(),
                        other@->terms.len() == terms.len(),
                        forall|j: int|
                            0 <= j < terms.len() ==> #[trigger] self@->terms[j] == terms[j]@,
                        forall|j: int|
                            0 <= j < terms.len() ==> #[trigger] other@->terms[j] == others[j]@,
                    decreases terms.len() - i,
                {
                    if !terms[i].equals(&others[i]) {
                        proof {
                            assert(self@->terms[i as int] != other@->terms[i as int]);
                        }
                        return false;
                    }
                    i += 1;
                }
                proof {
                    assert(self@->terms =~= other@->terms);
                }
                true
            },
            _ => false,
        }
    }

    /// Whether the length is relative to the size of the containing block.
    pub fn containing_block_relative(&self) -> (r: Option<bool>)
        ensures
            r == spec_containing_block_relative(self@),
        decreases self,
    {
        match self {
            Length::Zero => Some(false),
            Length::Value { unit, .. } => match unit {
                LengthUnit::Px => Some(false),
                LengthUnit::Percentage => Some(true),
            },
            Length::Var { containing_block_relative, .. } => *containing_block_relative,
            Length::Addition { terms } => {
                let mut r: Option<bool> = Some(false);
                let mut i: usize = 0;
                proof {
                    lemma_addition_view(*self);
                }
                while i < terms.len()
                    invariant
                        i <= terms.len(),
                        self@ matches LengthView::Addition { terms: ts } && ts.len() == terms.len()
                            && forall|j: int| 0 <= j < ts.len() ==> ts[j] == terms[j]@,
                        forall|j: int| 0 <= j < terms.len() ==> decreases_to!(self => terms[j]),
                        r == spec_terms_relative(self@->terms.take(i as int)),
                    decreases terms.len() - i,
                {
                    let t = terms[i].containing_block_relative();
                    proof {
                        let ts = self@->terms;
                        assert(ts.take(i + 1).drop_last() == ts.take(i as int));
                        assert(ts.take(i + 1).last() == ts[i as int]);
                    }
                    r = merge_relative_exec(r, t);
                    i += 1;
                }
                proof {
                    let ts = self@->terms;
                    assert(ts.take(i as int) == ts);
                }
                r
            },
        }
    }
}

} // verus!
