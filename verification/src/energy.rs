//! Amounts of energy, and the running total of each component.

use vstd::hash_map::StringHashMap;
use vstd::prelude::*;

verus! {

/// An amount of energy in microjoules. Arithmetic stays within the range of
/// the counter: it saturates at both ends.
#[derive(Clone, Copy, Debug, PartialEq, Eq, Structural)]
pub struct EnergyUj {
    pub uj: u64,
}

/// The largest amount that does not exceed `n` microjoules.
pub open spec fn saturated(n: nat) -> EnergyUj {
    EnergyUj { uj: (if n <= u64::MAX { n } else { u64::MAX as nat }) as u64 }
}

impl EnergyUj {
    /// The sum of two amounts, or the largest amount.
    pub open spec fn plus(self, other: EnergyUj) -> EnergyUj {
        saturated((self.uj + other.uj) as nat)
    }

    /// The difference of two amounts, or none.
    pub open spec fn minus(self, other: EnergyUj) -> EnergyUj {
        EnergyUj { uj: (if self.uj >= other.uj { self.uj - other.uj } else { 0 }) as u64 }
    }

    pub fn from_u64(uj: u64) -> (r: EnergyUj)
        ensures
            r.uj == uj,
    {
        EnergyUj { uj }
    }

    pub fn as_u64(&self) -> (r: u64)
        ensures
            r == self.uj,
    {
        self.uj
    }

    pub fn saturating_add(self, other: EnergyUj) -> (r: EnergyUj)
        ensures
            r == self.plus(other),
    {
        if self.uj <= u64::MAX - other.uj {
            EnergyUj { uj: self.uj + other.uj }
        } else {
            EnergyUj { uj: u64::MAX }
        }
    }

    pub fn saturating_sub(self, other: EnergyUj) -> (r: EnergyUj)
        ensures
            r == self.minus(other),
    {
        if self.uj >= other.uj {
            EnergyUj { uj: self.uj - other.uj }
        } else {
            EnergyUj { uj: 0 }
        }
    }

    /// Whether any energy was used at all.
    pub fn is_positive(&self) -> (r: bool)
        ensures
            r == (self.uj > 0),
    {
        self.uj > 0
    }
}

/// The energy in microjoules that readings report together; a reading without
/// energy counts for nothing.
pub open spec fn energy_sum(amounts: Seq<Option<EnergyUj>>) -> nat
    decreases amounts.len(),
{
    if amounts.len() == 0 {
        0
    } else {
        energy_sum(amounts.drop_last()) + energy_of(amounts.last())
    }
}

/// The microjoules of a reading.
pub open spec fn energy_of(amount: Option<EnergyUj>) -> nat {
    match amount {
        Some(e) => e.uj as nat,
        None => 0,
    }
}

/// Adding amounts one by one, saturating each time, saturates their sum.
pub proof fn lemma_saturating_step(n: nat, e: EnergyUj)
    ensures
        saturated(n).plus(e) == saturated(n + e.uj as nat),
{
}

/// Replacing one amount changes the sum by the difference.
pub proof fn lemma_sum_update(amounts: Seq<Option<EnergyUj>>, i: int, new: Option<EnergyUj>)
    requires
        0 <= i < amounts.len(),
    ensures
        energy_sum(amounts.update(i, new)) + energy_of(amounts[i]) == energy_sum(amounts)
            + energy_of(new),
    decreases amounts.len(),
{
    let changed = amounts.update(i, new);
    if i == amounts.len() - 1 {
        assert(changed.drop_last() == amounts.drop_last());
    } else {
        lemma_sum_update(amounts.drop_last(), i, new);
        assert(changed.drop_last() == amounts.drop_last().update(i, new));
    }
}

/// Taking one amount out lowers the sum by it.
pub proof fn lemma_sum_remove(amounts: Seq<Option<EnergyUj>>, i: int)
    requires
        0 <= i < amounts.len(),
    ensures
        energy_sum(amounts.remove(i)) + energy_of(amounts[i]) == energy_sum(amounts),
    decreases amounts.len(),
{
    if i == amounts.len() - 1 {
        assert(amounts.remove(i) == amounts.drop_last());
    } else {
        lemma_sum_remove(amounts.drop_last(), i);
        assert(amounts.remove(i).drop_last() == amounts.drop_last().remove(i));
    }
}

/// One more amount adds to the sum.
pub proof fn lemma_sum_push(amounts: Seq<Option<EnergyUj>>, new: Option<EnergyUj>)
    ensures
        energy_sum(amounts.push(new)) == energy_sum(amounts) + energy_of(new),
{
    assert(amounts.push(new).drop_last() == amounts);
}

/// The energy that each component has used since the start, by the
/// component's name.
pub struct CumulativeEnergy {
    totals: StringHashMap<u64>,
}

impl View for CumulativeEnergy {
    type V = Map<Seq<char>, u64>;

    closed spec fn view(&self) -> Map<Seq<char>, u64> {
        self.totals@
    }
}

/// The totals after one more reading of the component `name`.
pub open spec fn totals_after(
    totals: Map<Seq<char>, u64>,
    name: Seq<char>,
    energy: Option<EnergyUj>,
) -> Map<Seq<char>, u64> {
    match energy {
        Some(e) => {
            let before = EnergyUj { uj: if totals.contains_key(name) { totals[name] } else { 0 } };
            totals.insert(name, before.plus(e).uj)
        },
        None => totals,
    }
}

impl CumulativeEnergy {
    pub fn new() -> (r: CumulativeEnergy)
        ensures
            r@ == Map::<Seq<char>, u64>::empty(),
    {
        CumulativeEnergy { totals: StringHashMap::new() }
    }

    /// The total of a component, if it has reported any energy.
    pub fn get(&self, name: &str) -> (r: Option<u64>)
        ensures
            r == (if self@.contains_key(name@) { Some(self@[name@]) } else { None }),
    {
        match self.totals.get(name) {
            Some(total) => Some(*total),
            None => None,
        }
    }

    /// Counts what a component has just reported.
    pub fn record(&mut self, name: &str, energy: Option<EnergyUj>)
        ensures
            final(self)@ == totals_after(old(self)@, name@, energy),
    {
        if let Some(e) = energy {
            let before: u64 = match self.get(name) {
                Some(total) => total,
                None => 0,
            };
            let sum = EnergyUj::from_u64(before).saturating_add(e);
            self.totals.insert(name.to_owned(), sum.uj);
        }
    }
}

/// A running total never falls, whatever is reported; the total of another
/// component does not change.
pub proof fn law_totals_never_fall(
    totals: Map<Seq<char>, u64>,
    name: Seq<char>,
    energy: Option<EnergyUj>,
    other: Seq<char>,
)
    requires
        totals.contains_key(other),
    ensures
        totals_after(totals, name, energy).contains_key(other),
        totals_after(totals, name, energy)[other] >= totals[other],
        other != name ==> totals_after(totals, name, energy)[other] == totals[other],
{
}

/// Amounts add up and are taken off as numbers, as far as the counter goes: a sum
/// too large is the largest amount, a difference below nothing is nothing.
pub proof fn law_amounts_stay_within_the_counter(
    a: EnergyUj,
    b: EnergyUj,
    sum: EnergyUj,
    difference: EnergyUj,
)
    requires
        call_ensures(EnergyUj::saturating_add, (a, b), sum),
        call_ensures(EnergyUj::saturating_sub, (a, b), difference),
    ensures
        a.uj + b.uj <= u64::MAX ==> sum.uj == a.uj + b.uj,
        a.uj + b.uj > u64::MAX ==> sum.uj == u64::MAX,
        a.uj >= b.uj ==> difference.uj == a.uj - b.uj,
        a.uj < b.uj ==> difference.uj == 0,
{
}

/// The energy of readings is the sum of what each reports, whatever their order:
/// nothing for no reading, and for two series what both report.
pub proof fn law_energy_adds_up(a: Seq<Option<EnergyUj>>, b: Seq<Option<EnergyUj>>, x: Option<EnergyUj>)
    ensures
        energy_sum(Seq::empty()) == 0,
        energy_sum(seq![x]) == (match x {
            Some(e) => e.uj as int,
            None => 0,
        }),
        energy_sum(a + b) == energy_sum(a) + energy_sum(b),
    decreases b.len(),
{
    assert(seq![x].drop_last() == Seq::<Option<EnergyUj>>::empty());
    assert(energy_sum(Seq::<Option<EnergyUj>>::empty()) == 0);
    if b.len() == 0 {
        assert(a + b == a);
    } else {
        law_energy_adds_up(a, b.drop_last(), x);
        assert((a + b).drop_last() == a + b.drop_last());
        assert((a + b).last() == b.last());
    }
}

/// Counting a reading: what the component reports is added to its total, or is
/// its total if it had none, as far as the counter goes. A reading without
/// energy changes nothing, and no other component is touched.
pub proof fn law_counting_adds_what_was_reported(
    totals: Map<Seq<char>, u64>,
    name: Seq<char>,
    energy: Option<EnergyUj>,
    other: Seq<char>,
)
    ensures
        energy is None ==> totals_after(totals, name, energy) == totals,
        energy matches Some(e) ==> totals_after(totals, name, energy).contains_key(name) && {
            let before: int = if totals.contains_key(name) {
                totals[name] as int
            } else {
                0
            };
            totals_after(totals, name, energy)[name] == (if before + e.uj <= u64::MAX {
                before + e.uj
            } else {
                u64::MAX as int
            })
        },
        other != name ==> (totals_after(totals, name, energy).contains_key(other)
            <==> totals.contains_key(other)),
        other != name && totals.contains_key(other) ==> totals_after(totals, name, energy)[other]
            == totals[other],
{
}

/// Recording a reading and looking the total up again gives what was there before
/// and what the reading reports, as far as the counter goes; another component has
/// the total that it had.
pub proof fn law_recorded_energy_is_found_again(
    totals: &mut CumulativeEnergy,
    name: &str,
    energy: Option<EnergyUj>,
    looked_up: &str,
    before: Option<u64>,
    after: Option<u64>,
)
    requires
        call_ensures(CumulativeEnergy::record, (totals, name, energy), ()),
        call_ensures(CumulativeEnergy::get, (&*old(totals), looked_up), before),
        call_ensures(CumulativeEnergy::get, (&*final(totals), looked_up), after),
    ensures
        looked_up@ != name@ || energy is None ==> after == before,
        looked_up@ == name@ && energy is Some ==> after is Some && {
            let sum = (match before {
                Some(n) => n as int,
                None => 0,
            }) + energy->0.uj;
            after->0 == (if sum <= u64::MAX {
                sum
            } else {
                u64::MAX as int
            })
        },
{
}

/// Nothing has been counted at the start.
pub proof fn law_counting_starts_from_nothing(totals: CumulativeEnergy, name: &str, r: Option<u64>)
    requires
        call_ensures(CumulativeEnergy::new, (), totals),
        call_ensures(CumulativeEnergy::get, (&totals, name), r),
    ensures
        r is None,
{
}

} // verus!
