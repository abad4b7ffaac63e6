//! A family of gauges: the current value of one quantity, per module.

use vstd::prelude::*;
use crate::field::Number;

verus! {

/// One gauge of a family: a module and its current value.
pub struct Gauge {
    pub module_index: usize,
    pub value: Number,
}

/// The gauges of one quantity, at most one per module. Its view maps the
/// index of each module that has a gauge to the text of the gauge's value.
pub struct GaugeFamily {
    gauges: Vec<Gauge>,
}

/// The gauge at position `i` of `gauges` belongs to module `k`.
pub open spec fn gauge_of(gauges: Seq<Gauge>, i: int, k: usize) -> bool {
    0 <= i < gauges.len() && gauges[i].module_index == k
}

/// No module has two gauges.
pub open spec fn one_gauge_each(gauges: Seq<Gauge>) -> bool {
    forall|i: int, j: int|
        0 <= i < j < gauges.len() ==> gauges[i].module_index != gauges[j].module_index
}

/// The map from each module that has a gauge to the text of its value.
pub open spec fn values_of(gauges: Seq<Gauge>) -> Map<usize, Seq<char>> {
    Map::new(
        |k: usize| exists|i: int| gauge_of(gauges, i, k),
        |k: usize| gauges[choose|i: int| gauge_of(gauges, i, k)].value@,
    )
}

/// The gauge at position `i` gives its module's value.
pub proof fn lemma_value_at(gauges: Seq<Gauge>, i: int)
    requires
        one_gauge_each(gauges),
        0 <= i < gauges.len(),
    ensures
        values_of(gauges).contains_key(gauges[i].module_index),
        values_of(gauges)[gauges[i].module_index] == gauges[i].value@,
{
    let k = gauges[i].module_index;
    assert(gauge_of(gauges, i, k));
    let c = choose|c: int| gauge_of(gauges, c, k);
    assert(c == i);
}

impl View for GaugeFamily {
    type V = Map<usize, Seq<char>>;

    closed spec fn view(&self) -> Map<usize, Seq<char>> {
        values_of(self.gauges@)
    }
}

impl GaugeFamily {
    #[verifier::type_invariant]
    spec fn well_formed(self) -> bool {
        one_gauge_each(self.gauges@)
    }

    /// A family without gauges.
    pub fn new() -> (family: GaugeFamily)
        ensures
            family@ == Map::<usize, Seq<char>>::empty(),
    {
        let family = GaugeFamily { gauges: Vec::new() };
        assert(family@ =~= Map::<usize, Seq<char>>::empty());
        family
    }

    /// The position of the gauge of `module_index`, if it has one.
    fn position(&self, module_index: usize) -> (at: Option<usize>)
        ensures
            match at {
                Some(i) => gauge_of(self.gauges@, i as int, module_index),
                None => forall|i: int| !gauge_of(self.gauges@, i, module_index),
            },
    {
        let mut i: usize = 0;
        while i < self.gauges.len()
            invariant
                i <= self.gauges.len(),
                forall|j: int| 0 <= j < i ==> !gauge_of(self.gauges@, j, module_index),
            decreases self.gauges.len() - i,
        {
            if self.gauges[i].module_index == module_index {
                return Some(i);
            }
            i = i + 1;
        }
        None
    }

    /// The current value of the gauge of `module_index`, if it has one.
    pub fn get(&self, module_index: usize) -> (value: Option<&Number>)
        ensures
            match value {
                Some(v) => self@.contains_key(module_index) && self@[module_index] == v@,
                None => !self@.contains_key(module_index),
            },
    {
        proof {
            use_type_invariant(self);
        }
        match self.position(module_index) {
            Some(i) => {
                proof {
                    lemma_value_at(self.gauges@, i as int);
                }
                Some(&self.gauges[i].value)
            },
            None => None,
        }
    }

    /// The gauges of the family, one for each module that has one.
    pub fn gauges(&self) -> (list: &Vec<Gauge>)
        ensures
            one_gauge_each(list@),
            values_of(list@) == self@,
            list@.len() == self@.dom().len(),
    {
        proof {
            use_type_invariant(self);
            lemma_count(self.gauges@);
        }
        &self.gauges
    }

    /// Sets the gauge of `module_index` to `value`, creating it if the
    /// module has none.
    pub fn set(&mut self, module_index: usize, value: Number)
        ensures
            final(self)@ == old(self)@.insert(module_index, value@),
    {
        proof {
            use_type_invariant(&*self);
        }
        let ghost before = self.gauges@;
        let gauge = Gauge { module_index, value };
        let at = self.position(module_index);
        // The vector is worked on outside the family, which holds an empty
        // one meanwhile.
        let mut gauges: Vec<Gauge> = Vec::new();
        std::mem::swap(&mut self.gauges, &mut gauges);
        match at {
            Some(i) => {
                proof {
                    lemma_replaced(before, i as int, gauge);
                }
                gauges.set(i, gauge);
            },
            None => {
                proof {
                    lemma_added(before, gauge);
                }
                gauges.push(gauge);
            },
        }
        std::mem::swap(&mut self.gauges, &mut gauges);
    }

    /// Removes the gauge of `module_index`, if the module has one.
    pub fn remove(&mut self, module_index: usize)
        ensures
            final(self)@ == old(self)@.remove(module_index),
    {
        proof {
            use_type_invariant(&*self);
        }
        let ghost before = self.gauges@;
        match self.position(module_index) {
            Some(i) => {
                proof {
                    lemma_removed(before, i as int);
                }
                let mut gauges: Vec<Gauge> = Vec::new();
                std::mem::swap(&mut self.gauges, &mut gauges);
                gauges.remove(i);
                std::mem::swap(&mut self.gauges, &mut gauges);
            },
            None => {
                assert(values_of(before) =~= values_of(before).remove(module_index));
            },
        }
    }

    /// How many modules have a gauge.
    pub fn len(&self) -> (n: usize)
        ensures
            n == self@.dom().len(),
    {
        proof {
            use_type_invariant(self);
            lemma_count(self.gauges@);
        }
        self.gauges.len()
    }
}

/// The modules with a gauge are as many as the gauges.
proof fn lemma_count(gauges: Seq<Gauge>)
    requires
        one_gauge_each(gauges),
    ensures
        values_of(gauges).dom().finite(),
        values_of(gauges).dom().len() == gauges.len(),
    decreases gauges.len(),
{
    if gauges.len() == 0 {
        assert(values_of(gauges).dom() =~= Set::<usize>::empty());
    } else {
        let rest = gauges.drop_last();
        let last = gauges.last();
        assert(one_gauge_each(rest));
        lemma_count(rest);
        assert(values_of(gauges).dom() =~= values_of(rest).dom().insert(last.module_index)) by {
            assert forall|k: usize|
                values_of(gauges).dom().contains(k) <==> values_of(rest).dom().insert(
                    last.module_index,
                ).contains(k) by {
                if values_of(gauges).dom().contains(k) {
                    let i = choose|i: int| gauge_of(gauges, i, k);
                    if i < gauges.len() - 1 {
                        assert(gauge_of(rest, i, k));
                    }
                }
                if values_of(rest).dom().contains(k) {
                    let i = choose|i: int| gauge_of(rest, i, k);
                    assert(gauge_of(gauges, i, k));
                }
                if k == last.module_index {
                    assert(gauge_of(gauges, gauges.len() - 1, k));
                }
            }
        }
        assert(!values_of(rest).dom().contains(last.module_index)) by {
            if values_of(rest).dom().contains(last.module_index) {
                let i = choose|i: int| gauge_of(rest, i, last.module_index);
                assert(gauges[i].module_index == gauges[gauges.len() - 1].module_index);
            }
        }
    }
}

/// Replacing a module's gauge keeps one gauge per module and changes that
/// module's value only.
proof fn lemma_replaced(gauges: Seq<Gauge>, at: int, gauge: Gauge)
    requires
        one_gauge_each(gauges),
        gauge_of(gauges, at, gauge.module_index),
    ensures
        one_gauge_each(gauges.update(at, gauge)),
        values_of(gauges.update(at, gauge)) == values_of(gauges).insert(
            gauge.module_index,
            gauge.value@,
        ),
{
    let after = gauges.update(at, gauge);
    assert(one_gauge_each(after)) by {
        assert forall|i: int, j: int| 0 <= i < j < after.len() implies after[i].module_index
            != after[j].module_index by {
            assert(after[i].module_index == gauges[i].module_index);
            assert(after[j].module_index == gauges[j].module_index);
        }
    }
    let target = values_of(gauges).insert(gauge.module_index, gauge.value@);
    assert forall|k: usize| values_of(after).contains_key(k) <==> target.contains_key(k) by {
        if values_of(after).contains_key(k) {
            let i = choose|i: int| gauge_of(after, i, k);
            assert(gauge_of(gauges, i, k));
        }
        if values_of(gauges).contains_key(k) {
            let i = choose|i: int| gauge_of(gauges, i, k);
            assert(gauge_of(after, i, k));
        }
        if k == gauge.module_index {
            assert(gauge_of(after, at, k));
        }
    }
    assert forall|k: usize| values_of(after).contains_key(k) implies values_of(after)[k]
        == target[k] by {
        let i = choose|i: int| gauge_of(after, i, k);
        lemma_value_at(after, i);
        if i != at {
            assert(gauge_of(gauges, i, k));
            lemma_value_at(gauges, i);
        }
    }
    assert(values_of(after) =~= target);
}

/// Adding a gauge for a module that has none keeps one gauge per module and
/// adds that module's value only.
proof fn lemma_added(gauges: Seq<Gauge>, gauge: Gauge)
    requires
        one_gauge_each(gauges),
        forall|i: int| !gauge_of(gauges, i, gauge.module_index),
    ensures
        one_gauge_each(gauges.push(gauge)),
        values_of(gauges.push(gauge)) == values_of(gauges).insert(
            gauge.module_index,
            gauge.value@,
        ),
{
    let after = gauges.push(gauge);
    assert(one_gauge_each(after)) by {
        assert forall|i: int, j: int| 0 <= i < j < after.len() implies after[i].module_index
            != after[j].module_index by {
            assert(after[i] == gauges[i]);
            if j < gauges.len() {
                assert(after[j] == gauges[j]);
            } else {
                assert(!gauge_of(gauges, i, gauge.module_index));
            }
        }
    }
    let target = values_of(gauges).insert(gauge.module_index, gauge.value@);
    assert forall|k: usize| values_of(after).contains_key(k) <==> target.contains_key(k) by {
        if values_of(after).contains_key(k) {
            let i = choose|i: int| gauge_of(after, i, k);
            if i < gauges.len() {
                assert(gauge_of(gauges, i, k));
            }
        }
        if values_of(gauges).contains_key(k) {
            let i = choose|i: int| gauge_of(gauges, i, k);
            assert(gauge_of(after, i, k));
        }
        if k == gauge.module_index {
            assert(gauge_of(after, gauges.len() as int, k));
        }
    }
    assert forall|k: usize| values_of(after).contains_key(k) implies values_of(after)[k]
        == target[k] by {
        let i = choose|i: int| gauge_of(after, i, k);
        lemma_value_at(after, i);
        if i < gauges.len() {
            assert(gauge_of(gauges, i, k));
            lemma_value_at(gauges, i);
        }
    }
    assert(values_of(after) =~= target);
}

/// Taking a gauge out keeps one gauge per module and drops that module's
/// value only.
proof fn lemma_removed(gauges: Seq<Gauge>, at: int)
    requires
        one_gauge_each(gauges),
        0 <= at < gauges.len(),
    ensures
        one_gauge_each(gauges.remove(at)),
        values_of(gauges.remove(at)) == values_of(gauges).remove(gauges[at].module_index),
{
    let after = gauges.remove(at);
    let gone = gauges[at].module_index;
    // Position `i` of `after` is position `i` or `i + 1` of `gauges`.
    assert forall|i: int| 0 <= i < after.len() implies after[i] == gauges[if i < at {
        i
    } else {
        i + 1
    }] by {}
    assert(one_gauge_each(after)) by {
        assert forall|i: int, j: int| 0 <= i < j < after.len() implies after[i].module_index
            != after[j].module_index by {
            let oi = if i < at {
                i
            } else {
                i + 1
            };
            let oj = if j < at {
                j
            } else {
                j + 1
            };
            assert(after[i] == gauges[oi]);
            assert(after[j] == gauges[oj]);
        }
    }
    let target = values_of(gauges).remove(gone);
    assert forall|k: usize| values_of(after).contains_key(k) <==> target.contains_key(k) by {
        if values_of(after).contains_key(k) {
            let i = choose|i: int| gauge_of(after, i, k);
            let oi = if i < at {
                i
            } else {
                i + 1
            };
            assert(after[i] == gauges[oi]);
            assert(gauge_of(gauges, oi, k));
            assert(gauges[oi].module_index != gauges[at].module_index);
        }
        if target.contains_key(k) {
            let oi = choose|i: int| gauge_of(gauges, i, k);
            let i = if oi < at {
                oi
            } else {
                oi - 1
            };
            assert(after[i] == gauges[oi]);
            assert(gauge_of(after, i, k));
        }
    }
    assert forall|k: usize| values_of(after).contains_key(k) implies values_of(after)[k]
        == target[k] by {
        let i = choose|i: int| gauge_of(after, i, k);
        let oi = if i < at {
            i
        } else {
            i + 1
        };
        assert(after[i] == gauges[oi]);
        lemma_value_at(after, i);
        lemma_value_at(gauges, oi);
    }
    assert(values_of(after) =~= target);
}

/// Sets the gauge of `module_index` in `family` to the value, or removes it
/// where there is no value, so that a module that has stopped reporting
/// leaves the family instead of keeping a stale value.
pub fn update_gauge(family: &mut GaugeFamily, module_index: usize, value_opt: Option<Number>)
    ensures
        final(family)@ == updated(old(family)@, module_index, number_text(value_opt)),
{
    match value_opt {
        Some(value) => family.set(module_index, value),
        None => family.remove(module_index),
    }
}

/// The text of a value that may be absent.
pub open spec fn number_text(value: Option<Number>) -> Option<Seq<char>> {
    match value {
        Some(v) => Some(v@),
        None => None,
    }
}

/// A family's values after one update: the module's value is the new one,
/// or the module has none where the new value is absent.
pub open spec fn updated(
    values: Map<usize, Seq<char>>,
    module_index: usize,
    value: Option<Seq<char>>,
) -> Map<usize, Seq<char>> {
    match value {
        Some(v) => values.insert(module_index, v),
        None => values.remove(module_index),
    }
}

} // verus!
