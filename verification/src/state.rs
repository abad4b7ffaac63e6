//! The metrics state: four gauge families, one per quantity, and the
//! timestamp of the record that was applied last.

use vstd::prelude::*;
use crate::field::Number;
use crate::gauges::{number_text, update_gauge, updated, GaugeFamily};
use crate::layout::Quantity;
use crate::record::{ModuleReading, ModuleTexts, RecordReadings, RecordTexts};

verus! {

/// The current values: for each quantity the gauges of the modules, keyed by
/// one-based module index, and the dataset timestamp.
pub struct MetricsState {
    pub volts: GaugeFamily,
    pub rssi: GaugeFamily,
    pub power: GaugeFamily,
    pub temp: GaugeFamily,
    pub timestamp: Option<Number>,
}

/// The texts of the current values.
pub struct StateValues {
    pub volts: Map<usize, Seq<char>>,
    pub rssi: Map<usize, Seq<char>>,
    pub power: Map<usize, Seq<char>>,
    pub temp: Map<usize, Seq<char>>,
    pub timestamp: Option<Seq<char>>,
}

impl StateValues {
    /// The values of the family of `quantity`.
    pub open spec fn family(self, quantity: Quantity) -> Map<usize, Seq<char>> {
        match quantity {
            Quantity::Voltage => self.volts,
            Quantity::Rssi => self.rssi,
            Quantity::Power => self.power,
            Quantity::Temperature => self.temp,
        }
    }
}

impl View for MetricsState {
    type V = StateValues;

    open spec fn view(&self) -> StateValues {
        StateValues {
            volts: self.volts@,
            rssi: self.rssi@,
            power: self.power@,
            temp: self.temp@,
            timestamp: number_text(self.timestamp),
        }
    }
}

/// A family's values once the readings of `modules` are applied: each
/// module of the record has the value that the record gives it, or none
/// where the record gives none; the other modules keep what they had.
pub open spec fn family_applied(
    values: Map<usize, Seq<char>>,
    modules: Seq<ModuleTexts>,
    quantity: Quantity,
) -> Map<usize, Seq<char>> {
    Map::new(
        |k: usize|
            if 1 <= k <= modules.len() {
                modules[k - 1].value(quantity) is Some
            } else {
                values.contains_key(k)
            },
        |k: usize|
            if 1 <= k <= modules.len() {
                modules[k - 1].value(quantity)->0
            } else {
                values[k]
            },
    )
}

/// The state once a record's readings are applied.
pub open spec fn applied(state: StateValues, record: RecordTexts) -> StateValues {
    StateValues {
        volts: family_applied(state.volts, record.modules, Quantity::Voltage),
        rssi: family_applied(state.rssi, record.modules, Quantity::Rssi),
        power: family_applied(state.power, record.modules, Quantity::Power),
        temp: family_applied(state.temp, record.modules, Quantity::Temperature),
        timestamp: Some(record.timestamp),
    }
}

/// The state once the four values of one module are applied.
pub open spec fn module_applied(
    state: StateValues,
    module_index: usize,
    reading: ModuleTexts,
) -> StateValues {
    StateValues {
        volts: updated(state.volts, module_index, reading.voltage),
        rssi: updated(state.rssi, module_index, reading.rssi),
        power: updated(state.power, module_index, reading.power),
        temp: updated(state.temp, module_index, reading.temperature),
        timestamp: state.timestamp,
    }
}

/// Applying one more module is one update of the family.
proof fn lemma_family_step(
    values: Map<usize, Seq<char>>,
    modules: Seq<ModuleTexts>,
    i: int,
    quantity: Quantity,
)
    requires
        0 <= i < modules.len(),
        i + 1 <= usize::MAX,
    ensures
        family_applied(values, modules.take(i + 1), quantity) == updated(
            family_applied(values, modules.take(i), quantity),
            (i + 1) as usize,
            modules[i].value(quantity),
        ),
{
    let lhs = family_applied(values, modules.take(i + 1), quantity);
    let rhs = updated(
        family_applied(values, modules.take(i), quantity),
        (i + 1) as usize,
        modules[i].value(quantity),
    );
    assert forall|k: usize| lhs.contains_key(k) <==> rhs.contains_key(k) by {
        if 1 <= k <= i + 1 {
            assert(modules.take(i + 1)[k - 1] == modules[k - 1]);
        }
        if 1 <= k <= i {
            assert(modules.take(i)[k - 1] == modules[k - 1]);
        }
    }
    assert forall|k: usize| lhs.contains_key(k) implies lhs[k] == rhs[k] by {
        if 1 <= k <= i + 1 {
            assert(modules.take(i + 1)[k - 1] == modules[k - 1]);
        }
        if 1 <= k <= i {
            assert(modules.take(i)[k - 1] == modules[k - 1]);
        }
    }
    assert(lhs =~= rhs);
}

fn clone_value(value: &Option<Number>) -> (copy: Option<Number>)
    ensures
        copy == *value,
{
    match value {
        Some(v) => Some(v.clone()),
        None => None,
    }
}

impl MetricsState {
    /// A state without any gauge and without a timestamp.
    pub fn new() -> (state: MetricsState)
        ensures
            state@.volts == Map::<usize, Seq<char>>::empty(),
            state@.rssi == Map::<usize, Seq<char>>::empty(),
            state@.power == Map::<usize, Seq<char>>::empty(),
            state@.temp == Map::<usize, Seq<char>>::empty(),
            state@.timestamp is None,
    {
        MetricsState {
            volts: GaugeFamily::new(),
            rssi: GaugeFamily::new(),
            power: GaugeFamily::new(),
            temp: GaugeFamily::new(),
            timestamp: None,
        }
    }

    /// The family of `quantity`.
    pub fn family(&self, quantity: Quantity) -> (family: &GaugeFamily)
        ensures
            family@ == self@.family(quantity),
    {
        match quantity {
            Quantity::Voltage => &self.volts,
            Quantity::Rssi => &self.rssi,
            Quantity::Power => &self.power,
            Quantity::Temperature => &self.temp,
        }
    }

    /// Applies the four values of the module with one-based index
    /// `module_index`: a present value is set, an absent one removes the
    /// gauge.
    pub fn apply_module(&mut self, module_index: usize, reading: &ModuleReading)
        ensures
            final(self)@ == module_applied(old(self)@, module_index, reading@),
    {
        update_gauge(&mut self.volts, module_index, clone_value(&reading.voltage));
        update_gauge(&mut self.rssi, module_index, clone_value(&reading.rssi));
        update_gauge(&mut self.power, module_index, clone_value(&reading.power));
        update_gauge(&mut self.temp, module_index, clone_value(&reading.temperature));
    }

    /// Applies a record's readings: the module at position `i` of the record
    /// is exported under index `i + 1`, and the timestamp is set.
    pub fn apply(&mut self, readings: &RecordReadings)
        ensures
            final(self)@ == applied(old(self)@, readings@),
    {
        let ghost before = self@;
        let ghost texts = readings@.modules;
        let n: usize = readings.modules.len();
        let mut i: usize = 0;
        proof {
            let none = texts.take(0);
            assert(family_applied(before.volts, none, Quantity::Voltage) =~= before.volts);
            assert(family_applied(before.rssi, none, Quantity::Rssi) =~= before.rssi);
            assert(family_applied(before.power, none, Quantity::Power) =~= before.power);
            assert(family_applied(before.temp, none, Quantity::Temperature) =~= before.temp);
        }
        while i < n
            invariant
                i <= n,
                n == readings.modules.len(),
                texts == readings@.modules,
                texts.len() == n,
                self@.volts == family_applied(
                    before.volts,
                    texts.take(i as int),
                    Quantity::Voltage,
                ),
                self@.rssi == family_applied(before.rssi, texts.take(i as int), Quantity::Rssi),
                self@.power == family_applied(before.power, texts.take(i as int), Quantity::Power),
                self@.temp == family_applied(
                    before.temp,
                    texts.take(i as int),
                    Quantity::Temperature,
                ),
                self@.timestamp == before.timestamp,
            decreases n - i,
        {
            proof {
                lemma_family_step(before.volts, texts, i as int, Quantity::Voltage);
                lemma_family_step(before.rssi, texts, i as int, Quantity::Rssi);
                lemma_family_step(before.power, texts, i as int, Quantity::Power);
                lemma_family_step(before.temp, texts, i as int, Quantity::Temperature);
                assert(texts[i as int] == readings.modules[i as int]@);
            }
            self.apply_module(i + 1, &readings.modules[i]);
            i = i + 1;
        }
        assert(texts.take(n as int) =~= texts);
        self.timestamp = Some(readings.timestamp.clone());
    }
}

} // verus!
