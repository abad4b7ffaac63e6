//! The snapshot of the metrics state that a scrape is answered from.

use vstd::prelude::*;
use vstd::string::StringExecFns;
use crate::field::Number;
use crate::gauges::{gauge_of, lemma_value_at, one_gauge_each, values_of, GaugeFamily};
use crate::label::{label_of, lemma_label_is_injective, module_label};
use crate::layout::{lemma_series_names_differ, Quantity};
use crate::state::{MetricsState, StateValues};

verus! {

/// One exported value: a series, one label, and the text of the value.
pub struct Sample {
    pub series: String,
    pub label_name: String,
    pub label_value: String,
    pub value: Number,
}

/// The texts of a sample.
pub struct SampleTexts {
    pub series: Seq<char>,
    pub label_name: Seq<char>,
    pub label_value: Seq<char>,
    pub value: Seq<char>,
}

impl View for Sample {
    type V = SampleTexts;

    open spec fn view(&self) -> SampleTexts {
        SampleTexts {
            series: self.series@,
            label_name: self.label_name@,
            label_value: self.label_value@,
            value: self.value@,
        }
    }
}

/// The sample of a module's gauge: the series of the quantity, labelled
/// with the module's name.
pub open spec fn module_sample(
    quantity: Quantity,
    module_index: usize,
    value: Seq<char>,
) -> SampleTexts {
    SampleTexts {
        series: quantity.series_name_of(),
        label_name: "name"@,
        label_value: label_of(module_index as nat),
        value,
    }
}

/// The sample of the dataset timestamp, under its constant label.
pub open spec fn timestamp_sample(value: Seq<char>) -> SampleTexts {
    SampleTexts { series: "timestamp"@, label_name: "local"@, label_value: "cca"@, value }
}

/// `sample` is the sample of a gauge of the family with these values.
pub open spec fn is_family_sample(
    values: Map<usize, Seq<char>>,
    quantity: Quantity,
    sample: SampleTexts,
) -> bool {
    exists|k: usize| #[trigger]
        values.contains_key(k) && sample == module_sample(quantity, k, values[k])
}

/// `sample` is exported by the state: it is the sample of one of its gauges
/// or of its timestamp.
pub open spec fn exports(state: StateValues, sample: SampleTexts) -> bool {
    ||| is_family_sample(state.power, Quantity::Power, sample)
    ||| is_family_sample(state.volts, Quantity::Voltage, sample)
    ||| is_family_sample(state.rssi, Quantity::Rssi, sample)
    ||| is_family_sample(state.temp, Quantity::Temperature, sample)
    ||| state.timestamp == Some(sample.value) && sample == timestamp_sample(sample.value)
}

/// Positions `from..to` of `samples` hold the samples of the family with
/// these values, each gauge once.
spec fn holds_family(
    samples: Seq<Sample>,
    from: int,
    to: int,
    values: Map<usize, Seq<char>>,
    quantity: Quantity,
) -> bool {
    &&& 0 <= from <= to <= samples.len()
    &&& to - from == values.dom().len()
    &&& forall|j: int| from <= j < to ==> is_family_sample(values, quantity, #[trigger] samples[j]@)
    &&& forall|k: usize| #[trigger]
        values.contains_key(k) ==> exists|j: int|
            from <= j < to && #[trigger] samples[j]@ == module_sample(quantity, k, values[k])
    &&& forall|i: int, j: int| from <= i < j < to ==> samples[i]@ != samples[j]@
}

/// What holds of a family's positions in a list holds in a longer list
/// that starts with it.
proof fn lemma_holds_in_extension(
    short: Seq<Sample>,
    long: Seq<Sample>,
    from: int,
    to: int,
    values: Map<usize, Seq<char>>,
    quantity: Quantity,
)
    requires
        holds_family(short, from, to, values, quantity),
        short.len() <= long.len(),
        long.take(short.len() as int) == short,
    ensures
        holds_family(long, from, to, values, quantity),
{
    assert forall|j: int| 0 <= j < short.len() implies long[j] == short[j] by {
        assert(long.take(short.len() as int)[j] == long[j]);
    }
    assert forall|k: usize| #[trigger] values.contains_key(k) implies exists|j: int|
        from <= j < to && #[trigger] long[j]@ == module_sample(quantity, k, values[k]) by {
        let j = choose|j: int|
            from <= j < to && #[trigger] short[j]@ == module_sample(quantity, k, values[k]);
        assert(long[j] == short[j]);
    }
    assert forall|j: int| from <= j < to implies is_family_sample(
        values,
        quantity,
        #[trigger] long[j]@,
    ) by {
        assert(long[j] == short[j]);
    }
    assert forall|i: int, j: int| from <= i < j < to implies long[i]@ != long[j]@ by {
        assert(long[i] == short[i]);
        assert(long[j] == short[j]);
    }
}

/// The sample of a family's gauge is of the family's series.
proof fn lemma_sample_series(values: Map<usize, Seq<char>>, quantity: Quantity, sample: SampleTexts)
    requires
        is_family_sample(values, quantity, sample),
    ensures
        sample.series == quantity.series_name_of(),
        sample.series[0] == 'm',
{
    lemma_series_names_differ(quantity, quantity);
}

/// The quantity whose family holds position `i` of a snapshot, where the
/// families end at `n1`, `n2`, `n3` and at the end of the four.
spec fn part_at(i: int, n1: int, n2: int, n3: int) -> Quantity {
    if i < n1 {
        Quantity::Power
    } else if i < n2 {
        Quantity::Voltage
    } else if i < n3 {
        Quantity::Rssi
    } else {
        Quantity::Temperature
    }
}

/// Appends the samples of `family` to `out`.
fn push_family(out: &mut Vec<Sample>, quantity: Quantity, family: &GaugeFamily)
    ensures
        final(out)@.len() == old(out)@.len() + family@.dom().len(),
        final(out)@.take(old(out)@.len() as int) == old(out)@,
        holds_family(
            final(out)@,
            old(out)@.len() as int,
            final(out)@.len() as int,
            family@,
            quantity,
        ),
{
    let gauges = family.gauges();
    let ghost start = out@;
    let ghost values = family@;
    let mut i: usize = 0;
    assert(out@.take(start.len() as int) =~= start);
    while i < gauges.len()
        invariant
            i <= gauges.len(),
            one_gauge_each(gauges@),
            values_of(gauges@) == values,
            out@.len() == start.len() + i,
            out@.take(start.len() as int) == start,
            forall|j: int|
                0 <= j < i ==> (#[trigger] out@[start.len() + j])@ == module_sample(
                    quantity,
                    gauges[j].module_index,
                    gauges[j].value@,
                ),
        decreases gauges.len() - i,
    {
        let ghost before = out@;
        let sample = Sample {
            series: String::from_str(quantity.series_name()),
            label_name: String::from_str("name"),
            label_value: module_label(gauges[i].module_index),
            value: gauges[i].value.clone(),
        };
        out.push(sample);
        assert(out@.take(start.len() as int) =~= before.take(start.len() as int));
        assert forall|j: int| 0 <= j < i + 1 implies (#[trigger] out@[start.len() + j])@
            == module_sample(quantity, gauges[j].module_index, gauges[j].value@) by {
            if j < i {
                assert(out@[start.len() + j] == before[start.len() + j]);
            }
        }
        i = i + 1;
    }
    proof {
        let from = start.len() as int;
        let to = out@.len() as int;
        assert forall|j: int| from <= j < to implies is_family_sample(
            values,
            quantity,
            #[trigger] out@[j]@,
        ) by {
            let g = j - from;
            assert(out@[from + g] == out@[j]);
            lemma_value_at(gauges@, g);
            assert(values.contains_key(gauges[g].module_index));
        }
        assert forall|k: usize| #[trigger] values.contains_key(k) implies exists|j: int|
            from <= j < to && #[trigger] out@[j]@ == module_sample(quantity, k, values[k]) by {
            let g = choose|g: int| gauge_of(gauges@, g, k);
            lemma_value_at(gauges@, g);
            assert(out@[from + g]@ == module_sample(quantity, k, values[k]));
        }
        assert forall|i: int, j: int| from <= i < j < to implies out@[i]@ != out@[j]@ by {
            let (gi, gj) = (i - from, j - from);
            assert(out@[from + gi] == out@[i]);
            assert(out@[from + gj] == out@[j]);
            if out@[i]@ == out@[j]@ {
                lemma_label_is_injective(
                    gauges[gi].module_index as nat,
                    gauges[gj].module_index as nat,
                );
            }
        }
    }
}

/// Takes the snapshot of `state`: one sample for every gauge of every
/// family, each under the series of its quantity and the name of its module,
/// and one for the timestamp, which comes last. Nothing else is in it.
pub fn snapshot(state: &MetricsState) -> (samples: Vec<Sample>)
    ensures
        samples@.len() == state@.power.dom().len() + state@.volts.dom().len()
            + state@.rssi.dom().len() + state@.temp.dom().len() + (if state@.timestamp is Some {
            1int
        } else {
            0int
        }),
        forall|j: int| 0 <= j < samples@.len() ==> exports(state@, #[trigger] samples@[j]@),
        forall|quantity: Quantity, k: usize| #[trigger]
            state@.family(quantity).contains_key(k) ==> exists|j: int|
                0 <= j < samples@.len() && #[trigger] samples@[j]@ == module_sample(
                    quantity,
                    k,
                    state@.family(quantity)[k],
                ),
        state@.timestamp matches Some(t) ==> samples@.len() > 0 && samples@.last()@
            == timestamp_sample(t),
        forall|i: int, j: int| 0 <= i < j < samples@.len() ==> samples@[i]@ != samples@[j]@,
{
    let mut samples: Vec<Sample> = Vec::new();
    push_family(&mut samples, Quantity::Power, &state.power);
    let ghost s1 = samples@;
    push_family(&mut samples, Quantity::Voltage, &state.volts);
    let ghost s2 = samples@;
    push_family(&mut samples, Quantity::Rssi, &state.rssi);
    let ghost s3 = samples@;
    push_family(&mut samples, Quantity::Temperature, &state.temp);
    let ghost s4 = samples@;
    match &state.timestamp {
        Some(t) => {
            let sample = Sample {
                series: String::from_str("timestamp"),
                label_name: String::from_str("local"),
                label_value: String::from_str("cca"),
                value: t.clone(),
            };
            samples.push(sample);
        },
        None => {},
    }
    proof {
        let all = samples@;
        let (n1, n2, n3, n4) = (s1.len() as int, s2.len() as int, s3.len() as int, s4.len() as int);
        assert(all.take(n4) =~= s4);
        assert(all.take(n3) =~= s4.take(n3));
        assert(all.take(n2) =~= s3.take(n2));
        assert(all.take(n1) =~= s2.take(n1));
        lemma_holds_in_extension(s1, all, 0, n1, state@.power, Quantity::Power);
        lemma_holds_in_extension(s2, all, n1, n2, state@.volts, Quantity::Voltage);
        lemma_holds_in_extension(s3, all, n2, n3, state@.rssi, Quantity::Rssi);
        lemma_holds_in_extension(s4, all, n3, n4, state@.temp, Quantity::Temperature);
        lemma_series_names_differ(Quantity::Power, Quantity::Voltage);
        lemma_series_names_differ(Quantity::Power, Quantity::Rssi);
        lemma_series_names_differ(Quantity::Power, Quantity::Temperature);
        lemma_series_names_differ(Quantity::Voltage, Quantity::Rssi);
        lemma_series_names_differ(Quantity::Voltage, Quantity::Temperature);
        lemma_series_names_differ(Quantity::Rssi, Quantity::Temperature);
        reveal_strlit("timestamp");
        assert forall|i: int, j: int| 0 <= i < j < all.len() implies all[i]@ != all[j]@ by {
            // Where the two lie in different parts, their series differ.
            let qi = part_at(i, n1, n2, n3);
            let qj = part_at(j, n1, n2, n3);
            lemma_sample_series(state@.family(qi), qi, all[i]@);
            if j < n4 {
                lemma_sample_series(state@.family(qj), qj, all[j]@);
            } else {
                assert(all[j]@.series[0] == 't');
            }
        }
        assert forall|j: int| 0 <= j < all.len() implies exports(state@, #[trigger] all[j]@) by {
            if j >= n4 {
                assert(all[j]@ == timestamp_sample(all[j]@.value));
            }
        }
        assert forall|quantity: Quantity, k: usize| #[trigger]
            state@.family(quantity).contains_key(k) implies exists|j: int|
            0 <= j < all.len() && #[trigger] all[j]@ == module_sample(
                quantity,
                k,
                state@.family(quantity)[k],
            ) by {
            match quantity {
                Quantity::Power => {
                    assert(state@.power.contains_key(k));
                },
                Quantity::Voltage => {
                    assert(state@.volts.contains_key(k));
                },
                Quantity::Rssi => {
                    assert(state@.rssi.contains_key(k));
                },
                Quantity::Temperature => {
                    assert(state@.temp.contains_key(k));
                },
            }
        }
    }
    samples
}

} // verus!
