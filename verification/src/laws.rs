//! What holds of every record, state and listing.

use vstd::prelude::*;
use crate::collector::{action_of, outcome_of, polled, state_after, Action, Event, PollOutcome};
use crate::files::{is_newest, lemma_newest, none_eligible, FileEntry};
use crate::layout::{
    column_of, module_count_of, Quantity, MODULE_STRIDE, PREFIX_WIDTH, TIMESTAMP_COLUMN,
};
use crate::record::{
    field_at, module_of, modules_of, read_at, readings_of, timestamp_of, ModuleTexts, RecordError,
    RecordTexts,
};
use crate::label::lemma_label_is_injective;
use crate::layout::lemma_series_names_differ;
use crate::snapshot::{exports, is_family_sample, module_sample, timestamp_sample};
use crate::state::{applied, StateValues};
use crate::table::{csv_rows, table_of, LastRowTexts};
use crate::text::{is_blank, is_numeric};

verus! {

/// A header of `width >= 3` columns holds `floor((width - 3) / 12)` module
/// groups, and every column of every module lies within those groups:
/// columns beyond the last whole group belong to no module.
pub proof fn law_columns_lie_in_whole_groups(width: int, module: int, quantity: Quantity)
    requires
        width >= PREFIX_WIDTH,
        0 <= module < module_count_of(width),
    ensures
        module_count_of(width) == (width - 3) / 12,
        PREFIX_WIDTH <= column_of(module, quantity) < PREFIX_WIDTH + module_count_of(width)
            * MODULE_STRIDE <= width,
{
}

/// The readings of the first `count` modules are complete, or their error is
/// that of the first module that has one.
pub proof fn lemma_modules(fields: Seq<Seq<char>>, count: nat)
    ensures
        match modules_of(fields, count) {
            Ok(modules) => modules.len() == count && forall|i: int|
                0 <= i < count ==> #[trigger] module_of(fields, i) == Ok::<ModuleTexts, RecordError>(
                    modules[i],
                ),
            Err(e) => exists|i: int|
                0 <= i < count && #[trigger] module_of(fields, i) == Err::<ModuleTexts, RecordError>(
                    e,
                ),
        },
    decreases count,
{
    if count > 0 {
        lemma_modules(fields, (count - 1) as nat);
        match modules_of(fields, (count - 1) as nat) {
            Ok(before) => {
                match module_of(fields, count - 1) {
                    Ok(m) => {
                        let modules = before.push(m);
                        assert forall|i: int| 0 <= i < count implies #[trigger] module_of(
                            fields,
                            i,
                        ) == Ok::<ModuleTexts, RecordError>(modules[i]) by {
                            if i < count - 1 {
                                assert(modules[i] == before[i]);
                            }
                        }
                    },
                    Err(e) => {
                        assert(module_of(fields, count - 1) == Err::<ModuleTexts, RecordError>(e));
                    },
                }
            },
            Err(e) => {
                let i = choose|i: int|
                    0 <= i < count - 1 && #[trigger] module_of(fields, i) == Err::<
                        ModuleTexts,
                        RecordError,
                    >(e);
                assert(module_of(fields, i) == Err::<ModuleTexts, RecordError>(e));
            },
        }
    }
}

/// For a record that can be read, the field of `quantity` of the module at
/// zero-based position `module` decides the gauge of the module with index
/// `module + 1` in the family of that quantity: a field that holds a number
/// sets the gauge to that number, a blank field leaves the module without a
/// gauge.
pub proof fn law_field_decides_gauge(
    state: StateValues,
    header_width: usize,
    fields: Seq<Seq<char>>,
    module: int,
    quantity: Quantity,
)
    requires
        readings_of(header_width as int, fields) is Ok,
        0 <= module < module_count_of(header_width as int),
    ensures
        ({
            let after = applied(state, readings_of(header_width as int, fields)->Ok_0);
            let field = field_at(fields, column_of(module, quantity));
            let index = (module + 1) as usize;
            &&& field is Some
            &&& if is_blank(field->0) {
                !after.family(quantity).contains_key(index)
            } else {
                &&& is_numeric(field->0)
                &&& after.family(quantity).contains_key(index)
                &&& after.family(quantity)[index] == field->0
            }
        }),
{
    let count = module_count_of(header_width as int) as nat;
    lemma_modules(fields, count);
    let modules = modules_of(fields, count)->Ok_0;
    assert(module_of(fields, module) == Ok::<ModuleTexts, RecordError>(modules[module]));
    let index = (module + 1) as usize;
    assert(modules[index - 1] == modules[module]);
}

/// Every field of the module at zero-based position `module` can be read.
pub open spec fn module_is_readable(fields: Seq<Seq<char>>, module: int) -> bool {
    forall|quantity: Quantity| #[trigger] read_at(fields, column_of(module, quantity)) is Ok
}

/// A record gives readings exactly when the header has the fixed prefix,
/// every field of every whole module group is blank or a number, and the
/// timestamp is a number.
pub proof fn law_readings_exist(header_width: int, fields: Seq<Seq<char>>)
    ensures
        readings_of(header_width, fields) is Ok <==> {
            &&& header_width >= PREFIX_WIDTH
            &&& forall|module: int|
                0 <= module < module_count_of(header_width) ==> #[trigger] module_is_readable(
                    fields,
                    module,
                )
            &&& timestamp_of(fields) is Ok
        },
{
    if header_width >= PREFIX_WIDTH {
        let count = module_count_of(header_width) as nat;
        lemma_modules(fields, count);
        assert forall|module: int| 0 <= module < count implies (module_of(fields, module) is Ok
            <==> #[trigger] module_is_readable(fields, module)) by {
            if module_is_readable(fields, module) {
                assert(read_at(fields, column_of(module, Quantity::Voltage)) is Ok);
                assert(read_at(fields, column_of(module, Quantity::Rssi)) is Ok);
                assert(read_at(fields, column_of(module, Quantity::Power)) is Ok);
                assert(read_at(fields, column_of(module, Quantity::Temperature)) is Ok);
            }
            if module_of(fields, module) is Ok {
                assert forall|quantity: Quantity| #[trigger]
                    read_at(fields, column_of(module, quantity)) is Ok by {
                    match quantity {
                        Quantity::Voltage => {},
                        Quantity::Rssi => {},
                        Quantity::Power => {},
                        Quantity::Temperature => {},
                    }
                }
            }
        }
        if modules_of(fields, count) is Err {
            let e = modules_of(fields, count)->Err_0;
            let i = choose|i: int|
                0 <= i < count && #[trigger] module_of(fields, i) == Err::<
                    ModuleTexts,
                    RecordError,
                >(e);
            assert(!module_is_readable(fields, i));
        } else {
            assert forall|module: int| 0 <= module < count implies #[trigger] module_is_readable(
                fields,
                module,
            ) by {
                assert(module_of(fields, module) is Ok);
            }
        }
    }
}

/// The readings of a record depend on the columns of the prefix and of the
/// whole module groups only: two records that agree there give the same
/// readings, whatever their trailing columns hold.
pub proof fn law_trailing_columns_are_ignored(
    header_width: int,
    a: Seq<Seq<char>>,
    b: Seq<Seq<char>>,
)
    requires
        header_width >= PREFIX_WIDTH,
        forall|column: int|
            0 <= column < PREFIX_WIDTH + module_count_of(header_width) * MODULE_STRIDE
                ==> field_at(a, column) == field_at(b, column),
    ensures
        readings_of(header_width, a) == readings_of(header_width, b),
{
    let count = module_count_of(header_width);
    lemma_same_modules(a, b, count as nat, count as nat);
    assert(field_at(a, TIMESTAMP_COLUMN as int) == field_at(b, TIMESTAMP_COLUMN as int));
}

proof fn lemma_same_modules(a: Seq<Seq<char>>, b: Seq<Seq<char>>, upto: nat, count: nat)
    requires
        upto <= count,
        forall|column: int|
            0 <= column < PREFIX_WIDTH + count * MODULE_STRIDE ==> field_at(a, column) == field_at(
                b,
                column,
            ),
    ensures
        modules_of(a, upto) == modules_of(b, upto),
    decreases upto,
{
    if upto > 0 {
        lemma_same_modules(a, b, (upto - 1) as nat, count);
        let m = upto - 1;
        assert(field_at(a, column_of(m, Quantity::Voltage)) == field_at(
            b,
            column_of(m, Quantity::Voltage),
        ));
        assert(field_at(a, column_of(m, Quantity::Rssi)) == field_at(
            b,
            column_of(m, Quantity::Rssi),
        ));
        assert(field_at(a, column_of(m, Quantity::Power)) == field_at(
            b,
            column_of(m, Quantity::Power),
        ));
        assert(field_at(a, column_of(m, Quantity::Temperature)) == field_at(
            b,
            column_of(m, Quantity::Temperature),
        ));
    }
}

/// Applying the same readings twice in a row gives the state that applying
/// them once gives: a value overwrites, it does not merge.
pub proof fn law_apply_is_idempotent(state: StateValues, record: RecordTexts)
    ensures
        applied(applied(state, record), record) == applied(state, record),
{
    let once = applied(state, record);
    let twice = applied(once, record);
    assert(twice.volts =~= once.volts);
    assert(twice.rssi =~= once.rssi);
    assert(twice.power =~= once.power);
    assert(twice.temp =~= once.temp);
}

/// Polling the same table twice in a row gives the state that polling it
/// once gives.
pub proof fn law_poll_is_idempotent(state: StateValues, header_width: int, last: LastRowTexts)
    ensures
        state_after(state_after(state, header_width, last), header_width, last) == state_after(
            state,
            header_width,
            last,
        ),
{
    if let LastRowTexts::Fields(fields) = last {
        if let Ok(readings) = readings_of(header_width, fields) {
            law_apply_is_idempotent(state, readings);
        }
    }
}

/// Polling the same file contents twice in a row gives the state that
/// polling them once gives.
pub proof fn law_file_poll_is_idempotent(state: StateValues, data: Seq<u8>)
    ensures
        polled(polled(state, data), data) == polled(state, data),
{
    if let Some((width, last)) = table_of(data) {
        law_poll_is_idempotent(state, width as int, last);
    }
}

/// A module that has a value for `quantity` in one record and none in the
/// next has no gauge for it once the second record is applied.
pub proof fn law_absence_removes(
    state: StateValues,
    first: RecordTexts,
    second: RecordTexts,
    module: int,
    quantity: Quantity,
)
    requires
        0 <= module < first.modules.len(),
        0 <= module < second.modules.len(),
        module + 1 <= usize::MAX,
        first.modules[module].value(quantity) is Some,
        second.modules[module].value(quantity) is None,
    ensures
        applied(state, first).family(quantity).contains_key((module + 1) as usize),
        !applied(applied(state, first), second).family(quantity).contains_key(
            (module + 1) as usize,
        ),
{
    let index = (module + 1) as usize;
    assert(first.modules[index - 1] == first.modules[module]);
    assert(second.modules[index - 1] == second.modules[module]);
}

/// A table without data rows leaves the state as it was: nothing is
/// cleared.
pub proof fn law_no_rows_change_nothing(state: StateValues, header_width: int, data: Seq<u8>)
    ensures
        state_after(state, header_width, LastRowTexts::Nothing) == state,
        csv_rows(data).len() == 0 ==> polled(state, data) == state,
{
}

/// A poll that fails leaves the state as it was.
pub proof fn law_failure_changes_nothing(state: StateValues, header_width: int, last: LastRowTexts)
    requires
        outcome_of(header_width, last) != PollOutcome::Applied,
    ensures
        state_after(state, header_width, last) == state,
{
}

/// A listing without an eligible file ends the process, and any other
/// listing has the collector read the newest eligible file.
pub proof fn law_no_file_is_fatal(entries: Vec<FileEntry>)
    ensures
        none_eligible(entries@) <==> action_of(Event::Listed(entries)) == Action::Terminate,
        !none_eligible(entries@) ==> exists|at: int|
            is_newest(entries@, at) && action_of(Event::Listed(entries)) == Action::Read(
                at as usize,
            ),
{
    lemma_newest(entries@);
}

/// A sample names one gauge: two samples of module gauges that are equal
/// are of the same quantity, module and value.
pub proof fn law_sample_names_one_gauge(
    q1: Quantity,
    k1: usize,
    v1: Seq<char>,
    q2: Quantity,
    k2: usize,
    v2: Seq<char>,
)
    requires
        module_sample(q1, k1, v1) == module_sample(q2, k2, v2),
    ensures
        q1 == q2,
        k1 == k2,
        v1 == v2,
{
    lemma_series_names_differ(q1, q2);
    lemma_label_is_injective(k1 as nat, k2 as nat);
}

/// The state exports the sample of a module's gauge exactly when the module
/// has that gauge with that value.
pub proof fn law_exports_the_gauges(
    state: StateValues,
    quantity: Quantity,
    module_index: usize,
    value: Seq<char>,
)
    ensures
        exports(state, module_sample(quantity, module_index, value)) <==> state.family(
            quantity,
        ).contains_key(module_index) && state.family(quantity)[module_index] == value,
{
    let sample = module_sample(quantity, module_index, value);
    assert forall|other: Quantity, values: Map<usize, Seq<char>>|
        is_family_sample(values, other, sample) implies other == quantity && values.contains_key(
        module_index,
    ) && values[module_index] == value by {
        let k = choose|k: usize| #[trigger]
            values.contains_key(k) && sample == module_sample(other, k, values[k]);
        law_sample_names_one_gauge(quantity, module_index, value, other, k, values[k]);
    }
    lemma_series_names_differ(quantity, quantity);
    reveal_strlit("timestamp");
    assert(sample != timestamp_sample(sample.value)) by {
        assert(timestamp_sample(sample.value).series[0] == 't');
    }
    if state.family(quantity).contains_key(module_index) && state.family(quantity)[module_index]
        == value {
        assert(is_family_sample(state.family(quantity), quantity, sample));
    }
}

/// For a record that can be read, what the state exports for a module is
/// what the module's field holds: a field with a number is exported as the
/// sample of the quantity's series under the module's name, with that
/// number; a blank field leaves no sample of that series under that name.
pub proof fn law_field_decides_sample(
    state: StateValues,
    header_width: usize,
    fields: Seq<Seq<char>>,
    module: int,
    quantity: Quantity,
)
    requires
        readings_of(header_width as int, fields) is Ok,
        0 <= module < module_count_of(header_width as int),
    ensures
        ({
            let after = applied(state, readings_of(header_width as int, fields)->Ok_0);
            let field = field_at(fields, column_of(module, quantity))->0;
            let index = (module + 1) as usize;
            if is_blank(field) {
                forall|value: Seq<char>|
                    !exports(after, #[trigger] module_sample(quantity, index, value))
            } else {
                exports(after, module_sample(quantity, index, field))
            }
        }),
{
    let after = applied(state, readings_of(header_width as int, fields)->Ok_0);
    let field = field_at(fields, column_of(module, quantity))->0;
    let index = (module + 1) as usize;
    law_field_decides_gauge(state, header_width, fields, module, quantity);
    if is_blank(field) {
        assert forall|value: Seq<char>|
            !exports(after, #[trigger] module_sample(quantity, index, value)) by {
            law_exports_the_gauges(after, quantity, index, value);
        }
    } else {
        law_exports_the_gauges(after, quantity, index, field);
    }
}

} // verus!
