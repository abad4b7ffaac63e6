//! Extracting the readings of a data record: four quantities per module and
//! the record's timestamp.

use vstd::prelude::*;
use crate::field::{field_value_of, get_field_value, FieldError, Number};
use crate::gauges::number_text;
use crate::layout::{
    column_of, field_column, module_count, module_count_of, Quantity, MODULE_STRIDE, PREFIX_WIDTH,
    TIMESTAMP_COLUMN,
};

verus! {

/// The four quantities of one module. A quantity without a current value is
/// `None`.
pub struct ModuleReading {
    pub voltage: Option<Number>,
    pub rssi: Option<Number>,
    pub power: Option<Number>,
    pub temperature: Option<Number>,
}

/// The texts of a module's four quantities.
pub struct ModuleTexts {
    pub voltage: Option<Seq<char>>,
    pub rssi: Option<Seq<char>>,
    pub power: Option<Seq<char>>,
    pub temperature: Option<Seq<char>>,
}

impl ModuleTexts {
    pub open spec fn value(self, quantity: Quantity) -> Option<Seq<char>> {
        match quantity {
            Quantity::Voltage => self.voltage,
            Quantity::Rssi => self.rssi,
            Quantity::Power => self.power,
            Quantity::Temperature => self.temperature,
        }
    }
}

impl View for ModuleReading {
    type V = ModuleTexts;

    open spec fn view(&self) -> ModuleTexts {
        ModuleTexts {
            voltage: number_text(self.voltage),
            rssi: number_text(self.rssi),
            power: number_text(self.power),
            temperature: number_text(self.temperature),
        }
    }
}

impl ModuleReading {
    /// The module's value of `quantity`.
    pub fn value(&self, quantity: Quantity) -> (v: &Option<Number>)
        ensures
            number_text(*v) == self@.value(quantity),
    {
        match quantity {
            Quantity::Voltage => &self.voltage,
            Quantity::Rssi => &self.rssi,
            Quantity::Power => &self.power,
            Quantity::Temperature => &self.temperature,
        }
    }
}

/// What a record holds: the readings of each module, in the order of the
/// module groups, and the timestamp.
pub struct RecordReadings {
    pub modules: Vec<ModuleReading>,
    pub timestamp: Number,
}

/// The texts of a record's readings.
pub struct RecordTexts {
    pub modules: Seq<ModuleTexts>,
    pub timestamp: Seq<char>,
}

impl View for RecordReadings {
    type V = RecordTexts;

    open spec fn view(&self) -> RecordTexts {
        RecordTexts {
            modules: self.modules@.map_values(|m: ModuleReading| m@),
            timestamp: self.timestamp@,
        }
    }
}

/// Why a record gave no readings.
#[derive(Clone, Copy, Debug, PartialEq, Eq, Structural)]
pub enum RecordError {
    /// The header is narrower than the fixed prefix.
    NarrowHeader,
    /// The field in `column` could not be read.
    Field { column: usize, error: FieldError },
    /// The timestamp field is blank.
    NoTimestamp,
}

/// The texts of a record's fields.
pub open spec fn fields_of(record: Seq<String>) -> Seq<Seq<char>> {
    record.map_values(|f: String| f@)
}

/// The field in `column`, if the record has that column.
pub open spec fn field_at(fields: Seq<Seq<char>>, column: int) -> Option<Seq<char>> {
    if 0 <= column < fields.len() {
        Some(fields[column])
    } else {
        None
    }
}

/// The value of the field in `column`.
pub open spec fn read_at(fields: Seq<Seq<char>>, column: int) -> Result<
    Option<Seq<char>>,
    RecordError,
> {
    match field_value_of(field_at(fields, column)) {
        Ok(value) => Ok(value),
        Err(error) => Err(RecordError::Field { column: column as usize, error }),
    }
}

/// The readings of the module at zero-based position `module`, or the error
/// of the first of its fields that cannot be read, taken in the order
/// voltage, RSSI, power, temperature.
pub open spec fn module_of(fields: Seq<Seq<char>>, module: int) -> Result<
    ModuleTexts,
    RecordError,
> {
    match read_at(fields, column_of(module, Quantity::Voltage)) {
        Err(e) => Err(e),
        Ok(voltage) => match read_at(fields, column_of(module, Quantity::Rssi)) {
            Err(e) => Err(e),
            Ok(rssi) => match read_at(fields, column_of(module, Quantity::Power)) {
                Err(e) => Err(e),
                Ok(power) => match read_at(fields, column_of(module, Quantity::Temperature)) {
                    Err(e) => Err(e),
                    Ok(temperature) => Ok(ModuleTexts { voltage, rssi, power, temperature }),
                },
            },
        },
    }
}

/// The readings of the first `count` modules, or the error of the first
/// module that has one.
pub open spec fn modules_of(fields: Seq<Seq<char>>, count: nat) -> Result<
    Seq<ModuleTexts>,
    RecordError,
>
    decreases count,
{
    if count == 0 {
        Ok(Seq::empty())
    } else {
        match modules_of(fields, (count - 1) as nat) {
            Err(e) => Err(e),
            Ok(before) => match module_of(fields, count - 1) {
                Err(e) => Err(e),
                Ok(m) => Ok(before.push(m)),
            },
        }
    }
}

/// The record's timestamp, which is mandatory.
pub open spec fn timestamp_of(fields: Seq<Seq<char>>) -> Result<Seq<char>, RecordError> {
    match read_at(fields, TIMESTAMP_COLUMN as int) {
        Err(e) => Err(e),
        Ok(None) => Err(RecordError::NoTimestamp),
        Ok(Some(t)) => Ok(t),
    }
}

/// The readings of a record under a header of `header_width` columns: those
/// of each whole module group, then the timestamp; or the first error met in
/// that order.
pub open spec fn readings_of(header_width: int, fields: Seq<Seq<char>>) -> Result<
    RecordTexts,
    RecordError,
> {
    if header_width < PREFIX_WIDTH {
        Err(RecordError::NarrowHeader)
    } else {
        match modules_of(fields, module_count_of(header_width) as nat) {
            Err(e) => Err(e),
            Ok(modules) => match timestamp_of(fields) {
                Err(e) => Err(e),
                Ok(timestamp) => Ok(RecordTexts { modules, timestamp }),
            },
        }
    }
}

/// The texts of extracted readings, for comparing them with their model.
pub open spec fn extraction_view(r: Result<RecordReadings, RecordError>) -> Result<
    RecordTexts,
    RecordError,
> {
    match r {
        Ok(readings) => Ok(readings@),
        Err(e) => Err(e),
    }
}

/// Reads the field in `column` of `record`.
fn read_column(record: &Vec<String>, column: usize) -> (r: Result<Option<Number>, RecordError>)
    ensures
        match r {
            Ok(v) => read_at(fields_of(record@), column as int) == Ok::<
                Option<Seq<char>>,
                RecordError,
            >(number_text(v)),
            Err(e) => read_at(fields_of(record@), column as int) == Err::<
                Option<Seq<char>>,
                RecordError,
            >(e),
        },
{
    let field: Option<&str> = if column < record.len() {
        Some(record[column].as_str())
    } else {
        None
    };
    match get_field_value(field) {
        Ok(value) => Ok(value),
        Err(error) => Err(RecordError::Field { column, error }),
    }
}

/// Reads the four quantities of the module at zero-based position `module`.
/// The module's group must end within the range of `usize`.
pub fn read_module(record: &Vec<String>, module: usize) -> (r: Result<ModuleReading, RecordError>)
    requires
        PREFIX_WIDTH + (module + 1) * MODULE_STRIDE <= usize::MAX,
    ensures
        match r {
            Ok(m) => module_of(fields_of(record@), module as int) == Ok::<
                ModuleTexts,
                RecordError,
            >(m@),
            Err(e) => module_of(fields_of(record@), module as int) == Err::<
                ModuleTexts,
                RecordError,
            >(e),
        },
{
    let voltage = match read_column(record, field_column(module, Quantity::Voltage)) {
        Ok(v) => v,
        Err(e) => {
            return Err(e);
        },
    };
    let rssi = match read_column(record, field_column(module, Quantity::Rssi)) {
        Ok(v) => v,
        Err(e) => {
            return Err(e);
        },
    };
    let power = match read_column(record, field_column(module, Quantity::Power)) {
        Ok(v) => v,
        Err(e) => {
            return Err(e);
        },
    };
    let temperature = match read_column(record, field_column(module, Quantity::Temperature)) {
        Ok(v) => v,
        Err(e) => {
            return Err(e);
        },
    };
    Ok(ModuleReading { voltage, rssi, power, temperature })
}

/// Reads the record's timestamp.
pub fn read_timestamp(record: &Vec<String>) -> (r: Result<Number, RecordError>)
    ensures
        match r {
            Ok(t) => timestamp_of(fields_of(record@)) == Ok::<Seq<char>, RecordError>(t@),
            Err(e) => timestamp_of(fields_of(record@)) == Err::<Seq<char>, RecordError>(e),
        },
{
    match read_column(record, TIMESTAMP_COLUMN) {
        Err(e) => Err(e),
        Ok(None) => Err(RecordError::NoTimestamp),
        Ok(Some(t)) => Ok(t),
    }
}

/// Extracts the readings of `record` under a header of `header_width`
/// columns. Columns beyond the last whole module group are not read. Either
/// every field could be read and the readings are complete, or the first
/// error is returned and there are no readings.
pub fn extract(header_width: usize, record: &Vec<String>) -> (r: Result<
    RecordReadings,
    RecordError,
>)
    ensures
        extraction_view(r) == readings_of(header_width as int, fields_of(record@)),
{
    let count: usize = match module_count(header_width) {
        Some(n) => n,
        None => {
            return Err(RecordError::NarrowHeader);
        },
    };
    let ghost fields = fields_of(record@);
    let mut modules: Vec<ModuleReading> = Vec::new();
    let mut i: usize = 0;
    assert(modules@.map_values(|m: ModuleReading| m@) =~= Seq::<ModuleTexts>::empty());
    while i < count
        invariant
            i <= count,
            PREFIX_WIDTH + count * MODULE_STRIDE <= usize::MAX,
            header_width >= PREFIX_WIDTH,
            count == module_count_of(header_width as int),
            fields == fields_of(record@),
            modules_of(fields, i as nat) == Ok::<Seq<ModuleTexts>, RecordError>(
                modules@.map_values(|m: ModuleReading| m@),
            ),
        decreases count - i,
    {
        let ghost before = modules@.map_values(|m: ModuleReading| m@);
        match read_module(record, i) {
            Ok(m) => {
                let ghost texts = m@;
                modules.push(m);
                assert(modules@.map_values(|m: ModuleReading| m@) =~= before.push(texts));
            },
            Err(e) => {
                proof {
                    assert(modules_of(fields, (i + 1) as nat) == Err::<
                        Seq<ModuleTexts>,
                        RecordError,
                    >(e));
                    lemma_error_stays(fields, (i + 1) as nat, count as nat);
                }
                return Err(e);
            },
        }
        i = i + 1;
    }
    match read_timestamp(record) {
        Ok(timestamp) => Ok(RecordReadings { modules, timestamp }),
        Err(e) => Err(e),
    }
}

/// Once the first `upto` modules give an error, so do the first `count`, and
/// the same one.
proof fn lemma_error_stays(fields: Seq<Seq<char>>, upto: nat, count: nat)
    requires
        upto <= count,
        modules_of(fields, upto) is Err,
    ensures
        modules_of(fields, count) == modules_of(fields, upto),
    decreases count,
{
    if upto < count {
        lemma_error_stays(fields, upto, (count - 1) as nat);
    }
}

} // verus!
