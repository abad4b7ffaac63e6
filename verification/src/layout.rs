//! The column layout of a data record: a fixed prefix, then one group of
//! columns per module.

use vstd::prelude::*;

verus! {

/// Columns that precede the first module group.
pub const PREFIX_WIDTH: usize = 3;

/// Columns in one module group.
pub const MODULE_STRIDE: usize = 12;

/// Absolute column of the record's timestamp.
pub const TIMESTAMP_COLUMN: usize = 1;

/// Column of the input voltage within a module group.
pub const VOLTAGE_OFFSET: usize = 0;

/// Column of the temperature within a module group.
pub const TEMPERATURE_OFFSET: usize = 2;

/// Column of the signal strength within a module group.
pub const RSSI_OFFSET: usize = 6;

/// Column of the input power within a module group.
pub const POWER_OFFSET: usize = 11;

/// Number of whole module groups in a header of `width` columns.
pub open spec fn module_count_of(width: int) -> int {
    (width - PREFIX_WIDTH as int) / (MODULE_STRIDE as int)
}

/// Derives the module count from the header width. A header narrower than
/// the fixed prefix has no module count.
pub fn module_count(header_width: usize) -> (count: Option<usize>)
    ensures
        header_width < PREFIX_WIDTH ==> count is None,
        header_width >= PREFIX_WIDTH ==> count == Some(
            module_count_of(header_width as int) as usize,
        ),
        count matches Some(n) ==> PREFIX_WIDTH + n * MODULE_STRIDE <= header_width
            < PREFIX_WIDTH + (n + 1) * MODULE_STRIDE,
{
    if header_width < PREFIX_WIDTH {
        None
    } else {
        Some((header_width - PREFIX_WIDTH) / MODULE_STRIDE)
    }
}

/// The four quantities that a module reports.
#[derive(Clone, Copy, Debug, PartialEq, Eq, Structural)]
pub enum Quantity {
    Voltage,
    Rssi,
    Power,
    Temperature,
}

impl Quantity {
    /// The quantity's column within a module group.
    pub open spec fn offset_of(self) -> int {
        match self {
            Quantity::Voltage => VOLTAGE_OFFSET as int,
            Quantity::Temperature => TEMPERATURE_OFFSET as int,
            Quantity::Rssi => RSSI_OFFSET as int,
            Quantity::Power => POWER_OFFSET as int,
        }
    }

    /// The quantity's column within a module group.
    pub fn offset(self) -> (o: usize)
        ensures
            o == self.offset_of(),
            o < MODULE_STRIDE,
    {
        match self {
            Quantity::Voltage => VOLTAGE_OFFSET,
            Quantity::Temperature => TEMPERATURE_OFFSET,
            Quantity::Rssi => RSSI_OFFSET,
            Quantity::Power => POWER_OFFSET,
        }
    }

    /// The name of the series that exports the quantity.
    pub open spec fn series_name_of(self) -> Seq<char> {
        match self {
            Quantity::Voltage => "module_volts"@,
            Quantity::Rssi => "module_rssi"@,
            Quantity::Power => "module_power"@,
            Quantity::Temperature => "module_temp"@,
        }
    }

    /// The name of the series that exports the quantity.
    pub fn series_name(self) -> (name: &'static str)
        ensures
            name@ == self.series_name_of(),
    {
        match self {
            Quantity::Voltage => "module_volts",
            Quantity::Rssi => "module_rssi",
            Quantity::Power => "module_power",
            Quantity::Temperature => "module_temp",
        }
    }
}

/// The absolute column of `quantity` for the module at zero-based position
/// `module`.
pub open spec fn column_of(module: int, quantity: Quantity) -> int {
    PREFIX_WIDTH as int + module * (MODULE_STRIDE as int) + quantity.offset_of()
}

/// Computes the column of `quantity` for the module at zero-based position
/// `module`. The module's group must end within the range of `usize`.
pub fn field_column(module: usize, quantity: Quantity) -> (column: usize)
    requires
        PREFIX_WIDTH + (module + 1) * MODULE_STRIDE <= usize::MAX,
    ensures
        column == column_of(module as int, quantity),
        PREFIX_WIDTH + module * MODULE_STRIDE <= column < PREFIX_WIDTH + (module + 1)
            * MODULE_STRIDE,
{
    PREFIX_WIDTH + module * MODULE_STRIDE + quantity.offset()
}

/// Two quantities with the same series name are the same quantity, and no
/// series of a quantity starts as the series of the timestamp does.
pub proof fn lemma_series_names_differ(a: Quantity, b: Quantity)
    ensures
        a.series_name_of() == b.series_name_of() ==> a == b,
        a.series_name_of().len() > 7,
        a.series_name_of()[0] == 'm',
{
    reveal_strlit("module_volts");
    reveal_strlit("module_rssi");
    reveal_strlit("module_power");
    reveal_strlit("module_temp");
    if a.series_name_of() == b.series_name_of() {
        assert(a.series_name_of()[7] == b.series_name_of()[7]);
    }
}

} // verus!
