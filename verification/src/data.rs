//! Turning rows of raw telemetry readings into telemetry points.

use vstd::prelude::*;
use crate::scalar::Scalar;
use crate::types::{Duration, Power, TelemetryPoint, TelemetryView};

verus! {

/// One record of a telemetry table: three raw readings.
#[derive(Debug, Clone, Copy, PartialEq, Eq, Structural)]
pub struct CsvRow {
    pub duration_hour: Scalar,
    pub solar_power_kw: Scalar,
    pub load_power_kw: Scalar,
}

/// Why a row of a telemetry table is not a telemetry point: the field that
/// holds an inadmissible reading, the number of the row in the table, and
/// the reading itself.
#[derive(Debug, Clone, Copy, PartialEq, Eq, Structural)]
pub enum CsvParseError {
    InvalidDuration { row: usize, value: Scalar },
    InvalidSolarPower { row: usize, value: Scalar },
    InvalidLoadPower { row: usize, value: Scalar },
}

/// The number a table gives to its record of the given index: records are
/// counted from one and follow one header row.
pub open spec fn spec_row_number(index: int) -> int {
    index + 2
}

/// The telemetry point that the three readings of a record make, or the
/// first field, in the order duration, load power, solar power, whose
/// reading is inadmissible.
pub open spec fn spec_telemetry_point(
    index: int,
    duration_hour: Scalar,
    solar_power_kw: Scalar,
    load_power_kw: Scalar,
) -> Result<TelemetryView, CsvParseError> {
    let row = spec_row_number(index) as usize;
    if Duration::spec_accepts(duration_hour) is None {
        Err(CsvParseError::InvalidDuration { row, value: duration_hour })
    } else if Power::spec_accepts(load_power_kw) is None {
        Err(CsvParseError::InvalidLoadPower { row, value: load_power_kw })
    } else if Power::spec_accepts(solar_power_kw) is None {
        Err(CsvParseError::InvalidSolarPower { row, value: solar_power_kw })
    } else {
        Ok(
            TelemetryView {
                duration: Duration::spec_accepts(duration_hour).unwrap(),
                solar_power: Power::spec_accepts(solar_power_kw).unwrap(),
                load_power: Power::spec_accepts(load_power_kw).unwrap(),
            },
        )
    }
}

/// Validates the three readings of the record with the given index, counted
/// from zero, into a telemetry point.
pub fn telemetry_point_from_row(
    index: usize,
    duration_hour: Scalar,
    solar_power_kw: Scalar,
    load_power_kw: Scalar,
) -> (r: Result<TelemetryPoint, CsvParseError>)
    requires
        spec_row_number(index as int) <= usize::MAX,
    ensures
        match spec_telemetry_point(index as int, duration_hour, solar_power_kw, load_power_kw) {
            Ok(point) => r matches Ok(p) && p@ == point,
            Err(e) => r == Err::<TelemetryPoint, CsvParseError>(e),
        },
{
    let row_num: usize = index + 2;
    let duration: Duration = match Duration::from_hour(duration_hour) {
        Ok(d) => d,
        Err(value) => {
            return Err(CsvParseError::InvalidDuration { row: row_num, value });
        },
    };
    let load_power: Power = match Power::from_kw(load_power_kw) {
        Ok(p) => p,
        Err(value) => {
            return Err(CsvParseError::InvalidLoadPower { row: row_num, value });
        },
    };
    let solar_power: Power = match Power::from_kw(solar_power_kw) {
        Ok(p) => p,
        Err(value) => {
            return Err(CsvParseError::InvalidSolarPower { row: row_num, value });
        },
    };
    Ok(TelemetryPoint::new(duration, solar_power, load_power))
}

/// The telemetry points that the records of a table make, in order; or the
/// error of the first record that is not a telemetry point.
pub open spec fn spec_read_telemetry(rows: Seq<CsvRow>) -> Result<Seq<TelemetryView>, CsvParseError>
    decreases rows.len(),
{
    if rows.len() == 0 {
        Ok(Seq::empty())
    } else {
        match spec_read_telemetry(rows.drop_last()) {
            Err(e) => Err(e),
            Ok(points) => {
                let row = rows.last();
                match spec_telemetry_point(
                    rows.len() - 1,
                    row.duration_hour,
                    row.solar_power_kw,
                    row.load_power_kw,
                ) {
                    Ok(point) => Ok(points.push(point)),
                    Err(e) => Err(e),
                }
            },
        }
    }
}

/// A table that is read in full holds one telemetry point for each record.
pub proof fn lemma_read_keeps_every_row(rows: Seq<CsvRow>)
    ensures
        spec_read_telemetry(rows) matches Ok(points) ==> points.len() == rows.len(),
    decreases rows.len(),
{
    if rows.len() > 0 {
        lemma_read_keeps_every_row(rows.drop_last());
    }
}

/// Validates the records of a telemetry table, in order, into telemetry
/// points, and stops at the first record that is not one.
pub fn read_telemetry_csv(rows: &Vec<CsvRow>) -> (r: Result<Vec<TelemetryPoint>, CsvParseError>)
    requires
        spec_row_number(rows.len() as int) <= usize::MAX,
    ensures
        match spec_read_telemetry(rows@) {
            Ok(points) => r matches Ok(v) && v@.map_values(|p: TelemetryPoint| p@) == points,
            Err(e) => r == Err::<Vec<TelemetryPoint>, CsvParseError>(e),
        },
{
    let mut telemetry: Vec<TelemetryPoint> = Vec::new();
    let mut idx: usize = 0;
    assert(rows@.take(0) =~= Seq::<CsvRow>::empty());
    assert(telemetry@.map_values(|p: TelemetryPoint| p@) =~= Seq::<TelemetryView>::empty());
    while idx < rows.len()
        invariant
            0 <= idx <= rows.len(),
            spec_row_number(rows.len() as int) <= usize::MAX,
            spec_read_telemetry(rows@.take(idx as int)) == Ok::<Seq<TelemetryView>, CsvParseError>(
                telemetry@.map_values(|p: TelemetryPoint| p@),
            ),
        decreases rows.len() - idx,
    {
        let row: CsvRow = rows[idx];
        let ghost before = telemetry@.map_values(|p: TelemetryPoint| p@);
        proof {
            assert(rows@.take(idx + 1).drop_last() =~= rows@.take(idx as int));
            assert(rows@.take(idx + 1).last() == row);
        }
        match telemetry_point_from_row(
            idx,
            row.duration_hour,
            row.solar_power_kw,
            row.load_power_kw,
        ) {
            Ok(point) => {
                telemetry.push(point);
                proof {
                    assert(telemetry@.map_values(|p: TelemetryPoint| p@) =~= before.push(point@));
                }
            },
            Err(e) => {
                proof {
                    lemma_error_stays(rows@, idx + 1);
                }
                return Err(e);
            },
        }
        idx += 1;
    }
    proof {
        assert(rows@.take(idx as int) =~= rows@);
    }
    Ok(telemetry)
}

/// Once a record fails, the table fails with its error however many
/// records follow.
proof fn lemma_error_stays(rows: Seq<CsvRow>, read: int)
    requires
        0 <= read <= rows.len(),
        spec_read_telemetry(rows.take(read)) is Err,
    ensures
        spec_read_telemetry(rows) == spec_read_telemetry(rows.take(read)),
    decreases rows.len() - read,
{
    if read < rows.len() {
        assert(rows.take(read + 1).drop_last() =~= rows.take(read));
        lemma_error_stays(rows, read + 1);
    } else {
        assert(rows.take(read) =~= rows);
    }
}

} // verus!
