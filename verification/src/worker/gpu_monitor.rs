//! Reading the utilisation report of `nvidia-smi`.
//!
//! The tool is run by the caller; the monitor takes what it printed.

use crate::error::{ClientError, ErrorKind};
use crate::gpu::detector::{values, values_of};
use crate::parse::{lines, lines_of, parse_u32, parsed_u32};
use crate::text::texts;
use vstd::prelude::*;
use vstd::string::*;

verus! {

/// The state of the GPU at one moment. Utilisation, temperature and power
/// draw are held as the decimal text of the report.
#[derive(Debug)]
pub struct GpuStats {
    pub usage_percent: String,
    pub memory_used_mb: u32,
    pub memory_total_mb: u32,
    pub temperature_c: String,
    pub power_draw_w: String,
}

/// GPU statistics over mathematical text.
pub struct StatsView {
    pub usage_percent: Seq<char>,
    pub memory_used_mb: u32,
    pub memory_total_mb: u32,
    pub temperature_c: Seq<char>,
    pub power_draw_w: Seq<char>,
}

impl View for GpuStats {
    type V = StatsView;

    open spec fn view(&self) -> StatsView {
        StatsView {
            usage_percent: self.usage_percent@,
            memory_used_mb: self.memory_used_mb,
            memory_total_mb: self.memory_total_mb,
            temperature_c: self.temperature_c@,
            power_draw_w: self.power_draw_w@,
        }
    }
}

/// Reader of GPU statistics.
pub struct GpuMonitor {}

/// The statistics of a machine whose GPU cannot be asked: all zero.
pub open spec fn idle_stats() -> StatsView {
    StatsView {
        usage_percent: "0"@,
        memory_used_mb: 0,
        memory_total_mb: 0,
        temperature_c: "0"@,
        power_draw_w: "0"@,
    }
}

/// The number that `text` writes, or zero where it writes none.
pub open spec fn mebibytes_of(text: Seq<char>) -> u32 {
    match parsed_u32(text) {
        Some(v) => v,
        None => 0,
    }
}

/// What the first line of a utilisation report says: utilisation, memory
/// used and memory in all in mebibytes, temperature and power draw,
/// separated by commas.
pub open spec fn stats_of(report: Seq<char>) -> Result<StatsView, (ErrorKind, Seq<char>)> {
    if lines_of(report).len() == 0 {
        Err((ErrorKind::GpuDetection, "No GPU stats available"@))
    } else {
        let parts = values_of(lines_of(report)[0]);
        if parts.len() < 5 {
            Err((ErrorKind::GpuDetection, "Unexpected nvidia-smi output"@))
        } else {
            Ok(
                StatsView {
                    usage_percent: parts[0],
                    memory_used_mb: mebibytes_of(parts[1]),
                    memory_total_mb: mebibytes_of(parts[2]),
                    temperature_c: parts[3],
                    power_draw_w: parts[4],
                },
            )
        }
    }
}

/// The statistics to work with: those of the report, or all zero where
/// there is no report or it cannot be read.
pub open spec fn stats_or_idle(report: Option<Seq<char>>) -> StatsView {
    match report {
        None => idle_stats(),
        Some(text) => match stats_of(text) {
            Ok(stats) => stats,
            Err(_) => idle_stats(),
        },
    }
}

/// The memory that is free, in mebibytes: nothing where more is used than
/// there is.
pub open spec fn free_mb(used: u32, total: u32) -> u32 {
    if total >= used {
        (total - used) as u32
    } else {
        0
    }
}

/// Whether `r` is `expected`, text compared by its characters.
pub open spec fn same_stats(
    r: Result<GpuStats, ClientError>,
    expected: Result<StatsView, (ErrorKind, Seq<char>)>,
) -> bool {
    match r {
        Ok(stats) => expected == Ok::<StatsView, (ErrorKind, Seq<char>)>(stats@),
        Err(e) => expected == Err::<StatsView, (ErrorKind, Seq<char>)>(e@),
    }
}

/// Reads a count of mebibytes; what is no number counts as zero.
fn mebibytes(text: &str) -> (r: u32)
    ensures
        r == mebibytes_of(text@),
{
    match parse_u32(text) {
        Some(v) => v,
        None => 0,
    }
}

/// Reads the utilisation report of `nvidia-smi`.
pub fn parse_stats(report: &str) -> (r: Result<GpuStats, ClientError>)
    ensures
        same_stats(r, stats_of(report@)),
{
    let all = lines(report);
    if all.len() == 0 {
        assert(lines_of(report@).len() == 0) by {
            assert(texts(all@).len() == all@.len());
        }
        return Err(ClientError::GpuDetection(String::from_str("No GPU stats available")));
    }
    assert(all@[0]@ == lines_of(report@)[0]) by {
        assert(texts(all@)[0] == all@[0]@);
    }
    let parts = values(all[0].as_str());
    let ghost expected = values_of(lines_of(report@)[0]);
    assert(parts@.len() == expected.len()) by {
        assert(texts(parts@).len() == parts@.len());
    }
    if parts.len() < 5 {
        return Err(ClientError::GpuDetection(String::from_str("Unexpected nvidia-smi output")));
    }
    assert forall|j: int| 0 <= j < 5 implies (#[trigger] parts@[j])@ == expected[j] by {
        assert(texts(parts@)[j] == parts@[j]@);
    }
    Ok(
        GpuStats {
            usage_percent: parts[0].clone(),
            memory_used_mb: mebibytes(parts[1].as_str()),
            memory_total_mb: mebibytes(parts[2].as_str()),
            temperature_c: parts[3].clone(),
            power_draw_w: parts[4].clone(),
        },
    )
}

impl GpuStats {
    /// The memory that is free, in mebibytes.
    pub fn available_mb(&self) -> (r: u32)
        ensures
            r == free_mb(self.memory_used_mb, self.memory_total_mb),
    {
        if self.memory_total_mb >= self.memory_used_mb {
            self.memory_total_mb - self.memory_used_mb
        } else {
            0
        }
    }
}

impl GpuMonitor {
    /// A monitor.
    pub fn new() -> (r: Self) {
        GpuMonitor {  }
    }

    /// The current statistics of the GPU. `report` is what `nvidia-smi`
    /// printed, `None` where it could not be run or failed. Without a
    /// readable report the statistics are all zero; this never fails.
    pub fn get_stats(&self, report: Option<&str>) -> (r: Result<GpuStats, ClientError>)
        ensures
            r matches Ok(stats) && stats@ == stats_or_idle(
                match report {
                    Some(text) => Some(text@),
                    None => None,
                },
            ),
    {
        let parsed = match report {
            Some(text) => parse_stats(text),
            None => Err(ClientError::GpuDetection(String::from_str("nvidia-smi failed"))),
        };
        match parsed {
            Ok(stats) => Ok(stats),
            Err(_) => Ok(
                GpuStats {
                    usage_percent: String::from_str("0"),
                    memory_used_mb: 0,
                    memory_total_mb: 0,
                    temperature_c: String::from_str("0"),
                    power_draw_w: String::from_str("0"),
                },
            ),
        }
    }
}

} // verus!
