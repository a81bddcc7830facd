//! Reading the reports of `nvidia-smi` and `nvcc`.
//!
//! The tools are run by the caller; the functions here take what they
//! printed.

use crate::error::{ClientError, ErrorKind};
use crate::parse::{
    find, find_from, lines, lines_of, parse_i32, parsed_i32, trim, trimmed,
};
use crate::text::{fields, skip_chars, split_fields, texts};
use vstd::prelude::*;
use vstd::string::*;

verus! {

/// A GPU as `nvidia-smi` reports it.
#[derive(Debug)]
pub struct GpuInfo {
    pub model: String,
    pub count: i32,
    /// Memory in whole gibibytes.
    pub vram_gb: i32,
    /// Compute capability, as the decimal text of the report.
    pub compute_capability: String,
    pub driver_version: String,
    pub cuda_version: Option<String>,
}

/// A GPU report over mathematical text.
pub struct GpuView {
    pub model: Seq<char>,
    pub count: i32,
    pub vram_gb: i32,
    pub compute_capability: Seq<char>,
    pub driver_version: Seq<char>,
    pub cuda_version: Option<Seq<char>>,
}

impl View for GpuInfo {
    type V = GpuView;

    open spec fn view(&self) -> GpuView {
        GpuView {
            model: self.model@,
            count: self.count,
            vram_gb: self.vram_gb,
            compute_capability: self.compute_capability@,
            driver_version: self.driver_version@,
            cuda_version: match self.cuda_version {
                Some(v) => Some(v@),
                None => None,
            },
        }
    }
}

/// The values of a comma-separated line, each without the white space
/// around it.
pub open spec fn values_of(line: Seq<char>) -> Seq<Seq<char>> {
    fields(line, ',').map_values(|field: Seq<char>| trimmed(field))
}

/// Splits a comma-separated line into its values.
pub fn values(line: &str) -> (r: Vec<String>)
    ensures
        texts(r@) == values_of(line@),
{
    let raw = split_fields(line, ',');
    let ghost all = fields(line@, ',');
    assert(raw@.len() == all.len()) by {
        assert(texts(raw@).len() == raw@.len());
    }
    let mut out: Vec<String> = Vec::new();
    let mut i: usize = 0;
    while i < raw.len()
        invariant
            i <= raw@.len(),
            texts(raw@) == all,
            out@.len() == i,
            forall|j: int| 0 <= j < i ==> (#[trigger] out@[j])@ == trimmed(all[j]),
        decreases raw@.len() - i,
    {
        assert(raw@[i as int]@ == all[i as int]) by {
            assert(texts(raw@)[i as int] == raw@[i as int]@);
        }
        out.push(String::from_str(trim(raw[i].as_str())));
        i += 1;
    }
    assert(texts(out@) =~= values_of(line@));
    out
}

/// Whole gibibytes in `mebibytes`, rounded towards zero.
pub open spec fn gib_of_mib(mebibytes: i32) -> i32 {
    if mebibytes >= 0 {
        (mebibytes / 1024) as i32
    } else {
        (-((-mebibytes) / 1024)) as i32
    }
}

/// Whole gibibytes in `mebibytes`, rounded towards zero.
pub fn mib_to_gib(mebibytes: i32) -> (r: i32)
    ensures
        r == gib_of_mib(mebibytes),
{
    if mebibytes >= 0 {
        mebibytes / 1024
    } else {
        let magnitude: i64 = -(mebibytes as i64);
        (-(magnitude / 1024)) as i32
    }
}

/// What the first line of a report of `nvidia-smi` says of the GPU: the
/// model, the memory in mebibytes, the number of GPUs, the driver version
/// and the compute capability, separated by commas. The CUDA version is
/// not part of the report.
pub open spec fn gpu_of(report: Seq<char>) -> Result<GpuView, (ErrorKind, Seq<char>)> {
    if lines_of(report).len() == 0 {
        Err((ErrorKind::Hardware, "No GPU detected"@))
    } else {
        let parts = values_of(lines_of(report)[0]);
        if parts.len() < 5 {
            Err((ErrorKind::Hardware, "Unexpected nvidia-smi output format"@))
        } else {
            match parsed_i32(parts[1]) {
                None => Err((ErrorKind::Hardware, "Failed to parse VRAM"@)),
                Some(vram_mb) => match parsed_i32(parts[2]) {
                    None => Err((ErrorKind::Hardware, "Failed to parse GPU count"@)),
                    Some(count) => Ok(
                        GpuView {
                            model: parts[0],
                            count,
                            vram_gb: gib_of_mib(vram_mb),
                            compute_capability: parts[4],
                            driver_version: parts[3],
                            cuda_version: None,
                        },
                    ),
                },
            }
        }
    }
}

/// Whether `r` is `expected`, text compared by its characters.
pub open spec fn same_gpu(
    r: Result<GpuInfo, ClientError>,
    expected: Result<GpuView, (ErrorKind, Seq<char>)>,
) -> bool {
    match r {
        Ok(gpu) => expected == Ok::<GpuView, (ErrorKind, Seq<char>)>(gpu@),
        Err(e) => expected == Err::<GpuView, (ErrorKind, Seq<char>)>(e@),
    }
}

/// A hardware error with the detail `detail`.
fn hardware_error(detail: &str) -> (e: ClientError)
    ensures
        e@ == (ErrorKind::Hardware, detail@),
{
    ClientError::Hardware(String::from_str(detail))
}

/// Reads the report of `nvidia-smi` on the GPU.
pub fn parse_gpu(report: &str) -> (r: Result<GpuInfo, ClientError>)
    ensures
        same_gpu(r, gpu_of(report@)),
{
    let all = lines(report);
    if all.len() == 0 {
        assert(lines_of(report@).len() == 0) by {
            assert(texts(all@).len() == all@.len());
        }
        return Err(hardware_error("No GPU detected"));
    }
    assert(all@[0]@ == lines_of(report@)[0]) by {
        assert(texts(all@)[0] == all@[0]@);
    }
    let parts = values(all[0].as_str());
    let ghost expected = values_of(lines_of(report@)[0]);
    assert(parts@.len() == expected.len()) by {
        assert(texts(parts@).len() == parts@.len());
    }
    if parts.len() < 5 {
        return Err(hardware_error("Unexpected nvidia-smi output format"));
    }
    assert forall|j: int| 0 <= j < 5 implies (#[trigger] parts@[j])@ == expected[j] by {
        assert(texts(parts@)[j] == parts@[j]@);
    }
    let vram_mb = match parse_i32(parts[1].as_str()) {
        Some(v) => v,
        None => {
            return Err(hardware_error("Failed to parse VRAM"));
        },
    };
    let count = match parse_i32(parts[2].as_str()) {
        Some(v) => v,
        None => {
            return Err(hardware_error("Failed to parse GPU count"));
        },
    };
    Ok(
        GpuInfo {
            model: parts[0].clone(),
            count,
            vram_gb: mib_to_gib(vram_mb),
            compute_capability: parts[4].clone(),
            driver_version: parts[3].clone(),
            cuda_version: None,
        },
    )
}

/// The GPU of a machine on which none was detected.
pub fn unknown_gpu() -> (r: GpuInfo)
    ensures
        r@ == (GpuView {
            model: "Unknown GPU"@,
            count: 0,
            vram_gb: 0,
            compute_capability: "0"@,
            driver_version: "Unknown"@,
            cuda_version: None,
        }),
{
    GpuInfo {
        model: String::from_str("Unknown GPU"),
        count: 0,
        vram_gb: 0,
        compute_capability: String::from_str("0"),
        driver_version: String::from_str("Unknown"),
        cuda_version: None,
    }
}

/// The word behind which `nvcc` prints the CUDA version.
pub open spec fn release_word() -> Seq<char> {
    "release"@
}

/// The version that `line` names: what stands between the first
/// `release` and the next one, up to the first comma, without the white
/// space around it. `None` where the line does not hold the word.
pub open spec fn release_in(line: Seq<char>) -> Option<Seq<char>> {
    match find_from(line, release_word(), 0) {
        None => None,
        Some(at) => {
            let rest = line.skip(at + release_word().len());
            let piece = match find_from(rest, release_word(), 0) {
                Some(next) => rest.take(next),
                None => rest,
            };
            Some(trimmed(fields(piece, ',')[0]))
        },
    }
}

/// The version named by the first of `lines` that holds the word
/// `release`.
pub open spec fn release_of(lines: Seq<Seq<char>>) -> Option<Seq<char>>
    decreases lines.len(),
{
    if lines.len() == 0 {
        None
    } else {
        match release_in(lines.first()) {
            Some(version) => Some(version),
            None => release_of(lines.drop_first()),
        }
    }
}

/// The version that `line` names.
pub fn release_in_line(line: &str) -> (r: Option<String>)
    ensures
        match r {
            Some(version) => release_in(line@) == Some(version@),
            None => release_in(line@) is None,
        },
{
    let word = "release";
    let len = line.unicode_len();
    match find(line, word) {
        None => None,
        Some(at) => {
            proof {
                crate::parse::lemma_find_from(line@, word@, 0);
            }
            let rest = skip_chars(line, at + word.unicode_len());
            let piece = match find(rest, word) {
                Some(next) => {
                    proof {
                        crate::parse::lemma_find_from(rest@, word@, 0);
                    }
                    rest.substring_char(0, next)
                },
                None => rest,
            };
            proof {
                crate::text::lemma_fields_nonempty(piece@, ',');
            }
            let pieces = split_fields(piece, ',');
            assert(pieces@.len() >= 1 && pieces@[0]@ == fields(piece@, ',')[0]) by {
                assert(texts(pieces@).len() == pieces@.len());
                assert(texts(pieces@)[0] == pieces@[0]@);
            }
            Some(String::from_str(trim(pieces[0].as_str())))
        },
    }
}

/// Reads the CUDA version out of the report of `nvcc --version`.
pub fn cuda_release(report: &str) -> (r: Result<String, ClientError>)
    ensures
        match r {
            Ok(version) => release_of(lines_of(report@)) == Some(version@),
            Err(e) => release_of(lines_of(report@)) is None && e@ == (
                ErrorKind::Hardware,
                "Could not parse CUDA version"@,
            ),
        },
{
    let all = lines(report);
    let ghost whole = lines_of(report@);
    assert(all@.len() == whole.len()) by {
        assert(texts(all@).len() == all@.len());
    }
    let mut i: usize = 0;
    assert(whole.skip(0) =~= whole);
    while i < all.len()
        invariant
            i <= all@.len(),
            whole == lines_of(report@),
            texts(all@) == whole,
            all@.len() == whole.len(),
            release_of(whole) == release_of(whole.skip(i as int)),
        decreases all@.len() - i,
    {
        assert(all@[i as int]@ == whole.skip(i as int).first()) by {
            assert(texts(all@)[i as int] == all@[i as int]@);
        }
        assert(whole.skip(i as int).drop_first() =~= whole.skip(i + 1));
        match release_in_line(all[i].as_str()) {
            Some(version) => {
                return Ok(version);
            },
            None => {},
        }
        i += 1;
    }
    Err(hardware_error("Could not parse CUDA version"))
}

/// Whole gibibytes of memory in `bytes`, as a signed 32-bit number.
pub open spec fn ram_gb_of(bytes: u64) -> i32 {
    (bytes / 0x4000_0000) as i32
}

/// Whole gibibytes of memory in `bytes`.
pub fn ram_gb(bytes: u64) -> (r: i32)
    ensures
        r == ram_gb_of(bytes),
{
    #[verifier::truncate]
    ((bytes / 0x4000_0000) as i32)
}

/// The bandwidth assumed for every machine, in megabits per second.
pub const ESTIMATED_BANDWIDTH_MBPS: i32 = 1000;

/// The bandwidth of the machine in megabits per second: a fixed estimate.
pub fn estimate_bandwidth() -> (r: i32)
    ensures
        r == ESTIMATED_BANDWIDTH_MBPS,
{
    ESTIMATED_BANDWIDTH_MBPS
}

} // verus!
