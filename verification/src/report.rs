//! The canonical JSON of a benchmark report.
use vstd::prelude::*;
use vstd::string::StrSliceExecFns;
use vstd::utf8::encode_utf8;
use crate::canonical::{benchmark_report_json, benchmark_report_text};
use crate::error::BenchmarkError;
use crate::model::BenchmarkReport;

verus! {

/// The canonical JSON of a report, as UTF-8 bytes. The manifest hashes are
/// listed in the order of `manifest_hashes`, which is kept sorted by
/// scenario ID.
pub fn canonical_report_json(report: &BenchmarkReport) -> (r: Result<Vec<u8>, BenchmarkError>)
    ensures
        r matches Ok(b) && b@ == encode_utf8(benchmark_report_json(*report)),
{
    let text = benchmark_report_text(report);
    Ok(text.as_str().as_bytes_vec())
}

} // verus!
