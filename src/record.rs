//! The normalized telemetry record and its JSON line form.
use vstd::prelude::*;
use vstd::string::*;
use vstd::utf8::encode_utf8;
use crate::text::{decimal, json_quote, json_string_of, u64_to_decimal};

verus! {

/// One device (or the whole system memory) as reported by a probe.
/// Memory fields share one unit per backend; `temperature_gpu` is 0 where the
/// backend has no temperature.
#[derive(Debug, Clone)]
pub struct GpuInfo {
    pub index: usize,
    pub name: String,
    pub driver_version: String,
    pub memory_total: u64,
    pub memory_used: u64,
    pub memory_free: u64,
    pub temperature_gpu: u64,
}

/// The mathematical value of a record.
pub struct RecordView {
    pub index: usize,
    pub name: Seq<char>,
    pub driver_version: Seq<char>,
    pub memory_total: u64,
    pub memory_used: u64,
    pub memory_free: u64,
    pub temperature_gpu: u64,
}

impl View for GpuInfo {
    type V = RecordView;

    open spec fn view(&self) -> RecordView {
        RecordView {
            index: self.index,
            name: self.name@,
            driver_version: self.driver_version@,
            memory_total: self.memory_total,
            memory_used: self.memory_used,
            memory_free: self.memory_free,
            temperature_gpu: self.temperature_gpu,
        }
    }
}

/// The log line of a record sampled at `timestamp`: a JSON object with the
/// keys in the fixed order timestamp, index, name, driver_version,
/// memory_total, memory_used, memory_free, temperature_gpu, then a newline.
pub open spec fn line_of(timestamp: u64, r: RecordView) -> Seq<char> {
    "{\"timestamp\":"@ + decimal(timestamp as nat) + ",\"index\":"@ + decimal(r.index as nat)
        + ",\"name\":"@ + json_string_of(r.name) + ",\"driver_version\":"@ + json_string_of(
        r.driver_version,
    ) + ",\"memory_total\":"@ + decimal(r.memory_total as nat) + ",\"memory_used\":"@ + decimal(
        r.memory_used as nat,
    ) + ",\"memory_free\":"@ + decimal(r.memory_free as nat) + ",\"temperature_gpu\":"@
        + decimal(r.temperature_gpu as nat) + "}\n"@
}

/// Byte length of the UTF-8 form of a log line, as `str::len` reports it.
pub open spec fn line_byte_len(timestamp: u64, r: RecordView) -> nat {
    (encode_utf8(line_of(timestamp, r)).len() as usize) as nat
}

/// Serializes `rec`, sampled at `timestamp`, to its log line.
pub fn encode_line(timestamp: u64, rec: &GpuInfo) -> (r: String)
    ensures
        r@ == line_of(timestamp, rec@),
{
    let mut out = String::from_str("{\"timestamp\":");
    out.append(u64_to_decimal(timestamp).as_str());
    out.append(",\"index\":");
    out.append(u64_to_decimal(rec.index as u64).as_str());
    out.append(",\"name\":");
    out.append(json_quote(rec.name.as_str()).as_str());
    out.append(",\"driver_version\":");
    out.append(json_quote(rec.driver_version.as_str()).as_str());
    out.append(",\"memory_total\":");
    out.append(u64_to_decimal(rec.memory_total).as_str());
    out.append(",\"memory_used\":");
    out.append(u64_to_decimal(rec.memory_used).as_str());
    out.append(",\"memory_free\":");
    out.append(u64_to_decimal(rec.memory_free).as_str());
    out.append(",\"temperature_gpu\":");
    out.append(u64_to_decimal(rec.temperature_gpu).as_str());
    out.append("}\n");
    out
}

} // verus!
