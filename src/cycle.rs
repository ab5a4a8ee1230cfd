//! The decisions of one sampling cycle: which parser reads the probe's
//! output, and what a cycle does to the log's state.
use vstd::prelude::*;
use crate::parse::{
    gpu_records, memory_keys_ordered, memory_records, output_lines, parse_gpu_info,
    parse_sysctl_vm_info, total_comes_first,
};
use crate::record::{GpuInfo, RecordView};
use crate::ring::{offset_spec, writes_from};

verus! {

/// The probe backend, chosen once at start-up.
#[derive(Debug, Clone, Copy, PartialEq, Eq, Structural)]
pub enum GpuInfoKind {
    /// Comma-separated GPU query, one device per line.
    Nvidia,
    /// `Key: Value` report of system memory.
    VmStat,
}

/// What the probe gave in one cycle: its standard output on success, or
/// the way it failed.
#[derive(Debug, Clone)]
pub enum ProbeOutcome {
    /// The probe command could not be started (missing or not executable).
    LaunchFailed,
    /// The probe ran and exited with a non-zero status.
    ExitFailed,
    /// The probe succeeded; its standard output.
    Output(String),
}

/// The records a cycle yields from the probe's output, or `None` when there
/// are none to write this cycle.
pub open spec fn cycle_records_spec(kind: GpuInfoKind, output: Option<Seq<char>>) -> Option<
    Seq<RecordView>,
> {
    match output {
        None => None,
        Some(s) => match kind {
            GpuInfoKind::Nvidia => gpu_records(output_lines(s)),
            GpuInfoKind::VmStat => if total_comes_first(output_lines(s)) {
                memory_records(output_lines(s))
            } else {
                None
            },
        },
    }
}

pub open spec fn outcome_view(outcome: ProbeOutcome) -> Option<Seq<char>> {
    match outcome {
        ProbeOutcome::LaunchFailed => None,
        ProbeOutcome::ExitFailed => None,
        ProbeOutcome::Output(s) => Some(s@),
    }
}

/// The records to write for a cycle whose probe ended with `outcome`. A
/// probe failure, a parse failure and a memory report that updates a value
/// before giving the total all yield `None`: the cycle writes nothing and the
/// sampling goes on.
pub fn cycle_records(kind: GpuInfoKind, outcome: &ProbeOutcome) -> (r: Option<Vec<GpuInfo>>)
    ensures
        match r {
            None => cycle_records_spec(kind, outcome_view(*outcome)) is None,
            Some(v) => cycle_records_spec(kind, outcome_view(*outcome)) == Some(
                v@.map_values(|g: GpuInfo| g@),
            ),
        },
{
    match outcome {
        ProbeOutcome::LaunchFailed => None,
        ProbeOutcome::ExitFailed => None,
        ProbeOutcome::Output(s) => match kind {
            GpuInfoKind::Nvidia => parse_gpu_info(s.as_str()),
            GpuInfoKind::VmStat => {
                if memory_keys_ordered(s.as_str()) {
                    parse_sysctl_vm_info(s.as_str())
                } else {
                    None
                }
            },
        },
    }
}

/// File length and cursor after a cycle that writes `records`, one line of
/// `entry_len` bytes each, to a log in state `st`.
pub open spec fn after_cycle(
    capacity: nat,
    entry_len: nat,
    st: (nat, nat),
    records: Option<Seq<RecordView>>,
) -> (nat, nat) {
    match records {
        None => st,
        Some(rs) => writes_from(capacity, entry_len, st, rs.len()),
    }
}

/// A cycle whose probe failed leaves the log as it was: the cycles after it
/// put their lines exactly where they would have gone without it.
pub proof fn lemma_failed_cycle_keeps_ring(
    kind: GpuInfoKind,
    failed: ProbeOutcome,
    next: ProbeOutcome,
    capacity: nat,
    entry_len: nat,
    st: (nat, nat),
)
    requires
        !(failed is Output),
    ensures
        ({
            let s = after_cycle(
                capacity,
                entry_len,
                st,
                cycle_records_spec(kind, outcome_view(failed)),
            );
            &&& s == st
            &&& offset_spec(capacity, s.1, s.0, entry_len) == offset_spec(
                capacity,
                st.1,
                st.0,
                entry_len,
            )
            &&& after_cycle(capacity, entry_len, s, cycle_records_spec(kind, outcome_view(next)))
                == after_cycle(capacity, entry_len, st, cycle_records_spec(kind, outcome_view(next)))
        }),
{
}

} // verus!
