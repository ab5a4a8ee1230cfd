//! Parsers from raw probe output to normalized records, one per backend.
use vstd::prelude::*;
use vstd::string::*;
use crate::record::{GpuInfo, RecordView};
use crate::text::{parse_u64, parse_u64_spec, replace, replace_str, split, split_str, trim, trim_str};

verus! {

/// The pieces of `line` between occurrences of `sep`, each trimmed.
pub open spec fn fields(line: Seq<char>, sep: char) -> Seq<Seq<char>> {
    split(line, sep).map_values(|f: Seq<char>| trim(f))
}

/// The lines of a probe's output, surrounding whitespace removed first.
pub open spec fn output_lines(output: Seq<char>) -> Seq<Seq<char>> {
    split(trim(output), '\n')
}

/// A memory field, with any " MiB" unit suffix stripped.
pub open spec fn mib_value(f: Seq<char>) -> Option<u64> {
    parse_u64_spec(replace(f, " MiB"@, ""@))
}

/// One line of the GPU query at line position `index`: `Some(None)` when it
/// has fewer than six fields and is skipped, `None` when a numeric field
/// does not parse.
pub open spec fn gpu_line(line: Seq<char>, index: usize) -> Option<Option<RecordView>> {
    let f = fields(line, ',');
    if f.len() < 6 {
        Some(None)
    } else if mib_value(f[2]) is Some && mib_value(f[3]) is Some && mib_value(f[4]) is Some
        && parse_u64_spec(f[5]) is Some {
        Some(
            Some(
                RecordView {
                    index,
                    name: f[0],
                    driver_version: f[1],
                    memory_total: mib_value(f[2])->0,
                    memory_used: mib_value(f[3])->0,
                    memory_free: mib_value(f[4])->0,
                    temperature_gpu: parse_u64_spec(f[5])->0,
                },
            ),
        )
    } else {
        None
    }
}

/// The records of a sequence of GPU query lines, each indexed by its line
/// position; `None` as soon as one retained line is malformed.
pub open spec fn gpu_records(lines: Seq<Seq<char>>) -> Option<Seq<RecordView>>
    decreases lines.len(),
{
    if lines.len() == 0 {
        Some(Seq::empty())
    } else {
        match gpu_records(lines.drop_last()) {
            None => None,
            Some(prev) => match gpu_line(lines.last(), (lines.len() - 1) as usize) {
                None => None,
                Some(None) => Some(prev),
                Some(Some(r)) => Some(prev.push(r)),
            },
        }
    }
}

proof fn lemma_gpu_failure_sticks(lines: Seq<Seq<char>>, i: int)
    requires
        0 <= i <= lines.len(),
        gpu_records(lines.take(i)) is None,
    ensures
        gpu_records(lines) is None,
    decreases lines.len() - i,
{
    if i < lines.len() {
        assert(lines.take(i + 1).drop_last() =~= lines.take(i));
        lemma_gpu_failure_sticks(lines, i + 1);
    } else {
        assert(lines.take(i) =~= lines);
    }
}

/// Each GPU record carries the position of the line it was read from, and
/// is exactly what that line gives; positions increase along the result, so
/// skipped lines keep their place in the numbering.
pub proof fn lemma_gpu_index_is_line_position(lines: Seq<Seq<char>>)
    requires
        lines.len() <= usize::MAX,
    ensures
        gpu_records(lines) matches Some(rs) ==> {
            &&& forall|k: int|
                0 <= k < rs.len() ==> (#[trigger] rs[k]).index < lines.len() && gpu_line(
                    lines[rs[k].index as int],
                    rs[k].index,
                ) == Some(Some(rs[k]))
            &&& forall|k1: int, k2: int|
                0 <= k1 < k2 < rs.len() ==> (#[trigger] rs[k1]).index < (#[trigger] rs[k2]).index
        },
    decreases lines.len(),
{
    if lines.len() > 0 {
        let prev_lines = lines.drop_last();
        lemma_gpu_index_is_line_position(prev_lines);
        if let Some(rs) = gpu_records(lines) {
            let prev = gpu_records(prev_lines)->0;
            assert forall|k: int| 0 <= k < prev.len() implies (#[trigger] prev[k]).index < lines.len()
                - 1 && lines[prev[k].index as int] == prev_lines[prev[k].index as int] by {}
        }
    }
}

/// Parses the comma-separated GPU query output: one device per line, fields
/// name, driver version, total, used and free memory (an optional " MiB"
/// suffix allowed) and temperature. Short lines are skipped but keep their
/// position as index; a malformed number anywhere gives `None`.
pub fn parse_gpu_info(output: &str) -> (r: Option<Vec<GpuInfo>>)
    ensures
        match r {
            None => gpu_records(output_lines(output@)) is None,
            Some(v) => gpu_records(output_lines(output@)) == Some(
                v@.map_values(|g: GpuInfo| g@),
            ),
        },
{
    let lines = split_str(trim_str(output), '\n');
    let ghost ls = output_lines(output@);
    let mut all: Vec<GpuInfo> = Vec::new();
    let mut i: usize = 0;
    proof {
        assert(ls.take(0) =~= Seq::<Seq<char>>::empty());
        assert(all@.map_values(|g: GpuInfo| g@) =~= Seq::<RecordView>::empty());
    }
    while i < lines.len()
        invariant
            i <= lines@.len(),
            ls == output_lines(output@),
            lines@.len() == ls.len(),
            forall|k: int| 0 <= k < lines@.len() ==> (#[trigger] lines@[k])@ == ls[k],
            gpu_records(ls.take(i as int)) == Some(all@.map_values(|g: GpuInfo| g@)),
        decreases lines.len() - i,
    {
        let line = lines[i];
        let parts = split_str(line, ',');
        proof {
            assert(ls.take(i + 1).drop_last() =~= ls.take(i as int));
            assert(ls.take(i + 1).last() == ls[i as int]);
        }
        proof {
            reveal_strlit(" MiB");
            assert(fields(ls[i as int], ',').len() == parts@.len());
        }
        if parts.len() >= 6 {
            let f0 = trim_str(parts[0]);
            let f1 = trim_str(parts[1]);
            let f2 = trim_str(parts[2]);
            let f3 = trim_str(parts[3]);
            let f4 = trim_str(parts[4]);
            let f5 = trim_str(parts[5]);
            let ghost f = fields(ls[i as int], ',');
            assert(f0@ == f[0] && f1@ == f[1] && f2@ == f[2]);
            assert(f3@ == f[3] && f4@ == f[4] && f5@ == f[5]);
            let total = parse_u64(replace_str(f2, " MiB", "").as_str());
            let used = parse_u64(replace_str(f3, " MiB", "").as_str());
            let free = parse_u64(replace_str(f4, " MiB", "").as_str());
            let temp = parse_u64(f5);
            if total.is_none() || used.is_none() || free.is_none() || temp.is_none() {
                proof {
                    lemma_gpu_failure_sticks(ls, i + 1);
                }
                return None;
            }
            let info = GpuInfo {
                index: i,
                name: f0.to_owned(),
                driver_version: f1.to_owned(),
                memory_total: total.unwrap(),
                memory_used: used.unwrap(),
                memory_free: free.unwrap(),
                temperature_gpu: temp.unwrap(),
            };
            all.push(info);
        }
        proof {
            assert(all@.map_values(|g: GpuInfo| g@) =~= gpu_records(ls.take(i + 1))->0);
        }
        i = i + 1;
    }
    proof {
        assert(ls.take(i as int) =~= ls);
    }
    Some(all)
}

/// The one record of the memory backend, before used and free memory are
/// known.
pub open spec fn memory_record(total: u64) -> RecordView {
    RecordView {
        index: 0,
        name: "Memory"@,
        driver_version: "0"@,
        memory_total: total,
        memory_used: 0,
        memory_free: 0,
        temperature_gpu: 0,
    }
}

/// The key of a `Key: Value` line, if the line has a colon.
pub open spec fn line_key(line: Seq<char>) -> Option<Seq<char>> {
    let f = fields(line, ':');
    if f.len() >= 2 {
        Some(f[0])
    } else {
        None
    }
}

pub open spec fn is_update_key(k: Seq<char>) -> bool {
    k == "Used Memory"@ || k == "Free Memory"@
}

/// Every "Used Memory" or "Free Memory" line comes after a "Total Memory"
/// line, which creates the record they fill in.
pub open spec fn total_comes_first(lines: Seq<Seq<char>>) -> bool {
    forall|i: int|
        0 <= i < lines.len() && line_key(#[trigger] lines[i]) is Some && is_update_key(
            line_key(lines[i])->0,
        ) ==> exists|j: int| 0 <= j < i && line_key(#[trigger] lines[j]) == Some("Total Memory"@)
}

/// The effect of one `Key: Value` line on the records read so far. A used
/// or free value before any record exists changes nothing here;
/// `parse_sysctl_vm_info` requires that no such line occurs.
pub open spec fn memory_step(acc: Seq<RecordView>, line: Seq<char>) -> Option<Seq<RecordView>> {
    let f = fields(line, ':');
    if f.len() < 2 {
        Some(acc)
    } else if f[0] == "Total Memory"@ {
        match parse_u64_spec(f[1]) {
            None => None,
            Some(v) => Some(acc.push(memory_record(v))),
        }
    } else if acc.len() == 0 {
        Some(acc)
    } else if f[0] == "Used Memory"@ {
        match parse_u64_spec(f[1]) {
            None => None,
            Some(v) => Some(acc.update(0, RecordView { memory_used: v, ..acc[0] })),
        }
    } else if f[0] == "Free Memory"@ {
        match parse_u64_spec(f[1]) {
            None => None,
            Some(v) => Some(acc.update(0, RecordView { memory_free: v, ..acc[0] })),
        }
    } else {
        Some(acc)
    }
}

/// The records of a sequence of memory-report lines; `None` as soon as a
/// recognized key has a value that does not parse.
pub open spec fn memory_records(lines: Seq<Seq<char>>) -> Option<Seq<RecordView>>
    decreases lines.len(),
{
    if lines.len() == 0 {
        Some(Seq::empty())
    } else {
        match memory_records(lines.drop_last()) {
            None => None,
            Some(acc) => memory_step(acc, lines.last()),
        }
    }
}

proof fn lemma_memory_failure_sticks(lines: Seq<Seq<char>>, i: int)
    requires
        0 <= i <= lines.len(),
        memory_records(lines.take(i)) is None,
    ensures
        memory_records(lines) is None,
    decreases lines.len() - i,
{
    if i < lines.len() {
        assert(lines.take(i + 1).drop_last() =~= lines.take(i));
        lemma_memory_failure_sticks(lines, i + 1);
    } else {
        assert(lines.take(i) =~= lines);
    }
}

/// Every record of a memory report is the synthetic one: index 0, name
/// "Memory", driver version "0", temperature 0.
pub proof fn lemma_memory_record_shape(lines: Seq<Seq<char>>)
    ensures
        memory_records(lines) matches Some(rs) ==> forall|k: int|
            0 <= k < rs.len() ==> {
                &&& (#[trigger] rs[k]).index == 0
                &&& rs[k].name == "Memory"@
                &&& rs[k].driver_version == "0"@
                &&& rs[k].temperature_gpu == 0
            },
    decreases lines.len(),
{
    if lines.len() > 0 {
        lemma_memory_record_shape(lines.drop_last());
        if let Some(rs) = memory_records(lines) {
            let acc = memory_records(lines.drop_last())->0;
            assert forall|k: int| 0 <= k < rs.len() implies {
                &&& (#[trigger] rs[k]).index == 0
                &&& rs[k].name == "Memory"@
                &&& rs[k].driver_version == "0"@
                &&& rs[k].temperature_gpu == 0
            } by {
                let f = fields(lines.last(), ':');
                if k < acc.len() {
                    assert(acc[k].index == 0);
                }
                if f.len() >= 2 && f[0] == "Total Memory"@ && k == acc.len() {
                    assert(rs[k] == memory_record(parse_u64_spec(f[1])->0));
                }
            }
        }
    }
}

/// Whether `output` lists "Total Memory" before any "Used Memory" or
/// "Free Memory" line, as `parse_sysctl_vm_info` requires.
pub fn memory_keys_ordered(output: &str) -> (r: bool)
    ensures
        r == total_comes_first(output_lines(output@)),
{
    let lines = split_str(trim_str(output), '\n');
    let ghost ls = output_lines(output@);
    let total_key = String::from_str("Total Memory");
    let used_key = String::from_str("Used Memory");
    let free_key = String::from_str("Free Memory");
    let mut seen_total = false;
    let mut i: usize = 0;
    while i < lines.len()
        invariant
            i <= lines@.len(),
            ls == output_lines(output@),
            lines@.len() == ls.len(),
            forall|k: int| 0 <= k < lines@.len() ==> (#[trigger] lines@[k])@ == ls[k],
            total_key@ == "Total Memory"@,
            used_key@ == "Used Memory"@,
            free_key@ == "Free Memory"@,
            seen_total <==> exists|j: int|
                0 <= j < i && line_key(#[trigger] ls[j]) == Some("Total Memory"@),
            total_comes_first(ls.take(i as int)),
        decreases lines.len() - i,
    {
        let parts = split_str(lines[i], ':');
        proof {
            assert(fields(ls[i as int], ':').len() == parts@.len());
        }
        if parts.len() >= 2 {
            let key = trim_str(parts[0]).to_owned();
            assert(key@ == line_key(ls[i as int])->0);
            if (key == used_key || key == free_key) && !seen_total {
                proof {
                    assert(ls.take(i + 1)[i as int] == ls[i as int]);
                    assert(!total_comes_first(ls.take(i + 1)));
                    assert(!total_comes_first(ls)) by {
                        assert(ls[i as int] == ls.take(i + 1)[i as int]);
                    }
                }
                return false;
            }
            if key == total_key {
                seen_total = true;
            }
        }
        proof {
            assert forall|k: int|
                0 <= k < i + 1 && line_key(#[trigger] ls.take(i + 1)[k]) is Some && is_update_key(
                    line_key(ls.take(i + 1)[k])->0,
                ) implies exists|j: int|
                0 <= j < k && line_key(#[trigger] ls.take(i + 1)[j]) == Some("Total Memory"@) by {
                if k < i {
                    assert(ls.take(i as int)[k] == ls.take(i + 1)[k]);
                    let j = choose|j: int|
                        0 <= j < k && line_key(#[trigger] ls.take(i as int)[j]) == Some(
                            "Total Memory"@,
                        );
                    assert(ls.take(i as int)[j] == ls.take(i + 1)[j]);
                } else {
                    let j = choose|j: int|
                        0 <= j < i && line_key(#[trigger] ls[j]) == Some("Total Memory"@);
                    assert(ls.take(i + 1)[j] == ls[j]);
                }
            }
        }
        i = i + 1;
    }
    proof {
        assert(ls.take(i as int) =~= ls);
    }
    true
}

/// Parses the memory backend's `Key: Value` report into one record named
/// "Memory" (index 0, driver version "0", temperature 0) carrying the
/// values of "Total Memory", "Used Memory" and "Free Memory". Other keys are
/// ignored; a recognized key whose value does not parse gives `None`.
pub fn parse_sysctl_vm_info(output: &str) -> (r: Option<Vec<GpuInfo>>)
    requires
        total_comes_first(output_lines(output@)),
    ensures
        match r {
            None => memory_records(output_lines(output@)) is None,
            Some(v) => memory_records(output_lines(output@)) == Some(
                v@.map_values(|g: GpuInfo| g@),
            ),
        },
{
    let lines = split_str(trim_str(output), '\n');
    let ghost ls = output_lines(output@);
    let total_key = String::from_str("Total Memory");
    let used_key = String::from_str("Used Memory");
    let free_key = String::from_str("Free Memory");
    let mut mem_info: Vec<GpuInfo> = Vec::new();
    let ghost mut seen_total = false;
    let mut i: usize = 0;
    proof {
        assert(ls.take(0) =~= Seq::<Seq<char>>::empty());
        assert(mem_info@.map_values(|g: GpuInfo| g@) =~= Seq::<RecordView>::empty());
    }
    while i < lines.len()
        invariant
            i <= lines@.len(),
            ls == output_lines(output@),
            total_comes_first(ls),
            lines@.len() == ls.len(),
            forall|k: int| 0 <= k < lines@.len() ==> (#[trigger] lines@[k])@ == ls[k],
            total_key@ == "Total Memory"@,
            used_key@ == "Used Memory"@,
            free_key@ == "Free Memory"@,
            seen_total <==> exists|j: int|
                0 <= j < i && line_key(#[trigger] ls[j]) == Some("Total Memory"@),
            seen_total ==> mem_info@.len() > 0,
            memory_records(ls.take(i as int)) == Some(mem_info@.map_values(|g: GpuInfo| g@)),
        decreases lines.len() - i,
    {
        let parts = split_str(lines[i], ':');
        let ghost acc = mem_info@.map_values(|g: GpuInfo| g@);
        proof {
            assert(fields(ls[i as int], ':').len() == parts@.len());
            assert(ls.take(i + 1).drop_last() =~= ls.take(i as int));
            assert(ls.take(i + 1).last() == ls[i as int]);
            reveal_strlit("Memory");
            reveal_strlit("0");
        }
        if parts.len() >= 2 {
            let key = trim_str(parts[0]).to_owned();
            let value = trim_str(parts[1]);
            let ghost f = fields(ls[i as int], ':');
            assert(key@ == f[0] && value@ == f[1]);
            if key == total_key {
                match parse_u64(value) {
                    None => {
                        proof {
                            lemma_memory_failure_sticks(ls, i + 1);
                        }
                        return None;
                    },
                    Some(v) => {
                        mem_info.push(
                            GpuInfo {
                                index: 0,
                                name: String::from_str("Memory"),
                                driver_version: String::from_str("0"),
                                memory_total: v,
                                memory_used: 0,
                                memory_free: 0,
                                temperature_gpu: 0,
                            },
                        );
                        proof {
                            seen_total = true;
                        }
                    },
                }
            } else if key == used_key || key == free_key {
                proof {
                    assert(line_key(ls[i as int]) is Some);
                    let j = choose|j: int|
                        0 <= j < i && line_key(#[trigger] ls[j]) == Some("Total Memory"@);
                }
                match parse_u64(value) {
                    None => {
                        proof {
                            lemma_memory_failure_sticks(ls, i + 1);
                        }
                        return None;
                    },
                    Some(v) => {
                        if key == used_key {
                            mem_info[0].memory_used = v;
                        } else {
                            mem_info[0].memory_free = v;
                        }
                    },
                }
            }
        }
        proof {
            assert(mem_info@.map_values(|g: GpuInfo| g@) =~= memory_records(ls.take(i + 1))->0);
        }
        i = i + 1;
    }
    proof {
        assert(ls.take(i as int) =~= ls);
    }
    Some(mem_info)
}

} // verus!
