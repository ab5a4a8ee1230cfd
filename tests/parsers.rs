use gpu_ring_log::cycle::{cycle_records, GpuInfoKind, ProbeOutcome};
use gpu_ring_log::parse::{memory_keys_ordered, parse_gpu_info, parse_sysctl_vm_info};

#[test]
fn gpu_line_with_units_parses() {
    let recs = parse_gpu_info("RTX 4090, 535.54.03, 24576 MiB, 1024 MiB, 23552 MiB, 42").unwrap();
    assert_eq!(recs.len(), 1);
    let r = &recs[0];
    assert_eq!(r.index, 0);
    assert_eq!(r.name, "RTX 4090");
    assert_eq!(r.driver_version, "535.54.03");
    assert_eq!(r.memory_total, 24576);
    assert_eq!(r.memory_used, 1024);
    assert_eq!(r.memory_free, 23552);
    assert_eq!(r.temperature_gpu, 42);
}

#[test]
fn gpu_short_line_is_skipped_but_keeps_its_position() {
    let recs = parse_gpu_info("GPU0, v1, 10, 10\nGPU1, v1, 100, 40, 60, 55").unwrap();
    assert_eq!(recs.len(), 1);
    assert_eq!(recs[0].index, 1);
    assert_eq!(recs[0].name, "GPU1");
    assert_eq!(recs[0].memory_total, 100);
    assert_eq!(recs[0].memory_used, 40);
    assert_eq!(recs[0].memory_free, 60);
    assert_eq!(recs[0].temperature_gpu, 55);
}

#[test]
fn gpu_malformed_number_gives_no_records() {
    assert!(parse_gpu_info("GPU0, v1, notanumber, 10, 10, 10").is_none());
    assert!(parse_gpu_info("GPU0, v1, 10, 10, 10, 10\nGPU1, v1, 10, x, 10, 10").is_none());
}

#[test]
fn gpu_temperature_keeps_no_unit() {
    assert!(parse_gpu_info("GPU0, v1, 10, 10, 10, 42 MiB").is_none());
}

#[test]
fn gpu_several_devices_and_surrounding_whitespace() {
    let out = "  A100, 550.1, 81920, 0, 81920, 30\nA100, 550.1, 81920 MiB, 100 MiB, 81820 MiB, 31\n\n";
    let recs = parse_gpu_info(out).unwrap();
    assert_eq!(recs.len(), 2);
    assert_eq!(recs[0].index, 0);
    assert_eq!(recs[1].index, 1);
    assert_eq!(recs[1].memory_used, 100);
    assert_eq!(recs[1].temperature_gpu, 31);
}

#[test]
fn gpu_empty_output_gives_empty_list() {
    assert_eq!(parse_gpu_info("").unwrap().len(), 0);
    assert_eq!(parse_gpu_info("   \n ").unwrap().len(), 0);
}

#[test]
fn gpu_plus_sign_and_overflow() {
    let recs = parse_gpu_info("G, d, +5, 1, 2, 3").unwrap();
    assert_eq!(recs[0].memory_total, 5);
    assert!(parse_gpu_info("G, d, 18446744073709551616, 1, 2, 3").is_none());
    let max = parse_gpu_info("G, d, 18446744073709551615, 1, 2, 3").unwrap();
    assert_eq!(max[0].memory_total, u64::MAX);
}

#[test]
fn memory_report_parses() {
    let recs = parse_sysctl_vm_info("Total Memory: 1000\nUsed Memory: 400\nFree Memory: 600").unwrap();
    assert_eq!(recs.len(), 1);
    let r = &recs[0];
    assert_eq!(r.index, 0);
    assert_eq!(r.name, "Memory");
    assert_eq!(r.driver_version, "0");
    assert_eq!(r.memory_total, 1000);
    assert_eq!(r.memory_used, 400);
    assert_eq!(r.memory_free, 600);
    assert_eq!(r.temperature_gpu, 0);
}

#[test]
fn memory_report_in_probe_order_with_padding() {
    let out = "Total Memory: 17179869184\nFree Memory:  1234\nUsed Memory:  17179867950\n";
    let recs = parse_sysctl_vm_info(out).unwrap();
    assert_eq!(recs[0].memory_total, 17179869184);
    assert_eq!(recs[0].memory_free, 1234);
    assert_eq!(recs[0].memory_used, 17179867950);
}

#[test]
fn memory_unknown_keys_and_case_are_ignored() {
    let out = "Swap: 7\nTotal Memory: 10\ntotal memory: 99\nno colon here\nUsed Memory: 3";
    let recs = parse_sysctl_vm_info(out).unwrap();
    assert_eq!(recs.len(), 1);
    assert_eq!(recs[0].memory_total, 10);
    assert_eq!(recs[0].memory_used, 3);
    assert_eq!(recs[0].memory_free, 0);
}

#[test]
fn memory_bad_value_gives_no_records() {
    assert!(parse_sysctl_vm_info("Total Memory: 10\nUsed Memory: lots").is_none());
    assert!(parse_sysctl_vm_info("Total Memory: ten").is_none());
}

#[test]
fn memory_without_total_gives_empty_list() {
    assert_eq!(parse_sysctl_vm_info("Swap: 1").unwrap().len(), 0);
}

#[test]
fn memory_key_order_check() {
    assert!(memory_keys_ordered("Total Memory: 1\nUsed Memory: 1"));
    assert!(memory_keys_ordered("Swap: 1"));
    assert!(!memory_keys_ordered("Used Memory: 1\nTotal Memory: 1"));
    assert!(!memory_keys_ordered("Free Memory: 1"));
}

#[test]
fn cycle_failed_probe_gives_nothing() {
    assert!(cycle_records(GpuInfoKind::Nvidia, &ProbeOutcome::ExitFailed).is_none());
    assert!(cycle_records(GpuInfoKind::VmStat, &ProbeOutcome::ExitFailed).is_none());
    assert!(cycle_records(GpuInfoKind::Nvidia, &ProbeOutcome::LaunchFailed).is_none());
}

#[test]
fn cycle_uses_the_backend_parser() {
    let gpu = ProbeOutcome::Output("G, d, 1, 2, 3, 4".to_string());
    assert_eq!(cycle_records(GpuInfoKind::Nvidia, &gpu).unwrap()[0].temperature_gpu, 4);
    let mem = ProbeOutcome::Output("Total Memory: 8\nUsed Memory: 2".to_string());
    let recs = cycle_records(GpuInfoKind::VmStat, &mem).unwrap();
    assert_eq!(recs[0].name, "Memory");
    assert_eq!(recs[0].memory_used, 2);
    let bad = ProbeOutcome::Output("Used Memory: 2\nTotal Memory: 8".to_string());
    assert!(cycle_records(GpuInfoKind::VmStat, &bad).is_none());
}
