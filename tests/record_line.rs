use gpu_ring_log::parse::parse_gpu_info;
use gpu_ring_log::record::{encode_line, GpuInfo};

fn sample() -> GpuInfo {
    GpuInfo {
        index: 3,
        name: "RTX \"4090\"\\x\tz".to_string(),
        driver_version: "535.54.03".to_string(),
        memory_total: 24576,
        memory_used: 1024,
        memory_free: 23552,
        temperature_gpu: 42,
    }
}

#[test]
fn line_has_fixed_key_order() {
    let rec = GpuInfo {
        index: 0,
        name: "RTX 4090".to_string(),
        driver_version: "535.54.03".to_string(),
        memory_total: 24576,
        memory_used: 1024,
        memory_free: 23552,
        temperature_gpu: 42,
    };
    assert_eq!(
        encode_line(1700000000, &rec),
        "{\"timestamp\":1700000000,\"index\":0,\"name\":\"RTX 4090\",\"driver_version\":\"535.54.03\",\"memory_total\":24576,\"memory_used\":1024,\"memory_free\":23552,\"temperature_gpu\":42}\n"
    );
}

#[test]
fn line_escapes_strings() {
    let line = encode_line(0, &sample());
    assert!(line.contains("\"name\":\"RTX \\\"4090\\\"\\\\x\\tz\""));
    assert!(line.starts_with("{\"timestamp\":0,\"index\":3,"));
    assert!(line.ends_with("\"temperature_gpu\":42}\n"));
}

#[test]
fn line_round_trips_through_json() {
    let rec = sample();
    let line = encode_line(u64::MAX, &rec);
    assert_eq!(line.matches('\n').count(), 1);
    let v: serde_json::Value = serde_json::from_str(line.trim_end()).unwrap();
    assert_eq!(v["timestamp"].as_u64(), Some(u64::MAX));
    assert_eq!(v["index"].as_u64(), Some(3));
    assert_eq!(v["name"].as_str(), Some(rec.name.as_str()));
    assert_eq!(v["driver_version"].as_str(), Some("535.54.03"));
    assert_eq!(v["memory_total"].as_u64(), Some(24576));
    assert_eq!(v["memory_used"].as_u64(), Some(1024));
    assert_eq!(v["memory_free"].as_u64(), Some(23552));
    assert_eq!(v["temperature_gpu"].as_u64(), Some(42));
    assert_eq!(v.as_object().unwrap().len(), 8);
}

#[test]
fn parsed_records_round_trip_through_lines() {
    let recs = parse_gpu_info("A, 1.0, 10 MiB, 4 MiB, 6 MiB, 50\nB, 2.0, 20, 5, 15, 60").unwrap();
    for r in &recs {
        let v: serde_json::Value = serde_json::from_str(&encode_line(9, r)).unwrap();
        assert_eq!(v["index"].as_u64(), Some(r.index as u64));
        assert_eq!(v["name"].as_str(), Some(r.name.as_str()));
        assert_eq!(v["memory_used"].as_u64(), Some(r.memory_used));
        assert_eq!(v["temperature_gpu"].as_u64(), Some(r.temperature_gpu));
    }
}
