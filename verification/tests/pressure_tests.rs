use corepolicy_manager::runtime::pressure::{pressure_fields, PressureSeries, PressureWindow};

fn value(source: &str, content: &str, series: PressureSeries, window: PressureWindow) -> Option<f32> {
    let mut found = None;
    for f in pressure_fields(source, content) {
        if f.series == series && f.window == window {
            if let Ok(v) = f.text.parse::<f32>() {
                found = Some(v);
            }
        }
    }
    found
}

#[test]
fn test_parse_cpu() {
    let content = "some avg10=10.43 avg60=8.17 avg300=6.52 total=123456";
    assert_eq!(value("cpu", content, PressureSeries::CpuSome, PressureWindow::Avg10), Some(10.43));
    assert_eq!(value("cpu", content, PressureSeries::CpuSome, PressureWindow::Avg60), Some(8.17));
    assert_eq!(value("cpu", content, PressureSeries::CpuSome, PressureWindow::Avg300), Some(6.52));
}

#[test]
fn pressure_fields_by_line_kind() {
    let content = "some avg10=1.00 avg60=2.00 avg300=3.00 total=1\nfull avg10=4.00 avg60=5.00 avg300=6.00 total=2\n";
    let fields = pressure_fields("memory", content);
    assert_eq!(fields.len(), 6);
    assert_eq!(fields[3].series, PressureSeries::MemoryFull);
    assert_eq!(fields[3].window, PressureWindow::Avg10);
    assert_eq!(fields[3].text, "4.00");
    assert!(pressure_fields("cpu", "full avg10=1.0\n").is_empty());
    assert!(pressure_fields("gpu", "some avg10=1.0").is_empty());
    assert!(pressure_fields("io", "").is_empty());
    assert_eq!(pressure_fields("io", "\n\nsome avg300=9.5").len(), 1);
}
