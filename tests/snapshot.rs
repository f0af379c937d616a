use std::sync::Arc;

use serde_json::Value;
use sensors_gui_thingy::cpu_info::{self, cores_from_parsed, frequency_fields};
use sensors_gui_thingy::json::{Device, Devices, FieldValue};
use sensors_gui_thingy::sensors::{CommandOutput, CpuCore, CpuTemp, Error, Sensors, SENSORS_COMMAND};

const REPORT: &str = r#"{"k10temp-isa-0000":{"Adapter":"ISA adapter","Vcore":{"in0_input":1.25},"Vsoc":{"in1_input":1.05},"Icore":{"curr1_input":10.0},"Isoc":{"curr2_input":3.0},"Tdie":{"temp1_input":45.0},"Tctl":{"temp2_input":47.0},"Tccd1":{"temp3_input":44.0},"Tccd2":{"temp4_input":43.0}}}"#;

fn field_value(v: &Value) -> FieldValue {
    match v {
        Value::Number(n) => FieldValue::Number(n.as_f64().unwrap().to_bits()),
        Value::Object(m) => {
            FieldValue::Object(m.iter().map(|(k, v)| (k.clone(), field_value(v))).collect())
        }
        _ => FieldValue::Other,
    }
}

fn report_devices(bytes: &[u8]) -> Result<Devices, String> {
    let value: Value = serde_json::from_slice(bytes).map_err(|e| e.to_string())?;
    let map = value.as_object().ok_or_else(|| "not an object".to_string())?;
    let mut devices = Vec::new();
    for (id, dev) in map.iter() {
        let obj = dev.as_object().ok_or_else(|| "not a device".to_string())?;
        let adapter = obj["Adapter"].as_str().unwrap().to_string();
        let extra = obj
            .iter()
            .filter(|(k, _)| k.as_str() != "Adapter")
            .map(|(k, v)| (k.clone(), field_value(v)))
            .collect();
        devices.push((id.clone(), Device { adapter, extra }));
    }
    Ok(Devices(devices))
}

fn cores_of(text: &str) -> Vec<CpuCore> {
    let parsed = frequency_fields(text)
        .iter()
        .map(|f| f.as_ref().and_then(|s| s.parse::<f64>().ok()).map(f64::to_bits))
        .collect();
    cores_from_parsed(parsed)
}

#[test]
fn end_to_end_snapshot() {
    let output = CommandOutput { success: true, stdout: REPORT.as_bytes().to_vec() };
    let stdout = Sensors::command_output(Ok(output)).unwrap();
    let temp = Sensors::cpu_temp(report_devices(&stdout)).unwrap();
    let cores = cores_of("processor : 0\ncpu MHz : 3800.000\n\nprocessor : 1\ncpu MHz : 3800.000\n");
    let sensors = Sensors::assemble(temp, Ok(cores)).unwrap();
    let cpu = sensors.cpu.unwrap();
    let freqs: Vec<f64> = cpu.cores.iter().map(|c| f64::from_bits(c.freq)).collect();
    assert_eq!(freqs, vec![3800.0, 3800.0]);
    let CpuTemp::Zen2 {
        voltage_core,
        voltage_so_c,
        current_core,
        current_so_c,
        temp_die,
        temp_ctl,
        temp_ccd1,
        temp_ccd2,
    } = cpu.temp;
    assert_eq!(f64::from_bits(voltage_core), 1.25);
    assert_eq!(f64::from_bits(voltage_so_c), 1.05);
    assert_eq!(f64::from_bits(current_core), 10.0);
    assert_eq!(f64::from_bits(current_so_c), 3.0);
    assert_eq!(f64::from_bits(temp_die), 45.0);
    assert_eq!(f64::from_bits(temp_ctl), 47.0);
    assert_eq!(f64::from_bits(temp_ccd1), 44.0);
    assert_eq!(f64::from_bits(temp_ccd2), 43.0);
    assert!(sensors.graphics.is_none());
    assert!(sensors.others.is_empty());
}

#[test]
fn failed_command_is_reported() {
    let output = CommandOutput { success: false, stdout: REPORT.as_bytes().to_vec() };
    assert!(matches!(Sensors::command_output(Ok(output)), Err(Error::SensorsCmdFailed)));
}

#[test]
fn spawn_failure_is_reported() {
    let cause = Arc::new(std::io::Error::new(std::io::ErrorKind::NotFound, "no sensors"));
    match Sensors::command_output(Err(cause.clone())) {
        Err(Error::SpawnCommand { cmd, source }) => {
            assert_eq!(cmd, SENSORS_COMMAND);
            assert!(Arc::ptr_eq(&source, &cause));
        }
        other => panic!("unexpected {:?}", other),
    }
}

#[test]
fn unreadable_processor_info_is_reported() {
    let stdout = Sensors::command_output(Ok(CommandOutput {
        success: true,
        stdout: REPORT.as_bytes().to_vec(),
    }))
    .unwrap();
    let temp = Sensors::cpu_temp(report_devices(&stdout)).unwrap();
    let cause = Arc::new(std::io::Error::new(std::io::ErrorKind::PermissionDenied, "denied"));
    let read = Err(cpu_info::Error::CannotReadProcFile { source: cause });
    assert!(matches!(
        Sensors::assemble(temp, read),
        Err(Error::CpuInfoFailure { source: cpu_info::Error::CannotReadProcFile { .. } })
    ));
}

#[test]
fn undecodable_output_is_reported() {
    let result = Sensors::cpu_temp(report_devices(b"not json"));
    assert!(matches!(result, Err(Error::CannotParseSensorsJson { .. })));
}

#[test]
fn report_without_cpu_is_reported() {
    let result = Sensors::cpu_temp(report_devices(br#"{"nvme-pci-0100":{"Adapter":"PCI adapter","Composite":{"temp1_input":40.0}}}"#));
    assert!(matches!(
        result,
        Err(Error::ReadJsonSensorData {
            source: sensors_gui_thingy::json::Error::UnsupportedCpuFamily
        })
    ));
}

#[test]
fn empty_processor_info_gives_empty_cores() {
    let stdout = Sensors::command_output(Ok(CommandOutput {
        success: true,
        stdout: REPORT.as_bytes().to_vec(),
    }))
    .unwrap();
    let temp = Sensors::cpu_temp(report_devices(&stdout)).unwrap();
    let sensors = Sensors::assemble(temp, Ok(cores_of("model name : none\n"))).unwrap();
    assert!(sensors.cpu.unwrap().cores.is_empty());
}

#[test]
fn default_snapshot_is_empty() {
    let s = Sensors::default();
    assert!(s.cpu.is_none() && s.graphics.is_none() && s.others.is_empty());
}
