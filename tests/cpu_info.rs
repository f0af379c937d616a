use sensors_gui_thingy::cpu_info::{cores_from_parsed, frequency_fields};
use sensors_gui_thingy::sensors::CpuCore;

fn parse_all(fields: &[Option<String>]) -> Vec<Option<u64>> {
    fields
        .iter()
        .map(|f| f.as_ref().and_then(|s| s.parse::<f64>().ok()).map(f64::to_bits))
        .collect()
}

#[test]
fn fields_follow_block_order() {
    let text = "processor\t: 0\ncpu MHz\t\t: 3800.000\ncache size\t: 512 KB\n\nprocessor\t: 1\ncpu MHz\t\t: 2200.125\n";
    let fields = frequency_fields(text);
    assert_eq!(fields, vec![Some("3800.000".to_string()), Some("2200.125".to_string())]);
}

#[test]
fn block_without_field_gives_none() {
    let text = "processor : 0\ncpu MHz : 1000.5\n\nprocessor : 1\nmodel name : x\n\ncpu MHz : 7\n";
    let fields = frequency_fields(text);
    assert_eq!(fields, vec![Some("1000.5".to_string()), None, Some("7".to_string())]);
}

#[test]
fn first_labelled_line_wins() {
    let text = "cpu MHz : 1.5\ncpu MHz : 2.5";
    assert_eq!(frequency_fields(text), vec![Some("1.5".to_string())]);
}

#[test]
fn labelled_line_without_colon_gives_none() {
    let text = "cpu MHz 3800\ncpu MHz : 2.5";
    assert_eq!(frequency_fields(text), vec![None]);
}

#[test]
fn value_is_everything_after_first_colon_trimmed() {
    let text = "cpu MHz:\u{a0} 12:30 \t\r\n";
    assert_eq!(frequency_fields(text), vec![Some("12:30".to_string())]);
}

#[test]
fn label_must_start_the_line() {
    let text = "x cpu MHz : 5\n";
    assert_eq!(frequency_fields(text), vec![None]);
}

#[test]
fn empty_text_is_one_empty_block() {
    assert_eq!(frequency_fields(""), vec![None]);
}

#[test]
fn unparseable_blocks_are_skipped_in_order() {
    let text = "cpu MHz : 3800.000\n\ncpu MHz : fast\n\nmodel : 1\n\ncpu MHz :   1200.5  ";
    let fields = frequency_fields(text);
    let cores = cores_from_parsed(parse_all(&fields));
    assert_eq!(
        cores,
        vec![CpuCore { freq: 3800.0f64.to_bits() }, CpuCore { freq: 1200.5f64.to_bits() }]
    );
}

#[test]
fn no_parseable_block_gives_no_cores() {
    let text = "model : 1\n\ncpu MHz : n/a\n\ncpu MHz :";
    let fields = frequency_fields(text);
    assert_eq!(fields.len(), 3);
    let cores = cores_from_parsed(parse_all(&fields));
    assert!(cores.is_empty());
}

#[test]
fn kept_readings_keep_their_order() {
    let cores = cores_from_parsed(vec![None, Some(3), Some(1), None, Some(2)]);
    assert_eq!(cores, vec![CpuCore { freq: 3 }, CpuCore { freq: 1 }, CpuCore { freq: 2 }]);
}
