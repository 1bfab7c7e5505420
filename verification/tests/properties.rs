use dlt_explorer::message::ErrorKind;
use dlt_explorer::store::{get_files_size, Dlt, DltDraft, DltError};

const UEH: u8 = 0x01;

fn msg(htyp: u8, msin: u8, noar: u8, payload: &[u8]) -> Vec<u8> {
    let mut v: Vec<u8> = vec![0x44, 0x4c, 0x54, 0x01];
    v.extend_from_slice(&1u32.to_le_bytes());
    v.extend_from_slice(&2i32.to_le_bytes());
    v.extend_from_slice(b"ECU\0");
    v.push(htyp);
    v.push(0);
    v.extend_from_slice(&0u16.to_le_bytes());
    if htyp & UEH != 0 {
        v.push(msin);
        v.push(noar);
        v.extend_from_slice(b"APP1");
        v.extend_from_slice(b"CTX1");
    }
    v.extend_from_slice(payload);
    v
}

fn verbose_msg(noar: u8, payload: &[u8]) -> Vec<u8> {
    msg(UEH, 0x01, noar, payload)
}

fn load(files: Vec<Vec<u8>>) -> Dlt {
    let draft = DltDraft::from_files(&files).unwrap();
    let texts: Vec<String> = draft
        .float_requests()
        .iter()
        .map(|q| {
            if q.wide {
                format!("{}", f64::from_bits(q.bits))
            } else {
                format!("{}", f32::from_bits(q.bits as u32))
            }
        })
        .collect();
    draft.finish(&texts)
}

fn load_err(files: Vec<Vec<u8>>) -> DltError {
    match DltDraft::from_files(&files) {
        Ok(_) => panic!("expected the load to fail"),
        Err(e) => e,
    }
}

fn arg(type_info: u32, value: &[u8]) -> Vec<u8> {
    let mut v: Vec<u8> = Vec::new();
    v.extend_from_slice(&type_info.to_le_bytes());
    v.extend_from_slice(value);
    v
}

#[test]
fn control_round_trip() {
    // Service id 0x11 is set_default_log_level; the trailer is hex dumped.
    let mut payload: Vec<u8> = Vec::new();
    payload.extend_from_slice(&0x11u32.to_le_bytes());
    payload.extend_from_slice(&[0x04, 0x72, 0x65, 0x6d, 0x6f]);
    let file = msg(UEH, 3 << 1, 0, &payload);

    let result = load(vec![file]);

    assert_eq!(result.payloads(), &vec!["set_default_log_level 04 72 65 6d 6f"]);
}

#[test]
fn bool_argument_renders_true_and_false() {
    let mut file = verbose_msg(1, &arg(0x10, &[0x01]));
    file.extend_from_slice(&verbose_msg(1, &arg(0x10, &[0x00])));
    file.extend_from_slice(&verbose_msg(1, &arg(0x10, &[0x77])));

    let result = load(vec![file]);

    assert_eq!(result.payloads(), &vec!["true", "false", "true"]);
}

#[test]
fn verbose_message_with_zero_arguments_renders_empty() {
    let result = load(vec![verbose_msg(0, &[])]);

    assert_eq!(result.payloads(), &vec![""]);
    assert_eq!(result.size(), 1);
}

#[test]
fn nonverbose_numeric_id_renders_decimal() {
    let result = load(vec![msg(UEH, 0x00, 0, &21u32.to_le_bytes())]);

    assert_eq!(result.payloads(), &vec!["21"]);
}

#[test]
fn raw_data_renders_space_separated_hex() {
    let mut payload: Vec<u8> = Vec::new();
    payload.extend_from_slice(&0x400u32.to_le_bytes());
    payload.extend_from_slice(&5u16.to_le_bytes());
    payload.extend_from_slice(&[0x48, 0x65, 0x6c, 0x6c, 0x6f]);

    let result = load(vec![verbose_msg(1, &payload)]);

    assert_eq!(result.payloads(), &vec!["48 65 6c 6c 6f"]);
}

#[test]
fn loading_files_concatenates_column_wise() {
    let a = msg(UEH, 0x00, 0, &501u32.to_le_bytes());
    let b = verbose_msg(1, &arg(0x10, &[0x01]));

    let joint = load(vec![a.clone(), b.clone()]);
    let first = load(vec![a.clone()]);
    let second = load(vec![b.clone()]);

    let mut expected_payloads = first.payloads().clone();
    expected_payloads.extend_from_slice(second.payloads());
    assert_eq!(joint.payloads(), &expected_payloads);
    let mut expected_apids = first.apids().clone();
    expected_apids.extend_from_slice(second.apids());
    assert_eq!(joint.apids(), &expected_apids);
    assert_eq!(joint.size(), first.size() + second.size());
}

#[test]
fn loading_order_is_preserved() {
    let a = msg(UEH, 0x00, 0, &501u32.to_le_bytes());
    let b = msg(UEH, 0x00, 0, &502u32.to_le_bytes());

    let ab = load(vec![a.clone(), b.clone()]);
    let ba = load(vec![b, a]);

    assert_eq!(ab.payloads(), &vec!["501", "502"]);
    assert_eq!(ba.payloads(), &vec!["502", "501"]);
}

#[test]
fn control_response_consumes_return_code() {
    // Service id 3 is get_log_info; return code 0, then one trailer byte.
    let mut payload: Vec<u8> = Vec::new();
    payload.extend_from_slice(&3u32.to_le_bytes());
    payload.push(0x00);
    payload.push(0xaa);
    let file = msg(UEH, (3 << 1) | (2 << 4), 0, &payload);

    let result = load(vec![file]);

    assert_eq!(result.payloads(), &vec!["get_log_info aa"]);
}

#[test]
fn unknown_service_id_renders_synthetic_name() {
    let mut payload: Vec<u8> = Vec::new();
    payload.extend_from_slice(&33u32.to_le_bytes());
    payload.push(0x01);
    let file = msg(UEH, 3 << 1, 0, &payload);

    let result = load(vec![file]);

    assert_eq!(result.payloads(), &vec!["service(33) 01"]);
}

#[test]
fn service_id_zero_has_empty_name() {
    let mut payload: Vec<u8> = Vec::new();
    payload.extend_from_slice(&0u32.to_le_bytes());
    payload.push(0x68);
    let file = msg(UEH, 3 << 1, 0, &payload);

    let result = load(vec![file]);

    assert_eq!(result.payloads(), &vec![" 68"]);
}

#[test]
fn invalid_utf8_is_replaced_not_echoed() {
    let mut payload: Vec<u8> = Vec::new();
    payload.extend_from_slice(&0x8200u32.to_le_bytes());
    payload.extend_from_slice(&2u16.to_le_bytes());
    payload.extend_from_slice(&[0xff, 0xfe]);

    let result = load(vec![verbose_msg(1, &payload)]);

    assert_eq!(result.payloads(), &vec!["\u{fffd}\u{fffd}"]);
}

#[test]
fn garbage_before_first_marker_is_skipped() {
    let mut file: Vec<u8> = vec![0x00, 0x44, 0x4c, 0x54, 0x00, 0xff];
    file.extend_from_slice(&msg(UEH, 0x00, 0, &7u32.to_le_bytes()));

    let result = load(vec![file]);

    assert_eq!(result.size(), 1);
    assert_eq!(result.payloads(), &vec!["7"]);
}

#[test]
fn file_without_marker_holds_no_messages() {
    let result = load(vec![vec![0x01, 0x02, 0x03, 0x04, 0x05]]);

    assert_eq!(result.size(), 0);
    assert_eq!(result.payloads(), &Vec::<String>::new());
}

#[test]
fn truncated_header_fails_the_load() {
    let file: Vec<u8> = vec![0x44, 0x4c, 0x54, 0x01, 0x01, 0x02];

    let e = load_err(vec![file]);

    assert!(matches!(e.kind, ErrorKind::Truncated));
    assert_eq!(e.file, 0);
    assert_eq!(e.message, 0);
    assert_eq!(e.offset, 0);
}

#[test]
fn truncated_string_argument_fails_the_load() {
    let mut payload: Vec<u8> = Vec::new();
    payload.extend_from_slice(&0x8200u32.to_le_bytes());
    payload.extend_from_slice(&50u16.to_le_bytes());
    payload.extend_from_slice(b"short");

    let e = load_err(vec![verbose_msg(1, &payload)]);

    assert!(matches!(e.kind, ErrorKind::Truncated));
}

#[test]
fn variable_info_flag_is_unsupported() {
    let payload = arg(0x10 | 0x800, &[0x01]);

    let e = load_err(vec![verbose_msg(1, &payload)]);

    assert!(matches!(e.kind, ErrorKind::Unsupported));
}

#[test]
fn fixed_point_flag_is_unsupported() {
    let payload = arg(0x43 | 0x1000, &1u32.to_le_bytes());

    let e = load_err(vec![verbose_msg(1, &payload)]);

    assert!(matches!(e.kind, ErrorKind::Unsupported));
}

#[test]
fn narrow_and_wide_float_widths_are_unsupported() {
    for tyle in [0x81u32, 0x82, 0x85] {
        let e = load_err(vec![verbose_msg(1, &arg(tyle, &[0u8; 16]))]);
        assert!(matches!(e.kind, ErrorKind::Unsupported));
    }
}

#[test]
fn unknown_type_info_is_unsupported() {
    let e = load_err(vec![verbose_msg(1, &arg(0, &[0u8; 4]))]);

    assert!(matches!(e.kind, ErrorKind::Unsupported));
}

#[test]
fn error_names_file_and_message_and_offset() {
    let good = msg(UEH, 0x00, 0, &5u32.to_le_bytes());
    let mut second: Vec<u8> = good.clone();
    second.extend_from_slice(&verbose_msg(1, &arg(0x800, &[])));

    let e = load_err(vec![good.clone(), second]);

    assert!(matches!(e.kind, ErrorKind::Unsupported));
    assert_eq!(e.file, 1);
    assert_eq!(e.message, 1);
    assert_eq!(e.offset, good.len());
}

#[test]
fn float_requests_report_bits_in_order() {
    let mut file = verbose_msg(1, &arg(0x83, &1.5f32.to_le_bytes()));
    file.extend_from_slice(&verbose_msg(1, &arg(0x84, &2.5f64.to_le_bytes())));

    let draft = DltDraft::from_files(&vec![file]).unwrap();
    let reqs = draft.float_requests();

    assert_eq!(reqs.len(), 2);
    assert!(!reqs[0].wide);
    assert_eq!(reqs[0].bits, 1.5f32.to_bits() as u64);
    assert!(reqs[1].wide);
    assert_eq!(reqs[1].bits, 2.5f64.to_bits());
}

#[test]
fn extreme_integer_widths_render_exactly() {
    let mut file = verbose_msg(1, &arg(0x45, &u128::MAX.to_le_bytes()));
    file.extend_from_slice(&verbose_msg(1, &arg(0x25, &i128::MIN.to_le_bytes())));
    file.extend_from_slice(&verbose_msg(1, &arg(0x21, &(-1i8).to_le_bytes())));

    let result = load(vec![file]);

    assert_eq!(
        result.payloads(),
        &vec![
            "340282366920938463463374607431768211455",
            "-170141183460469231731687303715884105728",
            "-1",
        ]
    );
}

#[test]
fn get_files_size_of_nothing_is_zero() {
    assert_eq!(get_files_size(&Vec::new()), 0);
}
