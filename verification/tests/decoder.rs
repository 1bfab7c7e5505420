use dlt_explorer::store::{get_files_size, Dlt, DltDraft};

const UEH: u8 = 0x01;
const WSID: u8 = 0x08;
const WTMS: u8 = 0x10;

/// One DLT message: marker, storage header, standard header, the extra
/// header fields the flags ask for, the extended header, and the payload.
fn msg(htyp: u8, msin: u8, noar: u8, apid: &[u8; 4], ctid: &[u8; 4], payload: &[u8]) -> Vec<u8> {
    let mut v: Vec<u8> = vec![0x44, 0x4c, 0x54, 0x01];
    v.extend_from_slice(&100u32.to_le_bytes());
    v.extend_from_slice(&500i32.to_le_bytes());
    v.extend_from_slice(b"ECU\0");
    v.push(htyp);
    v.push(1);
    let declared = (4 + payload.len()) as u16;
    v.extend_from_slice(&declared.to_le_bytes());
    if htyp & 0x04 != 0 {
        v.extend_from_slice(b"ECU2");
    }
    if htyp & WSID != 0 {
        v.extend_from_slice(&7u32.to_le_bytes());
    }
    if htyp & WTMS != 0 {
        v.extend_from_slice(&900u32.to_le_bytes());
    }
    if htyp & UEH != 0 {
        v.push(msin);
        v.push(noar);
        v.extend_from_slice(apid);
        v.extend_from_slice(ctid);
    }
    v.extend_from_slice(payload);
    v
}

/// A non-verbose control request: service id, then trailer bytes.
fn control_msg(service_id: u32, trailer: &[u8]) -> Vec<u8> {
    let mut payload: Vec<u8> = Vec::new();
    payload.extend_from_slice(&service_id.to_le_bytes());
    payload.extend_from_slice(trailer);
    // msin: message type control (3), type info request (1), non-verbose
    msg(UEH | WSID | WTMS, (3 << 1) | (1 << 4), 0, b"APP\0", b"CON\0", &payload)
}

/// The bytes named by a string of space-separated two-digit hex pairs.
fn hex_bytes(s: &str) -> Vec<u8> {
    if s.is_empty() {
        return Vec::new();
    }
    s.split(' ').map(|p| u8::from_str_radix(p, 16).unwrap()).collect()
}

/// A verbose argument: 4-byte type info, then the value bytes.
fn arg(type_info: u32, value: &[u8]) -> Vec<u8> {
    let mut v: Vec<u8> = Vec::new();
    v.extend_from_slice(&type_info.to_le_bytes());
    v.extend_from_slice(value);
    v
}

/// A string argument, with its 2-byte length.
fn string_arg(text: &[u8]) -> Vec<u8> {
    let mut v: Vec<u8> = Vec::new();
    v.extend_from_slice(&0x8200u32.to_le_bytes());
    v.extend_from_slice(&(text.len() as u16).to_le_bytes());
    v.extend_from_slice(text);
    v
}

/// A raw-data argument, with its 2-byte length.
fn raw_arg(bytes: &[u8]) -> Vec<u8> {
    let mut v: Vec<u8> = Vec::new();
    v.extend_from_slice(&0x400u32.to_le_bytes());
    v.extend_from_slice(&(bytes.len() as u16).to_le_bytes());
    v.extend_from_slice(bytes);
    v
}

/// A verbose log message (log level info) with the given arguments.
fn verbose_msg(apid: &[u8; 4], ctid: &[u8; 4], args: &[Vec<u8>]) -> Vec<u8> {
    let mut payload: Vec<u8> = Vec::new();
    for a in args {
        payload.extend_from_slice(a);
    }
    msg(UEH, 0x41, args.len() as u8, apid, ctid, &payload)
}

fn load(files: Vec<Vec<u8>>) -> Dlt {
    let draft = DltDraft::from_files(&files).unwrap();
    let texts: Vec<String> = draft
        .float_requests()
        .iter()
        .map(|q| {
            if q.wide {
                format!("{}", f64::from_bits(q.bits))
            } else {
                format!("{}", f32::from_bits(q.bits as u32))
            }
        })
        .collect();
    draft.finish(&texts)
}

fn control_messages_file() -> Vec<u8> {
    let mut v: Vec<u8> = Vec::new();
    v.extend_from_slice(&control_msg(0x11, &[0x04, 0x72, 0x65, 0x6d, 0x6f]));
    v.extend_from_slice(&control_msg(0x12, &[0x00, 0x72, 0x65, 0x6d, 0x6f]));
    v.extend_from_slice(&control_msg(0x09, &[0x01]));
    v.extend_from_slice(&control_msg(0x0b, &[0x00]));
    v
}

fn empty_number_and_text_file() -> Vec<u8> {
    let mut v: Vec<u8> = Vec::new();
    v.extend_from_slice(&verbose_msg(b"LOG\0", b"TES1", &[]));
    v.extend_from_slice(&verbose_msg(
        b"LOG\0",
        b"TES1",
        &[arg(0x42, &1011u16.to_le_bytes())],
    ));
    v.extend_from_slice(&verbose_msg(b"LOG\0", b"TES1", &[string_arg(b"Hello BMW\0")]));
    v
}

fn single_payloads_file() -> Vec<u8> {
    let mut v: Vec<u8> = Vec::new();
    let a = |t: &[Vec<u8>]| verbose_msg(b"LOG\0", b"TES2", t);
    v.extend_from_slice(&a(&[arg(0x41, &[101u8])]));
    v.extend_from_slice(&a(&[arg(0x42, &102u16.to_le_bytes())]));
    v.extend_from_slice(&a(&[arg(0x43, &103u32.to_le_bytes())]));
    v.extend_from_slice(&a(&[arg(0x44, &104u64.to_le_bytes())]));
    v.extend_from_slice(&a(&[arg(0x21, &105i8.to_le_bytes())]));
    v.extend_from_slice(&a(&[arg(0x22, &106i16.to_le_bytes())]));
    v.extend_from_slice(&a(&[arg(0x23, &107i32.to_le_bytes())]));
    v.extend_from_slice(&a(&[arg(0x24, &108i64.to_le_bytes())]));
    v.extend_from_slice(&a(&[arg(0x43, &109u32.to_le_bytes())]));
    v.extend_from_slice(&a(&[arg(0x23, &110i32.to_le_bytes())]));
    v.extend_from_slice(&a(&[arg(0x10, &[1u8])]));
    v.extend_from_slice(&a(&[string_arg(b"STRING 112 message\0")]));
    v.extend_from_slice(&a(&[string_arg(b"CSTRING 113 message\0")]));
    v.extend_from_slice(&a(&[arg(0x83, &1.1f32.to_le_bytes())]));
    v.extend_from_slice(&a(&[arg(0x84, &1.2f64.to_le_bytes())]));
    v.extend_from_slice(&a(&[raw_arg(b"Hello world\0")]));
    v
}

#[test]
fn parse_dlt_control_messages() {
    let result = load(vec![control_messages_file()]);

    assert_eq!(result.apids(), &vec!["APP\0"; 4]);
    assert_eq!(result.ctids(), &vec!["CON\0"; 4]);
    assert_eq!(
        result.payloads(),
        &vec![
            "set_default_log_level 04 72 65 6d 6f",
            "set_default_trace_status 00 72 65 6d 6f",
            "set_verbose_mode 01",
            "set_timing_packets 00"
        ]
    );
    assert_eq!(result.size(), 4);
}

#[test]
fn parse_dlt_empty_number_and_text_messages() {
    let result = load(vec![empty_number_and_text_file()]);

    assert_eq!(result.apids(), &vec!["LOG\0"; 3]);
    assert_eq!(result.ctids(), &vec!["TES1"; 3]);
    assert_eq!(result.payloads(), &vec!["", "1011", "Hello BMW\0"]);
    assert_eq!(result.size(), 3);
}

#[test]
fn parse_dlt_single_payloads() {
    let result = load(vec![single_payloads_file()]);

    assert_eq!(result.apids(), &vec!["LOG\0"; 16]);
    assert_eq!(result.ctids(), &vec!["TES2"; 16]);
    assert_eq!(
        result.payloads(),
        &vec![
            "101",
            "102",
            "103",
            "104",
            "105",
            "106",
            "107",
            "108",
            "109",
            "110",
            "true",
            "STRING 112 message\0",
            "CSTRING 113 message\0",
            "1.1",
            "1.2",
            "48 65 6c 6c 6f 20 77 6f 72 6c 64 00"
        ]
    );
}

#[test]
fn parse_dlt_multiple_number_of_arguments() {
    let groups: Vec<Vec<u8>> = vec![
        vec![],
        vec![0x21],
        vec![0x31, 0x32],
        vec![0x41, 0x42, 0x43],
        vec![0x51, 0x52, 0x53, 0x54],
        vec![0x61, 0x62, 0x63, 0x64, 0x65],
        vec![0x71, 0x72, 0x73, 0x74, 0x75, 0x76],
    ];
    let mut file: Vec<u8> = Vec::new();
    for g in &groups {
        let args: Vec<Vec<u8>> = g.iter().map(|b| raw_arg(&[*b])).collect();
        file.extend_from_slice(&verbose_msg(b"LOG\0", b"TES3", &args));
    }

    let result = load(vec![file]);

    assert_eq!(result.apids(), &vec!["LOG\0"; 7]);
    assert_eq!(result.ctids(), &vec!["TES3"; 7]);
    assert_eq!(
        result.payloads(),
        &vec![
            "",
            "21",
            "31 32",
            "41 42 43",
            "51 52 53 54",
            "61 62 63 64 65",
            "71 72 73 74 75 76",
        ]
    );
}

#[test]
fn parse_dlt_number_and_text() {
    let mut file: Vec<u8> = Vec::new();
    for n in 0u32..18 {
        file.extend_from_slice(&verbose_msg(
            b"LOG\0",
            b"TES4",
            &[arg(0x43, &n.to_le_bytes()), string_arg(b"Hello world\0")],
        ));
    }

    let result = load(vec![file]);

    assert_eq!(result.apids(), &vec!["LOG\0"; 18]);
    assert_eq!(result.ctids(), &vec!["TES4"; 18]);
    assert_eq!(
        result.payloads(),
        &vec![
            "0 Hello world\0",
            "1 Hello world\0",
            "2 Hello world\0",
            "3 Hello world\0",
            "4 Hello world\0",
            "5 Hello world\0",
            "6 Hello world\0",
            "7 Hello world\0",
            "8 Hello world\0",
            "9 Hello world\0",
            "10 Hello world\0",
            "11 Hello world\0",
            "12 Hello world\0",
            "13 Hello world\0",
            "14 Hello world\0",
            "15 Hello world\0",
            "16 Hello world\0",
            "17 Hello world\0",
        ]
    );
}

#[test]
fn parse_dlt_type_id_and_text() {
    let expected: Vec<&str> = vec![
        "set_default_log_level 04 72 65 6d 6f",
        "set_default_trace_status 00 72 65 6d 6f",
        "set_verbose_mode 01",
        "set_timing_packets 00",
        "101",
        "102 f3 03",
        "103 0a 00 48 65 6c 6c 6f 20 42 4d 57 00",
        "201 65",
        "202 66 00",
        "203 67 00 00 00",
        "204 68 00 00 00 00 00 00 00",
        "205 69",
        "206 6a 00",
        "207 6b 00 00 00",
        "208 6c 00 00 00 00 00 00 00",
        "209 6d 00 00 00",
        "210 6e 00 00 00",
        "211 6f",
        "212 13 00 53 54 52 49 4e 47 20 31 31 32 20 6d 65 73 73 61 67 65 00",
        "213 14 00 43 53 54 52 49 4e 47 20 31 31 33 20 6d 65 73 73 61 67 65 00",
        "214 cd cc 8c 3f",
        "215 33 33 33 33 33 33 f3 3f",
        "216 0c 00 48 65 6c 6c 6f 20 77 6f 72 6c 64 00",
        "301",
        "302 15 00 00 00",
        "303 1f 00 00 00 20 00 00 00",
        "304 29 00 00 00 2a 00 00 00 2b 00 00 00",
        "305 33 00 00 00 34 00 00 00 35 00 00 00 36 00 00 00",
        "305 3d 00 00 00 3e 00 00 00 3f 00 00 00 40 00 00 00 41 00 00 00",
        "305 47 00 00 00 48 00 00 00 49 00 00 00 4a 00 00 00 4b 00 00 00 4c 00 00 00",
        "401 00 00 00 00 0c 00 48 65 6c 6c 6f 20 77 6f 72 6c 64 00",
        "401 01 00 00 00 0c 00 48 65 6c 6c 6f 20 77 6f 72 6c 64 00",
        "401 02 00 00 00 0c 00 48 65 6c 6c 6f 20 77 6f 72 6c 64 00",
        "401 03 00 00 00 0c 00 48 65 6c 6c 6f 20 77 6f 72 6c 64 00",
        "401 04 00 00 00 0c 00 48 65 6c 6c 6f 20 77 6f 72 6c 64 00",
        "401 05 00 00 00 0c 00 48 65 6c 6c 6f 20 77 6f 72 6c 64 00",
        "401 06 00 00 00 0c 00 48 65 6c 6c 6f 20 77 6f 72 6c 64 00",
        "401 07 00 00 00 0c 00 48 65 6c 6c 6f 20 77 6f 72 6c 64 00",
    ];
    let mut file: Vec<u8> = Vec::new();
    file.extend_from_slice(&control_messages_file());
    for e in expected.iter().skip(4) {
        let (id_text, trailer_text) = match e.split_once(' ') {
            Some((a, b)) => (a, b),
            None => (*e, ""),
        };
        let id: u32 = id_text.parse().unwrap();
        let mut payload: Vec<u8> = Vec::new();
        payload.extend_from_slice(&id.to_le_bytes());
        payload.extend_from_slice(&hex_bytes(trailer_text));
        // non-verbose log message: extended header present, verbose bit clear
        file.extend_from_slice(&msg(UEH, 0x00, 0, b"LOG\0", b"TES5", &payload));
    }

    let result = load(vec![file]);

    assert_eq!(result.payloads(), &expected);
}

#[test]
fn parse_dlt_with_size_bigger_than_buffer() {
    let mut file: Vec<u8> = Vec::new();
    for n in 0u32..100_000 {
        let mut payload: Vec<u8> = Vec::new();
        payload.extend_from_slice(&n.to_le_bytes());
        file.extend_from_slice(&msg(UEH, 0x00, 0, b"LOG\0", b"TESB", &payload));
    }

    let result = load(vec![file]);

    assert_eq!(result.size(), 100_000);
}

#[test]
fn parse_dlt_with_multiple_files() {
    let result = load(vec![control_messages_file(), empty_number_and_text_file()]);

    assert_eq!(
        result.apids(),
        &vec!["APP\0", "APP\0", "APP\0", "APP\0", "LOG\0", "LOG\0", "LOG\0"]
    );
    assert_eq!(
        result.ctids(),
        &vec!["CON\0", "CON\0", "CON\0", "CON\0", "TES1", "TES1", "TES1"]
    );
    assert_eq!(
        result.payloads(),
        &vec![
            "set_default_log_level 04 72 65 6d 6f",
            "set_default_trace_status 00 72 65 6d 6f",
            "set_verbose_mode 01",
            "set_timing_packets 00",
            "",
            "1011",
            "Hello BMW\0"
        ]
    );
    assert_eq!(result.size(), 7);
}

#[test]
fn get_files_size_with_one_file() {
    let files = vec![control_messages_file()];
    let expected = 180;

    let result = get_files_size(&files);

    assert_eq!(result, expected);
}

#[test]
fn get_files_size_with_files() {
    let files = vec![
        control_messages_file(),
        single_payloads_file(),
        empty_number_and_text_file(),
    ];
    let expected = 180 + 112 + 652;

    let result = get_files_size(&files);

    assert_eq!(result, expected);
}
