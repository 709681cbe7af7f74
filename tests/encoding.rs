use usb2snes::hex::hex_upper;
use usb2snes::request::{assemble, quote_list, Opcode, Request, Space};

#[test]
fn request_encoding() {
    struct ReqTest {
        req: Request,
        json: String,
    }

    let tests = vec![
        ReqTest {
            req: Request {
                opcode: Opcode::DeviceList,
                space: Space::Snes,
                flags: None,
                ops: None,
            },
            json: r#"{
  "Opcode": "DeviceList",
  "Space": "SNES"
}"#
            .to_string(),
        },
        ReqTest {
            req: Request {
                opcode: Opcode::Attach,
                space: Space::Snes,
                flags: None,
                ops: Some(vec!["SD2SNES COM3".to_string()]),
            },
            json: r#"{
  "Opcode": "Attach",
  "Space": "SNES",
  "Operands": [
    "SD2SNES COM3"
  ]
}"#
            .to_string(),
        },
    ];

    for test in tests {
        let enc = test.req.to_json_pretty().unwrap();
        assert_eq!(enc, test.json);
    }
}

#[test]
fn compact_without_lists() {
    let req = Request::new(Opcode::DeviceList, None);
    assert_eq!(req.to_json().unwrap(), r#"{"Opcode":"DeviceList","Space":"SNES"}"#);
}

#[test]
fn compact_with_operands() {
    let req = Request::new(Opcode::Attach, Some(vec!["SD2SNES COM3".to_string()]));
    assert_eq!(
        req.to_json().unwrap(),
        r#"{"Opcode":"Attach","Space":"SNES","Operands":["SD2SNES COM3"]}"#
    );
}

#[test]
fn compact_every_opcode_omits_absent_keys() {
    let cases = [
        (Opcode::Attach, "Attach"),
        (Opcode::DeviceList, "DeviceList"),
        (Opcode::GetAddress, "GetAddress"),
        (Opcode::Info, "Info"),
        (Opcode::List, "List"),
        (Opcode::PutFile, "PutFile"),
        (Opcode::Remove, "Remove"),
    ];
    for (op, name) in cases {
        let enc = Request::new(op, None).to_json().unwrap();
        assert_eq!(enc, format!(r#"{{"Opcode":"{}","Space":"SNES"}}"#, name));
        assert!(!enc.contains("Flags"));
        assert!(!enc.contains("Operands"));
    }
}

#[test]
fn flags_come_before_operands() {
    let req = Request {
        opcode: Opcode::List,
        space: Space::Snes,
        flags: Some(vec!["A".to_string(), "B".to_string()]),
        ops: Some(vec![]),
    };
    assert_eq!(
        req.to_json().unwrap(),
        r#"{"Opcode":"List","Space":"SNES","Flags":["A","B"],"Operands":[]}"#
    );
    assert_eq!(
        req.to_json_pretty().unwrap(),
        "{\n  \"Opcode\": \"List\",\n  \"Space\": \"SNES\",\n  \"Flags\": [\n    \"A\",\n    \"B\"\n  ],\n  \"Operands\": []\n}"
    );
}

#[test]
fn operands_are_escaped() {
    let req = Request::new(Opcode::Remove, Some(vec!["a\"b\\c\n".to_string()]));
    assert_eq!(
        req.to_json().unwrap(),
        r#"{"Opcode":"Remove","Space":"SNES","Operands":["a\"b\\c\n"]}"#
    );
    let q = quote_list(&vec!["x\"y".to_string(), "plain".to_string()]).unwrap();
    assert_eq!(q, vec![r#""x\"y""#.to_string(), r#""plain""#.to_string()]);
}

#[test]
fn control_characters_are_escaped() {
    let req = Request::new(Opcode::List, Some(vec!["\u{8}\t\n\u{c}\r\u{1}\u{1f}/\u{e9}".to_string()]));
    assert_eq!(
        req.to_json().unwrap(),
        "{\"Opcode\":\"List\",\"Space\":\"SNES\",\"Operands\":[\"\\b\\t\\n\\f\\r\\u0001\\u001f/\u{e9}\"]}"
    );
}

#[test]
fn assemble_takes_encoded_elements() {
    let ops = Some(vec!["\"dir\"".to_string()]);
    assert_eq!(
        assemble(Opcode::List, Space::Snes, &None, &ops, false),
        r#"{"Opcode":"List","Space":"SNES","Operands":["dir"]}"#
    );
}

#[test]
fn hex_operands() {
    assert_eq!(hex_upper(4096), "1000");
    assert_eq!(hex_upper(0), "0");
    assert_eq!(hex_upper(255), "FF");
    assert_eq!(hex_upper(0x1ff004), "1FF004");
    assert_eq!(hex_upper(u64::MAX), "FFFFFFFFFFFFFFFF");
}
