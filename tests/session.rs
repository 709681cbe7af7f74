use usb2snes::files::FileType;
use usb2snes::session::{ClientError, Connection, Frame, Incoming, ProtocolError, Reply};

fn strings(items: &[&str]) -> Vec<String> {
    items.iter().map(|s| s.to_string()).collect()
}

fn text(f: &Frame) -> &str {
    match f {
        Frame::Text(t) => t,
        Frame::Binary(_) => panic!("expected a text frame"),
    }
}

fn binary(f: &Frame) -> &[u8] {
    match f {
        Frame::Binary(b) => b,
        Frame::Text(_) => panic!("expected a binary frame"),
    }
}

fn answer(c: &mut Connection, items: &[&str]) -> Reply {
    assert!(c.awaiting_frames());
    c.receive(Incoming::Text(Some(strings(items)))).unwrap();
    assert!(!c.awaiting_frames());
    assert!(c.reply_ready());
    c.take_reply()
}

fn reply_strings(r: Reply) -> Vec<String> {
    match r {
        Reply::Strings(v) => v,
        _ => panic!("expected strings"),
    }
}

#[test]
fn end_to_end_scenario() {
    let mut c = Connection::new();

    let frames = c.get_device_list();
    assert_eq!(frames.len(), 1);
    assert_eq!(text(&frames[0]), r#"{"Opcode":"DeviceList","Space":"SNES"}"#);
    assert_eq!(reply_strings(answer(&mut c, &["deviceA"])), vec!["deviceA"]);

    let frames = c.attach("deviceA").unwrap();
    assert_eq!(text(&frames[0]), r#"{"Opcode":"Attach","Space":"SNES","Operands":["deviceA"]}"#);
    assert!(c.is_attached());
    assert!(!c.awaiting_frames());

    let frames = c.get_info().unwrap();
    assert_eq!(text(&frames[0]), r#"{"Opcode":"Info","Space":"SNES"}"#);
    assert_eq!(reply_strings(answer(&mut c, &["ROM: FF4"])), vec!["ROM: FF4"]);

    let frames = c.list_files("").unwrap();
    assert_eq!(text(&frames[0]), r#"{"Opcode":"List","Space":"SNES","Operands":[""]}"#);
    match answer(&mut c, &["0", "roms"]) {
        Reply::Files(fs) => {
            assert_eq!(fs.len(), 1);
            assert_eq!(fs[0].ty, FileType::Dir);
            assert_eq!(fs[0].name, "roms");
        }
        _ => panic!("expected a listing"),
    }

    c.close();
    assert!(!c.is_attached());
}

#[test]
fn info_needs_attach() {
    let mut c = Connection::new();
    assert_eq!(c.get_info().unwrap_err(), ClientError::NotAttached);
    assert!(!c.awaiting_frames());
    c.attach("SD2SNES COM3").unwrap();
    let frames = c.get_info().unwrap();
    assert_eq!(frames.len(), 1);
    assert!(c.awaiting_frames());
}

#[test]
fn listing_path_is_normalized() {
    let mut c = Connection::new();
    let frames = c.list_files("roms//").unwrap();
    assert_eq!(text(&frames[0]), r#"{"Opcode":"List","Space":"SNES","Operands":["roms"]}"#);
}

#[test]
fn remove_sends_one_request() {
    let mut c = Connection::new();
    let frames = c.rm("roms/old.sfc").unwrap();
    assert_eq!(frames.len(), 1);
    assert_eq!(text(&frames[0]), r#"{"Opcode":"Remove","Space":"SNES","Operands":["roms/old.sfc"]}"#);
    assert!(!c.awaiting_frames());
}

#[test]
fn upload_frames() {
    let mut c = Connection::new();
    let data: Vec<u8> = (0..4096u32).map(|i| (i % 256) as u8).collect();
    let frames = c.put_file("roms/ff4.sfc", &data).unwrap();
    assert_eq!(frames.len(), 5);
    assert_eq!(
        text(&frames[0]),
        r#"{"Opcode":"PutFile","Space":"SNES","Operands":["roms/ff4.sfc","1000"]}"#
    );
    let mut back = Vec::new();
    for f in &frames[1..] {
        assert_eq!(binary(f).len(), 1024);
        back.extend_from_slice(binary(f));
    }
    assert_eq!(back, data);
    assert!(!c.awaiting_frames());
}

#[test]
fn upload_uneven_length() {
    let mut c = Connection::new();
    let data = vec![9u8; 1500];
    let frames = c.put_file("x", &data).unwrap();
    assert_eq!(frames.len(), 3);
    assert_eq!(text(&frames[0]), r#"{"Opcode":"PutFile","Space":"SNES","Operands":["x","5DC"]}"#);
    assert_eq!(binary(&frames[1]).len(), 1024);
    assert_eq!(binary(&frames[2]).len(), 476);
}

fn read(len: usize, pieces: &[&[u8]]) -> Vec<u8> {
    let mut c = Connection::new();
    let frames = c.read_mem(0x1ff000, len).unwrap();
    assert_eq!(
        text(&frames[0]),
        format!(r#"{{"Opcode":"GetAddress","Space":"SNES","Operands":["1FF000","{:X}"]}}"#, len)
    );
    for p in pieces {
        assert!(c.awaiting_frames());
        c.receive(Incoming::Other).unwrap();
        c.receive(Incoming::Binary(p.to_vec(), None)).unwrap();
    }
    assert!(!c.awaiting_frames());
    match c.take_reply() {
        Reply::Bytes(b) => b,
        _ => panic!("expected bytes"),
    }
}

#[test]
fn read_mem_any_fragmentation() {
    let data: Vec<u8> = (0..64u8).collect();
    assert_eq!(read(64, &[&data]), data);
    let singles: Vec<&[u8]> = data.chunks(1).collect();
    assert_eq!(read(64, &singles), data);
    assert_eq!(read(64, &[&data[..5], &data[5..60], &data[60..]]), data);
}

#[test]
fn read_mem_of_nothing() {
    let mut c = Connection::new();
    c.read_mem(0, 0).unwrap();
    assert!(!c.awaiting_frames());
    assert!(c.reply_ready());
    match c.take_reply() {
        Reply::Bytes(b) => assert!(b.is_empty()),
        _ => panic!("expected bytes"),
    }
}

#[test]
fn read_mem_truncated() {
    let mut c = Connection::new();
    c.read_mem(0x10, 4).unwrap();
    c.receive(Incoming::Binary(vec![1, 2], None)).unwrap();
    assert_eq!(
        c.receive(Incoming::End),
        Err(ClientError::Protocol(ProtocolError::Truncated))
    );
    assert!(!c.awaiting_frames());
}

#[test]
fn read_mem_overrun() {
    let mut c = Connection::new();
    c.read_mem(0x10, 4).unwrap();
    assert_eq!(
        c.receive(Incoming::Binary(vec![1, 2, 3, 4, 5], None)),
        Err(ClientError::Protocol(ProtocolError::Overrun))
    );
}

#[test]
fn results_skip_undecodable_frames() {
    let mut c = Connection::new();
    c.get_device_list();
    c.receive(Incoming::Other).unwrap();
    c.receive(Incoming::Text(None)).unwrap();
    c.receive(Incoming::Binary(vec![0xff], None)).unwrap();
    assert!(c.awaiting_frames());
    c.receive(Incoming::Binary(b"{}".to_vec(), Some(strings(&["a", "b"])))).unwrap();
    assert_eq!(reply_strings(c.take_reply()), vec!["a", "b"]);
}

#[test]
fn results_stream_end() {
    let mut c = Connection::new();
    c.get_device_list();
    assert_eq!(
        c.receive(Incoming::End),
        Err(ClientError::Protocol(ProtocolError::NoMessage))
    );
    assert!(!c.awaiting_frames());
}

#[test]
fn odd_listing_is_a_protocol_error() {
    let mut c = Connection::new();
    c.list_files("/").unwrap();
    assert_eq!(
        c.receive(Incoming::Text(Some(strings(&["0", "roms", "1"])))),
        Err(ClientError::Protocol(ProtocolError::OddListing))
    );
}
