use bytes::Bytes;
use cmdrouter::ctx::MIX_TABLE_ID;
use cmdrouter::ctx::MixCommandCtx;
use cmdrouter::errors::CommandError;
use cmdrouter::mix::Frame;
use cmdrouter::mix::Mix;

#[test]
fn parse_argv_of_empty_vector_is_invalid_sentinel() {
    let m = Mix::parse_argv(&Vec::new());
    assert!(!m.valid);
    assert!(m.cmd.is_empty());
    assert!(m.keys().is_empty());
    assert_eq!(m.frame, Frame::array());
}

#[test]
fn parse_argv_decodes_every_element_as_key() {
    let argv = vec![Bytes::from("hello"), Bytes::from("world")];
    let m = Mix::parse_argv(&argv);
    assert!(m.valid);
    assert!(m.cmd.is_empty());
    assert_eq!(m.keys(), &vec!["hello".to_string(), "world".to_string()]);
}

#[test]
fn parse_argv_replaces_invalid_utf8() {
    let argv = vec![Bytes::from(vec![b'o', b'k', 0xffu8])];
    let m = Mix::parse_argv(&argv);
    assert!(m.valid);
    assert_eq!(m.keys()[0], "ok\u{fffd}".to_string());
}

#[test]
fn parse_frames_keeps_command_keys_and_frame() {
    let frame = Frame::Array(vec![b"get".to_vec(), b"x".to_vec()]);
    let m = Mix::parse_frames(b"get".to_vec(), vec!["x".to_string()], frame.clone());
    assert!(m.valid);
    assert_eq!(m.cmd, b"get".to_vec());
    assert_eq!(m.keys(), &vec!["x".to_string()]);
    assert_eq!(m.frame, frame);
}

#[test]
fn add_key_appends_in_order() {
    let mut m = Mix::default();
    m.add_key("a".to_string());
    m.add_key("b".to_string());
    assert_eq!(m.keys(), &vec!["a".to_string(), "b".to_string()]);
}

#[test]
fn router_key_is_first_key_when_present() {
    let mut m = Mix::default();
    assert!(m.router_key().is_none());
    m.add_key("k1".to_string());
    m.add_key("k2".to_string());
    assert_eq!(m.router_key(), Some(&"k1".to_string()));
}

#[test]
fn new_invalid_is_marked_invalid() {
    let m = Mix::new_invalid();
    assert!(!m.valid);
    assert!(m.cmd.is_empty());
    assert!(m.keys().is_empty());
}

#[test]
fn prepare_request_passes_encoded_frame_through() {
    let ctx = MixCommandCtx::new();
    let r = ctx.prepare_request(Ok(b"*1\r\n$4\r\nping\r\n".to_vec()));
    assert_eq!(r, Ok(b"*1\r\n$4\r\nping\r\n".to_vec()));
}

#[test]
fn prepare_request_surfaces_encoding_error() {
    let ctx = MixCommandCtx::new();
    let r = ctx.prepare_request(Err("unencodable frame".to_string()));
    assert_eq!(r, Err(CommandError::EncodingError("unencodable frame".to_string())));
}

#[test]
fn finish_response_wraps_payload_as_raw_reply() {
    let ctx = MixCommandCtx::new();
    let r = ctx.finish_response(Ok(b"+OK\r\n".to_vec()));
    assert_eq!(r, Ok(Frame::Raw(b"+OK\r\n".to_vec())));
}

#[test]
fn finish_response_propagates_store_error() {
    let ctx = MixCommandCtx::new();
    let r = ctx.finish_response(Err("region unavailable".to_string()));
    assert_eq!(r, Err(CommandError::StoreError("region unavailable".to_string())));
}

#[test]
fn mix_table_id_is_fixed() {
    assert_eq!(MIX_TABLE_ID, 153u64);
}
