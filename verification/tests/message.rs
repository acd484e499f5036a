//! Framing, paths, struct errors and mounts.

use repe::constants::{BodyFormat, ErrorCode, QueryFormat, HEADER_SIZE, REPE_SPEC, REPE_VERSION};
use repe::error::RepeError;
use repe::handler::HandlerErased;
use repe::message::{
    create_error_message, create_response, Header, Message, MessageView,
};
use repe::mount::{
    decode_registry_body, lock_error_response, normalize_mount, LockError, Lockable,
    RegisteredRegistry, RegisteredStruct, Registry, RegistryError,
};
use repe::path::{matches_root, pointer_segments, split_segment, strip_root, trim_end_slashes, unescape};
use repe::peer::{CallContext, PeerHandle, PeerId};
use repe::structs::{join_path, path_from_segments, prepend_path, StructError, StructResult};
use repe::text::{text_equal, u128_text, u64_text};
use repe::wire::{push_le, read_le};
use serde_json::Value;
use std::sync::Arc;

fn request(body: Vec<u8>, format: BodyFormat) -> Message {
    Message::builder()
        .id(7)
        .query_str("/a/b")
        .query_format(QueryFormat::JsonPointer)
        .body_bytes(body)
        .body_format(format)
        .build()
}

#[test]
fn a_frame_has_a_fixed_layout() {
    let m = request(vec![9, 8], BodyFormat::RawBinary);
    let bytes = m.to_vec();
    assert_eq!(bytes.len(), HEADER_SIZE + 4 + 2);
    assert_eq!(bytes.len() as u64, m.serialized_len());
    assert_eq!(&bytes[0..8], &54u64.to_le_bytes());
    assert_eq!(&bytes[8..10], &REPE_SPEC.to_le_bytes());
    assert_eq!(bytes[10], REPE_VERSION);
    assert_eq!(&bytes[16..24], &7u64.to_le_bytes());
    assert_eq!(&bytes[24..32], &4u64.to_le_bytes());
    assert_eq!(&bytes[32..40], &2u64.to_le_bytes());
    assert_eq!(&bytes[48..], b"/a/b\x09\x08");
}

#[test]
fn what_is_written_can_be_read() {
    let m = request(vec![1, 2, 3], BodyFormat::RawBinary);
    let mut bytes = m.to_vec();
    let back = Message::from_slice_exact(&bytes).unwrap();
    assert_eq!(back.header, m.header);
    assert_eq!(back.query, m.query);
    assert_eq!(back.body, m.body);
    bytes.push(0);
    assert!(Message::from_slice_exact(&bytes).is_err());
    assert_eq!(Message::from_slice(&bytes).unwrap().to_vec(), m.to_vec());
    let view = MessageView::from_slice(&bytes).unwrap();
    assert_eq!(view.to_message().to_vec(), m.to_vec());
    let mut out = vec![5];
    m.write_to(&mut out);
    assert_eq!(out[0], 5);
    assert_eq!(&out[1..], &m.to_vec()[..]);
}

#[test]
fn faulty_headers_are_told_apart() {
    let good = request(vec![1], BodyFormat::RawBinary).to_vec();
    let broken = |at: usize, byte: u8| {
        let mut b = good.clone();
        b[at] = byte;
        Message::from_slice(&b).unwrap_err()
    };
    assert!(matches!(broken(8, 0), RepeError::InvalidSpec(_)));
    assert!(matches!(broken(0, 1), RepeError::LengthMismatch { got: _, expected: _ }));
    assert!(matches!(broken(12, 1), RepeError::ReservedNonZero));
    assert!(matches!(
        Message::from_slice(&good[..10]).unwrap_err(),
        RepeError::InvalidHeaderLength(10)
    ));
    assert!(matches!(
        Message::from_slice(&good[..50]).unwrap_err(),
        RepeError::BufferTooSmall { need: 53, have: 50 }
    ));
}

#[test]
fn headers_are_stamped() {
    let h = Header::new();
    assert_eq!(h.version, REPE_VERSION);
    let stamped = h.stamp(3, 4);
    assert_eq!(stamped.length, 55);
    assert_eq!(Header::decode(&stamped.encode()).unwrap(), stamped);
    assert!(Header::decode(&[0; 47]).is_err());
}

#[test]
fn bodies_are_written_and_read() {
    let v: Value = serde_json::from_str(r#"{"a": [1, 2]}"#).unwrap();
    let json = Message::builder().body_json(&v).unwrap().build();
    assert_eq!(json.header.body_format, BodyFormat::Json.code());
    assert_eq!(json.body, serde_json::to_vec(&v).unwrap());
    assert_eq!(json.json_body().unwrap(), v);
    let binary = Message::builder().body_beve(&v).unwrap().build();
    assert_eq!(binary.header.body_format, BodyFormat::Beve.code());
    assert_eq!(binary.body, beve::to_vec(&v).unwrap());
    assert_eq!(beve::from_slice::<Value>(&binary.body).unwrap(), v);
    assert!(binary.json_body().is_err());
    let text = Message::builder().body_utf8("hi").query_bytes(vec![0xff]).build();
    assert_eq!(text.body, b"hi");
    assert!(matches!(text.query_str(), Err(RepeError::InvalidUtf8)));
    let reply = create_response(&json, &v, BodyFormat::Beve).unwrap();
    assert_eq!(reply.body, binary.body);
}

#[test]
fn errors_are_messages_too() {
    let e = create_error_message(ErrorCode::Timeout, "late");
    assert!(e.is_error());
    assert_eq!(e.header.id, 0);
    assert_eq!(e.error_code(), Some(ErrorCode::Timeout));
    assert_eq!(e.error_message_utf8().as_deref(), Some("late"));
    assert_eq!(Message::builder().build().error_message_utf8(), None);
    let coded = Message::builder().error_code(ErrorCode::InvalidBody).build();
    assert_eq!(coded.header.ec, ErrorCode::InvalidBody.code());
}

#[test]
fn codes_round_trip() {
    for code in [
        ErrorCode::Success,
        ErrorCode::VersionMismatch,
        ErrorCode::InvalidHeader,
        ErrorCode::InvalidQuery,
        ErrorCode::InvalidBody,
        ErrorCode::ParseError,
        ErrorCode::MethodNotFound,
        ErrorCode::Timeout,
        ErrorCode::InternalError,
        ErrorCode::ResourceExhausted,
        ErrorCode::ApplicationErrorBase,
    ] {
        assert_eq!(ErrorCode::from_code(code.code()), Some(code));
    }
    assert_eq!(ErrorCode::from_code(5000), None);
    assert_eq!(ErrorCode::ApplicationErrorBase.code(), 4096);
    for format in [BodyFormat::RawBinary, BodyFormat::Beve, BodyFormat::Json, BodyFormat::Utf8] {
        assert_eq!(BodyFormat::from_code(format.code()), Some(format));
    }
    assert_eq!(QueryFormat::from_code(1), Some(QueryFormat::JsonPointer));
    assert_eq!(QueryFormat::from_code(9), None);
}

#[test]
fn errors_carry_codes_and_texts() {
    let all = [
        (RepeError::VersionMismatch(2), ErrorCode::VersionMismatch, "version mismatch: 2"),
        (RepeError::InvalidSpec(5), ErrorCode::InvalidHeader, "invalid spec magic: 5"),
        (RepeError::InvalidHeaderLength(3), ErrorCode::InvalidHeader, "invalid header length: 3"),
        (RepeError::ReservedNonZero, ErrorCode::InvalidHeader, "reserved field must be zero"),
        (
            RepeError::LengthMismatch { expected: 1, got: 2 },
            ErrorCode::InvalidHeader,
            "length mismatch: expected 1, got 2",
        ),
        (
            RepeError::BufferTooSmall { need: 1, have: 0 },
            ErrorCode::InvalidHeader,
            "buffer too small: need 1, have 0",
        ),
        (
            RepeError::ResponseIdMismatch { expected: 4, got: 5 },
            ErrorCode::InvalidHeader,
            "response id mismatch: expected 4, got 5",
        ),
        (RepeError::Json("j".into()), ErrorCode::ParseError, "json error: j"),
        (RepeError::Beve("b".into()), ErrorCode::ParseError, "beve error: b"),
        (RepeError::InvalidUtf8, ErrorCode::ParseError, "invalid UTF-8"),
        (RepeError::UnknownEnumValue(8), ErrorCode::ParseError, "unknown enum value: 8"),
        (
            RepeError::MessageTooLarge { size: 9, limit: 8 },
            ErrorCode::ResourceExhausted,
            "message of 9 bytes exceeds the assumed peer limit of 8 bytes",
        ),
    ];
    for (e, code, text) in all {
        assert_eq!(e.to_error_code(), code);
        assert_eq!(e.text(), text);
    }
    let served = RepeError::ServerError { code: ErrorCode::Timeout, message: "late".into() };
    assert_eq!(served.to_error_code(), ErrorCode::Timeout);
    assert_eq!(served.text(), format!("server error ({}): late", ErrorCode::Timeout.message()));
}

#[test]
fn numbers_are_written_in_decimal() {
    for n in [0u64, 9, 10, 12345, u64::MAX] {
        assert_eq!(u64_text(n), n.to_string());
        assert_eq!(u128_text(n as u128), n.to_string());
    }
    assert_eq!(u128_text(u128::MAX), u128::MAX.to_string());
    assert!(text_equal("\u{e9}", "\u{e9}"));
    assert!(!text_equal("a", "b"));
    let mut out = Vec::new();
    push_le(&mut out, 0x0102, 4);
    assert_eq!(out, vec![2, 1, 0, 0]);
    assert_eq!(read_le(&out, 0, 4), 0x0102);
}

// ---- paths ----

#[test]
fn paths_are_matched_by_whole_segments() {
    assert!(matches_root("", "/anything"));
    assert!(matches_root("/a", "/a"));
    assert!(matches_root("/a", "/a/b"));
    assert!(!matches_root("/a", "/ab"));
    assert_eq!(strip_root("/a", "/a/b"), Some("/b"));
    assert_eq!(strip_root("/a", "/a"), None);
    assert_eq!(split_segment("x/y/z"), ("x", Some("y/z")));
    assert_eq!(split_segment("x"), ("x", None));
    assert_eq!(trim_end_slashes("/\u{e9}//"), "/\u{e9}");
    assert_eq!(trim_end_slashes("///"), "");
}

#[test]
fn pointers_are_split_and_unescaped() {
    assert_eq!(unescape("a~1b~0c"), "a/b~c");
    assert_eq!(pointer_segments("/a~1b/c"), vec!["a/b", "c"]);
    assert_eq!(pointer_segments("/\u{e9}"), vec!["\u{e9}"]);
    assert!(pointer_segments("").is_empty());
    for (root, kept) in [("", ""), ("/", ""), ("a", "/a"), ("/a", "/a")] {
        assert_eq!(normalize_mount(root), kept);
    }
}

// ---- structs ----

#[test]
fn struct_errors_speak() {
    let path = || "/p".to_string();
    let all = [
        (StructError::InvalidPath { path: path() }, ErrorCode::MethodNotFound, "invalid path `/p`"),
        (
            StructError::InvalidSubpath { path: path() },
            ErrorCode::MethodNotFound,
            "unexpected additional path segments at `/p`",
        ),
        (
            StructError::BodyExpected { path: path() },
            ErrorCode::InvalidBody,
            "body required for `/p`",
        ),
        (
            StructError::BodyUnexpected { path: path() },
            ErrorCode::InvalidBody,
            "body not allowed for `/p`",
        ),
        (
            StructError::Serialize { path: path(), source: "s".into() },
            ErrorCode::InvalidBody,
            "serialization error for `/p`: s",
        ),
        (
            StructError::Deserialize { path: path(), source: "s".into() },
            ErrorCode::InvalidBody,
            "deserialization error for `/p`: s",
        ),
        (
            StructError::Execution { path: path(), message: "m".into() },
            ErrorCode::ParseError,
            "method `/p` failed: m",
        ),
    ];
    for (e, code, text) in all {
        assert_eq!(e.code(), code);
        assert_eq!(e.text(), text);
        let moved = prepend_path(e, "outer");
        assert_eq!(moved.code(), code);
        assert_eq!(moved.text(), text.replace("/p", "/outer/p"));
    }
    assert_eq!(path_from_segments(&["a", "b"]), "/a/b");
    assert_eq!(join_path(&["a"], "b"), "/a/b");
    assert_eq!(path_from_segments(&[]), "");
}

/// A lock that cannot be taken, or a struct that tells what it was asked.
struct Telltale {
    shared: bool,
    broken: bool,
}

impl Telltale {
    fn tell(&self, tokens: &Vec<String>, body: Option<Value>) -> StructResult<Option<Value>> {
        Ok(Some(Value::from(format!("{} {:?}", tokens.join("|"), body))))
    }
}

impl Lockable for Telltale {
    fn with_read(
        &self,
        tokens: &Vec<String>,
    ) -> Option<Result<Option<StructResult<Option<Value>>>, LockError>> {
        if !self.shared {
            return None;
        }
        if self.broken {
            return Some(Err(LockError::other("busy")));
        }
        if tokens.first().map(|t| t == "exclusive") == Some(true) {
            return Some(Ok(None));
        }
        Some(Ok(Some(Ok(Some(Value::from("shared"))))))
    }
    fn lock(
        &self,
        tokens: &Vec<String>,
        body: Option<Value>,
    ) -> Result<StructResult<Option<Value>>, LockError> {
        if self.broken {
            return Err(LockError::poisoned("was poisoned"));
        }
        Ok(self.tell(tokens, body))
    }
}

fn ask(telltale: Telltale, path: &str, body: &[u8]) -> Message {
    let mounted = RegisteredStruct::new("/t", Arc::new(telltale));
    assert_eq!(mounted.root(), "/t");
    let mut req = request(body.to_vec(), BodyFormat::Json);
    req.query = path.as_bytes().to_vec();
    mounted.handle(&req).unwrap()
}

#[test]
fn a_struct_is_read_under_a_shared_guard_where_it_can() {
    let told = |shared: bool, path: &str, body: &[u8]| {
        ask(Telltale { shared, broken: false }, path, body).json_body().unwrap()
    };
    assert_eq!(told(true, "/t/x", b""), Value::from("shared"));
    assert_eq!(told(true, "/t/exclusive", b""), Value::from("exclusive None"));
    assert_eq!(told(true, "/t/x", b"1"), Value::from("x Some(Number(1))"));
    assert_eq!(told(false, "/t/a~1b/c", b""), Value::from("a/b|c None"));
}

#[test]
fn a_lock_that_cannot_be_taken_is_reported() {
    let shared = ask(Telltale { shared: true, broken: true }, "/t/x", b"");
    assert!(shared.error_message_utf8().unwrap().ends_with("lock error: busy"));
    let exclusive = ask(Telltale { shared: false, broken: true }, "/t/x", b"");
    assert_eq!(exclusive.error_code(), Some(ErrorCode::ParseError));
    assert!(exclusive.error_message_utf8().unwrap().ends_with("lock poisoned: was poisoned"));
    let req = request(Vec::new(), BodyFormat::Json);
    let reply = lock_error_response(&req, "/x", &LockError::other("o"));
    assert_eq!(reply.body, b"struct handler `/x` lock error: o");
    assert_eq!(LockError::poisoned("p").text(), "p");
}

#[test]
fn a_struct_finds_the_pointer_below_its_root() {
    let mounted = RegisteredStruct::new("t", Arc::new(Telltale { shared: false, broken: false }));
    assert_eq!(mounted.relative_pointer("/t/x"), Some("/x"));
    assert_eq!(mounted.relative_pointer("/t"), Some(""));
    assert_eq!(mounted.relative_pointer("/tx"), None);
}

// ---- registries ----

struct Echo;

impl Registry for Echo {
    fn dispatch(&self, pointer: &str, body: Option<Value>) -> Result<Value, RegistryError> {
        match body {
            Some(v) if v.is_null() => {
                Err(RegistryError { code: ErrorCode::InvalidBody, message: "null".into() })
            }
            other => Ok(Value::from(format!("{pointer} {other:?}"))),
        }
    }
    fn dispatch_with_ctx(
        &self,
        pointer: &str,
        _body: Option<Value>,
        ctx: &CallContext<'_>,
    ) -> Result<Value, RegistryError> {
        Ok(Value::from(format!("{pointer} {:?}", ctx.peer().map(|p| p.peer_id().0))))
    }
}

#[test]
fn a_registry_is_asked_for_the_pointer_below_its_prefix() {
    let mounted = RegisteredRegistry::new("/a", Arc::new(Echo));
    assert_eq!(mounted.prefix(), "/a");
    assert_eq!(mounted.pointer_for("/a/b"), Some("/b"));
    let read = mounted.handle(&request(Vec::new(), BodyFormat::RawBinary)).unwrap();
    assert_eq!(read.json_body().unwrap(), Value::from("/b None"));
    let failed = mounted.handle(&request(b"null".to_vec(), BodyFormat::Json)).unwrap();
    assert_eq!(failed.error_code(), Some(ErrorCode::InvalidBody));
    assert_eq!(failed.error_message_utf8().as_deref(), Some("null"));
    let peer = PeerHandle::new(PeerId(2));
    let told = mounted
        .handle_with_ctx(&request(Vec::new(), BodyFormat::Json), &CallContext::new("/a/b", &peer))
        .unwrap();
    assert_eq!(told.json_body().unwrap(), Value::from("/b Some(2)"));
}

#[test]
fn a_registry_reads_json_and_beve() {
    let of = |body: Vec<u8>, format: BodyFormat| decode_registry_body(&request(body, format));
    let v = Value::from(4);
    assert_eq!(of(Vec::new(), BodyFormat::RawBinary).ok(), Some(None));
    assert_eq!(of(b"4".to_vec(), BodyFormat::Json).ok(), Some(Some(v.clone())));
    assert_eq!(of(b"4".to_vec(), BodyFormat::Utf8).ok(), Some(Some(v.clone())));
    assert_eq!(of(beve::to_vec(&v).unwrap(), BodyFormat::Beve).ok(), Some(Some(v)));
    match of(b"4".to_vec(), BodyFormat::RawBinary) {
        Err(e) => {
            assert_eq!(e.code, ErrorCode::InvalidBody);
            assert_eq!(e.message, "registry requires JSON or BEVE body, got format 0");
        }
        Ok(_) => panic!("raw bytes are refused"),
    }
    match of(b"{".to_vec(), BodyFormat::Json) {
        Err(e) => {
            assert_eq!(e.code, ErrorCode::ParseError);
            assert!(e.message.starts_with("json error: "));
        }
        Ok(_) => panic!("broken JSON is refused"),
    }
}
