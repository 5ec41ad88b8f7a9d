//! Lark: frames, events, cards and the plugin.
use std::time::Duration;

use prost::encoding::{DecodeContext, WireType};
use prost::Message;

use aionui_channel::error::ChannelError;
use aionui_channel::json::write_json;
use aionui_channel::plugins::dedup::DedupCache;
use aionui_channel::plugins::http::Method;
use aionui_channel::plugins::lark::api::{
    bot_of, check_update, endpoint_of, sent_id, token_of, BotInfoData, BotInfoResponse, GenericResponse, LarkApi,
    SendMessageResponse, TenantAccessTokenResponse, WsEndpointData, WsEndpointResponse,
};
use aionui_channel::plugins::lark::frame::{
    build_ack_frame, build_ping_frame, decode_frame, encode_frame, get_header, PbFrame, PbHeader, METHOD_CONTROL,
    METHOD_DATA,
};
use aionui_channel::plugins::lark::plugin::{
    card_from_action, extract_message_content, extract_service_id, handle_bot_menu_event, handle_card_action,
    handle_control_frame, handle_envelope, handle_message_event, handle_ws_text, initial_ping_secs, step, ContentFields,
    Envelope, LarkEvent, LarkPlugin, LarkStep, WsWork,
};
use aionui_channel::plugins::lark::types::{
    build_interactive_card, BotMenuEvent, BotMenuOperator, CardAction, CardActionEvent, CardOperator, Mention,
    MentionId, MessageBody, MessageEvent, MessageSender, OperatorId, SenderIdContainer,
};
use aionui_channel::plugins::lark::wire::FrameError;
use aionui_channel::plugins::lark::ws_session::{parse_pong_config, FragmentCache, PongPayload};
use aionui_channel::text_map::TextMap;
use aionui_channel::types::{
    text_message, ActionButton, ActionCategory, MessageContentType, PluginCredentials, PluginStatus, PluginType,
};

// Frames

fn header(key: &str, value: &str) -> PbHeader {
    PbHeader { key: key.into(), value: value.into() }
}

fn frame(method: i32, headers: Vec<PbHeader>, payload: &[u8]) -> PbFrame {
    PbFrame {
        seq_id: 0,
        log_id: 0,
        service: 1,
        method,
        headers,
        payload_encoding: String::new(),
        payload_type: String::new(),
        payload: payload.to_vec(),
        log_id_new: String::new(),
    }
}

#[test]
fn round_trip_ping_frame() {
    let frame = frame(METHOD_CONTROL, vec![header("type", "ping")], b"");
    let bytes = encode_frame(&frame);
    let decoded = decode_frame(&bytes).unwrap();
    assert_eq!(decoded.method, METHOD_CONTROL);
    assert_eq!(decoded.headers[0].key, "type");
    assert_eq!(decoded.headers[0].value, "ping");
}

#[test]
fn round_trip_data_frame_with_payload() {
    let payload = br#"{"sender":{},"message":{}}"#;
    let frame = PbFrame {
        seq_id: 42,
        log_id: 100,
        service: 1,
        method: METHOD_DATA,
        headers: vec![
            PbHeader { key: "type".into(), value: "event".into() },
            PbHeader { key: "message_id".into(), value: "msg_001".into() },
            PbHeader { key: "sum".into(), value: "1".into() },
            PbHeader { key: "seq".into(), value: "0".into() },
        ],
        payload_encoding: String::new(),
        payload_type: String::new(),
        payload: payload.to_vec(),
        log_id_new: String::new(),
    };
    let bytes = encode_frame(&frame);
    let decoded = decode_frame(&bytes).unwrap();
    assert_eq!(decoded.seq_id, 42);
    assert_eq!(decoded.method, METHOD_DATA);
    assert_eq!(decoded.payload, payload);
    assert_eq!(decoded.headers.len(), 4);
}

#[test]
fn decode_invalid_bytes_returns_error() {
    let result = decode_frame(&[0xFF, 0xFF, 0xFF]);
    assert!(result.is_err());
}

#[test]
fn build_ping_frame_has_correct_structure() {
    let frame = build_ping_frame(7);
    assert_eq!(frame.method, METHOD_CONTROL);
    assert_eq!(frame.service, 7);
    let type_header = frame.headers.iter().find(|h| h.key == "type").unwrap();
    assert_eq!(type_header.value, "ping");
}

#[test]
fn build_ack_frame_has_code_200_payload() {
    let original = PbFrame {
        seq_id: 10,
        log_id: 20,
        service: 1,
        method: METHOD_DATA,
        headers: vec![
            PbHeader { key: "type".into(), value: "event".into() },
            PbHeader { key: "message_id".into(), value: "msg_x".into() },
        ],
        payload_encoding: String::new(),
        payload_type: String::new(),
        payload: Vec::new(),
        log_id_new: String::new(),
    };
    let ack = build_ack_frame(&original);
    assert_eq!(ack.method, METHOD_DATA);
    let payload_str = String::from_utf8(ack.payload.clone()).unwrap();
    assert!(payload_str.contains("200"));
}

#[test]
fn get_header_finds_existing_key() {
    let headers = vec![
        PbHeader { key: "type".into(), value: "event".into() },
        PbHeader { key: "sum".into(), value: "3".into() },
    ];
    assert_eq!(get_header(&headers, "type"), Some("event"));
    assert_eq!(get_header(&headers, "sum"), Some("3"));
    assert_eq!(get_header(&headers, "missing"), None);
}

#[test]
fn build_ack_frame_retains_only_allowed_headers() {
    let original = PbFrame {
        seq_id: 5,
        log_id: 10,
        service: 1,
        method: METHOD_DATA,
        headers: vec![
            PbHeader { key: "type".into(), value: "event".into() },
            PbHeader { key: "message_id".into(), value: "msg_99".into() },
            PbHeader { key: "trace_id".into(), value: "trace_abc".into() },
            PbHeader { key: "sum".into(), value: "3".into() },
            PbHeader { key: "seq".into(), value: "1".into() },
        ],
        payload_encoding: String::new(),
        payload_type: String::new(),
        payload: Vec::new(),
        log_id_new: String::new(),
    };
    let ack = build_ack_frame(&original);
    let keys: Vec<&str> = ack.headers.iter().map(|h| h.key.as_str()).collect();
    assert!(keys.contains(&"type"));
    assert!(keys.contains(&"message_id"));
    assert!(keys.contains(&"trace_id"));
    assert!(keys.contains(&"biz_rt"));
    assert!(!keys.contains(&"sum"));
    assert!(!keys.contains(&"seq"));
}

#[test]
fn build_ack_frame_echoes_seq_and_log_ids() {
    let original = PbFrame {
        seq_id: 77,
        log_id: 88,
        service: 3,
        method: METHOD_DATA,
        headers: vec![],
        payload_encoding: String::new(),
        payload_type: String::new(),
        payload: Vec::new(),
        log_id_new: "new_log_xyz".into(),
    };
    let ack = build_ack_frame(&original);
    assert_eq!(ack.seq_id, 77);
    assert_eq!(ack.log_id, 88);
    assert_eq!(ack.service, 3);
    assert_eq!(ack.log_id_new, "new_log_xyz");
}

/// The header of a frame as prost describes it.
#[derive(Debug, Default)]
struct ProstHeader {
    key: String,
    value: String,
}

/// A frame as prost describes it.
#[derive(Debug, Default)]
struct ProstFrame {
    seq_id: u64,
    log_id: u64,
    service: i32,
    method: i32,
    headers: Vec<ProstHeader>,
    payload_encoding: String,
    payload_type: String,
    payload: Vec<u8>,
    log_id_new: String,
}

impl Message for ProstHeader {
    fn encode_raw(&self, buf: &mut impl prost::bytes::BufMut) {
        if !self.key.is_empty() {
            prost::encoding::string::encode(1, &self.key, buf);
        }
        if !self.value.is_empty() {
            prost::encoding::string::encode(2, &self.value, buf);
        }
    }

    fn merge_field(
        &mut self,
        tag: u32,
        wire_type: WireType,
        buf: &mut impl prost::bytes::Buf,
        ctx: DecodeContext,
    ) -> Result<(), prost::DecodeError> {
        match tag {
            1 => prost::encoding::string::merge(wire_type, &mut self.key, buf, ctx),
            2 => prost::encoding::string::merge(wire_type, &mut self.value, buf, ctx),
            _ => prost::encoding::skip_field(wire_type, tag, buf, ctx),
        }
    }

    fn encoded_len(&self) -> usize {
        let mut n = 0;
        if !self.key.is_empty() {
            n += prost::encoding::string::encoded_len(1, &self.key);
        }
        if !self.value.is_empty() {
            n += prost::encoding::string::encoded_len(2, &self.value);
        }
        n
    }

    fn clear(&mut self) {
        *self = ProstHeader::default();
    }
}

impl Message for ProstFrame {
    fn encode_raw(&self, buf: &mut impl prost::bytes::BufMut) {
        if self.seq_id != 0 {
            prost::encoding::uint64::encode(1, &self.seq_id, buf);
        }
        if self.log_id != 0 {
            prost::encoding::uint64::encode(2, &self.log_id, buf);
        }
        if self.service != 0 {
            prost::encoding::int32::encode(3, &self.service, buf);
        }
        if self.method != 0 {
            prost::encoding::int32::encode(4, &self.method, buf);
        }
        for h in &self.headers {
            prost::encoding::message::encode(5, h, buf);
        }
        if !self.payload_encoding.is_empty() {
            prost::encoding::string::encode(6, &self.payload_encoding, buf);
        }
        if !self.payload_type.is_empty() {
            prost::encoding::string::encode(7, &self.payload_type, buf);
        }
        if !self.payload.is_empty() {
            prost::encoding::bytes::encode(8, &self.payload, buf);
        }
        if !self.log_id_new.is_empty() {
            prost::encoding::string::encode(9, &self.log_id_new, buf);
        }
    }

    fn merge_field(
        &mut self,
        tag: u32,
        wire_type: WireType,
        buf: &mut impl prost::bytes::Buf,
        ctx: DecodeContext,
    ) -> Result<(), prost::DecodeError> {
        match tag {
            1 => prost::encoding::uint64::merge(wire_type, &mut self.seq_id, buf, ctx),
            2 => prost::encoding::uint64::merge(wire_type, &mut self.log_id, buf, ctx),
            3 => prost::encoding::int32::merge(wire_type, &mut self.service, buf, ctx),
            4 => prost::encoding::int32::merge(wire_type, &mut self.method, buf, ctx),
            5 => prost::encoding::message::merge_repeated(wire_type, &mut self.headers, buf, ctx),
            6 => prost::encoding::string::merge(wire_type, &mut self.payload_encoding, buf, ctx),
            7 => prost::encoding::string::merge(wire_type, &mut self.payload_type, buf, ctx),
            8 => prost::encoding::bytes::merge(wire_type, &mut self.payload, buf, ctx),
            9 => prost::encoding::string::merge(wire_type, &mut self.log_id_new, buf, ctx),
            _ => prost::encoding::skip_field(wire_type, tag, buf, ctx),
        }
    }

    fn encoded_len(&self) -> usize {
        let mut out: Vec<u8> = Vec::new();
        self.encode_raw(&mut out);
        out.len()
    }

    fn clear(&mut self) {
        *self = ProstFrame::default();
    }
}

fn to_prost(f: &PbFrame) -> ProstFrame {
    ProstFrame {
        seq_id: f.seq_id,
        log_id: f.log_id,
        service: f.service,
        method: f.method,
        headers: f.headers.iter().map(|h| ProstHeader { key: h.key.clone(), value: h.value.clone() }).collect(),
        payload_encoding: f.payload_encoding.clone(),
        payload_type: f.payload_type.clone(),
        payload: f.payload.clone(),
        log_id_new: f.log_id_new.clone(),
    }
}

fn from_prost(f: ProstFrame) -> PbFrame {
    PbFrame {
        seq_id: f.seq_id,
        log_id: f.log_id,
        service: f.service,
        method: f.method,
        headers: f.headers.into_iter().map(|h| PbHeader { key: h.key, value: h.value }).collect(),
        payload_encoding: f.payload_encoding,
        payload_type: f.payload_type,
        payload: f.payload,
        log_id_new: f.log_id_new,
    }
}

fn sample_frames() -> Vec<PbFrame> {
    let mut rich = frame(-1, vec![header("", ""), header("é", "值"), header("type", "event")], &[0, 255, 128]);
    rich.seq_id = u64::MAX;
    rich.log_id = 128;
    rich.service = i32::MIN;
    rich.payload_encoding = "gzip".into();
    rich.payload_type = "json".into();
    rich.log_id_new = "x".repeat(300);
    vec![frame(0, vec![], b""), build_ping_frame(7), build_ack_frame(&rich), rich]
}

#[test]
fn frames_are_written_like_prost_writes_them() {
    for f in sample_frames() {
        let bytes = encode_frame(&f);
        assert_eq!(bytes, to_prost(&f).encode_to_vec());
        assert_eq!(decode_frame(&bytes).unwrap(), f);
        assert_eq!(from_prost(ProstFrame::decode(bytes.as_slice()).unwrap()), f);
    }
}

#[test]
fn frames_are_read_like_prost_reads_them() {
    let mut inputs: Vec<Vec<u8>> = vec![
        vec![],
        vec![0x08],
        vec![0x08, 0x80],
        vec![0x08, 0xff, 0xff, 0xff, 0xff, 0xff, 0xff, 0xff, 0xff, 0xff, 0x01],
        vec![0x08, 0xff, 0xff, 0xff, 0xff, 0xff, 0xff, 0xff, 0xff, 0xff, 0x02],
        vec![0x00, 0x01],
        vec![0x0d, 1, 2, 3, 4],
        vec![0x09, 1, 2, 3, 4, 5, 6, 7, 8],
        vec![0x51, 1, 2, 3, 4, 5, 6, 7, 8],
        vec![0x55, 1, 2, 3, 4],
        vec![0x53, 0x08, 0x01, 0x54],
        vec![0x53, 0x54],
        vec![0x53, 0x5c],
        vec![0x54],
        vec![0x56, 0x00],
        vec![0x52, 0x03, 1, 2],
        vec![0x32, 0x02, 0xc3, 0x28],
        vec![0x2a, 0x04, 0x0a, 0x02, b'a', b'b'],
        vec![0x2a, 0x05, 0x0a, 0x02, b'a', b'b'],
        vec![0x2a, 0x03, 0x0a, 0x02, b'a', b'b'],
        vec![0x18, 0xff, 0xff, 0xff, 0xff, 0x0f],
        vec![0x08, 0x01, 0x08, 0x02],
    ];
    // Mutations of good frames, from a fixed sequence of numbers.
    let mut state: u64 = 0x9e37_79b9_7f4a_7c15;
    let mut next = || {
        state ^= state << 13;
        state ^= state >> 7;
        state ^= state << 17;
        state
    };
    let good: Vec<Vec<u8>> = sample_frames().iter().map(encode_frame).collect();
    for _ in 0..2000 {
        let mut bytes = good[(next() % good.len() as u64) as usize].clone();
        if bytes.is_empty() {
            bytes.push(next() as u8);
        }
        for _ in 0..(1 + next() % 3) {
            let at = (next() % bytes.len() as u64) as usize;
            bytes[at] = next() as u8;
        }
        if next() % 3 == 0 {
            let keep = (next() % (bytes.len() as u64 + 1)) as usize;
            bytes.truncate(keep);
        }
        inputs.push(bytes);
    }
    for bytes in inputs {
        match (decode_frame(&bytes), ProstFrame::decode(bytes.as_slice())) {
            (Ok(ours), Ok(theirs)) => assert_eq!(ours, from_prost(theirs), "{:?}", bytes),
            (Err(_), Err(_)) => {},
            (ours, theirs) => panic!("{:?}: {:?} but {:?}", bytes, ours.is_ok(), theirs.is_ok()),
        }
    }
}

#[test]
fn frame_errors_are_told_apart() {
    assert_eq!(decode_frame(&[0x08, 0x80]), Err(FrameError::InvalidVarint));
    assert_eq!(decode_frame(&[0x00, 0x01]), Err(FrameError::InvalidTag));
    assert_eq!(decode_frame(&[0x56, 0x00]), Err(FrameError::InvalidWireType));
    assert_eq!(decode_frame(&[0x0d, 1, 2, 3, 4]), Err(FrameError::UnexpectedWireType));
    assert_eq!(decode_frame(&[0x52, 0x03, 1, 2]), Err(FrameError::BufferUnderflow));
    assert_eq!(decode_frame(&[0x32, 0x02, 0xc3, 0x28]), Err(FrameError::InvalidUtf8));
    assert_eq!(decode_frame(&[0x54]), Err(FrameError::UnexpectedEndGroup));
}

// Fragments

#[test]
fn single_fragment_returns_immediately() {
    let mut cache = FragmentCache::new();
    let result = cache.push("msg_1", 1, 0, b"hello", 0);
    assert_eq!(result, Some(b"hello".to_vec()));
}

#[test]
fn multi_fragment_returns_on_complete() {
    let mut cache = FragmentCache::new();
    let r1 = cache.push("msg_2", 3, 0, b"aaa", 0);
    assert_eq!(r1, None);
    let r2 = cache.push("msg_2", 3, 2, b"ccc", 0);
    assert_eq!(r2, None);
    let r3 = cache.push("msg_2", 3, 1, b"bbb", 0);
    assert_eq!(r3, Some(b"aaabbbccc".to_vec()));
}

#[test]
fn different_message_ids_independent() {
    let mut cache = FragmentCache::new();
    cache.push("msg_a", 2, 0, b"A0", 0);
    let r = cache.push("msg_b", 1, 0, b"B", 0);
    assert_eq!(r, Some(b"B".to_vec()));
    let r2 = cache.push("msg_a", 2, 1, b"A1", 0);
    assert_eq!(r2, Some(b"A0A1".to_vec()));
}

#[test]
fn cleanup_removes_old_entries() {
    let now_ms: u64 = 1_000_000;
    let mut cache = FragmentCache::new();
    cache.push("old_msg", 3, 0, b"partial", now_ms - 600 * 1000);
    assert!(cache.contains("old_msg"));
    cache.cleanup(300 * 1000, now_ms);
    assert!(!cache.contains("old_msg"));
}

fn fragments_arrive_among_others() {
    let mut cache = FragmentCache::new();
    assert_eq!(cache.push("m", 3, 2, b"c", 10), None);
    assert_eq!(cache.push("other", 2, 0, b"x", 11), None);
    assert_eq!(cache.push("m", 3, 0, b"a", 500), None);
    assert_eq!(cache.push("single", 1, 0, b"s", 501), Some(b"s".to_vec()));
    assert_eq!(cache.push("m", 3, 1, b"b", 900), Some(b"abc".to_vec()));
    assert!(!cache.contains("m"));
    assert!(!cache.contains("single"));
    assert!(cache.contains("other"));
    assert_eq!(cache.push("other", 2, 1, b"y", 7), Some(b"xy".to_vec()));
    assert_eq!(cache.push("none", 0, 0, b"z", 8), Some(Vec::new()));
    assert!(!cache.contains("none"));
}

fn recent_fragments_stay() {
    let mut cache = FragmentCache::new();
    cache.push("m", 2, 0, b"a", 1000);
    cache.cleanup(300_000, 2000);
    assert!(cache.contains("m"));
    assert_eq!(cache.push("m", 2, 1, b"b", 2000), Some(b"ab".to_vec()));
    assert!(!cache.contains("m"));
}

fn pong(payload: &[u8]) -> Option<PongPayload> {
    let v: serde_json::Value = serde_json::from_slice(payload).ok()?;
    Some(PongPayload {
        ping_interval: v["PingInterval"].as_u64()?,
        reconnect_count: i32::try_from(v["ReconnectCount"].as_i64()?).ok()?,
        reconnect_interval: v["ReconnectInterval"].as_u64()?,
        reconnect_nonce: v["ReconnectNonce"].as_u64()?,
    })
}

#[test]
fn parse_pong_config_extracts_intervals() {
    let payload = br#"{"PingInterval":120,"ReconnectCount":10,"ReconnectInterval":120,"ReconnectNonce":30}"#;
    let config = parse_pong_config(pong(payload)).unwrap();
    assert_eq!(config.ping_interval_secs, 120);
    assert_eq!(config.reconnect_count, 10);
}

#[test]
fn parse_pong_config_invalid_json_returns_none() {
    let result = parse_pong_config(pong(b"not json"));
    assert!(result.is_none());
}

fn pong_configurations_keep_every_part() {
    let payload = PongPayload { ping_interval: 1, reconnect_count: -2, reconnect_interval: 3, reconnect_nonce: 4 };
    let full = parse_pong_config(Some(payload)).unwrap();
    assert_eq!(full.ping_interval_secs, 1);
    assert_eq!(full.reconnect_count, -2);
    assert_eq!(full.reconnect_interval_secs, 3);
    assert_eq!(full.reconnect_nonce_secs, 4);
    assert!(parse_pong_config(None).is_none());
}

// Control frames and steps

#[test]
fn extract_service_id_from_url() {
    let url = "wss://open.feishu.cn/ws/abc?service_id=7&device_id=xxx";
    assert_eq!(extract_service_id(url), 7);
}

#[test]
fn extract_service_id_missing_returns_zero() {
    let url = "wss://open.feishu.cn/ws/abc";
    assert_eq!(extract_service_id(url), 0);
}

fn service_ids_are_numbers() {
    assert_eq!(extract_service_id("wss://x?device_id=1&service_id=12"), 12);
    assert_eq!(extract_service_id("wss://x?service_id=abc"), 0);
    assert_eq!(extract_service_id("wss://x?service_id=-3"), -3);
}

#[test]
fn control_frame_pong_with_config_returns_duration() {
    let frame = frame(
        0,
        vec![header("type", "pong")],
        br#"{"PingInterval":60,"ReconnectCount":5,"ReconnectInterval":30,"ReconnectNonce":10}"#,
    );
    let result = handle_control_frame(&frame, pong(&frame.payload));
    assert_eq!(result.map(Duration::from_secs), Some(Duration::from_secs(60)));
}

#[test]
fn control_frame_pong_empty_payload_returns_none() {
    let frame = frame(0, vec![header("type", "pong")], b"");
    let result = handle_control_frame(&frame, pong(&frame.payload));
    assert_eq!(result, None);
}

#[test]
fn control_frame_ping_returns_none() {
    let frame = frame(0, vec![header("type", "ping")], b"");
    let result = handle_control_frame(&frame, pong(&frame.payload));
    assert_eq!(result, None);
}

fn data_frames_are_acknowledged_and_delivered() {
    let mut fragments = FragmentCache::new();
    let f = frame(METHOD_DATA, vec![header("type", "event"), header("message_id", "m1")], b"{}");
    match step(&mut fragments, &LarkEvent::Binary(encode_frame(&f)), 7, 0) {
        LarkStep::Ack(ack, Some((kind, text))) => {
            assert_eq!(decode_frame(&ack).unwrap(), build_ack_frame(&f));
            assert_eq!(text, "{}");
            assert_eq!(kind, "event");
        },
        other => panic!("{:?}", other),
    }
    let first = frame(
        METHOD_DATA,
        vec![header("type", "event"), header("message_id", "m2"), header("sum", "2"), header("seq", "0")],
        b"{",
    );
    match step(&mut fragments, &LarkEvent::Binary(encode_frame(&first)), 7, 0) {
        LarkStep::Ack(_, None) => {},
        other => panic!("{:?}", other),
    }
}

fn other_events_of_the_connection() {
    let mut fragments = FragmentCache::new();
    let timed = frame(
        METHOD_CONTROL,
        vec![header("type", "pong")],
        br#"{"PingInterval":60,"ReconnectCount":5,"ReconnectInterval":30,"ReconnectNonce":10}"#,
    );
    match step(&mut fragments, &LarkEvent::Binary(encode_frame(&timed)), 7, 0) {
        LarkStep::ReadPong(read) => {
            assert_eq!(read, timed);
            let payload = pong(&read.payload);
            assert!(matches!(step(&mut fragments, &LarkEvent::Pong(read, payload), 7, 0), LarkStep::SetPing(60)));
        }
        other => panic!("{:?}", other),
    }
    assert!(matches!(step(&mut fragments, &LarkEvent::Pong(timed, None), 7, 0), LarkStep::Nothing));
    for plain in [
        frame(METHOD_CONTROL, vec![header("type", "pong")], b""),
        frame(METHOD_CONTROL, vec![header("type", "ping")], b"{}"),
    ] {
        assert!(matches!(step(&mut fragments, &LarkEvent::Binary(encode_frame(&plain)), 7, 0), LarkStep::Nothing));
        let payload = PongPayload { ping_interval: 1, reconnect_count: 2, reconnect_interval: 3, reconnect_nonce: 4 };
        assert!(handle_control_frame(&plain, Some(payload)).is_none());
    }
    match step(&mut fragments, &LarkEvent::PingDue, 7, 0) {
        LarkStep::SendPing(bytes) => assert_eq!(decode_frame(&bytes).unwrap(), build_ping_frame(7)),
        other => panic!("{:?}", other),
    }
    assert!(matches!(step(&mut fragments, &LarkEvent::Binary(vec![0xff]), 7, 0), LarkStep::Nothing));
    assert!(matches!(step(&mut fragments, &LarkEvent::OtherMessage, 7, 0), LarkStep::Nothing));
    assert!(matches!(step(&mut fragments, &LarkEvent::Close, 7, 0), LarkStep::Finish));
    assert!(matches!(step(&mut fragments, &LarkEvent::Shutdown, 7, 0), LarkStep::Finish));
    assert!(matches!(step(&mut fragments, &LarkEvent::ReadError("x".into()), 7, 0), LarkStep::Fail(_)));
    assert!(initial_ping_secs(None) > 0);
    assert_eq!(initial_ping_secs(Some(45)), 45);
}

// Messages

#[test]
fn extract_text_strips_mentions() {
    let mentions = vec![Mention {
        key: "@_user_1".into(),
        id: MentionId { open_id: "ou_bot".into(), user_id: String::new(), union_id: String::new() },
        name: "Bot".into(),
    }];
    let (ct, text, _) = extract_message_content("text", content_of(r#"{"text":"@_user_1 Hello bot"}"#), Some(&mentions));
    assert_eq!(ct, MessageContentType::Text);
    assert_eq!(text, "Hello bot");
}

#[test]
fn extract_image_content() {
    let (ct, _, att) = extract_message_content("image", content_of(r#"{"image_key":"img_123"}"#), None);
    assert_eq!(ct, MessageContentType::Photo);
    let atts = att.unwrap();
    assert_eq!(atts[0].file_id.as_deref(), Some("img_123"));
}

#[test]
fn extract_file_content() {
    let (ct, _, att) = extract_message_content("file", content_of(r#"{"file_key":"file_123","file_name":"doc.pdf"}"#), None);
    assert_eq!(ct, MessageContentType::Document);
    let atts = att.unwrap();
    assert_eq!(atts[0].file_id.as_deref(), Some("file_123"));
    assert_eq!(atts[0].file_name.as_deref(), Some("doc.pdf"));
}

#[test]
fn extract_audio_content() {
    let (ct, _, att) = extract_message_content("audio", content_of(r#"{"file_key":"audio_123"}"#), None);
    assert_eq!(ct, MessageContentType::Audio);
    let atts = att.unwrap();
    assert_eq!(atts[0].file_id.as_deref(), Some("audio_123"));
}

fn content_of(content: &str) -> ContentFields {
    let v: serde_json::Value = serde_json::from_str(content).unwrap();
    let text = |key: &str| v[key].as_str().map(str::to_string);
    ContentFields {
        text: text("text"),
        image_key: text("image_key"),
        file: text("file_key").map(|key| (key, text("file_name"))),
        file_key: text("file_key"),
    }
}

fn fields() -> ContentFields {
    ContentFields { text: None, image_key: None, file: None, file_key: None }
}

fn unreadable_content_has_an_empty_key() {
    let (ct, text, att) = extract_message_content("image", fields(), None);
    assert_eq!(ct, MessageContentType::Photo);
    assert!(text.is_empty());
    assert_eq!(att.unwrap()[0].file_id.as_deref(), Some(""));
    let mut named = fields();
    named.text = Some("/help".into());
    assert_eq!(extract_message_content("text", named, None).0, MessageContentType::Command);
}

fn text_of(v: &serde_json::Value) -> String {
    v.as_str().unwrap_or_default().to_string()
}

fn message_event(text: &str) -> MessageEvent {
    let v: serde_json::Value = serde_json::from_str(text).unwrap();
    let id = &v["sender"]["sender_id"];
    MessageEvent {
        sender: MessageSender {
            sender_id: SenderIdContainer {
                open_id: text_of(&id["open_id"]),
                user_id: text_of(&id["user_id"]),
                union_id: text_of(&id["union_id"]),
            },
            sender_type: text_of(&v["sender"]["sender_type"]),
            tenant_key: text_of(&v["sender"]["tenant_key"]),
        },
        message: MessageBody {
            message_id: text_of(&v["message"]["message_id"]),
            chat_id: text_of(&v["message"]["chat_id"]),
            chat_type: text_of(&v["message"]["chat_type"]),
            message_type: text_of(&v["message"]["message_type"]),
            content: text_of(&v["message"]["content"]),
            parent_id: None,
            root_id: None,
            create_time: None,
            mentions: None,
        },
    }
}

fn card_event(text: &str) -> CardActionEvent {
    let v: serde_json::Value = serde_json::from_str(text).unwrap();
    CardActionEvent {
        operator: CardOperator { open_id: text_of(&v["operator"]["open_id"]), user_id: None },
        action: CardAction {
            tag: text_of(&v["action"]["tag"]),
            value: v["action"].get("value").map(|x| x.to_string()),
        },
        token: None,
        open_message_id: v["open_message_id"].as_str().map(|s| s.to_string()),
        open_chat_id: v["open_chat_id"].as_str().map(|s| s.to_string()),
    }
}

const EVENT: &str = r#"{
    "header": {
        "event_id": "ev_test_1",
        "event_type": "im.message.receive_v1"
    },
    "event": {
        "sender": {
            "sender_id": { "open_id": "ou_user1", "user_id": "", "union_id": "" },
            "sender_type": "user",
            "tenant_key": "t1"
        },
        "message": {
            "message_id": "msg_test_1",
            "chat_id": "oc_chat1",
            "chat_type": "p2p",
            "message_type": "text",
            "content": "{\"text\":\"Hello bot\"}"
        }
    }
}"#;

#[test]
fn ws_text_event_dispatches_message() {
    let mut seen = DedupCache::new();
    let work = handle_ws_text(&mut seen, EVENT, "event", 0);
    let msg = match work {
        WsWork::Message(event) => {
            let event = message_event(&event);
            let content = content_of(&event.message.content);
            handle_message_event(&event, content, 0)
        }
        other => panic!("{:?}", other),
    };
    assert_eq!(msg.id, "msg_test_1");
    assert_eq!(msg.chat_id, "oc_chat1");
    assert_eq!(msg.content.text, "Hello bot");
    assert_eq!(msg.user.id, "ou_user1");
    assert_eq!(msg.platform, PluginType::Lark);
}

#[test]
fn ws_text_event_deduplicates() {
    let mut seen = DedupCache::new();
    assert!(matches!(handle_ws_text(&mut seen, EVENT, "event", 0), WsWork::Message(_)));
    assert!(matches!(handle_ws_text(&mut seen, EVENT, "event", 0), WsWork::Nothing));
}

#[test]
fn ws_text_card_dispatches_action() {
    let mut seen = DedupCache::new();
    let payload = r#"{
        "operator": { "open_id": "ou_actor", "user_id": null },
        "action": { "tag": "button", "value": {"action": "chat:help.show"} },
        "open_message_id": "om_card1",
        "open_chat_id": "oc_chat2"
    }"#;
    let msg = match handle_ws_text(&mut seen, payload, "card", 0) {
        WsWork::Card(text) => handle_card_action(&card_event(&text), 0).message,
        other => panic!("{:?}", other),
    };
    assert_eq!(msg.chat_id, "oc_chat2");
    assert_eq!(msg.user.id, "ou_actor");
    assert!(msg.action.is_some());
    let action = msg.action.unwrap();
    assert_eq!(action.action, "help.show");
}

#[test]
fn ws_text_card_confirm_sends_to_confirm_channel() {
    let mut seen = DedupCache::new();
    let payload = r#"{
        "operator": { "open_id": "ou_actor" },
        "action": { "tag": "button", "value": {"action": "system:system.confirm:callId=call_123,value=approve"} },
        "open_message_id": "om_1",
        "open_chat_id": "oc_1"
    }"#;
    let confirm = match handle_ws_text(&mut seen, payload, "card", 0) {
        WsWork::Card(text) => handle_card_action(&card_event(&text), 0).confirm,
        other => panic!("{:?}", other),
    };
    let (call_id, value) = confirm.unwrap();
    assert_eq!(call_id, "call_123");
    assert_eq!(value, "approve");
}

#[test]
fn ws_text_unknown_type_does_not_dispatch() {
    let mut seen = DedupCache::new();
    assert!(matches!(handle_ws_text(&mut seen, "{}", "unknown_type", 0), WsWork::Nothing));
}

fn envelopes_are_sorted_by_their_event() {
    let envelope = |id: Option<&str>, kind: Option<&str>| Envelope {
        event_id: id.map(|s| s.to_string()),
        event_type: kind.map(|s| s.to_string()),
        event: Some("{}".into()),
    };
    let mut seen = DedupCache::new();
    assert!(matches!(
        handle_envelope(&mut seen, envelope(Some("1"), Some("application.bot.menu_v6")), 0),
        WsWork::Menu(_)
    ));
    assert!(matches!(handle_envelope(&mut seen, envelope(Some("2"), Some("other")), 0), WsWork::Nothing));
    assert!(matches!(
        handle_envelope(&mut seen, envelope(Some("1"), Some("im.message.receive_v1")), 0),
        WsWork::Nothing
    ));
}

fn messages_keep_their_parts() {
    let mut event = message_event(
        r#"{"sender":{"sender_id":{"open_id":"ou"}},"message":{"message_id":"m","chat_id":"c","message_type":"text"}}"#,
    );
    event.message.parent_id = Some("p1".into());
    event.message.create_time = Some("1700000000123".into());
    let mut named = fields();
    named.text = Some("hi".into());
    let msg = handle_message_event(&event, named, 5);
    assert_eq!(msg.content.text, "hi");
    assert_eq!(msg.reply_to_message_id.as_deref(), Some("p1"));
    assert_eq!(msg.timestamp, 1_700_000_000);
    assert!(msg.owner_user_id.is_none());
}

fn menu_and_card_events_become_messages() {
    let menu = BotMenuEvent {
        operator: BotMenuOperator {
            operator_id: OperatorId { open_id: "ou_m".into(), user_id: String::new(), union_id: String::new() },
        },
        event_key: "session.new".into(),
        timestamp: None,
    };
    let msg = handle_bot_menu_event(&menu, 9);
    assert_eq!(msg.user.id, "ou_m");
    assert_eq!(msg.platform, PluginType::Lark);
    let card = card_event(r#"{"operator":{"open_id":"o"},"action":{"tag":"b"},"open_chat_id":"c"}"#);
    let outcome = card_from_action(&card, "platform:pairing.check".into(), 1);
    assert!(outcome.confirm.is_none());
    let action = outcome.message.action.unwrap();
    assert_eq!(action.action, "pairing.check");
    assert_eq!(action.category, ActionCategory::Platform);
}

// Cards

#[test]
fn build_card_text_only() {
    let card = build_interactive_card("Hello", &None);
    let v: serde_json::Value = serde_json::from_str(&card).unwrap();
    assert_eq!(v["elements"][0]["tag"], "markdown");
    assert_eq!(v["elements"][0]["content"], "Hello");
    assert!(v["elements"].get(1).is_none());
}

#[test]
fn build_card_with_buttons() {
    let buttons = vec![vec![
        ActionButton { label: "Yes".into(), action: "system.confirm".into(), params: None },
        ActionButton { label: "No".into(), action: "chat.regenerate".into(), params: None },
    ]];
    let card = build_interactive_card("Choose:", &Some(buttons));
    let v: serde_json::Value = serde_json::from_str(&card).unwrap();
    assert_eq!(v["elements"][0]["content"], "Choose:");
    let actions = &v["elements"][1]["actions"];
    assert_eq!(actions[0]["text"]["content"], "Yes");
    assert_eq!(actions[1]["text"]["content"], "No");
}

// The service

#[test]
fn send_card_request_serializes() {
    let req = LarkApi::new("a", "s").send_card("tok", "oc_chat1", "{}");
    let json: serde_json::Value = serde_json::from_str(&write_json(&req.body.unwrap())).unwrap();
    assert_eq!(json["receive_id"], "oc_chat1");
    assert_eq!(json["msg_type"], "interactive");
    assert_eq!(req.method, Method::Post);
    assert!(req.headers.contains(&("Authorization".to_string(), "Bearer tok".to_string())));
}

#[test]
fn update_card_request_serializes() {
    let req = LarkApi::new("a", "s").update_card("tok", "om_1", "{\"elements\":[]}");
    let json: serde_json::Value = serde_json::from_str(&write_json(&req.body.unwrap())).unwrap();
    assert_eq!(json["content"], "{\"elements\":[]}");
    assert!(req.url.ends_with("/om_1"));
}

#[test]
fn tenant_token_request_serializes() {
    let req = LarkApi::new("cli_123", "secret_456").refresh_token();
    let json: serde_json::Value = serde_json::from_str(&write_json(&req.body.unwrap())).unwrap();
    assert_eq!(json["app_id"], "cli_123");
    assert_eq!(json["app_secret"], "secret_456");
}

fn endpoint_requests_carry_the_credentials() {
    let api = LarkApi::new("cli", "sec");
    let req = api.get_ws_endpoint();
    let json: serde_json::Value = serde_json::from_str(&write_json(&req.body.unwrap())).unwrap();
    assert_eq!(json["AppID"], "cli");
    assert_eq!(json["AppSecret"], "sec");
    assert!(api.get_bot_info("tok").headers.contains(&("Authorization".to_string(), "Bearer tok".to_string())));
}

fn replies_of_lark_are_read() {
    let token = |code: i32, t: Option<&str>| TenantAccessTokenResponse {
        code,
        msg: "m".into(),
        tenant_access_token: t.map(|s| s.to_string()),
        expire: Some(100),
    };
    let cache = token_of(token(0, Some("t1")), 5).unwrap();
    assert_eq!(cache.token, "t1");
    assert_eq!(cache.acquired_at, 5);
    assert_eq!(cache.expires_in, 100);
    assert_eq!(
        token_of(token(99, Some("t1")), 5).map(|c| c.token),
        Err(ChannelError::ConnectionFailed("Lark token error (code=99): m".into()))
    );
    assert!(token_of(token(0, None), 5).is_err());

    let bot = BotInfoData { app_name: "Bot".into(), open_id: "ou".into() };
    assert_eq!(bot_of(BotInfoResponse { code: 0, msg: "".into(), bot: Some(bot) }).unwrap().app_name, "Bot");
    assert!(bot_of(BotInfoResponse { code: 0, msg: "".into(), bot: None }).is_err());
    let data = WsEndpointData { url: "wss://x".into(), ping_interval: Some(30) };
    assert_eq!(endpoint_of(WsEndpointResponse { code: 0, msg: "".into(), data: Some(data) }).unwrap().url, "wss://x");
    assert!(endpoint_of(WsEndpointResponse { code: 1, msg: "no".into(), data: None }).is_err());
    assert_eq!(sent_id(SendMessageResponse { code: 0, msg: "".into(), data: Some("om".into()) }), Ok("om".to_string()));
    assert!(sent_id(SendMessageResponse { code: 230001, msg: "bad".into(), data: None }).is_err());
    assert!(check_update(GenericResponse { code: 0, msg: "".into() }).is_ok());
    assert!(check_update(GenericResponse { code: 1, msg: "x".into() }).is_err());
}

fn credentials(app_id: Option<&str>, app_secret: Option<&str>) -> PluginCredentials {
    PluginCredentials {
        token: None,
        app_id: app_id.map(|s| s.to_string()),
        app_secret: app_secret.map(|s| s.to_string()),
        encrypt_key: None,
        verification_token: None,
        client_id: None,
        client_secret: None,
        account_id: None,
        bot_token: None,
        app_token: None,
        extra: TextMap::new(),
    }
}

fn the_plugin_needs_both_credentials() {
    for (id, secret) in [(None, Some("s")), (Some(""), Some("s")), (Some("a"), None), (Some("a"), Some(""))] {
        let mut plugin = LarkPlugin::new();
        let r = plugin.initialize(&credentials(id, secret));
        assert!(matches!(r, Err(ChannelError::InvalidConfig(_))));
        assert_eq!(plugin.state.status(), PluginStatus::Error);
    }
    let mut plugin = LarkPlugin::new();
    let message = text_message("hi".to_string());
    assert!(plugin.send_message("tok", "oc", &message, 4000).is_err());
    let api = plugin.initialize(&credentials(Some("a"), Some("s"))).unwrap();
    plugin.identified(api, BotInfoData { app_name: "Bot".into(), open_id: "ou".into() });
    assert_eq!(plugin.state.status(), PluginStatus::Ready);
    assert_eq!(plugin.state.bot_info().unwrap().display_name, "Bot");
    let sent = plugin.send_message("tok", "oc", &message, 4000).unwrap();
    assert!(write_json(&sent.body.unwrap()).contains("hi"));
    let edited = plugin.edit_message("tok", "om_9", &message, 4000).unwrap();
    assert!(edited.url.ends_with("/om_9"));
    assert_eq!(edited.method, Method::Patch);
}

#[test]
fn fragments_and_pongs_are_exact() {
    recent_fragments_stay();
    fragments_arrive_among_others();
    pong_configurations_keep_every_part();
    service_ids_are_numbers();
}

#[test]
fn the_connection_takes_its_steps() {
    data_frames_are_acknowledged_and_delivered();
    other_events_of_the_connection();
}

#[test]
fn events_become_messages() {
    unreadable_content_has_an_empty_key();
    envelopes_are_sorted_by_their_event();
    messages_keep_their_parts();
    menu_and_card_events_become_messages();
}

#[test]
fn lark_is_asked_and_answers() {
    endpoint_requests_carry_the_credentials();
    replies_of_lark_are_read();
    the_plugin_needs_both_credentials();
}
