use webrtc_datachannels::demo::{is_timeout, numeric_arg, read_message};
use webrtc_datachannels::error::{describe, Error};
use webrtc_datachannels::json::json_str;
use webrtc_datachannels::payload::{
    make_message, make_payload, payload_index, verify_all, verify_ordered, verify_payload,
};
use webrtc_datachannels::script::Message;
use webrtc_datachannels::signal::{
    decode, encode_ice, encode_sdp, make_sdp, IceCandidate, SdpType, Signal,
};
use webrtc_datachannels::socket_addr::{
    family_of, from_wasi_addr, net_err, to_wasi_addr, BindStep, IpAddressFamily, IpSocketAddress,
    SocketAddr,
};
use webrtc_datachannels::text::{
    after_last, comes_before, contains, join_from, lines, parse_number, strip_prefix, to_decimal,
    trim, trim_end_matches, IntError,
};

#[test]
fn numbers_round_trip() {
    for n in [0, 7, 10, 4096, u64::MAX] {
        assert_eq!(to_decimal(n), n.to_string());
        assert_eq!(parse_number(&to_decimal(n), u64::MAX), Ok(n));
    }
}

#[test]
fn bad_numbers_are_told_apart() {
    assert_eq!(parse_number("", 9), Err(IntError::Empty));
    assert_eq!(parse_number("+", 9), Err(IntError::InvalidDigit));
    assert_eq!(parse_number("-1", 9), Err(IntError::InvalidDigit));
    assert_eq!(parse_number("1 ", 9), Err(IntError::InvalidDigit));
    assert_eq!(parse_number("10", 9), Err(IntError::PosOverflow));
    assert_eq!(parse_number("+9", 9), Ok(9));
    for (bad, error) in [("", IntError::Empty), ("x", IntError::InvalidDigit)] {
        assert_eq!(bad.parse::<u32>().unwrap_err().to_string(), error.message());
    }
    assert_eq!(
        "4294967296".parse::<u32>().unwrap_err().to_string(),
        IntError::PosOverflow.message()
    );
}

#[test]
fn texts_are_taken_apart_as_std_does() {
    for text in ["", "\n", "a\nb", "a\r\nb\n", "a\n\nb", "\r", "a\r\r\n"] {
        assert_eq!(lines(text), text.lines().collect::<Vec<_>>(), "{text:?}");
    }
    for text in ["", " a ", "\u{2003}x\u{a0}", "\t\n", "a b"] {
        assert_eq!(trim(text), text.trim(), "{text:?}");
    }
    assert_eq!(trim_end_matches("a///", '/'), "a");
    assert_eq!(strip_prefix("http://x", "http://"), Some("x"));
    assert_eq!(strip_prefix("x", "http://"), None);
    assert_eq!(after_last("a at b at c", " at "), Some("c"));
    assert_eq!(after_last("abc", " at "), None);
    assert!(contains("a timed-out b", "timed-out"));
    assert!(!contains("ab", "abc"));
    assert!(comes_before("a", "b") && comes_before("a", "ab") && !comes_before("b", "a"));
    let list = vec!["x".to_string(), "y".to_string(), "z".to_string()];
    assert_eq!(join_from(&list, 1, ", "), "y, z");
}

#[test]
fn json_strings_are_quoted_and_escaped() {
    assert_eq!(json_str("a\"b\\c\n"), "\"a\\\"b\\\\c\\n\"");
    assert_eq!(json_str(""), "\"\"");
    assert_eq!(json_str("\u{8}\t\u{c}\r"), "\"\\b\\t\\f\\r\"");
    assert_eq!(json_str("\u{0}\u{1b}\u{b}"), "\"\\u0000\\u001b\\u000b\"");
    assert_eq!(json_str("/é\u{7f}\u{2028}"), "\"/é\u{7f}\u{2028}\"");
}

#[test]
fn errors_are_described() {
    assert_eq!(describe(&Error::Closed), "closed");
    assert_eq!(describe(&Error::TimedOut), "timed-out");
    assert_eq!(describe(&Error::InvalidSignaling("x".to_string())), "invalid-signaling: x");
    assert_eq!(describe(&Error::Other("y".to_string())), "other: y");
}

#[test]
fn binary_messages_are_read_lossily() {
    assert_eq!(read_message(&Message::Binary(b"ok".to_vec())), "ok");
    assert_eq!(read_message(&Message::Binary(b"a\xffb".to_vec())), "a\u{fffd}b");
    assert_eq!(read_message(&Message::Text("t".to_string())), "t");
}

#[test]
fn timeouts_are_recognised_by_their_text() {
    assert!(is_timeout("offerer wait-connected: Error::TimedOut"));
    assert!(!is_timeout("wait-connected: Error::Closed"));
    assert!(!is_timeout("create-offer: Error::TimedOut"));
}

#[test]
fn numeric_arguments_have_a_default() {
    assert_eq!(numeric_arg(Some("12"), 5), 12);
    assert_eq!(numeric_arg(Some("x"), 5), 5);
    assert_eq!(numeric_arg(None, 5), 5);
}

// ----- payloads -----

#[test]
fn payloads_carry_index_and_verify() {
    let p = make_payload(7, 64);
    assert_eq!(p.len(), 64);
    assert_eq!(payload_index(&p), Some(7));
    assert!(verify_payload(&p));
    let mut bad = p.clone();
    bad[40] ^= 1;
    assert!(!verify_payload(&bad));
    assert_eq!(payload_index(&[1, 2, 3]), None);
    assert_ne!(make_payload(1, 64), make_payload(2, 64));
}

#[test]
fn sent_sequences_verify() {
    let sent: Vec<Vec<u8>> = (0..5).map(|i| make_payload(i, 32)).collect();
    assert_eq!(verify_all(&sent, 5), Ok(()));
    assert_eq!(verify_ordered(&sent, 5), Ok(()));
    assert!(verify_all(&sent, 6).is_err());
    let mut swapped = sent.clone();
    swapped.swap(1, 3);
    assert!(verify_ordered(&swapped, 5).is_err());
    let mut broken = sent.clone();
    broken[2][20] ^= 0x80;
    assert!(verify_all(&broken, 5).is_err());
}

#[test]
fn demo_messages_are_told_apart() {
    let message = make_message(8, 3);
    assert_eq!(message.len(), 8);
    assert_eq!(message[..4], 3u32.to_le_bytes());
    assert_ne!(make_message(8, 3), make_message(8, 4));
}

// ----- signals -----

#[test]
fn descriptions_round_trip() {
    for kind in [SdpType::Offer, SdpType::Pranswer, SdpType::Answer, SdpType::Rollback] {
        let blob = encode_sdp(&make_sdp(kind, "v=0\r\nline\n".to_string()));
        match decode(&blob) {
            Some(Signal::Sdp(d)) => {
                assert_eq!(d.kind, kind);
                assert_eq!(d.sdp, "v=0\r\nline\n");
            }
            other => panic!("{other:?}"),
        }
    }
}

#[test]
fn candidates_round_trip() {
    for (mid, index) in [(None, None), (Some("0"), Some(3)), (Some("audio"), None)] {
        let candidate = IceCandidate {
            candidate: "candidate:1 1 udp 1 10.0.0.1 9 typ host".to_string(),
            sdp_mid: mid.map(|m| m.to_string()),
            sdp_mline_index: index,
        };
        match decode(&encode_ice(&candidate)) {
            Some(Signal::Ice(c)) => {
                assert_eq!(c.candidate, candidate.candidate);
                assert_eq!(c.sdp_mid, candidate.sdp_mid);
                assert_eq!(c.sdp_mline_index, index);
            }
            other => panic!("{other:?}"),
        }
    }
}

#[test]
fn malformed_blobs_are_no_signals() {
    assert!(decode(b"").is_none());
    assert!(decode(b"\xff\xfe").is_none());
    assert!(decode(b"hello\nworld").is_none());
}

// ----- addresses -----

#[test]
fn addresses_round_trip() {
    let v4 = SocketAddr::V4 { octets: (10, 79, 1, 2), port: 9 };
    assert_eq!(to_wasi_addr(v4), IpSocketAddress::Ipv4 { port: 9, address: (10, 79, 1, 2) });
    assert_eq!(from_wasi_addr(to_wasi_addr(v4)), v4);
    let v6 = SocketAddr::V6 {
        segments: (0xfe80, 0, 0, 0, 0, 0, 0, 1),
        port: 5,
        flowinfo: 0,
        scope_id: 0,
    };
    assert_eq!(from_wasi_addr(to_wasi_addr(v6)), v6);
    assert_eq!(family_of(v4), IpAddressFamily::Ipv4);
    assert_eq!(family_of(v6), IpAddressFamily::Ipv6);
    assert!(net_err(BindStep::Bind, "address-in-use").contains("address-in-use"));
    assert_ne!(net_err(BindStep::Bind, "x"), net_err(BindStep::Create, "x"));
}
