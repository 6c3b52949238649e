use webrtc_datachannels::cli_signaling::{
    blob_line, connected_notice, drive, judge_line, make_greeting, peer_greeting, present, prompt,
    select_role, Inbound, Line, LineReader, ManualNext, ManualReply, Pasted,
};
use webrtc_datachannels::error::Error;
use webrtc_datachannels::script::Side;

#[test]
fn roles_are_selected_by_argument() {
    assert_eq!(select_role(Some("offer")), Ok(Side::Offerer));
    assert_eq!(select_role(Some("answer")), Ok(Side::Answerer));
    assert_eq!(select_role(None), Ok(Side::Offerer));
    assert_eq!(
        select_role(Some("x\"y")).unwrap_err(),
        "usage: cli-signaling [offerer|answerer]  (got \"x\\\"y\")"
    );
}

#[test]
fn blobs_are_base64() {
    assert_eq!(blob_line("hello").trim_end(), "aGVsbG8=");
    assert_eq!(blob_line("").trim_end(), "");
    match judge_line(Some("  aGVsbG8= \r")) {
        Pasted::Description(text) => assert_eq!(text, "hello"),
        other => panic!("{other:?}"),
    }
    assert!(matches!(judge_line(Some("not base64!")), Pasted::NotBase64));
    assert!(matches!(judge_line(Some("   ")), Pasted::Blank));
    assert!(matches!(judge_line(None), Pasted::Ended));
}

#[test]
fn what_is_presented_can_be_pasted() {
    let sdp = "v=0\r\no=- 1 1 IN IP4 0.0.0.0\r\n\u{e9}";
    assert!(present("Offer", sdp).contains(blob_line(sdp).trim_end()));
    match judge_line(Some(&blob_line(sdp))) {
        Pasted::Description(text) => assert_eq!(text, sdp),
        other => panic!("{other:?}"),
    }
    assert!(prompt("answer").contains("answer"));
}

fn read(reader: &mut LineReader) -> Option<String> {
    match reader.read_line() {
        Line::Text(text) => Some(text),
        _ => None,
    }
}

#[test]
fn chunks_make_no_difference() {
    let mut whole = LineReader::new();
    whole.feed(b"one\ntwo\nthree", true);
    let mut split = LineReader::new();
    split.feed(b"on", false);
    assert!(matches!(split.read_line(), Line::NeedsInput));
    split.feed(b"e\ntw", false);
    split.feed(b"o\nthr", false);
    split.feed(b"ee", true);
    for expected in ["one", "two", "three"] {
        assert_eq!(read(&mut whole).unwrap().trim_end(), expected);
        assert_eq!(read(&mut split).unwrap().trim_end(), expected);
    }
    assert!(matches!(whole.read_line(), Line::End));
    assert!(matches!(split.read_line(), Line::End));
}

#[test]
fn lines_are_read_lossily() {
    let mut reader = LineReader::new();
    reader.feed(b"a\xffb\n", false);
    assert_eq!(read(&mut reader).unwrap().trim_end(), "a\u{fffd}b");
}

#[test]
fn pasted_descriptions_are_used() {
    let mut replies: Vec<ManualReply> = Vec::new();
    let mut seen = Vec::new();
    loop {
        match drive(Side::Offerer, &replies) {
            ManualNext::CreateOffer { .. } => {
                seen.push("create");
                replies.push(ManualReply::Sdp(Ok("my offer".to_string())));
            }
            ManualNext::Present { sdp, .. } => {
                assert_eq!(sdp, "my offer");
                seen.push("present");
                replies.push(ManualReply::Shown);
            }
            ManualNext::Print(_) => replies.push(ManualReply::Shown),
            ManualNext::AskFor { .. } => {
                seen.push("ask");
                replies.push(ManualReply::Typed("their answer".to_string()));
            }
            ManualNext::AcceptAnswer { answer } => {
                assert_eq!(answer, "their answer");
                seen.push("accept");
                replies.push(ManualReply::Done(Ok(())));
            }
            ManualNext::Connect => {
                seen.push("connect");
                replies.push(ManualReply::Done(Ok(())));
            }
            ManualNext::Ready => break,
            other => panic!("{other:?}"),
        }
    }
    assert_eq!(seen, vec!["create", "present", "ask", "accept", "connect"]);
}

#[test]
fn failed_calls_end_the_exchange() {
    let replies = [ManualReply::Sdp(Err(Error::TimedOut))];
    assert!(matches!(drive(Side::Offerer, &replies), ManualNext::Failed(Error::TimedOut)));
}

#[test]
fn greetings_are_told() {
    let greeting = make_greeting(Side::Offerer);
    assert!(greeting.contains("offerer"));
    assert_ne!(greeting, make_greeting(Side::Answerer));
    assert!(connected_notice("hi there").contains("hi there"));
    let first = Inbound { first: None, ended: false };
    let second = Inbound { first: Some(b"hi\xff".to_vec()), ended: false };
    assert_eq!(peer_greeting(&[first]), None);
    let first = Inbound { first: None, ended: false };
    assert_eq!(peer_greeting(&[first, second]).as_deref(), Some("hi\u{fffd}"));
}
