//! The signaling blobs that demo peers exchange: a tiny line-based text format for
//! session descriptions and ICE candidates.

use vstd::prelude::*;
use vstd::slice::slice_to_vec;
use vstd::utf8::{decode_utf8, encode_utf8, valid_utf8};

use crate::json::utf8_text;
use crate::text::{
    concat2, concat4, decimal, find, find_from, has_prefix, law_number_round_trip,
    lemma_find_from_is, number, opt_text, parse_number, same, strip_prefix, to_decimal,
};

verus! {

/// The kind of a session description.
#[derive(Debug, Clone, Copy, PartialEq, Eq, Structural)]
pub enum SdpType {
    Offer,
    Pranswer,
    Answer,
    Rollback,
}

impl SdpType {
    /// The name of this kind in a blob.
    pub open spec fn name(self) -> Seq<char> {
        match self {
            SdpType::Offer => "offer"@,
            SdpType::Answer => "answer"@,
            SdpType::Pranswer => "pranswer"@,
            SdpType::Rollback => "rollback"@,
        }
    }

    fn as_str(self) -> (r: &'static str)
        ensures
            r@ == self.name(),
    {
        match self {
            SdpType::Offer => "offer",
            SdpType::Answer => "answer",
            SdpType::Pranswer => "pranswer",
            SdpType::Rollback => "rollback",
        }
    }
}

/// The kind a name stands for.
pub open spec fn kind_named(name: Seq<char>) -> Option<SdpType> {
    if name == "offer"@ {
        Some(SdpType::Offer)
    } else if name == "answer"@ {
        Some(SdpType::Answer)
    } else if name == "pranswer"@ {
        Some(SdpType::Pranswer)
    } else if name == "rollback"@ {
        Some(SdpType::Rollback)
    } else {
        None
    }
}

fn find_kind(name: &str) -> (r: Option<SdpType>)
    ensures
        r == kind_named(name@),
{
    if same(name, "offer") {
        Some(SdpType::Offer)
    } else if same(name, "answer") {
        Some(SdpType::Answer)
    } else if same(name, "pranswer") {
        Some(SdpType::Pranswer)
    } else if same(name, "rollback") {
        Some(SdpType::Rollback)
    } else {
        None
    }
}

/// A session description: an offer, an answer and so on.
#[derive(Debug, Clone)]
pub struct SessionDescription {
    pub kind: SdpType,
    pub sdp: String,
}

/// The contents of a [`SessionDescription`].
#[verifier::ext_equal]
pub struct DescriptionView {
    pub kind: SdpType,
    pub sdp: Seq<char>,
}

impl View for SessionDescription {
    type V = DescriptionView;

    open spec fn view(&self) -> DescriptionView {
        DescriptionView { kind: self.kind, sdp: self.sdp@ }
    }
}

/// Build a session description from a kind and an SDP string.
pub fn make_sdp(kind: SdpType, sdp: String) -> (r: SessionDescription)
    ensures
        r@ == (DescriptionView { kind, sdp: sdp@ }),
{
    SessionDescription { kind, sdp }
}

/// An ICE candidate.
#[derive(Debug, Clone)]
pub struct IceCandidate {
    pub candidate: String,
    pub sdp_mid: Option<String>,
    pub sdp_mline_index: Option<u16>,
}

/// The contents of an [`IceCandidate`].
#[verifier::ext_equal]
pub struct CandidateView {
    pub candidate: Seq<char>,
    pub sdp_mid: Option<Seq<char>>,
    pub sdp_mline_index: Option<u16>,
}

impl View for IceCandidate {
    type V = CandidateView;

    open spec fn view(&self) -> CandidateView {
        CandidateView {
            candidate: self.candidate@,
            sdp_mid: opt_text(self.sdp_mid),
            sdp_mline_index: self.sdp_mline_index,
        }
    }
}

/// The signaling blob schema of the conformance guest.
#[derive(Debug, Clone)]
pub enum GuestSignal {
    Offer { sdp: String },
    Answer { sdp: String },
    Candidate(IceCandidate),
    EndOfCandidates,
}

/// The contents of a [`GuestSignal`].
#[verifier::ext_equal]
pub enum GuestSignalView {
    Offer { sdp: Seq<char> },
    Answer { sdp: Seq<char> },
    Candidate(CandidateView),
    EndOfCandidates,
}

impl View for GuestSignal {
    type V = GuestSignalView;

    open spec fn view(&self) -> GuestSignalView {
        match self {
            GuestSignal::Offer { sdp } => GuestSignalView::Offer { sdp: sdp@ },
            GuestSignal::Answer { sdp } => GuestSignalView::Answer { sdp: sdp@ },
            GuestSignal::Candidate(candidate) => GuestSignalView::Candidate(candidate@),
            GuestSignal::EndOfCandidates => GuestSignalView::EndOfCandidates,
        }
    }
}

/// One decoded signaling message.
#[derive(Debug, Clone)]
pub enum Signal {
    Sdp(SessionDescription),
    Ice(IceCandidate),
}

/// The contents of a [`Signal`].
pub enum SignalView {
    Sdp(DescriptionView),
    Ice(CandidateView),
}

impl View for Signal {
    type V = SignalView;

    open spec fn view(&self) -> SignalView {
        match self {
            Signal::Sdp(description) => SignalView::Sdp(description@),
            Signal::Ice(candidate) => SignalView::Ice(candidate@),
        }
    }
}

// ----- encoding ----------------------------------------------------------------------------------------

/// A description as text: `sdp\n<kind>\n<sdp-body>`.
pub open spec fn sdp_text(d: DescriptionView) -> Seq<char> {
    "sdp\n"@ + d.kind.name() + "\n"@ + d.sdp
}

/// A candidate as text: `ice\n<candidate>\n<sdp-mid>\n<sdp-mline-index>`, with empty
/// fields standing in for `none`.
pub open spec fn ice_text(c: CandidateView) -> Seq<char> {
    "ice\n"@ + c.candidate + "\n"@ + (match c.sdp_mid {
        Some(mid) => mid,
        None => seq![],
    }) + "\n"@ + (match c.sdp_mline_index {
        Some(i) => decimal(i as nat),
        None => seq![],
    })
}

/// Encode an SDP description as `sdp\n<kind>\n<sdp-body>`.
pub fn encode_sdp(description: &SessionDescription) -> (r: Vec<u8>)
    ensures
        r@ == encode_utf8(sdp_text(description@)),
{
    let text = concat4("sdp\n", description.kind.as_str(), "\n", description.sdp.as_str());
    slice_to_vec(text.as_str().as_bytes())
}

/// Encode an ICE candidate as `ice\n<candidate>\n<sdp-mid>\n<sdp-mline-index>`, with
/// empty fields standing in for `none`.
pub fn encode_ice(candidate: &IceCandidate) -> (r: Vec<u8>)
    ensures
        r@ == encode_utf8(ice_text(candidate@)),
{
    let mut text = concat2("ice\n", candidate.candidate.as_str());
    text.append("\n");
    let ghost head = text@;
    match &candidate.sdp_mid {
        Some(mid) => {
            text.append(mid.as_str());
        },
        None => {
            assert(head + Seq::<char>::empty() =~= head);
        },
    }
    text.append("\n");
    let ghost named = text@;
    match candidate.sdp_mline_index {
        Some(i) => {
            text.append(to_decimal(i as u64).as_str());
        },
        None => {
            assert(named + Seq::<char>::empty() =~= named);
        },
    }
    assert(text@ =~= ice_text(candidate@));
    slice_to_vec(text.as_str().as_bytes())
}

// ----- decoding ----------------------------------------------------------------------------------------

/// The part of `text` before its first line feed; all of it if there is none.
pub open spec fn first_part(text: Seq<char>) -> Seq<char> {
    text.take(find_from(text, '\n', 0))
}

/// The part of `text` behind its first line feed, if there is one.
pub open spec fn after_first(text: Seq<char>) -> Option<Seq<char>> {
    let at = find_from(text, '\n', 0);
    if at < text.len() {
        Some(text.skip(at + 1))
    } else {
        None
    }
}

/// An absent part counts as an empty one.
pub open spec fn or_empty(text: Option<Seq<char>>) -> Seq<char> {
    match text {
        Some(text) => text,
        None => seq![],
    }
}

/// The optional text of a field: an empty field stands for none.
pub open spec fn field_text(text: Seq<char>) -> Option<Seq<char>> {
    if text.len() == 0 {
        None
    } else {
        Some(text)
    }
}

/// The optional index of a field: an empty field, and one that is no index, stand for
/// none.
pub open spec fn field_index(text: Seq<char>) -> Option<u16> {
    match number(text, u16::MAX as nat) {
        Ok(n) => Some(n as u16),
        Err(_) => None,
    }
}

/// The signal that `text` stands for.
pub open spec fn signal_in(text: Seq<char>) -> Option<SignalView> {
    if has_prefix(text, "sdp\n"@) {
        let rest = text.skip("sdp\n"@.len() as int);
        match (after_first(rest), kind_named(first_part(rest))) {
            (Some(sdp), Some(kind)) => Some(SignalView::Sdp(DescriptionView { kind, sdp })),
            _ => None,
        }
    } else if has_prefix(text, "ice\n"@) {
        let rest = text.skip("ice\n"@.len() as int);
        let tail = or_empty(after_first(rest));
        Some(
            SignalView::Ice(
                CandidateView {
                    candidate: first_part(rest),
                    sdp_mid: field_text(first_part(tail)),
                    sdp_mline_index: field_index(or_empty(after_first(tail))),
                },
            ),
        )
    } else {
        None
    }
}

/// The signal that a blob stands for.
pub open spec fn decoded(blob: Seq<u8>) -> Option<SignalView> {
    if valid_utf8(blob) {
        signal_in(decode_utf8(blob))
    } else {
        None
    }
}

/// A text cut at its first line feed.
fn cut<'a>(text: &'a str) -> (r: (&'a str, Option<&'a str>))
    ensures
        r.0@ == first_part(text@),
        match r.1 {
            Some(rest) => after_first(text@) == Some(rest@),
            None => after_first(text@) is None,
        },
{
    let n = text.unicode_len();
    let at = find(text, '\n', 0);
    let first = text.substring_char(0, at);
    assert(first@ =~= text@.take(at as int));
    if at < n {
        let rest = text.substring_char(at + 1, n);
        assert(rest@ =~= text@.skip(at + 1));
        (first, Some(rest))
    } else {
        (first, None)
    }
}

/// Decode a blob produced by [`encode_sdp`] or [`encode_ice`].
pub fn decode(blob: &[u8]) -> (r: Option<Signal>)
    ensures
        match r {
            Some(signal) => decoded(blob@) == Some(signal@),
            None => decoded(blob@) is None,
        },
{
    let text = match utf8_text(blob) {
        Ok(text) => text,
        Err(_) => {
            return None;
        },
    };
    if let Some(rest) = strip_prefix(text, "sdp\n") {
        let (first, body) = cut(rest);
        match (body, find_kind(first)) {
            (Some(sdp), Some(kind)) => Some(
                Signal::Sdp(SessionDescription { kind, sdp: sdp.to_string() }),
            ),
            _ => None,
        }
    } else if let Some(rest) = strip_prefix(text, "ice\n") {
        let (candidate, tail) = cut(rest);
        let empty = "";
        proof {
            reveal_strlit("");
            assert(empty@ =~= seq![]);
        }
        let tail = match tail {
            Some(tail) => tail,
            None => empty,
        };
        let (mid, mline) = cut(tail);
        let mline = match mline {
            Some(mline) => mline,
            None => empty,
        };
        let sdp_mid = if mid.unicode_len() == 0 {
            None
        } else {
            Some(mid.to_string())
        };
        let sdp_mline_index = match parse_number(mline, u16::MAX as u64) {
            Ok(n) => Some(n as u16),
            Err(_) => None,
        };
        Some(
            Signal::Ice(
                IceCandidate { candidate: candidate.to_string(), sdp_mid, sdp_mline_index },
            ),
        )
    } else {
        None
    }
}

proof fn lemma_cut(first: Seq<char>, rest: Seq<char>)
    requires
        !first.contains('\n'),
    ensures
        first_part(first + "\n"@ + rest) == first,
        after_first(first + "\n"@ + rest) == Some(rest),
{
    reveal_strlit("\n");
    let text = first + "\n"@ + rest;
    let at = first.len() as int;
    assert forall|k: int| 0 <= k < at implies text[k] != '\n' by {
        assert(first.contains(first[k]));
    }
    assert(text[at] == '\n');
    lemma_find_from_is(text, '\n', 0, at);
    assert(text.take(at) =~= first);
    assert(text.skip(at + 1) =~= rest);
}

proof fn lemma_kinds(kind: SdpType)
    ensures
        kind_named(kind.name()) == Some(kind),
        !kind.name().contains('\n'),
{
    reveal_strlit("offer");
    reveal_strlit("answer");
    reveal_strlit("pranswer");
    reveal_strlit("rollback");
    assert("offer"@.len() == 5 && "answer"@.len() == 6 && "pranswer"@.len() == 8
        && "rollback"@.len() == 8);
    assert("pranswer"@[0] == 'p' && "rollback"@[0] == 'r');
    assert forall|k: int| 0 <= k < kind.name().len() implies kind.name()[k] != '\n' by {
        match kind {
            SdpType::Offer => {
                assert("offer"@ =~= seq!['o', 'f', 'f', 'e', 'r']);
            },
            SdpType::Answer => {
                assert("answer"@ =~= seq!['a', 'n', 's', 'w', 'e', 'r']);
            },
            SdpType::Pranswer => {
                assert("pranswer"@ =~= seq!['p', 'r', 'a', 'n', 's', 'w', 'e', 'r']);
            },
            SdpType::Rollback => {
                assert("rollback"@ =~= seq!['r', 'o', 'l', 'l', 'b', 'a', 'c', 'k']);
            },
        }
    }
}

/// Decoding an encoded description gives the description back.
pub proof fn law_sdp_round_trips(d: DescriptionView)
    ensures
        decoded(encode_utf8(sdp_text(d))) == Some(SignalView::Sdp(d)),
{
    let text = sdp_text(d);
    vstd::utf8::encode_utf8_valid_utf8(text);
    vstd::utf8::encode_utf8_decode_utf8(text);
    lemma_kinds(d.kind);
    let tag = "sdp\n"@;
    let rest = d.kind.name() + "\n"@ + d.sdp;
    assert(text =~= tag + rest);
    assert(text.subrange(0, tag.len() as int) =~= tag);
    assert(text.skip(tag.len() as int) =~= rest);
    lemma_cut(d.kind.name(), d.sdp);
}

/// Decoding an encoded candidate gives the candidate back, unless the candidate or its
/// mid holds a line feed, or the mid is present but empty.
pub proof fn law_ice_round_trips(c: CandidateView)
    requires
        !c.candidate.contains('\n'),
        c.sdp_mid matches Some(mid) ==> mid.len() > 0 && !mid.contains('\n'),
    ensures
        decoded(encode_utf8(ice_text(c))) == Some(SignalView::Ice(c)),
{
    let text = ice_text(c);
    vstd::utf8::encode_utf8_valid_utf8(text);
    vstd::utf8::encode_utf8_decode_utf8(text);
    let mid = or_empty(c.sdp_mid);
    let mline = match c.sdp_mline_index {
        Some(i) => decimal(i as nat),
        None => Seq::<char>::empty(),
    };
    let tag = "ice\n"@;
    let tail = mid + "\n"@ + mline;
    let rest = c.candidate + "\n"@ + tail;
    assert(text =~= tag + rest);
    reveal_strlit("ice\n");
    reveal_strlit("sdp\n");
    assert(tag.len() == 4 && tag[0] == 'i');
    assert("sdp\n"@.len() == 4 && "sdp\n"@[0] == 's');
    assert(!has_prefix(text, "sdp\n"@)) by {
        if has_prefix(text, "sdp\n"@) {
            assert(text.subrange(0, 4)[0] == text[0]);
        }
    }
    assert(text.subrange(0, tag.len() as int) =~= tag);
    assert(text.skip(tag.len() as int) =~= rest);
    lemma_cut(c.candidate, tail);
    assert(!mid.contains('\n'));
    lemma_cut(mid, mline);
    match c.sdp_mline_index {
        Some(i) => {
            law_number_round_trip(i as nat, u16::MAX as nat);
        },
        None => {},
    }
}

// ----- laws ---------------------------------------------------------------------------------------------

/// A name stands for a kind of description exactly if it is that kind's own.
pub proof fn law_kinds_are_read_by_name(name: Seq<char>, kind: SdpType)
    ensures
        kind_named(name) == Some(SdpType::Offer) <==> name == "offer"@,
        kind_named(name) == Some(SdpType::Answer) <==> name == "answer"@,
        kind_named(name) == Some(SdpType::Pranswer) <==> name == "pranswer"@,
        kind_named(name) == Some(SdpType::Rollback) <==> name == "rollback"@,
        kind_named(name) == Some(kind) <==> name == kind.name(),
{
    reveal_strlit("offer");
    reveal_strlit("answer");
    reveal_strlit("pranswer");
    reveal_strlit("rollback");
    assert("offer"@.len() == 5 && "answer"@.len() == 6 && "pranswer"@.len() == 8
        && "rollback"@.len() == 8);
    assert("pranswer"@[0] == 'p' && "rollback"@[0] == 'r');
}

/// What a description looks like on the wire: the line `sdp`, a line with its kind, and
/// its body to the end.
pub proof fn law_descriptions_look_like_this(sdp: Seq<char>, d: DescriptionView)
    ensures
        sdp_text(DescriptionView { kind: SdpType::Offer, sdp }) == "sdp\n"@ + "offer"@ + "\n"@ + sdp,
        sdp_text(DescriptionView { kind: SdpType::Answer, sdp }) == "sdp\n"@ + "answer"@ + "\n"@
            + sdp,
        sdp_text(DescriptionView { kind: SdpType::Pranswer, sdp }) == "sdp\n"@ + "pranswer"@
            + "\n"@ + sdp,
        sdp_text(DescriptionView { kind: SdpType::Rollback, sdp }) == "sdp\n"@ + "rollback"@
            + "\n"@ + sdp,
        has_prefix(sdp_text(d), "sdp\n"@),
        sdp_text(d).skip(sdp_text(d).len() - d.sdp.len()) == d.sdp,
{
    let text = sdp_text(d);
    assert(text.subrange(0, "sdp\n"@.len() as int) =~= "sdp\n"@);
    assert(text.skip(text.len() - d.sdp.len()) =~= d.sdp);
}

/// What a candidate looks like on the wire: the line `ice`, a line with the candidate, one
/// with its mid and one with its index, empty where there is none.
pub proof fn law_candidates_look_like_this(candidate: Seq<char>, mid: Seq<char>, i: u16)
    ensures
        ice_text(
            CandidateView { candidate, sdp_mid: Some(mid), sdp_mline_index: Some(i) },
        ) == "ice\n"@ + candidate + "\n"@ + mid + "\n"@ + decimal(i as nat),
        ice_text(CandidateView { candidate, sdp_mid: None, sdp_mline_index: Some(i) }) == "ice\n"@
            + candidate + "\n"@ + "\n"@ + decimal(i as nat),
        ice_text(CandidateView { candidate, sdp_mid: Some(mid), sdp_mline_index: None }) == "ice\n"@
            + candidate + "\n"@ + mid + "\n"@,
{
    let head = "ice\n"@ + candidate + "\n"@;
    assert(head + Seq::<char>::empty() =~= head);
    let named = head + mid + "\n"@;
    assert(named + Seq::<char>::empty() =~= named);
}

/// A blob is a description or a candidate by its first line alone, and nothing if it is
/// not text, or opens with another line, or names no kind of description.
pub proof fn law_blobs_are_told_by_their_first_line(blob: Seq<u8>)
    ensures
        decoded(blob) matches Some(SignalView::Sdp(_)) ==> valid_utf8(blob) && has_prefix(
            decode_utf8(blob),
            "sdp\n"@,
        ),
        (decoded(blob) matches Some(SignalView::Ice(_))) <==> valid_utf8(blob) && has_prefix(
            decode_utf8(blob),
            "ice\n"@,
        ),
{
    reveal_strlit("ice\n");
    reveal_strlit("sdp\n");
    assert("ice\n"@[0] == 'i' && "sdp\n"@[0] == 's');
    let text = decode_utf8(blob);
    if has_prefix(text, "sdp\n"@) && has_prefix(text, "ice\n"@) {
        assert(text.subrange(0, 4)[0] == text[0]);
    }
}

/// A description needs both lines: without a body, or with a first line that names no kind,
/// there is none. A candidate needs neither of its last two lines: where they are missing,
/// and where the last one is no index, there is no mid and no index.
pub proof fn law_what_is_missing_from_a_signal(
    line: Seq<char>,
    sdp: Seq<char>,
    mid: Seq<char>,
    last: Seq<char>,
)
    requires
        !line.contains('\n'),
        !mid.contains('\n'),
    ensures
        signal_in("sdp\n"@ + line) is None,
        kind_named(line) is None ==> signal_in("sdp\n"@ + (line + "\n"@ + sdp)) is None,
        signal_in("ice\n"@ + line) == Some(
            SignalView::Ice(
                CandidateView { candidate: line, sdp_mid: None, sdp_mline_index: None },
            ),
        ),
        mid.len() > 0 ==> signal_in("ice\n"@ + (line + "\n"@ + mid)) == Some(
            SignalView::Ice(
                CandidateView { candidate: line, sdp_mid: Some(mid), sdp_mline_index: None },
            ),
        ),
        mid.len() > 0 && number(last, u16::MAX as nat) is Err ==> signal_in(
            "ice\n"@ + (line + "\n"@ + (mid + "\n"@ + last)),
        ) == Some(
            SignalView::Ice(
                CandidateView { candidate: line, sdp_mid: Some(mid), sdp_mline_index: None },
            ),
        ),
{
    reveal_strlit("ice\n");
    reveal_strlit("sdp\n");
    assert("ice\n"@.len() == 4 && "ice\n"@[0] == 'i');
    assert("sdp\n"@.len() == 4 && "sdp\n"@[0] == 's');
    lemma_tagged(line);
    lemma_tagged(line + "\n"@ + sdp);
    lemma_tagged(line + "\n"@ + mid);
    lemma_tagged(line + "\n"@ + (mid + "\n"@ + last));
    lemma_uncut(line);
    lemma_uncut(mid);
    lemma_uncut(Seq::<char>::empty());
    lemma_cut(line, sdp);
    lemma_cut(line, mid);
    lemma_cut(line, mid + "\n"@ + last);
    lemma_cut(mid, last);
}

proof fn lemma_uncut(text: Seq<char>)
    requires
        !text.contains('\n'),
    ensures
        first_part(text) == text,
        after_first(text) is None,
{
    assert forall|k: int| 0 <= k < text.len() implies text[k] != '\n' by {
        assert(text.contains(text[k]));
    }
    lemma_find_from_is(text, '\n', 0, text.len() as int);
    assert(text.take(text.len() as int) =~= text);
}

proof fn lemma_tagged(rest: Seq<char>)
    ensures
        has_prefix("sdp\n"@ + rest, "sdp\n"@),
        has_prefix("ice\n"@ + rest, "ice\n"@),
        !has_prefix("ice\n"@ + rest, "sdp\n"@),
        ("sdp\n"@ + rest).skip("sdp\n"@.len() as int) == rest,
        ("ice\n"@ + rest).skip("ice\n"@.len() as int) == rest,
{
    reveal_strlit("ice\n");
    reveal_strlit("sdp\n");
    assert("ice\n"@.len() == 4 && "ice\n"@[0] == 'i');
    assert("sdp\n"@.len() == 4 && "sdp\n"@[0] == 's');
    let a = "sdp\n"@ + rest;
    let b = "ice\n"@ + rest;
    assert(a.subrange(0, 4) =~= "sdp\n"@);
    assert(b.subrange(0, 4) =~= "ice\n"@);
    assert(b.subrange(0, 4)[0] == 'i');
    assert(a.skip(4) =~= rest);
    assert(b.skip(4) =~= rest);
}

} // verus!
