//! Manual signaling over a terminal: each peer prints its complete description on one line
//! of base64, which the user pastes into the other peer.

use vstd::prelude::*;
use vstd::slice::{slice_subrange, slice_to_vec};
use vstd::utf8::{decode_utf8, encode_utf8};

use crate::driver::greeting;
use crate::error::{Error, ErrorView};
use crate::script::{same_error, Side};
use crate::text::{
    concat2, concat3, debug_quoted, has_substring, is_space, lemma_has_substring, lossy_reading,
    lossy_text, quoted, same, trim, trim_back, trim_end_matches, trim_end_of, trim_front, trimmed,
};

verus! {

// ----- base64 ----------------------------------------------------------------------------------------

/// What bytes are written as in base64.
pub uninterp spec fn base64_written(data: Seq<u8>) -> Seq<char>;

/// The bytes that a base64 text stands for, if it is one.
pub uninterp spec fn base64_reading(text: Seq<char>) -> Option<Seq<u8>>;

/// The characters of the standard base64 alphabet, padding included.
pub open spec fn is_base64(c: char) -> bool {
    'A' <= c <= 'Z' || 'a' <= c <= 'z' || '0' <= c <= '9' || c == '+' || c == '/' || c == '='
}

/// Write bytes in base64, by `Engine::encode` of `base64`'s `STANDARD` engine. What it
/// writes is a function of the bytes alone and is named by [`base64_written`]: four
/// characters of the standard alphabet for every three bytes begun, which read back as the
/// bytes. The length of the result has to fit.
#[verifier::external_body]
fn write_base64(data: &[u8]) -> (r: String)
    requires
        (data@.len() + 2) / 3 * 4 <= isize::MAX,
    ensures
        r@ == base64_written(data@),
        r@.len() == (data@.len() + 2) / 3 * 4,
        forall|i: int| 0 <= i < r@.len() ==> is_base64(#[trigger] r@[i]),
        base64_reading(r@) == Some(data@),
{
    base64::Engine::encode(&base64::engine::general_purpose::STANDARD, data)
}

/// Read base64, by `Engine::decode` of `base64`'s `STANDARD` engine; why a text is not
/// base64 is not handed on. What comes of it is a function of the text alone and is named
/// by [`base64_reading`].
#[verifier::external_body]
fn read_base64(text: &str) -> (r: Option<Vec<u8>>)
    ensures
        match r {
            Some(data) => base64_reading(text@) == Some(data@),
            None => base64_reading(text@) is None,
        },
{
    base64::Engine::decode(&base64::engine::general_purpose::STANDARD, text.as_bytes()).ok()
}

// ----- the role -------------------------------------------------------------------------------------------

/// The label used for the negotiated data channel. Both peers observe it.
pub const CHANNEL_LABEL: &'static str = "manual-signaling";

/// The role that an argument selects: the offerer unless told otherwise.
pub open spec fn role_selected(arg: Option<Seq<char>>) -> Option<Side> {
    match arg {
        None => Some(Side::Offerer),
        Some(text) => if text == "answerer"@ || text == "answer"@ {
            Some(Side::Answerer)
        } else if text == "offerer"@ || text == "offer"@ {
            Some(Side::Offerer)
        } else {
            None
        },
    }
}

/// Select the role by the first argument; what is no role is answered with the usage.
pub fn select_role(arg: Option<&str>) -> (r: Result<Side, String>)
    ensures
        ({
            let given = match arg {
                Some(text) => Some(text@),
                None => None,
            };
            match r {
                Ok(role) => role_selected(given) == Some(role),
                Err(text) => role_selected(given) is None && text@
                    == "usage: cli-signaling [offerer|answerer]  (got "@ + debug_quoted(given->0)
                    + ")"@,
            }
        }),
{
    match arg {
        None => Ok(Side::Offerer),
        Some(text) => if same(text, "answerer") || same(text, "answer") {
            Ok(Side::Answerer)
        } else if same(text, "offerer") || same(text, "offer") {
            Ok(Side::Offerer)
        } else {
            Err(
                concat3(
                    "usage: cli-signaling [offerer|answerer]  (got ",
                    quoted(text).as_str(),
                    ")",
                ),
            )
        },
    }
}

/// The name of a role.
pub open spec fn role_name(role: Side) -> Seq<char> {
    match role {
        Side::Offerer => "offerer"@,
        Side::Answerer => "answerer"@,
    }
}

/// The greeting that a role sends over the established channel.
pub fn make_greeting(role: Side) -> (r: String)
    ensures
        r@ == greeting(role_name(role)),
{
    match role {
        Side::Offerer => concat2("hello from the ", "offerer"),
        Side::Answerer => concat2("hello from the ", "answerer"),
    }
}

/// What is printed once the peer's greeting has arrived.
pub fn connected_notice(peer_message: &str) -> (r: String)
    ensures
        r@ == "\nConnected. Message received from peer: "@ + debug_quoted(peer_message@) + "\n"@,
{
    concat3("\nConnected. Message received from peer: ", quoted(peer_message).as_str(), "\n")
}

// ----- blobs on the terminal ----------------------------------------------------------------------------------

/// What a line that the user pasted comes to.
#[derive(Debug)]
pub enum Pasted {
    /// There are no more lines: an empty description is taken.
    Ended,
    /// The line is blank: read another.
    Blank,
    /// The description that was pasted.
    Description(String),
    /// The line is no base64: say so, and read another.
    NotBase64,
}

/// The contents of a [`Pasted`].
pub enum PastedView {
    Ended,
    Blank,
    Description(Seq<char>),
    NotBase64,
}

impl View for Pasted {
    type V = PastedView;

    open spec fn view(&self) -> PastedView {
        match self {
            Pasted::Ended => PastedView::Ended,
            Pasted::Blank => PastedView::Blank,
            Pasted::Description(sdp) => PastedView::Description(sdp@),
            Pasted::NotBase64 => PastedView::NotBase64,
        }
    }
}

/// What a line that the user pasted comes to.
pub open spec fn pasted(line: Option<Seq<char>>) -> PastedView {
    match line {
        None => PastedView::Ended,
        Some(line) => if trimmed(line).len() == 0 {
            PastedView::Blank
        } else {
            match base64_reading(trimmed(line)) {
                Some(data) => PastedView::Description(lossy_reading(data)),
                None => PastedView::NotBase64,
            }
        },
    }
}

/// Judge a line that the user pasted.
pub fn judge_line(line: Option<&str>) -> (r: Pasted)
    ensures
        r@ == pasted(
            match line {
                Some(line) => Some(line@),
                None => None,
            },
        ),
{
    match line {
        None => Pasted::Ended,
        Some(line) => {
            let line = trim(line);
            if line.unicode_len() == 0 {
                return Pasted::Blank;
            }
            match read_base64(line) {
                Some(data) => Pasted::Description(lossy_text(data.as_slice())),
                None => Pasted::NotBase64,
            }
        },
    }
}

/// What is printed where a line is no base64.
pub const NOT_BASE64_NOTICE: &'static str = "That did not look like a base64 blob; try again:\n";

/// What is printed before a description is read.
pub fn prompt(title: &str) -> (r: String)
    ensures
        r@ == "\nPaste the "@ + title@ + " from the other peer, then press Enter:\n"@,
{
    concat3("\nPaste the ", title, " from the other peer, then press Enter:\n")
}

proof fn lemma_base64_is_not_space(c: char)
    requires
        is_base64(c),
    ensures
        !is_space(c),
        c != '\n',
        c != '\r',
{
}

proof fn lemma_nothing_to_trim(text: Seq<char>)
    requires
        forall|i: int| 0 <= i < text.len() ==> !is_space(#[trigger] text[i]),
    ensures
        trimmed(text) == text,
{
    assert(trim_front(text) == text);
    assert(trim_back(text) == text);
}

/// A description's length allows it to be written in base64.
pub open spec fn fits_base64(sdp: Seq<char>) -> bool {
    (encode_utf8(sdp).len() + 2) / 3 * 4 <= isize::MAX
}

/// A description as the single line that the user copies. Pasting that line gives the
/// description back.
pub fn blob_line(sdp: &str) -> (r: String)
    requires
        fits_base64(sdp@),
    ensures
        r@ == base64_written(encode_utf8(sdp@)),
        forall|i: int| 0 <= i < r@.len() ==> (#[trigger] r@[i]) != '\n' && r@[i] != '\r',
        sdp@.len() > 0 ==> pasted(Some(r@)) == PastedView::Description(sdp@),
{
    let data = sdp.as_bytes();
    let blob = write_base64(data);
    proof {
        assert forall|i: int| 0 <= i < blob@.len() implies !is_space(#[trigger] blob@[i]) && blob@[i]
            != '\n' && blob@[i] != '\r' by {
            lemma_base64_is_not_space(blob@[i]);
        }
        lemma_nothing_to_trim(blob@);
        vstd::utf8::encode_utf8_valid_utf8(sdp@);
        vstd::utf8::encode_utf8_decode_utf8(sdp@);
        if sdp@.len() > 0 {
            if data@.len() == 0 {
                assert(decode_utf8(data@).len() == 0) by {
                    assert(data@ =~= encode_utf8(seq![]));
                    vstd::utf8::encode_utf8_decode_utf8(seq![]);
                }
            }
        }
    }
    blob
}

/// What is printed to present a description.
pub open spec fn presentation(title: Seq<char>, sdp: Seq<char>) -> Seq<char> {
    "\nCopy this "@ + title + " to the other peer (a single line):\n"@ + base64_written(
        encode_utf8(sdp),
    ) + "\n"@
}

/// Present an outgoing description (base64-encoded), alone on its own line so the user can
/// copy it verbatim.
pub fn present(title: &str, sdp: &str) -> (r: String)
    requires
        fits_base64(sdp@),
    ensures
        r@ == presentation(title@, sdp@),
{
    let mut r = concat3("\nCopy this ", title, " to the other peer (a single line):\n");
    r.append(blob_line(sdp).as_str());
    r.append("\n");
    r
}

// ----- reading lines ------------------------------------------------------------------------------------------

/// A reader of lines: any bytes read past the last line feed, and whether the input has
/// ended.
pub struct LineReader {
    buffer: Vec<u8>,
    done: bool,
}

/// The contents of a [`LineReader`].
#[verifier::ext_equal]
pub struct ReaderView {
    pub buffer: Seq<u8>,
    pub done: bool,
}

impl View for LineReader {
    type V = ReaderView;

    closed spec fn view(&self) -> ReaderView {
        ReaderView { buffer: self.buffer@, done: self.done }
    }
}

/// Where the first line feed stands at or behind `from`; the number of bytes if there is
/// none.
pub open spec fn line_feed_from(data: Seq<u8>, from: int) -> int
    decreases data.len() - from,
{
    if 0 <= from < data.len() {
        if data[from] == 10u8 {
            from
        } else {
            line_feed_from(data, from + 1)
        }
    } else {
        data.len() as int
    }
}

/// The text of a line: read with replacements, and without the carriage returns at its
/// end.
pub open spec fn line_text(data: Seq<u8>) -> Seq<char> {
    trim_end_of(lossy_reading(data), '\r')
}

/// What a reader has to offer.
#[derive(Debug)]
pub enum Line {
    /// The next line.
    Text(String),
    /// There are no more lines.
    End,
    /// Not known before more input is read.
    NeedsInput,
}

/// The contents of a [`Line`].
pub enum LineView {
    Text(Seq<char>),
    End,
    NeedsInput,
}

impl View for Line {
    type V = LineView;

    open spec fn view(&self) -> LineView {
        match self {
            Line::Text(text) => LineView::Text(text@),
            Line::End => LineView::End,
            Line::NeedsInput => LineView::NeedsInput,
        }
    }
}

/// The reader after a line was taken, and the line. What is left when the input ends is
/// the last line, unless it is empty.
pub open spec fn line_taken(r: ReaderView) -> (ReaderView, LineView) {
    let at = line_feed_from(r.buffer, 0);
    if at < r.buffer.len() {
        (
            ReaderView { buffer: r.buffer.skip(at + 1), ..r },
            LineView::Text(line_text(r.buffer.take(at))),
        )
    } else if !r.done {
        (r, LineView::NeedsInput)
    } else if r.buffer.len() == 0 {
        (r, LineView::End)
    } else {
        (ReaderView { buffer: seq![], ..r }, LineView::Text(line_text(r.buffer)))
    }
}

fn read_line_text(data: &[u8]) -> (r: String)
    ensures
        r@ == line_text(data@),
{
    let text = lossy_text(data);
    trim_end_matches(text.as_str(), '\r').to_string()
}

impl LineReader {
    /// A reader that has read nothing yet.
    pub fn new() -> (r: Self)
        ensures
            r@ == (ReaderView { buffer: seq![], done: false }),
    {
        LineReader { buffer: Vec::new(), done: false }
    }

    /// Take in a chunk of input, and whether the input has ended with it.
    pub fn feed(&mut self, chunk: &[u8], ended: bool)
        ensures
            final(self)@ == (ReaderView {
                buffer: old(self)@.buffer + chunk@,
                done: old(self)@.done || ended,
            }),
    {
        let ghost before = self.buffer@;
        let mut i: usize = 0;
        assert(before + chunk@.take(0) =~= before);
        while i < chunk.len()
            invariant
                i <= chunk@.len(),
                before == old(self)@.buffer,
                self.done == old(self).done,
                self.buffer@ == before + chunk@.take(i as int),
            decreases chunk@.len() - i,
        {
            self.buffer.push(chunk[i]);
            i = i + 1;
            assert(self.buffer@ =~= before + chunk@.take(i as int));
        }
        assert(chunk@.take(i as int) =~= chunk@);
        if ended {
            self.done = true;
        }
    }

    /// Take a single line, without the trailing line feed.
    pub fn read_line(&mut self) -> (r: Line)
        ensures
            (final(self)@, r@) == line_taken(old(self)@),
    {
        let n = self.buffer.len();
        let mut i: usize = 0;
        while i < n && self.buffer[i] != 10u8
            invariant
                n == self.buffer@.len(),
                i <= n,
                *self == *old(self),
                line_feed_from(self.buffer@, 0) == line_feed_from(self.buffer@, i as int),
            decreases n - i,
        {
            i = i + 1;
        }
        if i < n {
            let line = read_line_text(slice_subrange(self.buffer.as_slice(), 0, i));
            assert(self.buffer@.subrange(0, i as int) =~= self.buffer@.take(i as int));
            let left = slice_to_vec(slice_subrange(self.buffer.as_slice(), i + 1, n));
            assert(left@ =~= self.buffer@.skip(i + 1));
            self.buffer = left;
            return Line::Text(line);
        }
        if !self.done {
            return Line::NeedsInput;
        }
        if n == 0 {
            return Line::End;
        }
        let line = read_line_text(self.buffer.as_slice());
        self.buffer = Vec::new();
        Line::Text(line)
    }
}

/// In which chunks the input arrives makes no difference: two chunks one after the other
/// are as good as one.
pub proof fn law_chunks_make_no_difference(r: ReaderView, a: Seq<u8>, b: Seq<u8>)
    ensures
        (r.buffer + a) + b == r.buffer + (a + b),
        line_taken(ReaderView { buffer: (r.buffer + a) + b, ..r }) == line_taken(
            ReaderView { buffer: r.buffer + (a + b), ..r },
        ),
{
    assert((r.buffer + a) + b =~= r.buffer + (a + b));
}

proof fn lemma_line_feed_from(data: Seq<u8>, from: int)
    requires
        0 <= from <= data.len(),
    ensures
        from <= line_feed_from(data, from) <= data.len(),
        line_feed_from(data, from) < data.len() ==> data[line_feed_from(data, from)] == 10u8,
        forall|k: int| from <= k < line_feed_from(data, from) ==> data[k] != 10u8,
    decreases data.len() - from,
{
    if from < data.len() && data[from] != 10u8 {
        lemma_line_feed_from(data, from + 1);
    }
}

proof fn lemma_line_feed_is(data: Seq<u8>, from: int, at: int)
    requires
        0 <= from <= at < data.len(),
        data[at] == 10u8,
        forall|k: int| from <= k < at ==> data[k] != 10u8,
    ensures
        line_feed_from(data, from) == at,
    decreases at - from,
{
    if from < at {
        lemma_line_feed_is(data, from + 1, at);
    }
}

/// A line that was fed with its line feed is taken as soon as it is complete, and what
/// follows it stays for the next.
pub proof fn law_complete_lines_are_taken(line: Seq<u8>, after: Seq<u8>, done: bool)
    requires
        !line.contains(10u8),
    ensures
        line_taken(ReaderView { buffer: line.push(10u8) + after, done }) == (
            ReaderView { buffer: after, done },
            LineView::Text(line_text(line)),
        ),
{
    let data = line.push(10u8) + after;
    assert forall|k: int| 0 <= k < line.len() implies data[k] != 10u8 by {
        assert(line.contains(line[k]));
    }
    assert(data[line.len() as int] == 10u8);
    lemma_line_feed_is(data, 0, line.len() as int);
    assert(data.take(line.len() as int) =~= line);
    assert(data.skip(line.len() as int + 1) =~= after);
}

// ----- the exchange -------------------------------------------------------------------------------------------

/// What the manual-signaling exchange hears back.
#[derive(Debug)]
pub enum ManualReply {
    /// A description was created, or not.
    Sdp(Result<String, Error>),
    /// Something was printed.
    Shown,
    /// The user pasted a description.
    Typed(String),
    /// A call that returns nothing ended.
    Done(Result<(), Error>),
}

/// The contents of a [`ManualReply`].
pub enum ManualReplyView {
    Sdp(Result<Seq<char>, ErrorView>),
    Shown,
    Typed(Seq<char>),
    Done(Result<(), ErrorView>),
}

impl View for ManualReply {
    type V = ManualReplyView;

    open spec fn view(&self) -> ManualReplyView {
        match self {
            ManualReply::Sdp(Ok(sdp)) => ManualReplyView::Sdp(Ok(sdp@)),
            ManualReply::Sdp(Err(error)) => ManualReplyView::Sdp(Err(error@)),
            ManualReply::Shown => ManualReplyView::Shown,
            ManualReply::Typed(text) => ManualReplyView::Typed(text@),
            ManualReply::Done(Ok(())) => ManualReplyView::Done(Ok(())),
            ManualReply::Done(Err(error)) => ManualReplyView::Done(Err(error@)),
        }
    }
}

/// The contents of a list of replies.
pub open spec fn manual_replies_view(list: Seq<ManualReply>) -> Seq<ManualReplyView> {
    list.map_values(|r: ManualReply| r@)
}

/// What the manual-signaling exchange does next.
#[derive(Debug)]
pub enum ManualNext {
    /// Create an offer for an ordered channel with this label.
    CreateOffer { label: String },
    /// Create an answer to this offer.
    CreateAnswer { offer: String },
    /// Present a description to the user.
    Present { title: String, sdp: String },
    /// Ask the user for a description.
    AskFor { title: String },
    /// Accept this answer.
    AcceptAnswer { answer: String },
    /// Print a notice.
    Print(String),
    /// Wait for the channel to open.
    Connect,
    /// Give up.
    Failed(Error),
    /// The channel is open.
    Ready,
    /// The last reply does not answer the last request.
    OutOfStep,
}

/// The contents of a [`ManualNext`].
pub enum ManualNextView {
    CreateOffer { label: Seq<char> },
    CreateAnswer { offer: Seq<char> },
    Present { title: Seq<char>, sdp: Seq<char> },
    AskFor { title: Seq<char> },
    AcceptAnswer { answer: Seq<char> },
    Print(Seq<char>),
    Connect,
    Failed(ErrorView),
    Ready,
    OutOfStep,
}

impl View for ManualNext {
    type V = ManualNextView;

    open spec fn view(&self) -> ManualNextView {
        match self {
            ManualNext::CreateOffer { label } => ManualNextView::CreateOffer { label: label@ },
            ManualNext::CreateAnswer { offer } => ManualNextView::CreateAnswer { offer: offer@ },
            ManualNext::Present { title, sdp } => ManualNextView::Present {
                title: title@,
                sdp: sdp@,
            },
            ManualNext::AskFor { title } => ManualNextView::AskFor { title: title@ },
            ManualNext::AcceptAnswer { answer } => ManualNextView::AcceptAnswer { answer: answer@ },
            ManualNext::Print(text) => ManualNextView::Print(text@),
            ManualNext::Connect => ManualNextView::Connect,
            ManualNext::Failed(error) => ManualNextView::Failed(error@),
            ManualNext::Ready => ManualNextView::Ready,
            ManualNext::OutOfStep => ManualNextView::OutOfStep,
        }
    }
}

/// The last part of the exchange, from the `i`-th reply on: a notice, and the wait for the
/// channel.
pub open spec fn opening(h: Seq<ManualReplyView>, i: int, notice: Seq<char>) -> ManualNextView {
    if h.len() <= i {
        ManualNextView::Print(notice)
    } else if h[i] !is Shown {
        ManualNextView::OutOfStep
    } else if h.len() == i + 1 {
        ManualNextView::Connect
    } else {
        match h[i + 1] {
            ManualReplyView::Done(Ok(())) => ManualNextView::Ready,
            ManualReplyView::Done(Err(error)) => ManualNextView::Failed(error),
            _ => ManualNextView::OutOfStep,
        }
    }
}

/// The offerer's exchange: the offer is presented, and the answer that the user pastes is
/// accepted.
pub open spec fn manual_offerer(h: Seq<ManualReplyView>) -> ManualNextView {
    if h.len() == 0 {
        ManualNextView::CreateOffer { label: CHANNEL_LABEL@ }
    } else {
        match h[0] {
            ManualReplyView::Sdp(Err(error)) => ManualNextView::Failed(error),
            ManualReplyView::Sdp(Ok(offer)) => if h.len() == 1 {
                ManualNextView::Present { title: "offer"@, sdp: offer }
            } else if h[1] !is Shown {
                ManualNextView::OutOfStep
            } else if h.len() == 2 {
                ManualNextView::AskFor { title: "answer"@ }
            } else {
                match h[2] {
                    ManualReplyView::Typed(answer) => if h.len() == 3 {
                        ManualNextView::AcceptAnswer { answer }
                    } else {
                        match h[3] {
                            ManualReplyView::Done(Err(error)) => ManualNextView::Failed(error),
                            ManualReplyView::Done(Ok(())) => opening(
                                h,
                                4,
                                "Applying answer and waiting for the connection to open…\n"@,
                            ),
                            _ => ManualNextView::OutOfStep,
                        }
                    },
                    _ => ManualNextView::OutOfStep,
                }
            },
            _ => ManualNextView::OutOfStep,
        }
    }
}

/// The answerer's exchange: the offer that the user pastes is answered, and the answer is
/// presented.
pub open spec fn manual_answerer(h: Seq<ManualReplyView>) -> ManualNextView {
    if h.len() == 0 {
        ManualNextView::AskFor { title: "offer"@ }
    } else {
        match h[0] {
            ManualReplyView::Typed(offer) => if h.len() == 1 {
                ManualNextView::CreateAnswer { offer }
            } else {
                match h[1] {
                    ManualReplyView::Sdp(Err(error)) => ManualNextView::Failed(error),
                    ManualReplyView::Sdp(Ok(answer)) => if h.len() == 2 {
                        ManualNextView::Present { title: "answer"@, sdp: answer }
                    } else if h[2] !is Shown {
                        ManualNextView::OutOfStep
                    } else {
                        opening(h, 3, "Waiting for the connection to open…\n"@)
                    },
                    _ => ManualNextView::OutOfStep,
                }
            },
            _ => ManualNextView::OutOfStep,
        }
    }
}

/// The exchange of one role.
pub open spec fn manual_script(role: Side, h: Seq<ManualReplyView>) -> ManualNextView {
    match role {
        Side::Offerer => manual_offerer(h),
        Side::Answerer => manual_answerer(h),
    }
}

fn is_shown(reply: &ManualReply) -> (r: bool)
    ensures
        r == (reply@ is Shown),
{
    match reply {
        ManualReply::Shown => true,
        _ => false,
    }
}

fn open_channel(replies: &[ManualReply], i: usize, notice: &str) -> (r: ManualNext)
    requires
        i <= replies@.len(),
    ensures
        r@ == opening(manual_replies_view(replies@), i as int, notice@),
{
    let more = replies.len() - i;
    if more == 0 {
        return ManualNext::Print(notice.to_string());
    }
    if !is_shown(&replies[i]) {
        return ManualNext::OutOfStep;
    }
    if more == 1 {
        return ManualNext::Connect;
    }
    match &replies[i + 1] {
        ManualReply::Done(Ok(())) => ManualNext::Ready,
        ManualReply::Done(Err(error)) => ManualNext::Failed(same_error(error)),
        _ => ManualNext::OutOfStep,
    }
}

/// Drive the manual-signaling exchange for `role`: from the replies so far to what comes
/// next.
pub fn drive(role: Side, replies: &[ManualReply]) -> (r: ManualNext)
    ensures
        r@ == manual_script(role, manual_replies_view(replies@)),
{
    match role {
        Side::Offerer => {
            if replies.len() == 0 {
                return ManualNext::CreateOffer { label: CHANNEL_LABEL.to_string() };
            }
            let offer = match &replies[0] {
                ManualReply::Sdp(Ok(offer)) => offer,
                ManualReply::Sdp(Err(error)) => {
                    return ManualNext::Failed(same_error(error));
                },
                _ => {
                    return ManualNext::OutOfStep;
                },
            };
            if replies.len() == 1 {
                return ManualNext::Present { title: "offer".to_string(), sdp: offer.clone() };
            }
            if !is_shown(&replies[1]) {
                return ManualNext::OutOfStep;
            }
            if replies.len() == 2 {
                return ManualNext::AskFor { title: "answer".to_string() };
            }
            let answer = match &replies[2] {
                ManualReply::Typed(answer) => answer,
                _ => {
                    return ManualNext::OutOfStep;
                },
            };
            if replies.len() == 3 {
                return ManualNext::AcceptAnswer { answer: answer.clone() };
            }
            match &replies[3] {
                ManualReply::Done(Ok(())) => open_channel(
                    replies,
                    4,
                    "Applying answer and waiting for the connection to open…\n",
                ),
                ManualReply::Done(Err(error)) => ManualNext::Failed(same_error(error)),
                _ => ManualNext::OutOfStep,
            }
        },
        Side::Answerer => {
            if replies.len() == 0 {
                return ManualNext::AskFor { title: "offer".to_string() };
            }
            let offer = match &replies[0] {
                ManualReply::Typed(offer) => offer,
                _ => {
                    return ManualNext::OutOfStep;
                },
            };
            if replies.len() == 1 {
                return ManualNext::CreateAnswer { offer: offer.clone() };
            }
            let answer = match &replies[1] {
                ManualReply::Sdp(Ok(answer)) => answer,
                ManualReply::Sdp(Err(error)) => {
                    return ManualNext::Failed(same_error(error));
                },
                _ => {
                    return ManualNext::OutOfStep;
                },
            };
            if replies.len() == 2 {
                return ManualNext::Present { title: "answer".to_string(), sdp: answer.clone() };
            }
            if !is_shown(&replies[2]) {
                return ManualNext::OutOfStep;
            }
            open_channel(replies, 3, "Waiting for the connection to open…\n")
        },
    }
}

/// One read of the channel's inbound stream: its first message, and whether the stream has
/// ended.
pub struct Inbound {
    pub first: Option<Vec<u8>>,
    pub ended: bool,
}

/// The peer's greeting from the `i`-th read on: the first message, or nothing if the
/// stream ends without one. `None` asks for another read.
pub open spec fn greeting_from(reads: Seq<Inbound>, i: int) -> Option<Seq<char>>
    decreases reads.len() - i,
{
    if i < 0 || i >= reads.len() {
        None
    } else {
        match reads[i].first {
            Some(data) => Some(lossy_reading(data@)),
            None => if reads[i].ended {
                Some(seq![])
            } else {
                greeting_from(reads, i + 1)
            },
        }
    }
}

/// The peer's greeting, as far as it has arrived.
pub fn peer_greeting(reads: &[Inbound]) -> (r: Option<String>)
    ensures
        match r {
            Some(text) => greeting_from(reads@, 0) == Some(text@),
            None => greeting_from(reads@, 0) is None,
        },
{
    let mut i: usize = 0;
    while i < reads.len()
        invariant
            i <= reads@.len(),
            greeting_from(reads@, 0) == greeting_from(reads@, i as int),
        decreases reads@.len() - i,
    {
        match &reads[i].first {
            Some(data) => {
                return Some(lossy_text(data.as_slice()));
            },
            None => {
                if reads[i].ended {
                    proof {
                        reveal_strlit("");
                        assert(""@ =~= seq![]);
                    }
                    return Some("".to_string());
                }
            },
        }
        i = i + 1;
    }
    None
}

/// What one peer presents and the user pastes is what the other peer is given: the offer
/// is answered, and the answer accepted, as they were created.
pub proof fn law_pasted_descriptions_are_used(offer: Seq<char>, answer: Seq<char>)
    ensures
        manual_script(Side::Offerer, seq![ManualReplyView::Sdp(Ok(offer))]) == (
        ManualNextView::Present { title: "offer"@, sdp: offer }),
        manual_script(Side::Answerer, seq![ManualReplyView::Typed(offer)]) == (
        ManualNextView::CreateAnswer { offer }),
        manual_script(
            Side::Answerer,
            seq![ManualReplyView::Typed(offer), ManualReplyView::Sdp(Ok(answer))],
        ) == (ManualNextView::Present { title: "answer"@, sdp: answer }),
        manual_script(
            Side::Offerer,
            seq![
                ManualReplyView::Sdp(Ok(offer)),
                ManualReplyView::Shown,
                ManualReplyView::Typed(answer),
            ],
        ) == (ManualNextView::AcceptAnswer { answer }),
{
}

// ----- laws ---------------------------------------------------------------------------------------------------

proof fn lemma_role_names()
    ensures
        "offerer"@.len() == 7 && "offerer"@[0] == 'o',
        "offer"@.len() == 5 && "offer"@[0] == 'o',
        "answerer"@.len() == 8 && "answerer"@[0] == 'a',
        "answer"@.len() == 6 && "answer"@[0] == 'a',
        "offerer"@ == "offer"@ + "er"@,
        "answerer"@ == "answer"@ + "er"@,
{
    reveal_strlit("offerer");
    reveal_strlit("offer");
    reveal_strlit("answerer");
    reveal_strlit("answer");
    reveal_strlit("er");
    assert("offerer"@ =~= "offer"@ + "er"@);
    assert("answerer"@ =~= "answer"@ + "er"@);
}

/// A role is selected by its own name, or by what it makes: the offerer by `offerer` or
/// `offer`, the answerer by `answerer` or `answer`, and nothing else selects a role. A peer
/// that is told nothing offers.
pub proof fn law_roles_are_selected_by_name(role: Side, text: Seq<char>)
    ensures
        role_selected(Some(role_name(role))) == Some(role),
        role_selected(Some(text)) == Some(role) <==> text == role_name(role) || text + "er"@
            == role_name(role),
        role_selected(None) == Some(Side::Offerer),
        role_name(Side::Offerer) == "offerer"@,
        role_name(Side::Answerer) == "answerer"@,
{
    lemma_role_names();
    reveal_strlit("er");
    if text + "er"@ == "offerer"@ {
        assert(text =~= (text + "er"@).take(text.len() as int));
        assert(text =~= "offer"@);
    }
    if text + "er"@ == "answerer"@ {
        assert(text =~= (text + "er"@).take(text.len() as int));
        assert(text =~= "answer"@);
    }
}

/// The blob of a description is presented alone on the last line, in base64, under the
/// title it is asked for by.
pub proof fn law_the_blob_stands_alone(title: Seq<char>, sdp: Seq<char>)
    ensures
        ({
            let shown = presentation(title, sdp);
            let blob = base64_written(encode_utf8(sdp));
            let at = shown.len() - 1 - blob.len();
            &&& at > 0
            &&& shown[at - 1] == '\n'
            &&& shown.subrange(at, at + blob.len()) == blob
            &&& shown.last() == '\n'
            &&& has_substring(shown, title)
        }),
{
    let blob = base64_written(encode_utf8(sdp));
    let shown = presentation(title, sdp);
    reveal_strlit("\nCopy this ");
    reveal_strlit(" to the other peer (a single line):\n");
    reveal_strlit("\n");
    let at = shown.len() - 1 - blob.len();
    let head = "\nCopy this "@ + title + " to the other peer (a single line):\n"@;
    assert(shown =~= head + blob + "\n"@);
    assert(head.last() == '\n');
    assert(shown.subrange(at, at + blob.len()) =~= blob);
    let tail = " to the other peer (a single line):\n"@ + blob + "\n"@;
    assert(shown =~= "\nCopy this "@ + title + tail);
    lemma_has_substring("\nCopy this "@, title, tail);
}

/// A line is taken for a description exactly if it holds something and that is base64,
/// blanks around it aside; any other line asks for another, and only the end of the input
/// ends the asking.
pub proof fn law_only_base64_is_taken(line: Seq<char>)
    ensures
        pasted(Some(line)) is Description <==> trimmed(line).len() > 0 && base64_reading(
            trimmed(line),
        ) is Some,
        pasted(Some(line)) is Blank <==> trimmed(line).len() == 0,
        pasted(Some(line)) !is Ended,
        pasted(None) is Ended,
        pasted(Some(line)) matches PastedView::Description(sdp) ==> (base64_reading(
            trimmed(line),
        ) matches Some(data) && sdp == lossy_reading(data)),
{
}

/// What is left over when the input ends is the last line, unless there is nothing; before
/// that a line that has not ended waits for more and loses nothing.
pub proof fn law_the_last_line_needs_no_line_feed(data: Seq<u8>)
    requires
        !data.contains(10u8),
    ensures
        line_taken(ReaderView { buffer: data, done: false }) == (
            ReaderView { buffer: data, done: false },
            LineView::NeedsInput,
        ),
        ({
            let (left, line) = line_taken(ReaderView { buffer: data, done: true });
            &&& left.buffer.len() == 0
            &&& left.done
            &&& if data.len() == 0 {
                line is End
            } else {
                line == LineView::Text(line_text(data))
            }
        }),
{
    lemma_line_feed_from(data, 0);
    let at = line_feed_from(data, 0);
    if at < data.len() {
        assert(data[at] == 10u8);
    }
}

/// The text of a line is what was typed: the bytes of a text read as that text, and a
/// carriage return before the line feed makes no difference.
pub proof fn law_lines_read_as_typed(text: Seq<char>)
    requires
        text.len() == 0 || text.last() != '\r',
    ensures
        line_text(encode_utf8(text)) == text,
        line_text(encode_utf8(text.push('\r'))) == text,
{
    vstd::utf8::encode_utf8_valid_utf8(text);
    vstd::utf8::encode_utf8_decode_utf8(text);
    let more = text.push('\r');
    vstd::utf8::encode_utf8_valid_utf8(more);
    vstd::utf8::encode_utf8_decode_utf8(more);
    assert(more.drop_last() =~= text);
    reveal_with_fuel(trim_end_of, 3);
}

/// An exchange is ready exactly if every step of it went well: the own description was
/// created and shown, the other one was pasted and, by the offerer, accepted, and the
/// channel opened.
pub proof fn law_ready_only_after_every_step(role: Side, h: Seq<ManualReplyView>)
    ensures
        manual_script(role, h) is Ready <==> match role {
            Side::Offerer => h.len() >= 6 && (h[0] matches ManualReplyView::Sdp(Ok(_))) && h[1] is Shown
                && h[2] is Typed && (h[3] matches ManualReplyView::Done(Ok(_))) && h[4] is Shown && (
            h[5] matches ManualReplyView::Done(Ok(_))),
            Side::Answerer => h.len() >= 5 && h[0] is Typed && (h[1] matches ManualReplyView::Sdp(
                Ok(_),
            )) && h[2] is Shown && h[3] is Shown && (h[4] matches ManualReplyView::Done(Ok(_))),
        },
{
}

/// An exchange fails only with an error that a step of it gave.
pub proof fn law_exchanges_fail_with_a_step(role: Side, h: Seq<ManualReplyView>, error: ErrorView)
    requires
        manual_script(role, h) == ManualNextView::Failed(error),
    ensures
        exists|i: int|
            0 <= i < h.len() && (#[trigger] h[i] == ManualReplyView::Sdp(Err(error)) || h[i]
                == ManualReplyView::Done(Err(error))),
{
    match role {
        Side::Offerer => {
            if h[0] == ManualReplyView::Sdp(Err(error)) {
            } else if h[3] == ManualReplyView::Done(Err(error)) {
            } else {
                assert(h[5] == ManualReplyView::Done(Err(error)));
            }
        },
        Side::Answerer => {
            if h[1] == ManualReplyView::Sdp(Err(error)) {
            } else {
                assert(h[4] == ManualReplyView::Done(Err(error)));
            }
        },
    }
}

/// The two exchanges fit each other: the offerer begins with an offer, each peer asks the
/// user for what the other presents, under the same title, and both wait for the channel
/// once nothing is left to be pasted.
pub proof fn law_each_peer_asks_for_what_the_other_presents(offer: Seq<char>, answer: Seq<char>)
    ensures
        manual_script(Side::Offerer, seq![]) == (ManualNextView::CreateOffer {
            label: "manual-signaling"@,
        }),
        manual_script(Side::Answerer, seq![]) matches ManualNextView::AskFor { title } && (
        manual_script(Side::Offerer, seq![ManualReplyView::Sdp(Ok(offer))])
            matches ManualNextView::Present { title: shown, sdp } && shown == title && sdp == offer),
        manual_script(
            Side::Offerer,
            seq![ManualReplyView::Sdp(Ok(offer)), ManualReplyView::Shown],
        ) matches ManualNextView::AskFor { title } && (manual_script(
            Side::Answerer,
            seq![ManualReplyView::Typed(offer), ManualReplyView::Sdp(Ok(answer))],
        ) matches ManualNextView::Present { title: shown, sdp } && shown == title && sdp == answer),
        manual_script(
            Side::Offerer,
            seq![
                ManualReplyView::Sdp(Ok(offer)),
                ManualReplyView::Shown,
                ManualReplyView::Typed(answer),
                ManualReplyView::Done(Ok(())),
                ManualReplyView::Shown,
            ],
        ) is Connect,
        manual_script(
            Side::Answerer,
            seq![
                ManualReplyView::Typed(offer),
                ManualReplyView::Sdp(Ok(answer)),
                ManualReplyView::Shown,
                ManualReplyView::Shown,
            ],
        ) is Connect,
{
}

/// The peer's greeting is the first message of the stream, however many empty reads come
/// before it; a stream that ends without one greets with nothing; and before either is
/// known another read is due.
pub proof fn law_the_first_message_is_the_greeting(reads: Seq<Inbound>, n: int)
    requires
        0 <= n <= reads.len(),
        forall|i: int| 0 <= i < n ==> (#[trigger] reads[i]).first is None && !reads[i].ended,
    ensures
        n == reads.len() ==> greeting_from(reads, 0) is None,
        n < reads.len() ==> match reads[n].first {
            Some(data) => greeting_from(reads, 0) == Some(lossy_reading(data@)),
            None => reads[n].ended ==> (greeting_from(reads, 0) matches Some(text) && text.len()
                == 0),
        },
{
    lemma_greeting(reads, 0, n);
}

proof fn lemma_greeting(reads: Seq<Inbound>, i: int, n: int)
    requires
        0 <= i <= n <= reads.len(),
        forall|i: int| 0 <= i < n ==> (#[trigger] reads[i]).first is None && !reads[i].ended,
    ensures
        greeting_from(reads, i) == greeting_from(reads, n),
    decreases n - i,
{
    if i < n {
        assert(reads[i].first is None);
        lemma_greeting(reads, i + 1, n);
    }
}

/// What a user is told while the channel opens, and that the offerer's answer is the one the
/// user pasted. A step that fails ends the exchange with its error.
pub proof fn law_users_are_told_what_is_awaited(
    offer: Seq<char>,
    answer: Seq<char>,
    error: ErrorView,
)
    ensures
        ({
            let made = ManualReplyView::Sdp(Ok(offer));
            let shown = ManualReplyView::Shown;
            let pasted = ManualReplyView::Typed(answer);
            let done = ManualReplyView::Done(Ok(()));
            let failed = ManualReplyView::Done(Err(error));
            &&& manual_script(Side::Offerer, seq![made, shown, pasted]) == (
            ManualNextView::AcceptAnswer { answer })
            &&& manual_script(Side::Offerer, seq![made, shown, pasted, done])
                == ManualNextView::Print(
                "Applying answer and waiting for the connection to open…\n"@,
            )
            &&& manual_script(Side::Offerer, seq![made, shown, pasted, failed])
                == ManualNextView::Failed(error)
            &&& manual_script(Side::Offerer, seq![made, shown, pasted, done, shown, failed])
                == ManualNextView::Failed(error)
            &&& manual_script(Side::Offerer, seq![ManualReplyView::Sdp(Err(error))])
                == ManualNextView::Failed(error)
            &&& manual_script(Side::Answerer, seq![pasted]) == (ManualNextView::CreateAnswer {
                offer: answer,
            })
            &&& manual_script(Side::Answerer, seq![pasted, made, shown]) == ManualNextView::Print(
                "Waiting for the connection to open…\n"@,
            )
            &&& manual_script(Side::Answerer, seq![pasted, ManualReplyView::Sdp(Err(error))])
                == ManualNextView::Failed(error)
            &&& manual_script(Side::Answerer, seq![pasted, made, shown, shown, failed])
                == ManualNextView::Failed(error)
        }),
{
}

} // verus!
