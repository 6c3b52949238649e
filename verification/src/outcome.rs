//! Test outcomes: what one guest instance of a test observed, how a peer process
//! reports it, and how the outcomes of two peers make one.

use vstd::prelude::*;

use crate::json::{
    json_holds, json_reading, members_map, object_of, only_strings, parse_value, print_value, string_member,
    string_members, utf8_error, utf8_text,
};
use crate::results::{RawResult, RawResultView, RawStatus};
use crate::text::{
    debug_quoted, find_from, lemma_find_from, lines, lines_from, quoted, same, spec_lines, strip_cr,
    trim, trimmed, views,
};
use vstd::utf8::{decode_utf8, encode_utf8, valid_utf8};

verus! {

/// The outcome of one guest instance: the target-independent mirror of the
/// guest's `test-result`.
#[derive(Debug, Clone)]
pub enum TestOutcome {
    Pass,
    Fail(String),
    Skipped(String),
}

/// The contents of a [`TestOutcome`].
pub enum OutcomeView {
    Pass,
    Fail(Seq<char>),
    Skipped(Seq<char>),
}

impl View for TestOutcome {
    type V = OutcomeView;

    open spec fn view(&self) -> OutcomeView {
        match self {
            TestOutcome::Pass => OutcomeView::Pass,
            TestOutcome::Fail(detail) => OutcomeView::Fail(detail@),
            TestOutcome::Skipped(reason) => OutcomeView::Skipped(reason@),
        }
    }
}

/// Why a JSON value is no outcome.
#[derive(Debug, Clone)]
pub enum OutcomeError {
    /// It has no `tag`, or the `tag` is no string.
    MissingTag,
    /// Its `tag` names no outcome.
    UnknownTag(String),
}

impl OutcomeError {
    /// The message of this error.
    pub open spec fn text(self) -> Seq<char> {
        match self {
            OutcomeError::MissingTag => "result missing tag"@,
            OutcomeError::UnknownTag(tag) => "unknown result tag "@ + debug_quoted(tag@),
        }
    }

    /// The message of this error.
    pub fn message(&self) -> (r: String)
        ensures
            r@ == self.text(),
    {
        match self {
            OutcomeError::MissingTag => "result missing tag".to_string(),
            OutcomeError::UnknownTag(tag) => {
                let mut out = "unknown result tag ".to_string();
                out.append(quoted(tag.as_str()).as_str());
                out
            },
        }
    }
}

/// The contents of an [`OutcomeError`].
pub enum OutcomeErrorView {
    MissingTag,
    UnknownTag(Seq<char>),
}

impl View for OutcomeError {
    type V = OutcomeErrorView;

    open spec fn view(&self) -> OutcomeErrorView {
        match self {
            OutcomeError::MissingTag => OutcomeErrorView::MissingTag,
            OutcomeError::UnknownTag(tag) => OutcomeErrorView::UnknownTag(tag@),
        }
    }
}

impl OutcomeView {
    /// The members of the `test-result` shape of this outcome.
    pub open spec fn members(self) -> Map<Seq<char>, Seq<char>> {
        match self {
            OutcomeView::Pass => Map::empty().insert("tag"@, "pass"@),
            OutcomeView::Fail(detail) => Map::empty().insert("tag"@, "fail"@).insert(
                "val"@,
                detail,
            ),
            OutcomeView::Skipped(reason) => Map::empty().insert("tag"@, "skipped"@).insert(
                "val"@,
                reason,
            ),
        }
    }
}

/// The detail of an outcome: its `val`, or nothing if there is none.
pub open spec fn detail_of(members: Map<Seq<char>, Seq<char>>) -> Seq<char> {
    if members.dom().contains("val"@) {
        members["val"@]
    } else {
        seq![]
    }
}

/// The outcome a `test-result` object stands for.
pub open spec fn outcome_of(members: Map<Seq<char>, Seq<char>>) -> Result<
    OutcomeView,
    OutcomeErrorView,
> {
    if !members.dom().contains("tag"@) {
        Err(OutcomeErrorView::MissingTag)
    } else if members["tag"@] == "pass"@ {
        Ok(OutcomeView::Pass)
    } else if members["tag"@] == "fail"@ {
        Ok(OutcomeView::Fail(detail_of(members)))
    } else if members["tag"@] == "skipped"@ {
        Ok(OutcomeView::Skipped(detail_of(members)))
    } else {
        Err(OutcomeErrorView::UnknownTag(members["tag"@]))
    }
}

/// `text` is JSON that stands for `outcome`.
pub open spec fn reads_as(text: Seq<char>, outcome: OutcomeView) -> bool {
    json_holds(text, outcome.members())
}

impl TestOutcome {
    /// The JSON `test-result` shape of an outcome: `{ "tag": ..., "val"? }`.
    pub fn to_json(&self) -> (r: serde_json::Value)
        ensures
            only_strings(r),
            string_members(r) == self@.members(),
    {
        let mut members: Vec<(String, String)> = Vec::new();
        proof {
            reveal_with_fuel(members_map, 3);
        }
        match self {
            TestOutcome::Pass => {
                members.push(("tag".to_string(), "pass".to_string()));
                assert(members@.drop_last() =~= seq![]);
            },
            TestOutcome::Fail(detail) => {
                members.push(("tag".to_string(), "fail".to_string()));
                let ghost one = members@;
                assert(one.drop_last() =~= seq![]);
                members.push(("val".to_string(), detail.clone()));
                assert(members@.drop_last() =~= one);
            },
            TestOutcome::Skipped(reason) => {
                members.push(("tag".to_string(), "skipped".to_string()));
                let ghost one = members@;
                assert(one.drop_last() =~= seq![]);
                members.push(("val".to_string(), reason.clone()));
                assert(members@.drop_last() =~= one);
            },
        }
        object_of(members)
    }

    /// The single line a peer process prints to stdout to report an outcome.
    pub fn to_line(&self) -> (r: String)
        ensures
            reads_as(r@, self@),
            !r@.contains('\n'),
            !r@.contains('\r'),
    {
        print_value(&self.to_json())
    }
}

/// Map a peer's `test-result` JSON value (`{ "tag": ..., "val"? }`) to a
/// [`TestOutcome`].
pub fn parse_outcome(value: &serde_json::Value) -> (r: Result<TestOutcome, OutcomeError>)
    ensures
        match r {
            Ok(outcome) => outcome_of(string_members(*value)) == Ok::<
                OutcomeView,
                OutcomeErrorView,
            >(outcome@),
            Err(e) => outcome_of(string_members(*value)) == Err::<OutcomeView, OutcomeErrorView>(
                e@,
            ),
        },
{
    let tag = match string_member(value, "tag") {
        Some(tag) => tag,
        None => {
            return Err(OutcomeError::MissingTag);
        },
    };
    let detail = match string_member(value, "val") {
        Some(detail) => detail.to_string(),
        None => {
            let empty = String::new();
            assert(empty@ =~= seq![]);
            empty
        },
    };
    if same(tag, "pass") {
        Ok(TestOutcome::Pass)
    } else if same(tag, "fail") {
        Ok(TestOutcome::Fail(detail))
    } else if same(tag, "skipped") {
        Ok(TestOutcome::Skipped(detail))
    } else {
        Err(OutcomeError::UnknownTag(tag.to_string()))
    }
}

/// Reading the JSON of an outcome gives the outcome back.
pub proof fn law_outcome_json_round_trips(outcome: OutcomeView)
    ensures
        outcome_of(outcome.members()) == Ok::<OutcomeView, OutcomeErrorView>(outcome),
{
    reveal_strlit("tag");
    reveal_strlit("val");
    reveal_strlit("pass");
    reveal_strlit("fail");
    reveal_strlit("skipped");
    assert("tag"@[0] != "val"@[0]);
    assert("pass"@[0] != "fail"@[0]);
    assert("pass"@.len() != "skipped"@.len());
    assert("fail"@.len() != "skipped"@.len());
}

// ----- two peers ---------------------------------------------------------------------

/// The outcome of two peers: any fail loses, else any skip, else pass.
pub open spec fn folded(offerer: OutcomeView, answerer: OutcomeView) -> OutcomeView {
    match (offerer, answerer) {
        (OutcomeView::Fail(a), OutcomeView::Fail(b)) => OutcomeView::Fail(
            "offerer: "@ + a + "; answerer: "@ + b,
        ),
        (OutcomeView::Fail(a), _) => OutcomeView::Fail("offerer: "@ + a),
        (_, OutcomeView::Fail(b)) => OutcomeView::Fail("answerer: "@ + b),
        (OutcomeView::Skipped(a), _) => OutcomeView::Skipped(a),
        (_, OutcomeView::Skipped(b)) => OutcomeView::Skipped(b),
        (OutcomeView::Pass, OutcomeView::Pass) => OutcomeView::Pass,
    }
}

/// Fold two per-instance outcomes into one: any fail loses, else any skip,
/// else pass.
pub fn fold_two(offerer: TestOutcome, answerer: TestOutcome) -> (r: TestOutcome)
    ensures
        r@ == folded(offerer@, answerer@),
{
    match (offerer, answerer) {
        (TestOutcome::Fail(a), TestOutcome::Fail(b)) => {
            let mut detail = "offerer: ".to_string();
            detail.append(a.as_str());
            detail.append("; answerer: ");
            detail.append(b.as_str());
            TestOutcome::Fail(detail)
        },
        (TestOutcome::Fail(a), _) => {
            let mut detail = "offerer: ".to_string();
            detail.append(a.as_str());
            TestOutcome::Fail(detail)
        },
        (_, TestOutcome::Fail(b)) => {
            let mut detail = "answerer: ".to_string();
            detail.append(b.as_str());
            TestOutcome::Fail(detail)
        },
        (TestOutcome::Skipped(a), _) => TestOutcome::Skipped(a),
        (_, TestOutcome::Skipped(b)) => TestOutcome::Skipped(b),
        (TestOutcome::Pass, TestOutcome::Pass) => TestOutcome::Pass,
    }
}

/// A test of two peers passes exactly if both peers pass, fails exactly if one
/// of them fails, and is skipped otherwise.
pub proof fn law_fold_prefers_fail_then_skip(offerer: OutcomeView, answerer: OutcomeView)
    ensures
        folded(offerer, answerer) is Pass <==> offerer is Pass && answerer is Pass,
        folded(offerer, answerer) is Fail <==> offerer is Fail || answerer is Fail,
        folded(offerer, answerer) is Skipped <==> !(offerer is Fail) && !(answerer is Fail) && (
        offerer is Skipped || answerer is Skipped),
{
}

/// The raw result of a test with an outcome.
pub open spec fn raw_of(test_id: Seq<char>, outcome: OutcomeView) -> RawResultView {
    match outcome {
        OutcomeView::Pass => RawResultView { test_id, status: RawStatus::Pass, detail: None },
        OutcomeView::Skipped(reason) => RawResultView {
            test_id,
            status: RawStatus::Skip,
            detail: Some(reason),
        },
        OutcomeView::Fail(detail) => RawResultView {
            test_id,
            status: RawStatus::Fail,
            detail: Some(detail),
        },
    }
}

/// Convert a folded outcome into the raw result vocabulary.
pub fn to_raw(test_id: &str, outcome: TestOutcome) -> (r: RawResult)
    ensures
        r@ == raw_of(test_id@, outcome@),
{
    match outcome {
        TestOutcome::Pass => RawResult {
            test_id: test_id.to_string(),
            status: RawStatus::Pass,
            detail: None,
        },
        TestOutcome::Skipped(reason) => RawResult {
            test_id: test_id.to_string(),
            status: RawStatus::Skip,
            detail: Some(reason),
        },
        TestOutcome::Fail(detail) => RawResult {
            test_id: test_id.to_string(),
            status: RawStatus::Fail,
            detail: Some(detail),
        },
    }
}

// ----- peer output ---------------------------------------------------------------------

/// Why what a peer process printed is no outcome.
#[derive(Debug, Clone)]
pub enum PeerError {
    /// It is not UTF-8.
    NotUtf8(String),
    /// It has no line.
    NoResultLine,
    /// Its result line is not JSON.
    NotJson { line: String, cause: String },
    /// Its result line is JSON, but no outcome.
    NoOutcome(OutcomeError),
}

/// The contents of a [`PeerError`].
pub enum PeerErrorView {
    NotUtf8(Seq<char>),
    NoResultLine,
    NotJson { line: Seq<char>, cause: Seq<char> },
    NoOutcome(OutcomeErrorView),
}

impl View for PeerError {
    type V = PeerErrorView;

    open spec fn view(&self) -> PeerErrorView {
        match self {
            PeerError::NotUtf8(cause) => PeerErrorView::NotUtf8(cause@),
            PeerError::NoResultLine => PeerErrorView::NoResultLine,
            PeerError::NotJson { line, cause } => PeerErrorView::NotJson {
                line: line@,
                cause: cause@,
            },
            PeerError::NoOutcome(e) => PeerErrorView::NoOutcome(e@),
        }
    }
}

impl PeerError {
    /// The message of this error, for the peer that `label` names.
    pub open spec fn text(self, label: Seq<char>) -> Seq<char> {
        match self {
            PeerError::NotUtf8(cause) => label + " stdout not UTF-8: "@ + cause@,
            PeerError::NoResultLine => label + " produced no result line"@,
            PeerError::NotJson { line, cause } => "parsing "@ + label + " result "@ + debug_quoted(
                line@,
            ) + ": "@ + cause@,
            PeerError::NoOutcome(e) => e.text(),
        }
    }

    /// The message of this error, for the peer that `label` names.
    pub fn message(&self, label: &str) -> (r: String)
        ensures
            r@ == self.text(label@),
    {
        match self {
            PeerError::NotUtf8(cause) => {
                let mut out = label.to_string();
                out.append(" stdout not UTF-8: ");
                out.append(cause.as_str());
                out
            },
            PeerError::NoResultLine => {
                let mut out = label.to_string();
                out.append(" produced no result line");
                out
            },
            PeerError::NotJson { line, cause } => {
                let mut out = "parsing ".to_string();
                out.append(label);
                out.append(" result ");
                out.append(quoted(line.as_str()).as_str());
                out.append(": ");
                out.append(cause.as_str());
                out
            },
            PeerError::NoOutcome(e) => e.message(),
        }
    }
}

/// What a result line says, shown as `line` where it is not JSON.
pub open spec fn line_reading(json: Seq<char>, line: Seq<char>) -> Result<
    OutcomeView,
    PeerErrorView,
> {
    match json_reading(json) {
        Err(cause) => Err(PeerErrorView::NotJson { line, cause }),
        Ok(members) => match outcome_of(members) {
            Ok(outcome) => Ok(outcome),
            Err(e) => Err(PeerErrorView::NoOutcome(e)),
        },
    }
}

fn read_line(json: &str, line: &str) -> (r: Result<TestOutcome, PeerError>)
    ensures
        match r {
            Ok(outcome) => line_reading(json@, line@) == Ok::<OutcomeView, PeerErrorView>(outcome@),
            Err(e) => line_reading(json@, line@) == Err::<OutcomeView, PeerErrorView>(e@),
        },
{
    match parse_value(json) {
        Err(cause) => Err(PeerError::NotJson { line: line.to_string(), cause }),
        Ok(value) => match parse_outcome(&value) {
            Ok(outcome) => Ok(outcome),
            Err(e) => Err(PeerError::NoOutcome(e)),
        },
    }
}

/// What a peer process reported: the outcome on the last line of its stdout.
pub open spec fn peer_reading(stdout: Seq<u8>) -> Result<OutcomeView, PeerErrorView> {
    if !valid_utf8(stdout) {
        Err(PeerErrorView::NotUtf8(utf8_error(stdout)))
    } else {
        let all = spec_lines(decode_utf8(stdout));
        if all.len() == 0 {
            Err(PeerErrorView::NoResultLine)
        } else {
            line_reading(all.last(), all.last())
        }
    }
}

/// Read the outcome a peer process reported from its stdout.
pub fn peer_outcome(stdout: &[u8]) -> (r: Result<TestOutcome, PeerError>)
    ensures
        match r {
            Ok(outcome) => peer_reading(stdout@) == Ok::<OutcomeView, PeerErrorView>(outcome@),
            Err(e) => peer_reading(stdout@) == Err::<OutcomeView, PeerErrorView>(e@),
        },
{
    match utf8_text(stdout) {
        Err(cause) => Err(PeerError::NotUtf8(cause)),
        Ok(text) => {
            let all = lines(text);
            let ghost list = views(all@);
            if all.len() == 0 {
                return Err(PeerError::NoResultLine);
            }
            let line = all[all.len() - 1];
            assert(list.last() == line@);
            read_line(line, line)
        },
    }
}

proof fn lemma_last_line(text: Seq<char>, line: Seq<char>, at: int, from: int)
    requires
        0 <= from <= at,
        text.len() == at + line.len() + 1,
        text.subrange(at, at + line.len()) == line,
        text[at + line.len()] == '\n',
        at > 0 ==> text[at - 1] == '\n',
        !line.contains('\n'),
        !line.contains('\r'),
    ensures
        lines_from(text, from).len() > 0,
        lines_from(text, from).last() == line,
    decreases at - from,
{
    let end = find_from(text, '\n', from);
    lemma_find_from(text, '\n', from);
    if from == at {
        assert forall|k: int| at <= k < at + line.len() implies text[k] != '\n' by {
            assert(text.subrange(at, at + line.len())[k - at] == text[k]);
            assert(line.contains(line[k - at]));
        }
        assert(end == at + line.len());
        assert(lines_from(text, end + 1) =~= seq![]);
        if line.len() > 0 {
            assert(line.contains(line.last()));
        }
        assert(strip_cr(line) == line);
        assert(lines_from(text, from) =~= seq![line]);
    } else {
        assert(end <= at - 1);
        lemma_last_line(text, line, at, end + 1);
    }
}

/// What a peer reports of a run: its outcome, or a failure if the host could not run it.
pub open spec fn reported_outcome(ran: Result<OutcomeView, Seq<char>>) -> OutcomeView {
    match ran {
        Ok(outcome) => outcome,
        Err(error) => OutcomeView::Fail("peer error: "@ + error),
    }
}

/// What a peer reports of a run. A host-side error is a failure rather than no outcome, so
/// that every peer has one.
pub fn report_outcome(ran: Result<TestOutcome, String>) -> (r: TestOutcome)
    ensures
        r@ == reported_outcome(
            match ran {
                Ok(outcome) => Ok(outcome@),
                Err(error) => Err(error@),
            },
        ),
{
    match ran {
        Ok(outcome) => outcome,
        Err(error) => TestOutcome::Fail(crate::text::concat2("peer error: ", error.as_str())),
    }
}

/// A peer that prints its result line as the last line of its output, after
/// whatever it printed before, is understood to have that outcome.
pub proof fn law_reported_outcome_is_read(before: Seq<char>, line: Seq<char>, outcome: OutcomeView)
    requires
        before.len() > 0 ==> before.last() == '\n',
        reads_as(line, outcome),
        !line.contains('\n'),
        !line.contains('\r'),
    ensures
        peer_reading(encode_utf8(before + line + seq!['\n'])) == Ok::<OutcomeView, PeerErrorView>(
            outcome,
        ),
{
    let text = before + line + seq!['\n'];
    vstd::utf8::encode_utf8_valid_utf8(text);
    vstd::utf8::encode_utf8_decode_utf8(text);
    let at = before.len() as int;
    assert(text.subrange(at, at + line.len()) =~= line);
    lemma_last_line(text, line, at, 0);
    law_outcome_json_round_trips(outcome);
}

/// The last of some lines that holds more than whitespace.
pub open spec fn last_nonblank(all: Seq<Seq<char>>) -> Option<Seq<char>>
    decreases all.len(),
{
    if all.len() == 0 {
        None
    } else if trimmed(all.last()).len() > 0 {
        Some(all.last())
    } else {
        last_nonblank(all.drop_last())
    }
}

/// What a captured peer output says: the outcome on its last line that is not
/// blank, trimmed of whitespace.
pub open spec fn captured_reading(text: Seq<char>) -> Result<OutcomeView, PeerErrorView> {
    match last_nonblank(spec_lines(text)) {
        None => Err(PeerErrorView::NoResultLine),
        Some(line) => line_reading(trimmed(line), line),
    }
}

/// Read the outcome a peer process reported from its captured output.
pub fn captured_outcome(text: &str) -> (r: Result<TestOutcome, PeerError>)
    ensures
        match r {
            Ok(outcome) => captured_reading(text@) == Ok::<OutcomeView, PeerErrorView>(outcome@),
            Err(e) => captured_reading(text@) == Err::<OutcomeView, PeerErrorView>(e@),
        },
{
    let all = lines(text);
    let ghost list = views(all@);
    let mut i: usize = all.len();
    assert(list.take(i as int) =~= list);
    while i > 0
        invariant
            i <= all@.len(),
            list == views(all@),
            list == spec_lines(text@),
            last_nonblank(list) == last_nonblank(list.take(i as int)),
        decreases i,
    {
        i -= 1;
        let line = all[i];
        assert(list.take(i + 1).drop_last() =~= list.take(i as int));
        assert(list.take(i + 1).last() == line@);
        let json = trim(line);
        if json.unicode_len() > 0 {
            return read_line(json, line);
        }
    }
    Err(PeerError::NoResultLine)
}

impl PeerError {
    /// The message of this error, for the captured output in the file `path`.
    pub open spec fn captured_text(self, path: Seq<char>) -> Seq<char> {
        match self {
            PeerError::NotUtf8(cause) => "reading "@ + path + ": "@ + cause@,
            PeerError::NoResultLine => "empty result in "@ + path,
            PeerError::NotJson { line, cause } => "parsing result "@ + debug_quoted(line@)
                + " from "@ + path + ": "@ + cause@,
            PeerError::NoOutcome(e) => e.text(),
        }
    }

    /// The message of this error, for the captured output in the file `path`.
    pub fn captured_message(&self, path: &str) -> (r: String)
        ensures
            r@ == self.captured_text(path@),
    {
        match self {
            PeerError::NotUtf8(cause) => {
                let mut out = "reading ".to_string();
                out.append(path);
                out.append(": ");
                out.append(cause.as_str());
                out
            },
            PeerError::NoResultLine => {
                let mut out = "empty result in ".to_string();
                out.append(path);
                out
            },
            PeerError::NotJson { line, cause } => {
                let mut out = "parsing result ".to_string();
                out.append(quoted(line.as_str()).as_str());
                out.append(" from ");
                out.append(path);
                out.append(": ");
                out.append(cause.as_str());
                out
            },
            PeerError::NoOutcome(e) => e.message(),
        }
    }
}

// ----- laws ------------------------------------------------------------------------------------------

/// Which outcome an object stands for is decided by its `tag` alone: `pass`, `fail` and
/// `skipped` are the three there are, any other is refused by its name, and an object
/// without one is refused as such.
pub proof fn law_the_tag_decides_the_outcome(members: Map<Seq<char>, Seq<char>>)
    ensures
        ({
            let tagged = members.dom().contains("tag"@);
            let tag = members["tag"@];
            let read = outcome_of(members);
            &&& (read matches Ok(OutcomeView::Pass)) <==> tagged && tag == "pass"@
            &&& (read matches Ok(OutcomeView::Fail(_))) <==> tagged && tag == "fail"@
            &&& (read matches Ok(OutcomeView::Skipped(_))) <==> tagged && tag == "skipped"@
            &&& (read matches Err(OutcomeErrorView::MissingTag)) <==> !tagged
            &&& read matches Err(OutcomeErrorView::UnknownTag(name)) ==> tagged && name == tag && tag
                != "pass"@ && tag != "fail"@ && tag != "skipped"@
        }),
        ({
            let given = members.dom().contains("val"@);
            let read = outcome_of(members);
            &&& read matches Ok(OutcomeView::Fail(detail)) ==> detail == (if given {
                members["val"@]
            } else {
                Seq::<char>::empty()
            })
            &&& read matches Ok(OutcomeView::Skipped(reason)) ==> reason == (if given {
                members["val"@]
            } else {
                Seq::<char>::empty()
            })
        }),
{
    reveal_strlit("pass");
    reveal_strlit("fail");
    reveal_strlit("skipped");
    assert("pass"@[0] != "fail"@[0]);
    assert("pass"@.len() != "skipped"@.len());
    assert("fail"@.len() != "skipped"@.len());
}

/// The object of an outcome holds its kind under `tag` and its detail, if it has one,
/// under `val`, and nothing else.
pub proof fn law_what_the_object_of_an_outcome_holds(outcome: OutcomeView)
    ensures
        outcome.members().dom().contains("tag"@),
        outcome.members()["tag"@] == "pass"@ <==> outcome is Pass,
        outcome.members()["tag"@] == "fail"@ <==> outcome is Fail,
        outcome.members()["tag"@] == "skipped"@ <==> outcome is Skipped,
        outcome.members().dom().contains("val"@) <==> !(outcome is Pass),
        outcome matches OutcomeView::Fail(detail) ==> outcome.members()["val"@] == detail,
        outcome matches OutcomeView::Skipped(reason) ==> outcome.members()["val"@] == reason,
        forall|name: Seq<char>| #[trigger]
            outcome.members().dom().contains(name) ==> name == "tag"@ || name == "val"@,
{
    reveal_strlit("tag");
    reveal_strlit("val");
    reveal_strlit("pass");
    reveal_strlit("fail");
    reveal_strlit("skipped");
    assert("tag"@[0] != "val"@[0]);
    assert("pass"@[0] != "fail"@[0]);
    assert("pass"@.len() != "skipped"@.len());
    assert("fail"@.len() != "skipped"@.len());
}

/// A failure of two peers says which of them failed and what that peer said; where both
/// failed, it says both, the offerer first. A skip gives the reason of the offerer if it
/// skipped, else that of the answerer.
pub proof fn law_failures_say_whose_they_are(a: Seq<char>, b: Seq<char>, other: OutcomeView)
    ensures
        folded(OutcomeView::Fail(a), OutcomeView::Fail(b)) == OutcomeView::Fail(
            "offerer: "@ + a + "; answerer: "@ + b,
        ),
        !(other is Fail) ==> folded(OutcomeView::Fail(a), other) == OutcomeView::Fail(
            "offerer: "@ + a,
        ) && folded(other, OutcomeView::Fail(b)) == OutcomeView::Fail("answerer: "@ + b),
        folded(OutcomeView::Skipped(a), OutcomeView::Skipped(b)) == OutcomeView::Skipped(a),
        folded(OutcomeView::Skipped(a), OutcomeView::Pass) == OutcomeView::Skipped(a),
        folded(OutcomeView::Pass, OutcomeView::Skipped(b)) == OutcomeView::Skipped(b),
{
}

/// The raw result of a test is for that test and keeps its outcome: passed, failed or
/// skipped as the outcome is, with the outcome's detail; different outcomes give
/// different results.
pub proof fn law_raw_results_keep_the_outcome(test_id: Seq<char>, a: OutcomeView, b: OutcomeView)
    ensures
        raw_of(test_id, a).test_id == test_id,
        raw_of(test_id, a).status == RawStatus::Pass <==> a is Pass,
        raw_of(test_id, a).status == RawStatus::Fail <==> a is Fail,
        raw_of(test_id, a).status == RawStatus::Skip <==> a is Skipped,
        raw_of(test_id, a).detail is None <==> a is Pass,
        raw_of(test_id, a) == raw_of(test_id, b) <==> a == b,
{
}

/// A run that the host could not finish is a failure that names the error; any other run
/// is reported as it went.
pub proof fn law_host_errors_are_failures(ran: Result<OutcomeView, Seq<char>>)
    ensures
        ran matches Ok(outcome) ==> reported_outcome(ran) == outcome,
        ran matches Err(error) ==> reported_outcome(ran) == OutcomeView::Fail("peer error: "@ + error),
{
}

proof fn lemma_last_nonblank(all: Seq<Seq<char>>)
    ensures
        match last_nonblank(all) {
            None => forall|i: int| 0 <= i < all.len() ==> trimmed(#[trigger] all[i]).len() == 0,
            Some(line) => exists|i: int|
                0 <= i < all.len() && #[trigger] all[i] == line && trimmed(line).len() > 0 && forall|
                    k: int,
                |
                    i < k < all.len() ==> trimmed(#[trigger] all[k]).len() == 0,
        },
    decreases all.len(),
{
    if all.len() > 0 {
        let last = all.len() - 1;
        let fewer = all.drop_last();
        if trimmed(all.last()).len() > 0 {
            assert(all[last] == all.last());
        } else {
            lemma_last_nonblank(fewer);
            assert(forall|i: int| 0 <= i < last ==> #[trigger] all[i] == fewer[i]);
            if let Some(line) = last_nonblank(all) {
                let i = choose|i: int|
                    0 <= i < fewer.len() && #[trigger] fewer[i] == line && trimmed(line).len() > 0
                        && forall|k: int|
                        i < k < fewer.len() ==> trimmed(#[trigger] fewer[k]).len() == 0;
                assert(all[i] == line);
                assert forall|k: int| i < k < all.len() implies trimmed(#[trigger] all[k]).len()
                    == 0 by {
                    if k < last {
                        assert(fewer[k] == all[k]);
                    }
                }
            }
        }
    }
}

/// A captured output says what its last line that is not blank says, whitespace around it
/// aside: an output of blank lines says nothing, and blank lines behind the result change
/// nothing.
pub proof fn law_blank_lines_are_passed_over(text: Seq<char>, i: int)
    requires
        0 <= i < spec_lines(text).len(),
        trimmed(spec_lines(text)[i]).len() > 0,
        forall|k: int|
            i < k < spec_lines(text).len() ==> trimmed(#[trigger] spec_lines(text)[k]).len() == 0,
    ensures
        captured_reading(text) matches Ok(outcome) ==> (json_reading(
            trimmed(spec_lines(text)[i]),
        ) matches Ok(members) && outcome_of(members) == Ok::<OutcomeView, OutcomeErrorView>(
            outcome,
        )),
        captured_reading(text) is Ok <==> (json_reading(trimmed(spec_lines(text)[i])) matches Ok(
            members,
        ) && outcome_of(members) is Ok),
        !(captured_reading(text) matches Err(PeerErrorView::NoResultLine)),
{
    let all = spec_lines(text);
    lemma_last_nonblank(all);
    let line = last_nonblank(all)->0;
    let j = choose|j: int|
        0 <= j < all.len() && #[trigger] all[j] == line && trimmed(line).len() > 0 && forall|k: int|
            j < k < all.len() ==> trimmed(#[trigger] all[k]).len() == 0;
    if j < i {
        assert(trimmed(all[i]).len() == 0);
    }
    if i < j {
        assert(trimmed(all[j]).len() == 0);
    }
}

/// An output holds no result exactly if it is blank throughout.
pub proof fn law_only_blank_outputs_are_empty(text: Seq<char>)
    ensures
        (captured_reading(text) matches Err(PeerErrorView::NoResultLine)) <==> forall|i: int|
            0 <= i < spec_lines(text).len() ==> trimmed(#[trigger] spec_lines(text)[i]).len() == 0,
{
    lemma_last_nonblank(spec_lines(text));
}

/// What the messages name: the peer or the file, and what was wrong with its output.
pub proof fn law_messages_name_peer_and_cause(
    label: Seq<char>,
    path: Seq<char>,
    line: String,
    cause: String,
)
    ensures
        PeerError::NotUtf8(cause).text(label) == label + " stdout not UTF-8: "@ + cause@,
        PeerError::NoResultLine.text(label) == label + " produced no result line"@,
        (PeerError::NotJson { line, cause }).text(label) == "parsing "@ + label + " result "@
            + debug_quoted(line@) + ": "@ + cause@,
        PeerError::NotUtf8(cause).captured_text(path) == "reading "@ + path + ": "@ + cause@,
        PeerError::NoResultLine.captured_text(path) == "empty result in "@ + path,
        (PeerError::NotJson { line, cause }).captured_text(path) == "parsing result "@
            + debug_quoted(line@) + " from "@ + path + ": "@ + cause@,
        PeerError::NoOutcome(OutcomeError::MissingTag).text(label) == "result missing tag"@,
        PeerError::NoOutcome(OutcomeError::MissingTag).captured_text(path) == "result missing tag"@,
        PeerError::NoOutcome(OutcomeError::UnknownTag(line)).text(label) == "unknown result tag "@
            + debug_quoted(line@),
        PeerError::NoOutcome(OutcomeError::UnknownTag(line)).captured_text(path)
            == "unknown result tag "@ + debug_quoted(line@),
{
}

/// How the output of a peer is misread: exactly one of these holds where there is no outcome.
/// It is not UTF-8, it has no line, its last line is not JSON, or that JSON is no outcome;
/// what is wrong is passed on.
pub proof fn law_how_outputs_are_refused(stdout: Seq<u8>)
    ensures
        ({
            let all = spec_lines(decode_utf8(stdout));
            let read = peer_reading(stdout);
            &&& read == Err::<OutcomeView, PeerErrorView>(
                PeerErrorView::NotUtf8(utf8_error(stdout)),
            ) <==> !valid_utf8(stdout)
            &&& (read matches Err(PeerErrorView::NoResultLine)) <==> valid_utf8(stdout) && all.len()
                == 0
            &&& valid_utf8(stdout) && all.len() > 0 ==> match json_reading(all.last()) {
                Err(cause) => read == Err::<OutcomeView, PeerErrorView>(
                    PeerErrorView::NotJson { line: all.last(), cause },
                ),
                Ok(members) => match outcome_of(members) {
                    Ok(outcome) => read == Ok::<OutcomeView, PeerErrorView>(outcome),
                    Err(e) => read == Err::<OutcomeView, PeerErrorView>(
                        PeerErrorView::NoOutcome(e),
                    ),
                },
            }
        }),
{
}

/// A raw result passes on the very detail of the outcome.
pub proof fn law_raw_results_keep_the_detail(test_id: Seq<char>, detail: Seq<char>)
    ensures
        raw_of(test_id, OutcomeView::Fail(detail)).detail == Some(detail),
        raw_of(test_id, OutcomeView::Skipped(detail)).detail == Some(detail),
{
}

} // verus!
