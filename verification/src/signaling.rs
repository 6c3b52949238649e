//! Starting a signaling server: the line by which it announces its URL, and the poll
//! that waits until it is healthy.

use vstd::prelude::*;

use crate::text::{
    after_last, concat2, debug_quoted, has_prefix, has_substring, is_space, last_occurrence,
    occurs_at, quoted, spec_after_last, starts_with, strip_prefix, spec_strip_prefix, trim,
    trim_back, trim_front, trimmed,
};

verus! {

/// The line a signaling server prints once it listens.
pub open spec fn announcement(base_url: Seq<char>) -> Seq<char> {
    "conformance-signalingd listening on "@ + base_url
}

/// The line a signaling server prints once it listens. Whoever started it learns the
/// URL from this line.
pub fn startup_line(base_url: &str) -> (r: String)
    ensures
        r@ == announcement(base_url@),
{
    concat2("conformance-signalingd listening on ", base_url)
}

/// The URL a startup line announces.
pub open spec fn announced_url(line: Seq<char>) -> Option<Seq<char>> {
    match spec_after_last(line, "listening on "@) {
        Some(rest) => if has_prefix(trimmed(rest), "http://"@) {
            Some(trimmed(rest))
        } else {
            None
        },
        None => None,
    }
}

/// Read the `listening on <url>` line of a server's stdout.
pub fn read_base_url(line: &str) -> (r: Result<String, String>)
    ensures
        match r {
            Ok(url) => announced_url(line@) == Some(url@),
            Err(e) => announced_url(line@) is None && e@
                == "unexpected signaling server startup line: "@ + debug_quoted(line@),
        },
{
    if let Some(rest) = after_last(line, "listening on ") {
        let url = trim(rest);
        if starts_with(url, "http://") {
            return Ok(url.to_string());
        }
    }
    Err(concat2("unexpected signaling server startup line: ", quoted(line).as_str()))
}

proof fn lemma_trim_line(url: Seq<char>)
    requires
        url.len() > 0,
        !is_space(url[0]),
        !is_space(url.last()),
    ensures
        trimmed(url + seq!['\n']) == url,
{
    let line = url + seq!['\n'];
    assert(line[0] == url[0]);
    assert(trim_front(line) == line);
    assert(line.last() == '\n');
    assert(line.drop_last() =~= url);
    assert(trim_back(line) == trim_back(url));
}

proof fn lemma_no_later_announcement(
    head: Seq<char>,
    needle: Seq<char>,
    url: Seq<char>,
    at: int,
)
    requires
        needle.len() > 0,
        forall|k: int| 0 < k < needle.len() ==> #[trigger] needle[k] != needle[0],
        needle.last() != '\n',
        !has_substring(url, needle),
        head.len() < at,
    ensures
        !occurs_at(head + needle + url + seq!['\n'], needle, at),
{
    let line = head + needle + url + seq!['\n'];
    let start = head.len() as int;
    let rest = start + needle.len();
    if occurs_at(line, needle, at) {
        let cut = line.subrange(at, at + needle.len());
        assert(cut[0] == line[at]);
        if at < rest {
            assert(line[at] == needle[at - start]);
        } else if at + needle.len() > rest + url.len() {
            assert(cut[needle.len() - 1] == line[at + needle.len() - 1]);
            assert(line[at + needle.len() - 1] == '\n');
        } else {
            assert(url.subrange(at - rest, at - rest + needle.len()) =~= cut);
            assert(occurs_at(url, needle, at - rest));
        }
    }
}

proof fn lemma_last_announcement(head: Seq<char>, needle: Seq<char>, url: Seq<char>, at: int)
    requires
        needle.len() > 0,
        forall|k: int| 0 < k < needle.len() ==> #[trigger] needle[k] != needle[0],
        needle.last() != '\n',
        !has_substring(url, needle),
        head.len() <= at,
    ensures
        last_occurrence(head + needle + url + seq!['\n'], needle, at) == Some(head.len() as int),
    decreases at,
{
    let line = head + needle + url + seq!['\n'];
    let start = head.len() as int;
    if at > start {
        lemma_no_later_announcement(head, needle, url, at);
        lemma_last_announcement(head, needle, url, at - 1);
    } else {
        assert(line.subrange(start, start + needle.len()) =~= needle);
        assert(occurs_at(line, needle, at));
    }
}

/// Whoever started a server learns the URL it announces: any URL of this scheme that
/// ends in no whitespace and does not hold the announcement's own words.
pub proof fn law_announced_url_is_read(url: Seq<char>)
    requires
        has_prefix(url, "http://"@),
        !is_space(url.last()),
        !has_substring(url, "listening on "@),
    ensures
        announced_url(announcement(url) + seq!['\n']) == Some(url),
{
    reveal_strlit("http://");
    reveal_strlit("listening on ");
    reveal_strlit("conformance-signalingd listening on ");
    reveal_strlit("conformance-signalingd ");
    let needle = "listening on "@;
    let head = "conformance-signalingd "@;
    assert("conformance-signalingd listening on "@ =~= head + needle);
    let line = announcement(url) + seq!['\n'];
    assert(line =~= head + needle + url + seq!['\n']);
    assert(needle.len() == 13 && needle[0] == 'l' && needle.last() == ' ');
    assert forall|k: int| 0 < k < needle.len() implies #[trigger] needle[k] != needle[0] by {
        assert(needle[1] == 'i' && needle[2] == 's' && needle[3] == 't' && needle[4] == 'e'
            && needle[5] == 'n' && needle[6] == 'i' && needle[7] == 'n' && needle[8] == 'g'
            && needle[9] == ' ' && needle[10] == 'o' && needle[11] == 'n' && needle[12] == ' ');
    }
    lemma_last_announcement(head, needle, url, line.len() as int);
    assert(line.skip((head.len() + needle.len()) as int) =~= url + seq!['\n']);
    assert(url.subrange(0, 7)[0] == url[0]);
    assert(url[0] == 'h');
    lemma_trim_line(url);
}

/// The host and port of a base URL: the URL without its scheme.
pub fn health_addr(base_url: &str) -> (r: &str)
    ensures
        r@ == match spec_strip_prefix(base_url@, "http://"@) {
            Some(addr) => addr,
            None => base_url@,
        },
{
    match strip_prefix(base_url, "http://") {
        Some(addr) => addr,
        None => base_url,
    }
}

/// The request that asks a server whether it is healthy.
pub const HEALTH_REQUEST: &'static str = "GET /healthz HTTP/1.0\r\nHost: localhost\r\nConnection: close\r\n\r\n";

/// A response says that the server is healthy: its status is 200.
pub open spec fn says_healthy(response: Seq<char>) -> bool {
    has_prefix(response, "HTTP/1.0 200"@) || has_prefix(response, "HTTP/1.1 200"@)
}

/// Whether a response says that the server is healthy.
pub fn is_healthy(response: &str) -> (r: bool)
    ensures
        r == says_healthy(response@),
{
    starts_with(response, "HTTP/1.0 200") || starts_with(response, "HTTP/1.1 200")
}

/// What the poll for a healthy server does next.
#[derive(Debug, Clone, Copy, PartialEq, Eq, Structural)]
pub enum HealthStep {
    /// The server is healthy.
    Ready,
    /// It did not become healthy in time.
    GiveUp,
    /// Ask again after this many milliseconds.
    Wait { millis: u64 },
}

/// What the poll for a healthy server does next, at time `now`.
pub fn health_step(healthy: bool, now: u64, deadline: u64) -> (r: HealthStep)
    ensures
        r == if healthy {
            HealthStep::Ready
        } else if now >= deadline {
            HealthStep::GiveUp
        } else {
            HealthStep::Wait { millis: 25 }
        },
{
    if healthy {
        HealthStep::Ready
    } else if now >= deadline {
        HealthStep::GiveUp
    } else {
        HealthStep::Wait { millis: 25 }
    }
}

/// Why waiting for a healthy server was given up.
pub fn unhealthy_message(timeout: &str) -> (r: String)
    ensures
        r@ == "signaling server did not become healthy within "@ + timeout@,
{
    concat2("signaling server did not become healthy within ", timeout)
}

// ----- laws ----------------------------------------------------------------------------------

/// The announcement ends in the URL, behind the words that it is looked for by, which
/// stand behind the server's name.
pub proof fn law_the_announcement_ends_in_the_url(url: Seq<char>)
    ensures
        announcement(url) == "conformance-signalingd "@ + "listening on "@ + url,
{
    reveal_strlit("listening on ");
    reveal_strlit("conformance-signalingd listening on ");
    reveal_strlit("conformance-signalingd ");
    assert("conformance-signalingd listening on "@ =~= "conformance-signalingd "@
        + "listening on "@);
    assert(announcement(url) =~= "conformance-signalingd "@ + "listening on "@ + url);
}

/// A line announces no URL unless it holds the announcement's words, and what it announces
/// is of the scheme and stands in the line.
pub proof fn law_only_announcements_announce(line: Seq<char>)
    ensures
        announced_url(line) matches Some(url) ==> has_prefix(url, "http://"@) && has_substring(
            line,
            "listening on "@,
        ),
        !has_substring(line, "listening on "@) ==> announced_url(line) is None,
{
    let needle = "listening on "@;
    lemma_found(line, needle, line.len() as int);
}

proof fn lemma_found(hay: Seq<char>, needle: Seq<char>, at: int)
    ensures
        last_occurrence(hay, needle, at) is Some ==> has_substring(hay, needle),
    decreases at + 1,
{
    if at >= 0 && !occurs_at(hay, needle, at) {
        lemma_found(hay, needle, at - 1);
    }
}

/// A server is healthy exactly if it answers in HTTP/1.0 or HTTP/1.1 with the status 200;
/// it is asked at the address behind the scheme of its URL.
pub proof fn law_only_status_ok_is_healthy(response: Seq<char>, rest: Seq<char>, addr: Seq<char>)
    ensures
        says_healthy("HTTP/1.0 200"@ + rest),
        says_healthy("HTTP/1.1 200"@ + rest),
        says_healthy(response) ==> response.len() >= 12 && response.subrange(9, 12) == seq![
            '2',
            '0',
            '0',
        ],
        spec_strip_prefix("http://"@ + addr, "http://"@) == Some(addr),
{
    reveal_strlit("HTTP/1.0 200");
    reveal_strlit("HTTP/1.1 200");
    assert(("HTTP/1.0 200"@ + rest).subrange(0, 12) =~= "HTTP/1.0 200"@);
    assert(("HTTP/1.1 200"@ + rest).subrange(0, 12) =~= "HTTP/1.1 200"@);
    if says_healthy(response) {
        let head = response.subrange(0, 12);
        assert(head[9] == '2' && head[10] == '0' && head[11] == '0');
        assert(response.subrange(9, 12) =~= seq!['2', '0', '0']);
    }
    let url = "http://"@ + addr;
    assert(url.subrange(0, "http://"@.len() as int) =~= "http://"@);
    assert(url.skip("http://"@.len() as int) =~= addr);
}

} // verus!
