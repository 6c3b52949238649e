//! The signaling demo: two separate peers that meet in a rendezvous room and exchange
//! descriptions and candidates as opaque blobs.

use vstd::prelude::*;
use vstd::utf8::encode_utf8;

use crate::demo::{Link, LinkView};
use crate::error::{Error, ErrorView};
use crate::script::{
    replies_view, same_description, same_error, ChannelOptions, OptionsView, Reply, ReplyView,
    Request, RequestView, Side,
};
use crate::signal::{
    decode, decoded, encode_ice, encode_sdp, ice_text, law_sdp_round_trips, sdp_text, CandidateView,
    DescriptionView, IceCandidate, SessionDescription, Signal, SignalView,
};

verus! {

/// The options of the demo's channel.
pub open spec fn demo_options() -> OptionsView {
    OptionsView { label: Some("signaling-demo"@), ordered: Some(true), max_retransmits: None }
}

/// A step that only has to succeed: what to say if it did not.
pub open spec fn breaks(reply: ReplyView) -> Option<LinkView> {
    match reply {
        ReplyView::Done(Ok(())) => None,
        ReplyView::Done(Err(error)) => Some(LinkView::Failed(error)),
        _ => Some(LinkView::OutOfStep),
    }
}

fn find_break(reply: &Reply) -> (r: Option<Link>)
    ensures
        match r {
            Some(link) => breaks(reply@) == Some(link@),
            None => breaks(reply@) is None,
        },
{
    match reply {
        Reply::Done(Ok(())) => None,
        Reply::Done(Err(error)) => Some(Link::Failed(same_error(error))),
        _ => Some(Link::OutOfStep),
    }
}

/// The offerer's half: the channel is created, and the offer is sent before the candidates
/// that depend on it.
pub open spec fn offerer_link(h: Seq<ReplyView>) -> LinkView {
    let on = Side::Offerer;
    if h.len() == 0 {
        LinkView::Ask(RequestView::CreateDataChannel { on, options: demo_options() })
    } else if breaks(h[0]) is Some {
        breaks(h[0])->0
    } else if h.len() == 1 {
        LinkView::Ask(RequestView::CreateOffer { on })
    } else {
        match h[1] {
            ReplyView::Described(Err(error)) => LinkView::Failed(error),
            ReplyView::Described(Ok(offer)) => {
                if h.len() == 2 {
                    LinkView::Ask(RequestView::SetLocal { on, description: offer })
                } else if breaks(h[2]) is Some {
                    breaks(h[2])->0
                } else if h.len() == 3 {
                    LinkView::Ask(RequestView::SendBlob { blob: encode_utf8(sdp_text(offer)) })
                } else if breaks(h[3]) is Some {
                    breaks(h[3])->0
                } else if h.len() == 4 {
                    LinkView::Ask(RequestView::AwaitConnected { on })
                } else if breaks(h[4]) is Some {
                    breaks(h[4])->0
                } else {
                    LinkView::Ready(5)
                }
            },
            _ => LinkView::OutOfStep,
        }
    }
}

/// Offerer signaling: create the channel, publish an offer, then trickle ICE and consume
/// the peer's answer/ICE until the connection is established.
pub fn connect_offerer(replies: &[Reply]) -> (r: Link)
    ensures
        r@ == offerer_link(replies_view(replies@)),
{
    let on = Side::Offerer;
    if replies.len() == 0 {
        return Link::Ask(
            Request::CreateDataChannel {
                on,
                options: ChannelOptions {
                    label: Some("signaling-demo".to_string()),
                    ordered: Some(true),
                    max_retransmits: None,
                },
            },
        );
    }
    if let Some(link) = find_break(&replies[0]) {
        return link;
    }
    if replies.len() == 1 {
        return Link::Ask(Request::CreateOffer { on });
    }
    let offer = match &replies[1] {
        Reply::Described(Ok(offer)) => offer,
        Reply::Described(Err(error)) => {
            return Link::Failed(same_error(error));
        },
        _ => {
            return Link::OutOfStep;
        },
    };
    if replies.len() == 2 {
        return Link::Ask(Request::SetLocal { on, description: same_description(offer) });
    }
    if let Some(link) = find_break(&replies[2]) {
        return link;
    }
    if replies.len() == 3 {
        return Link::Ask(Request::SendBlob { blob: encode_sdp(offer) });
    }
    if let Some(link) = find_break(&replies[3]) {
        return link;
    }
    if replies.len() == 4 {
        return Link::Ask(Request::AwaitConnected { on });
    }
    if let Some(link) = find_break(&replies[4]) {
        return link;
    }
    Link::Ready(5)
}

/// What follows the offer, which came with the `i`-th reply.
pub open spec fn answer_link(h: Seq<ReplyView>, offer: DescriptionView, i: int) -> LinkView {
    let on = Side::Answerer;
    if h.len() <= i + 1 {
        LinkView::Ask(RequestView::SetRemote { on, description: offer })
    } else if breaks(h[i + 1]) is Some {
        breaks(h[i + 1])->0
    } else if h.len() == i + 2 {
        LinkView::Ask(RequestView::CreateAnswer { on })
    } else {
        match h[i + 2] {
            ReplyView::Described(Err(error)) => LinkView::Failed(error),
            ReplyView::Described(Ok(answer)) => {
                if h.len() == i + 3 {
                    LinkView::Ask(RequestView::SetLocal { on, description: answer })
                } else if breaks(h[i + 3]) is Some {
                    breaks(h[i + 3])->0
                } else if h.len() == i + 4 {
                    LinkView::Ask(RequestView::SendBlob { blob: encode_utf8(sdp_text(answer)) })
                } else if breaks(h[i + 4]) is Some {
                    breaks(h[i + 4])->0
                } else if h.len() == i + 5 {
                    LinkView::Ask(RequestView::AwaitConnected { on })
                } else if breaks(h[i + 5]) is Some {
                    breaks(h[i + 5])->0
                } else if h.len() == i + 6 {
                    LinkView::Ask(RequestView::ReadIncoming { on })
                } else {
                    match h[i + 6] {
                        ReplyView::Incoming(n) => if n == 0 {
                            LinkView::Failed(
                                ErrorView::Other("no data channel opened by the peer"@),
                            )
                        } else {
                            LinkView::Ready((i + 7) as nat)
                        },
                        _ => LinkView::OutOfStep,
                    }
                }
            },
            _ => LinkView::OutOfStep,
        }
    }
}

/// The answerer's half from the `i`-th reply on: blobs are read until one is a
/// description, which is taken for the offer.
pub open spec fn answerer_link(h: Seq<ReplyView>, i: int) -> LinkView
    decreases h.len() - i,
{
    if i < 0 || i >= h.len() {
        LinkView::Ask(RequestView::RecvBlob)
    } else {
        match h[i] {
            ReplyView::Blob(Err(error)) => LinkView::Failed(error),
            ReplyView::Blob(Ok(None)) => LinkView::Failed(ErrorView::Closed),
            ReplyView::Blob(Ok(Some(blob))) => match decoded(blob) {
                Some(SignalView::Sdp(offer)) => answer_link(h, offer, i),
                _ => answerer_link(h, i + 1),
            },
            _ => LinkView::OutOfStep,
        }
    }
}

fn answer(replies: &[Reply], offer: &SessionDescription, i: usize) -> (r: Link)
    requires
        i < replies@.len(),
    ensures
        r@ == answer_link(replies_view(replies@), offer@, i as int),
{
    let on = Side::Answerer;
    let more = replies.len() - i;
    if more == 1 {
        return Link::Ask(Request::SetRemote { on, description: same_description(offer) });
    }
    if let Some(link) = find_break(&replies[i + 1]) {
        return link;
    }
    if more == 2 {
        return Link::Ask(Request::CreateAnswer { on });
    }
    let answer = match &replies[i + 2] {
        Reply::Described(Ok(answer)) => answer,
        Reply::Described(Err(error)) => {
            return Link::Failed(same_error(error));
        },
        _ => {
            return Link::OutOfStep;
        },
    };
    if more == 3 {
        return Link::Ask(Request::SetLocal { on, description: same_description(answer) });
    }
    if let Some(link) = find_break(&replies[i + 3]) {
        return link;
    }
    if more == 4 {
        return Link::Ask(Request::SendBlob { blob: encode_sdp(answer) });
    }
    if let Some(link) = find_break(&replies[i + 4]) {
        return link;
    }
    if more == 5 {
        return Link::Ask(Request::AwaitConnected { on });
    }
    if let Some(link) = find_break(&replies[i + 5]) {
        return link;
    }
    if more == 6 {
        return Link::Ask(Request::ReadIncoming { on });
    }
    match &replies[i + 6] {
        Reply::Incoming(n) => if *n == 0 {
            Link::Failed(Error::Other("no data channel opened by the peer".to_string()))
        } else {
            Link::Ready(i + 7)
        },
        _ => Link::OutOfStep,
    }
}

/// Answerer signaling: wait for the offer, reply with an answer, then trickle ICE and
/// consume the peer's ICE until connected, adopting the channel the offerer opened.
pub fn connect_answerer(replies: &[Reply]) -> (r: Link)
    ensures
        r@ == answerer_link(replies_view(replies@), 0),
{
    let ghost h = replies_view(replies@);
    let mut i: usize = 0;
    while i < replies.len()
        invariant
            i <= replies@.len(),
            h == replies_view(replies@),
            answerer_link(h, 0) == answerer_link(h, i as int),
        decreases replies@.len() - i,
    {
        let blob = match &replies[i] {
            Reply::Blob(Err(error)) => {
                return Link::Failed(same_error(error));
            },
            Reply::Blob(Ok(None)) => {
                return Link::Failed(Error::Closed);
            },
            Reply::Blob(Ok(Some(blob))) => blob,
            _ => {
                return Link::OutOfStep;
            },
        };
        match decode(blob.as_slice()) {
            Some(Signal::Sdp(offer)) => {
                return answer(replies, &offer, i);
            },
            _ => {
                i = i + 1;
            },
        }
    }
    Link::Ask(Request::RecvBlob)
}

/// What is done with a blob of the peer while connecting. How that goes is not looked at.
#[derive(Debug)]
pub enum Consumed {
    SetRemote(SessionDescription),
    AddCandidate(IceCandidate),
    /// It is no signal.
    Skip,
    /// The peer has closed its side of the rendezvous.
    End,
}

/// Apply descriptions and candidates received from the peer.
pub fn consume_remote_signal(blob: Option<&[u8]>) -> (r: Consumed)
    ensures
        match blob {
            None => r is End,
            Some(blob) => match decoded(blob@) {
                Some(SignalView::Sdp(d)) => r matches Consumed::SetRemote(got) && got@ == d,
                Some(SignalView::Ice(c)) => r matches Consumed::AddCandidate(got) && got@ == c,
                None => r is Skip,
            },
        },
{
    match blob {
        None => Consumed::End,
        Some(blob) => match decode(blob) {
            Some(Signal::Sdp(description)) => Consumed::SetRemote(description),
            Some(Signal::Ice(candidate)) => Consumed::AddCandidate(candidate),
            None => Consumed::Skip,
        },
    }
}

/// The blobs of a batch of local candidates, in their order.
pub open spec fn candidate_blobs(batch: Seq<CandidateView>) -> Seq<Seq<u8>> {
    batch.map_values(|c: CandidateView| encode_utf8(ice_text(c)))
}

/// The blobs that forward a batch of locally gathered candidates to the peer.
pub fn forward_local_ice(batch: &[IceCandidate]) -> (r: Vec<Vec<u8>>)
    ensures
        crate::payload::byte_lists(r@) == candidate_blobs(crate::script::candidates_view(batch@)),
{
    let ghost blobs = candidate_blobs(crate::script::candidates_view(batch@));
    let mut out: Vec<Vec<u8>> = Vec::new();
    let mut i: usize = 0;
    assert(crate::payload::byte_lists(out@) =~= blobs.take(0));
    while i < batch.len()
        invariant
            i <= batch@.len(),
            blobs == candidate_blobs(crate::script::candidates_view(batch@)),
            crate::payload::byte_lists(out@) == blobs.take(i as int),
        decreases batch@.len() - i,
    {
        let ghost before = crate::payload::byte_lists(out@);
        out.push(encode_ice(&batch[i]));
        i = i + 1;
        assert(crate::payload::byte_lists(out@) =~= before.push(blobs[i - 1]));
        assert(blobs.take(i as int) =~= before.push(blobs[i - 1]));
    }
    assert(blobs.take(i as int) =~= blobs);
    out
}

/// The offer that the offerer sends is the one that the answerer sets: the description
/// crosses the rendezvous unchanged, however many other blobs come before it.
pub proof fn law_offer_crosses_the_rendezvous(
    made: DescriptionView,
    stray: Seq<ReplyView>,
)
    requires
        forall|j: int| 0 <= j < stray.len() ==> match #[trigger] stray[j] {
            ReplyView::Blob(Ok(Some(blob))) => !(decoded(blob) matches Some(SignalView::Sdp(_))),
            _ => false,
        },
    ensures
        offerer_link(
            seq![
                ReplyView::Done(Ok(())),
                ReplyView::Described(Ok(made)),
                ReplyView::Done(Ok(())),
            ],
        ) == LinkView::Ask(RequestView::SendBlob { blob: encode_utf8(sdp_text(made)) }),
        answerer_link(stray.push(ReplyView::Blob(Ok(Some(encode_utf8(sdp_text(made)))))), 0)
            == LinkView::Ask(RequestView::SetRemote { on: Side::Answerer, description: made }),
{
    law_sdp_round_trips(made);
    lemma_skip_stray(stray, made, 0);
}

proof fn lemma_skip_stray(stray: Seq<ReplyView>, made: DescriptionView, i: int)
    requires
        0 <= i <= stray.len(),
        decoded(encode_utf8(sdp_text(made))) == Some(SignalView::Sdp(made)),
        forall|j: int| 0 <= j < stray.len() ==> match #[trigger] stray[j] {
            ReplyView::Blob(Ok(Some(blob))) => !(decoded(blob) matches Some(SignalView::Sdp(_))),
            _ => false,
        },
    ensures
        answerer_link(stray.push(ReplyView::Blob(Ok(Some(encode_utf8(sdp_text(made)))))), i)
            == LinkView::Ask(RequestView::SetRemote { on: Side::Answerer, description: made }),
    decreases stray.len() - i,
{
    let h = stray.push(ReplyView::Blob(Ok(Some(encode_utf8(sdp_text(made))))));
    if i < stray.len() {
        assert(h[i] == stray[i]);
        lemma_skip_stray(stray, made, i + 1);
    }
}

/// The demo's channel is labelled `signaling-demo`, ordered and reliable.
pub proof fn law_what_the_demo_opens()
    ensures
        demo_options().label == Some("signaling-demo"@),
        demo_options().ordered == Some(true),
        demo_options().max_retransmits is None,
        offerer_link(seq![]) == LinkView::Ask(
            RequestView::CreateDataChannel { on: Side::Offerer, options: demo_options() },
        ),
{
}

/// A step goes on exactly if it ended well, and otherwise ends the connecting in the error
/// it ended with.
pub proof fn law_only_good_steps_connect(reply: ReplyView)
    ensures
        breaks(reply) is None <==> (reply matches ReplyView::Done(Ok(_))),
        reply matches ReplyView::Done(Err(error)) ==> breaks(reply) == Some(LinkView::Failed(error)),
        !(reply is Done) ==> breaks(reply) == Some(LinkView::OutOfStep),
{
}

/// The offerer makes an offer, sets it, sends it and then awaits the connection: it is
/// ready exactly once all of that went well, in five replies.
pub proof fn law_the_offerer_is_ready_after_its_offer(offer: DescriptionView, h: Seq<ReplyView>)
    ensures
        ({
            let on = Side::Offerer;
            let done = ReplyView::Done(Ok(()));
            let made = ReplyView::Described(Ok(offer));
            &&& offerer_link(seq![done]) == LinkView::Ask(RequestView::CreateOffer { on })
            &&& offerer_link(seq![done, made]) == LinkView::Ask(
                RequestView::SetLocal { on, description: offer },
            )
            &&& offerer_link(seq![done, made, done]) == LinkView::Ask(
                RequestView::SendBlob { blob: encode_utf8(sdp_text(offer)) },
            )
            &&& offerer_link(seq![done, made, done, done]) == LinkView::Ask(
                RequestView::AwaitConnected { on },
            )
        }),
        offerer_link(h) is Ready <==> h.len() >= 5 && (h[0] matches ReplyView::Done(Ok(_))) && (
        h[1] matches ReplyView::Described(Ok(_))) && (h[2] matches ReplyView::Done(Ok(_))) && (
        h[3] matches ReplyView::Done(Ok(_))) && (h[4] matches ReplyView::Done(Ok(_))),
        offerer_link(h) is Ready ==> offerer_link(h) == LinkView::Ready(5),
{
}

/// The answerer sets the offer, answers it, sends its answer, awaits the connection and
/// looks for the channel: it is ready exactly once all of that went well and a channel is
/// there.
pub proof fn law_the_answerer_is_ready_with_the_channel(
    offer: DescriptionView,
    answer: DescriptionView,
    before: Seq<ReplyView>,
    h: Seq<ReplyView>,
    i: int,
)
    requires
        0 <= i < h.len(),
        before.len() > 0,
    ensures
        ({
            let on = Side::Answerer;
            let at = before.len() - 1;
            let done = ReplyView::Done(Ok(()));
            let made = ReplyView::Described(Ok(answer));
            &&& answer_link(before, offer, at) == LinkView::Ask(
                RequestView::SetRemote { on, description: offer },
            )
            &&& answer_link(before + seq![done], offer, at) == LinkView::Ask(
                RequestView::CreateAnswer { on },
            )
            &&& answer_link(before + seq![done, made], offer, at) == LinkView::Ask(
                RequestView::SetLocal { on, description: answer },
            )
            &&& answer_link(before + seq![done, made, done], offer, at) == LinkView::Ask(
                RequestView::SendBlob { blob: encode_utf8(sdp_text(answer)) },
            )
            &&& answer_link(before + seq![done, made, done, done], offer, at) == LinkView::Ask(
                RequestView::AwaitConnected { on },
            )
            &&& answer_link(before + seq![done, made, done, done, done], offer, at) == LinkView::Ask(
                RequestView::ReadIncoming { on },
            )
        }),
        answer_link(h, offer, i) is Ready <==> h.len() >= i + 7 && (h[i + 1] matches ReplyView::Done(
            Ok(_),
        )) && (h[i + 2] matches ReplyView::Described(Ok(_))) && (h[i + 3] matches ReplyView::Done(
            Ok(_),
        )) && (h[i + 4] matches ReplyView::Done(Ok(_))) && (h[i + 5] matches ReplyView::Done(Ok(_)))
            && (h[i + 6] matches ReplyView::Incoming(n) && n > 0),
        h.len() >= i + 7 && answer_link(h, offer, i) is Ready ==> answer_link(h, offer, i)
            == LinkView::Ready((i + 7) as nat),
{
}

/// Blobs are read until a description comes: a peer that has closed its side or fails to
/// send one leaves the answerer without an offer.
pub proof fn law_the_answerer_waits_for_an_offer(h: Seq<ReplyView>, error: ErrorView)
    ensures
        ({
            let i = h.len() as int;
            &&& answerer_link(h, i) == LinkView::Ask(RequestView::RecvBlob)
            &&& answerer_link(h.push(ReplyView::Blob(Ok(None))), i) == LinkView::Failed(
                ErrorView::Closed,
            )
            &&& answerer_link(h.push(ReplyView::Blob(Err(error))), i) == LinkView::Failed(error)
        }),
{
}

/// Every local candidate is forwarded as a blob of its own, in order, and the peer reads
/// it back as the candidate it was.
pub proof fn law_forwarded_candidates_are_read_back(batch: Seq<CandidateView>, k: int)
    requires
        0 <= k < batch.len(),
        !batch[k].candidate.contains('\n'),
        batch[k].sdp_mid matches Some(mid) ==> mid.len() > 0 && !mid.contains('\n'),
    ensures
        candidate_blobs(batch).len() == batch.len(),
        decoded(candidate_blobs(batch)[k]) == Some(SignalView::Ice(batch[k])),
{
    crate::signal::law_ice_round_trips(batch[k]);
}

/// An answerer whose peer opened no channel fails, and so does every step that does, with
/// the step's own error.
pub proof fn law_answerers_fail_by_their_step(
    offer: DescriptionView,
    answer: DescriptionView,
    before: Seq<ReplyView>,
    error: ErrorView,
)
    requires
        before.len() > 0,
    ensures
        ({
            let at = before.len() - 1;
            let done = ReplyView::Done(Ok(()));
            let made = ReplyView::Described(Ok(answer));
            let failed = ReplyView::Done(Err(error));
            &&& answer_link(
                before + seq![done, made, done, done, done, ReplyView::Incoming(0)],
                offer,
                at,
            ) == LinkView::Failed(ErrorView::Other("no data channel opened by the peer"@))
            &&& answer_link(before + seq![failed], offer, at) == LinkView::Failed(error)
            &&& answer_link(before + seq![done, ReplyView::Described(Err(error))], offer, at)
                == LinkView::Failed(error)
            &&& answer_link(before + seq![done, made, failed], offer, at) == LinkView::Failed(error)
            &&& answer_link(before + seq![done, made, done, failed], offer, at) == LinkView::Failed(
                error,
            )
            &&& answer_link(before + seq![done, made, done, done, failed], offer, at)
                == LinkView::Failed(error)
        }),
{
}

} // verus!
