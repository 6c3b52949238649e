//! What a sans-I/O peer core reports to the driver that runs it.

use vstd::prelude::*;

verus! {

/// A change in a peer, drained from its core.
#[derive(Debug, Clone)]
pub enum PeerEvent {
    /// The connection reached `connected`.
    Connected,
    /// The connection failed.
    Failed,
    /// The connection closed.
    Closed,
    /// A data channel opened.
    ChannelOpen { id: u16, label: String },
    /// A data channel closed.
    ChannelClosed { id: u16 },
    /// A message arrived on a data channel.
    Message { id: u16, text: bool, data: Vec<u8> },
}

/// The contents of a [`PeerEvent`].
#[verifier::ext_equal]
pub enum EventView {
    Connected,
    Failed,
    Closed,
    ChannelOpen { id: u16, label: Seq<char> },
    ChannelClosed { id: u16 },
    Message { id: u16, text: bool, data: Seq<u8> },
}

impl View for PeerEvent {
    type V = EventView;

    open spec fn view(&self) -> EventView {
        match self {
            PeerEvent::Connected => EventView::Connected,
            PeerEvent::Failed => EventView::Failed,
            PeerEvent::Closed => EventView::Closed,
            PeerEvent::ChannelOpen { id, label } => EventView::ChannelOpen {
                id: *id,
                label: label@,
            },
            PeerEvent::ChannelClosed { id } => EventView::ChannelClosed { id: *id },
            PeerEvent::Message { id, text, data } => EventView::Message {
                id: *id,
                text: *text,
                data: data@,
            },
        }
    }
}

/// The contents of a list of events.
pub open spec fn events_view(events: Seq<PeerEvent>) -> Seq<EventView> {
    events.map_values(|e: PeerEvent| e@)
}

/// A received data-channel message, queued for the owner of its channel.
#[derive(Debug, Clone)]
pub struct InboundMessage {
    /// Whether the payload was sent as text (UTF-8) rather than binary.
    pub text: bool,
    /// The message payload.
    pub data: Vec<u8>,
}

/// The contents of an [`InboundMessage`].
#[verifier::ext_equal]
pub struct MessageView {
    pub text: bool,
    pub data: Seq<u8>,
}

impl View for InboundMessage {
    type V = MessageView;

    open spec fn view(&self) -> MessageView {
        MessageView { text: self.text, data: self.data@ }
    }
}

/// The contents of a list of messages.
pub open spec fn messages_view(messages: Seq<InboundMessage>) -> Seq<MessageView> {
    messages.map_values(|m: InboundMessage| m@)
}

} // verus!
