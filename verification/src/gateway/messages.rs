//! Messages in and out of the gateway, and which of them become turns of the
//! agent.

use crate::text;
use vstd::prelude::*;
use vstd::string::*;

verus! {

/// Where a message comes from or goes to.
pub enum ChannelType {
    Cli,
    Telegram,
    Discord,
    Slack,
    Feishu,
    Wechat,
    WebSocket,
    Custom(String),
}

/// The view of a [`ChannelType`].
pub enum ChannelView {
    Cli,
    Telegram,
    Discord,
    Slack,
    Feishu,
    Wechat,
    WebSocket,
    Custom(Seq<char>),
}

impl View for ChannelType {
    type V = ChannelView;

    open spec fn view(&self) -> ChannelView {
        match self {
            ChannelType::Cli => ChannelView::Cli,
            ChannelType::Telegram => ChannelView::Telegram,
            ChannelType::Discord => ChannelView::Discord,
            ChannelType::Slack => ChannelView::Slack,
            ChannelType::Feishu => ChannelView::Feishu,
            ChannelType::Wechat => ChannelView::Wechat,
            ChannelType::WebSocket => ChannelView::WebSocket,
            ChannelType::Custom(name) => ChannelView::Custom(name@),
        }
    }
}

impl ChannelType {
    /// The same channel.
    pub fn copy(&self) -> (out: ChannelType)
        ensures
            out@ == self@,
    {
        match self {
            ChannelType::Cli => ChannelType::Cli,
            ChannelType::Telegram => ChannelType::Telegram,
            ChannelType::Discord => ChannelType::Discord,
            ChannelType::Slack => ChannelType::Slack,
            ChannelType::Feishu => ChannelType::Feishu,
            ChannelType::Wechat => ChannelType::Wechat,
            ChannelType::WebSocket => ChannelType::WebSocket,
            ChannelType::Custom(name) => ChannelType::Custom(text::copy_str(name.as_str())),
        }
    }
}

/// A message to the agent.
pub struct InboundMessage {
    pub channel: ChannelType,
    pub sender_id: String,
    pub chat_id: String,
    pub content: String,
}

/// The view of an [`InboundMessage`].
pub struct InboundView {
    pub channel: ChannelView,
    pub sender_id: Seq<char>,
    pub chat_id: Seq<char>,
    pub content: Seq<char>,
}

impl View for InboundMessage {
    type V = InboundView;

    open spec fn view(&self) -> InboundView {
        InboundView {
            channel: self.channel@,
            sender_id: self.sender_id@,
            chat_id: self.chat_id@,
            content: self.content@,
        }
    }
}

/// A message to one chat of a channel, or to all of its clients.
pub struct OutboundMessage {
    pub channel: ChannelType,
    /// The chat; none is a broadcast.
    pub chat_id: Option<String>,
    pub content: String,
}

/// The view of an [`OutboundMessage`].
pub struct OutboundView {
    pub channel: ChannelView,
    pub chat_id: Option<Seq<char>>,
    pub content: Seq<char>,
}

impl View for OutboundMessage {
    type V = OutboundView;

    open spec fn view(&self) -> OutboundView {
        OutboundView {
            channel: self.channel@,
            chat_id: text::opt_view(self.chat_id),
            content: self.content@,
        }
    }
}

impl OutboundMessage {
    /// A message to one chat.
    pub fn new(channel: ChannelType, chat_id: String, content: String) -> (out: Self)
        ensures
            out@ == (OutboundView {
                channel: channel@,
                chat_id: Some(chat_id@),
                content: content@,
            }),
    {
        OutboundMessage { channel, chat_id: Some(chat_id), content }
    }

    /// A message to all clients of a channel.
    pub fn broadcast(channel: ChannelType, content: String) -> (out: Self)
        ensures
            out@ == (OutboundView { channel: channel@, chat_id: None, content: content@ }),
    {
        OutboundMessage { channel, chat_id: None, content }
    }
}

/// Whether a message must be sent before the next one is taken up. A WebSocket
/// carries a stream, whose pieces have to arrive in order; on other channels
/// messages may overtake each other.
pub fn sends_in_order(msg: &OutboundMessage) -> (r: bool)
    ensures
        r == (msg@.channel == ChannelView::WebSocket),
{
    match msg.channel {
        ChannelType::WebSocket => true,
        _ => false,
    }
}

// ── slash commands ──────────────────────────────────────────────────────

/// What the dispatcher of slash commands makes of a message.
pub enum RouteOutcome {
    /// A command that prints a text.
    Print(String),
    /// A command that failed, with the error in words.
    Error(String),
    /// A command that ends the session.
    Quit,
    /// A command that stands for a prompt.
    Rewrite { prompt: String },
    /// No command.
    Passthrough(String),
}

/// What to do with a message.
pub enum InboundAction {
    /// Answer at once.
    Reply(OutboundMessage),
    /// Nothing.
    Ignore,
    /// Let the agent take it.
    Turn(InboundMessage),
}

/// The view of an [`InboundAction`].
pub enum InboundActionView {
    Reply(OutboundView),
    Ignore,
    Turn(InboundView),
}

impl View for InboundAction {
    type V = InboundActionView;

    open spec fn view(&self) -> InboundActionView {
        match self {
            InboundAction::Reply(m) => InboundActionView::Reply(m@),
            InboundAction::Ignore => InboundActionView::Ignore,
            InboundAction::Turn(m) => InboundActionView::Turn(m@),
        }
    }
}

/// What to do with a message, given what the dispatcher makes of it. What a
/// command prints goes back to the chat that it came from; a prompt takes the
/// place of the message's text.
pub open spec fn routed(msg: InboundView, outcome: RouteOutcome) -> InboundActionView {
    match outcome {
        RouteOutcome::Print(t) | RouteOutcome::Error(t) => InboundActionView::Reply(
            OutboundView { channel: msg.channel, chat_id: Some(msg.chat_id), content: t@ },
        ),
        RouteOutcome::Quit => InboundActionView::Ignore,
        RouteOutcome::Rewrite { prompt } => InboundActionView::Turn(
            InboundView { content: prompt@, ..msg },
        ),
        RouteOutcome::Passthrough(t) => InboundActionView::Turn(
            InboundView { content: t@, ..msg },
        ),
    }
}

/// Decides what to do with a message.
pub fn route(msg: InboundMessage, outcome: RouteOutcome) -> (r: InboundAction)
    ensures
        r@ == routed(msg@, outcome),
{
    match outcome {
        RouteOutcome::Print(t) => InboundAction::Reply(
            OutboundMessage::new(msg.channel, msg.chat_id, t),
        ),
        RouteOutcome::Error(t) => InboundAction::Reply(
            OutboundMessage::new(msg.channel, msg.chat_id, t),
        ),
        RouteOutcome::Quit => InboundAction::Ignore,
        RouteOutcome::Rewrite { prompt } => InboundAction::Turn(
            InboundMessage {
                channel: msg.channel,
                sender_id: msg.sender_id,
                chat_id: msg.chat_id,
                content: prompt,
            },
        ),
        RouteOutcome::Passthrough(t) => InboundAction::Turn(
            InboundMessage {
                channel: msg.channel,
                sender_id: msg.sender_id,
                chat_id: msg.chat_id,
                content: t,
            },
        ),
    }
}

/// Whatever a command does, the answer goes to the chat that asked, and a turn
/// keeps its sender.
pub proof fn law_answers_go_back(msg: InboundView, outcome: RouteOutcome)
    ensures
        match routed(msg, outcome) {
            InboundActionView::Reply(m) => m.channel == msg.channel && m.chat_id == Some(
                msg.chat_id,
            ),
            InboundActionView::Turn(m) => m.channel == msg.channel && m.chat_id == msg.chat_id
                && m.sender_id == msg.sender_id,
            InboundActionView::Ignore => outcome is Quit,
        },
{
}

/// What is sent after a turn of the agent that failed: the error, to the chat
/// that asked. After any other turn everything has been sent already.
pub fn dispatch_agent_turn(msg: InboundMessage, failure: Option<String>) -> (r: Option<
    OutboundMessage,
>)
    ensures
        match failure {
            Some(e) => r matches Some(m) && m@ == (OutboundView {
                channel: msg@.channel,
                chat_id: Some(msg@.chat_id),
                content: "Error: "@ + e@,
            }),
            None => r is None,
        },
{
    match failure {
        Some(e) => Some(
            OutboundMessage::new(msg.channel, msg.chat_id, text::cat2("Error: ", e.as_str())),
        ),
        None => None,
    }
}

/// One message that the host of commands sends, unless there is no way out.
pub fn command_message(
    channel_open: bool,
    channel: ChannelType,
    chat_id: &str,
    content: &str,
) -> (r: Result<OutboundMessage, String>)
    ensures
        if channel_open {
            r matches Ok(m) && m@ == (OutboundView {
                channel: channel@,
                chat_id: Some(chat_id@),
                content: content@,
            })
        } else {
            r matches Err(e) && e@ == "Outbound channel not available"@
        },
{
    if channel_open {
        Ok(OutboundMessage::new(channel, text::copy_str(chat_id), text::copy_str(content)))
    } else {
        Err(text::copy_str("Outbound channel not available"))
    }
}

/// What the host of commands reports of sending, given the cause of a failure.
pub fn send_message(sent: Result<(), String>) -> (r: Result<(), String>)
    ensures
        match sent {
            Ok(()) => r is Ok,
            Err(e) => r matches Err(w) && w@ == "Outbound send failed: "@ + e@,
        },
{
    match sent {
        Ok(()) => Ok(()),
        Err(e) => Err(text::cat2("Outbound send failed: ", e.as_str())),
    }
}

/// What a command prints, its error included, is answered as it is; a prompt that
/// a command stands for, and a text that is no command, are what the agent gets;
/// and a command that ends the session gets nothing.
pub proof fn law_routing_keeps_the_text(msg: InboundMessage, outcome: RouteOutcome, r: InboundAction)
    requires
        call_ensures(route, (msg, outcome), r),
    ensures
        match outcome {
            RouteOutcome::Print(t) => r matches InboundAction::Reply(m) && m.content@ == t@
                && m.channel@ == msg.channel@ && text::opt_view(m.chat_id) == Some(msg.chat_id@),
            RouteOutcome::Error(t) => r matches InboundAction::Reply(m) && m.content@ == t@
                && m.channel@ == msg.channel@ && text::opt_view(m.chat_id) == Some(msg.chat_id@),
            RouteOutcome::Quit => r is Ignore,
            RouteOutcome::Rewrite { prompt } => r matches InboundAction::Turn(m) && m.content@
                == prompt@ && m.channel@ == msg.channel@ && m.chat_id@ == msg.chat_id@
                && m.sender_id@ == msg.sender_id@,
            RouteOutcome::Passthrough(t) => r matches InboundAction::Turn(m) && m.content@ == t@
                && m.channel@ == msg.channel@ && m.chat_id@ == msg.chat_id@ && m.sender_id@
                == msg.sender_id@,
        },
{
}

/// The chat that asked is told that a turn has failed and why; after any other
/// turn nothing more is sent.
pub proof fn law_failed_turn_is_told(
    msg: InboundMessage,
    failure: Option<String>,
    r: Option<OutboundMessage>,
)
    requires
        call_ensures(dispatch_agent_turn, (msg, failure), r),
    ensures
        r is Some <==> failure is Some,
        r matches Some(m) ==> m.channel@ == msg.channel@ && text::opt_view(m.chat_id) == Some(
            msg.chat_id@,
        ) && m.content@ == "Error: "@ + failure->0@,
{
}

/// A message to a chat goes to that chat, and a broadcast to none in particular;
/// either keeps its channel and its text.
pub proof fn law_messages_are_addressed(
    channel: ChannelType,
    chat_id: String,
    content: String,
    one: OutboundMessage,
    all: OutboundMessage,
)
    requires
        call_ensures(OutboundMessage::new, (channel, chat_id, content), one),
        call_ensures(OutboundMessage::broadcast, (channel, content), all),
    ensures
        one.channel@ == channel@,
        all.channel@ == channel@,
        text::opt_view(one.chat_id) == Some(chat_id@),
        all.chat_id is None,
        one.content@ == content@,
        all.content@ == content@,
{
    assert(all@.chat_id == text::opt_view(all.chat_id));
}

/// Only what goes over a WebSocket has to keep its order.
pub proof fn law_only_streams_keep_their_order(msg: &OutboundMessage, r: bool)
    requires
        call_ensures(sends_in_order, (msg,), r),
    ensures
        r <==> msg.channel is WebSocket,
{
}

/// A command's message goes to the chat that it names, where there is a way out,
/// and is an error where there is none.
pub proof fn law_command_message_is_addressed(
    open: bool,
    channel: ChannelType,
    chat_id: &str,
    content: &str,
    r: Result<OutboundMessage, String>,
)
    requires
        call_ensures(command_message, (open, channel, chat_id, content), r),
    ensures
        r is Ok <==> open,
        r matches Ok(m) ==> m.channel@ == channel@ && text::opt_view(m.chat_id) == Some(chat_id@)
            && m.content@ == content@,
        r matches Err(e) ==> e@ == "Outbound channel not available"@,
{
}

/// Sending succeeds where the message was sent, and otherwise fails with the
/// cause.
pub proof fn law_sending_is_reported(sent: Result<(), String>, r: Result<(), String>)
    requires
        call_ensures(send_message, (sent,), r),
    ensures
        r is Ok <==> sent is Ok,
        sent matches Err(e) ==> r->Err_0@ == "Outbound send failed: "@ + e@,
{
}

/// A copy of a channel is that channel.
pub proof fn law_channel_copy_is_the_channel(c: &ChannelType, out: ChannelType)
    requires
        call_ensures(ChannelType::copy, (c,), out),
    ensures
        c is Cli <==> out is Cli,
        c is Telegram <==> out is Telegram,
        c is Discord <==> out is Discord,
        c is Slack <==> out is Slack,
        c is Feishu <==> out is Feishu,
        c is Wechat <==> out is Wechat,
        c is WebSocket <==> out is WebSocket,
        *c matches ChannelType::Custom(name) ==> (out matches ChannelType::Custom(other) && other@
            == name@),
{
}

} // verus!
