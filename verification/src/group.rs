//! A named chat group that broadcasts posted messages to its subscribers,
//! and the decisions of a subscriber that forwards them to one client.

use std::sync::Arc;
use tokio::sync::broadcast::{Receiver, Sender};
use vstd::prelude::*;
use crate::protocol::{FromServer, ServerMsg};
use crate::text::{decimal, decimal_string};

verus! {

#[verifier::external_type_specification]
#[verifier::external_body]
#[verifier::reject_recursive_types(T)]
pub struct ExSender<T>(Sender<T>);

#[verifier::external_type_specification]
#[verifier::external_body]
#[verifier::reject_recursive_types(T)]
pub struct ExReceiver<T>(Receiver<T>);

/// A packet sent over a group's broadcast channel.
#[derive(Clone, Debug)]
pub enum BroadcastPacket {
    Message { message: Arc<String> },
}

/// How many packets a group's channel holds for a slow subscriber.
pub const CHANNEL_CAPACITY: usize = 1000;

/// The text a packet carries.
pub open spec fn packet_text(p: BroadcastPacket) -> Seq<char> {
    match p {
        BroadcastPacket::Message { message } => message@,
    }
}

/// The messages handed to the channel through the sender `s`, oldest first.
/// A group keeps the one sender of its channel and never clones it, so these
/// are all the messages handed to that channel.
pub uninterp spec fn sent_messages(s: Sender<BroadcastPacket>) -> Seq<Seq<char>>;

/// The messages that had been handed to the channel of `r` when `r`
/// subscribed: `r` reads only those handed to it later.
pub uninterp spec fn skipped_messages(r: Receiver<BroadcastPacket>) -> Seq<Seq<char>>;

/// Opens a broadcast channel and keeps its sending half
/// (`tokio::sync::broadcast::channel`); the receiving half that the call also
/// makes is dropped. Claimed: nothing has been sent through the new sender.
#[verifier::external_body]
fn open_channel(capacity: usize) -> (s: Sender<BroadcastPacket>)
    requires
        0 < capacity <= usize::MAX / 2,
    ensures
        sent_messages(s) == Seq::<Seq<char>>::empty(),
{
    tokio::sync::broadcast::channel(capacity).0
}

/// Hands a packet to the channel (`tokio::sync::broadcast::Sender::send`),
/// which queues it for every current subscriber; with none, tokio drops it and
/// returns an error, which is ignored. Claimed: the packet's message is the
/// latest one handed to the channel through `s`. What each subscriber then
/// reads (in order, unless it lags more than the channel's capacity behind)
/// happens in the receiver's `recv`, which the library does not call, and is
/// not stated.
#[verifier::external_body]
fn channel_send(s: &mut Sender<BroadcastPacket>, packet: BroadcastPacket)
    ensures
        sent_messages(*final(s)) == sent_messages(*old(s)).push(packet_text(packet)),
{
    let _ = s.send(packet);
}

/// A new subscriber of the channel (`tokio::sync::broadcast::Sender::subscribe`),
/// which reads the packets handed to the channel after this call. Claimed: the
/// messages it skips are exactly those handed to the channel through `s` so
/// far. tokio panics once the number of live receivers reaches
/// `usize::MAX >> 2`, a count that this library cannot observe and so does not
/// state.
#[verifier::external_body]
fn channel_subscribe(s: &Sender<BroadcastPacket>) -> (r: Receiver<BroadcastPacket>)
    ensures
        skipped_messages(r) == sent_messages(*s),
{
    s.subscribe()
}

/// A named group that broadcasts messages to all connected subscribers.
pub struct Group {
    name: String,
    password: Option<String>,
    sender: Sender<BroadcastPacket>,
}

/// A group as text values: its name and its optional password.
pub struct GroupInfo {
    pub name: Seq<char>,
    pub password: Option<Seq<char>>,
}

/// The text of an optional string.
pub open spec fn opt_string_text(o: Option<String>) -> Option<Seq<char>> {
    match o {
        Some(s) => Some(s@),
        None => None,
    }
}

impl View for Group {
    type V = GroupInfo;

    closed spec fn view(&self) -> GroupInfo {
        GroupInfo { name: self.name@, password: opt_string_text(self.password) }
    }
}

impl Group {
    /// The messages posted to the group so far, oldest first.
    pub closed spec fn posted(&self) -> Seq<Seq<char>> {
        sent_messages(self.sender)
    }

    /// Creates a group with the given name and optional password, with a
    /// broadcast channel of `CHANNEL_CAPACITY` packets.
    pub fn new(name: Arc<String>, password: Option<Arc<String>>) -> (g: Group)
        ensures
            g@.name == name@,
            g@.password == crate::protocol::opt_text(password),
            g.posted() == Seq::<Seq<char>>::empty(),
    {
        let pw = match password {
            Some(p) => Some((*p).clone()),
            None => None,
        };
        Group { name: (*name).clone(), password: pw, sender: open_channel(CHANNEL_CAPACITY) }
    }

    /// The group's name.
    pub fn name(&self) -> (n: &String)
        ensures
            n@ == self@.name,
    {
        &self.name
    }

    /// The group's password, if it has one.
    pub fn password(&self) -> (p: Option<&String>)
        ensures
            match p {
                Some(s) => self@.password == Some(s@),
                None => self@.password is None,
            },
    {
        match &self.password {
            Some(s) => Some(s),
            None => None,
        }
    }

    /// A new subscription to the group's channel: the returned receiver
    /// skips the messages posted so far and reads those posted after this
    /// call.
    pub fn join(&self) -> (r: Receiver<BroadcastPacket>)
        ensures
            skipped_messages(r) == self.posted(),
    {
        channel_subscribe(&self.sender)
    }

    /// Posts a message to the group: it is handed to the group's channel,
    /// after the messages posted before, for every subscriber.
    pub fn post(&mut self, message: Arc<String>)
        ensures
            final(self)@ == old(self)@,
            final(self).posted() == old(self).posted().push(message@),
    {
        channel_send(&mut self.sender, BroadcastPacket::Message { message });
    }
}

/// What a subscriber's receiver reported.
pub enum SubscriberEvent {
    /// The next packet of the group.
    Packet(BroadcastPacket),
    /// The subscriber fell behind and this many packets were skipped.
    Lagged(u64),
    /// The group's channel was closed.
    Closed,
}

/// What the subscriber does next.
pub enum SubscriberAction {
    /// Send this message to the client.
    Deliver(FromServer),
    /// Stop forwarding.
    Stop,
}

/// The notice sent to a client that missed `n` messages.
pub open spec fn lag_notice(n: u64) -> Seq<char> {
    "You were lagging behind and missed "@ + decimal(n as nat) + " messages"@
}

/// What a subscriber of `group_name` does on `event`, as text values:
/// `None` is stopping.
pub open spec fn subscriber_spec(group_name: Seq<char>, event: SubscriberEvent) -> Option<ServerMsg> {
    match event {
        SubscriberEvent::Packet(BroadcastPacket::Message { message }) => Some(
            ServerMsg::Message { group_name, message: message@ },
        ),
        SubscriberEvent::Lagged(n) => Some(ServerMsg::Error(lag_notice(n))),
        SubscriberEvent::Closed => None,
    }
}

/// Decides what the subscriber of a group does when its receiver reports `event`.
pub fn subscriber_step(group_name: &String, event: SubscriberEvent) -> (a: SubscriberAction)
    ensures
        match (a, subscriber_spec(group_name@, event)) {
            (SubscriberAction::Deliver(m), Some(v)) => m@ == v,
            (SubscriberAction::Stop, None) => true,
            _ => false,
        },
{
    match event {
        SubscriberEvent::Packet(BroadcastPacket::Message { message }) => {
            SubscriberAction::Deliver(
                FromServer::Message { group_name: Arc::new(group_name.clone()), message },
            )
        },
        SubscriberEvent::Lagged(n) => {
            let mut t = String::from_str("You were lagging behind and missed ");
            let d = decimal_string(n);
            t.append(d.as_str());
            t.append(" messages");
            SubscriberAction::Deliver(FromServer::Error(t))
        },
        SubscriberEvent::Closed => SubscriberAction::Stop,
    }
}

} // verus!
