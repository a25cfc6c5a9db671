//! The messages of the signalling protocol.

use vstd::prelude::*;

verus! {

/// A STUN or TURN endpoint offered to a client.
#[derive(Debug, Default, PartialEq, Eq)]
pub struct IceServer {
    pub url: String,
    pub username: String,
    pub password: String,
}

/// What an `IceServer` stands for in contracts.
pub struct IceServerView {
    pub url: Seq<char>,
    pub username: Seq<char>,
    pub password: Seq<char>,
}

impl View for IceServer {
    type V = IceServerView;

    open spec fn view(&self) -> IceServerView {
        IceServerView { url: self.url@, username: self.username@, password: self.password@ }
    }
}

impl Clone for IceServer {
    fn clone(&self) -> (copy: Self)
        ensures
            copy == *self,
    {
        IceServer {
            url: self.url.clone(),
            username: self.username.clone(),
            password: self.password.clone(),
        }
    }
}

/// The views of a list of ICE servers, in order.
pub open spec fn ice_server_views(servers: Seq<IceServer>) -> Seq<IceServerView> {
    servers.map_values(|s: IceServer| s@)
}

/// Every message that a client or the server may put on the wire.
#[derive(Debug, PartialEq, Eq)]
pub enum SignallerMessage {
    Offer { from: String, to: String },
    Answer { from: String, to: String },
    Ice { from: String, to: String },
    Join { from: String, room: String },
    JoinDeclined { to: String, reason: String },
    Start {},
    StartResponse { room: String },
    Leave { from: String },
    RoomClosed { to: String, room: String },
    KeepAlive {},
    IceServers {},
    IceServersResponse { ice_servers: Vec<IceServer> },
}

/// What a `SignallerMessage` stands for in contracts.
pub enum MessageView {
    Offer { from: Seq<char>, to: Seq<char> },
    Answer { from: Seq<char>, to: Seq<char> },
    Ice { from: Seq<char>, to: Seq<char> },
    Join { from: Seq<char>, room: Seq<char> },
    JoinDeclined { to: Seq<char>, reason: Seq<char> },
    Start,
    StartResponse { room: Seq<char> },
    Leave { from: Seq<char> },
    RoomClosed { to: Seq<char>, room: Seq<char> },
    KeepAlive,
    IceServers,
    IceServersResponse { ice_servers: Seq<IceServerView> },
}

impl View for SignallerMessage {
    type V = MessageView;

    open spec fn view(&self) -> MessageView {
        match *self {
            SignallerMessage::Offer { from, to } => MessageView::Offer { from: from@, to: to@ },
            SignallerMessage::Answer { from, to } => MessageView::Answer { from: from@, to: to@ },
            SignallerMessage::Ice { from, to } => MessageView::Ice { from: from@, to: to@ },
            SignallerMessage::Join { from, room } => MessageView::Join { from: from@, room: room@ },
            SignallerMessage::JoinDeclined { to, reason } => MessageView::JoinDeclined {
                to: to@,
                reason: reason@,
            },
            SignallerMessage::Start {  } => MessageView::Start,
            SignallerMessage::StartResponse { room } => MessageView::StartResponse { room: room@ },
            SignallerMessage::Leave { from } => MessageView::Leave { from: from@ },
            SignallerMessage::RoomClosed { to, room } => MessageView::RoomClosed {
                to: to@,
                room: room@,
            },
            SignallerMessage::KeepAlive {  } => MessageView::KeepAlive,
            SignallerMessage::IceServers {  } => MessageView::IceServers,
            SignallerMessage::IceServersResponse { ice_servers } => MessageView::IceServersResponse {
                ice_servers: ice_server_views(ice_servers@),
            },
        }
    }
}

} // verus!
