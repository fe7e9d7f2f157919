use crate::client::PeerAddr;
use crate::packet::{FMPacket, PacketView};
use serde_json::Value;
use std::collections::HashMap;
use vstd::prelude::*;

verus! {

/// A parsed JSON value of `serde_json`, carried through as it is.
#[verifier::external_type_specification]
#[verifier::external_body]
pub struct ExJsonValue(serde_json::Value);

/// A client that came or went: exactly one of the two is set.
#[derive(Debug)]
pub struct ClientChangedDetail {
    pub add: Option<PeerAddr>,
    pub remove: Option<PeerAddr>,
}

/// A completed image and the client it came from.
#[derive(Debug)]
pub struct JpegDecodedDetail {
    pub addr: PeerAddr,
    pub data: Vec<u8>,
}

/// A play history: the player it belongs to and its fields.
#[derive(Debug)]
pub struct HistoryDetail {
    pub player_id: String,
    pub map: HashMap<String, Value>,
}

/// What the engine tells its subscribers.
#[derive(Debug)]
pub enum FMAction {
    ClientChanged(ClientChangedDetail),
    JpegDecoded(JpegDecodedDetail),
    PacketReceived { addr: PeerAddr, packet: FMPacket },
    HistoryReceived(HistoryDetail),
}

/// An event as plain values. Of a play history it keeps the player.
pub enum ActionView {
    ClientChanged { add: Option<PeerAddr>, remove: Option<PeerAddr> },
    JpegDecoded { addr: PeerAddr, data: Seq<u8> },
    PacketReceived { addr: PeerAddr, packet: PacketView },
    HistoryReceived { player_id: Seq<char> },
}

impl View for FMAction {
    type V = ActionView;

    open spec fn view(&self) -> ActionView {
        match self {
            FMAction::ClientChanged(d) => ActionView::ClientChanged { add: d.add, remove: d.remove },
            FMAction::JpegDecoded(d) => ActionView::JpegDecoded { addr: d.addr, data: d.data@ },
            FMAction::PacketReceived { addr, packet } => ActionView::PacketReceived {
                addr: *addr,
                packet: packet@,
            },
            FMAction::HistoryReceived(d) => ActionView::HistoryReceived { player_id: d.player_id@ },
        }
    }
}

/// The event that a client was first heard.
pub open spec fn client_added(addr: PeerAddr) -> ActionView {
    ActionView::ClientChanged { add: Some(addr), remove: None }
}

/// The event that a client fell silent.
pub open spec fn client_removed(addr: PeerAddr) -> ActionView {
    ActionView::ClientChanged { add: None, remove: Some(addr) }
}

impl ClientChangedDetail {
    fn new(add: Option<PeerAddr>, remove: Option<PeerAddr>) -> (r: Self)
        ensures
            r.add == add,
            r.remove == remove,
    {
        ClientChangedDetail { add, remove }
    }

    /// A client was first heard.
    pub fn added(addr: PeerAddr) -> (r: Self)
        ensures
            r.add == Some(addr),
            r.remove is None,
    {
        Self::new(Some(addr), None)
    }

    /// A client fell silent.
    pub fn removed(addr: PeerAddr) -> (r: Self)
        ensures
            r.add is None,
            r.remove == Some(addr),
    {
        Self::new(None, Some(addr))
    }
}

impl JpegDecodedDetail {
    /// An image of the client at `addr`.
    pub fn new(addr: PeerAddr, data: Vec<u8>) -> (r: Self)
        ensures
            r.addr == addr,
            r.data == data,
    {
        JpegDecodedDetail { addr, data }
    }
}

impl HistoryDetail {
    /// A play history of the player `player_id`.
    pub fn new(player_id: String, map: HashMap<String, Value>) -> (r: Self)
        ensures
            r.player_id == player_id,
            r.map == map,
    {
        HistoryDetail { player_id, map }
    }
}

} // verus!
