use crate::action::{
    client_added, client_removed, ActionView, ClientChangedDetail, FMAction, HistoryDetail,
    JpegDecodedDetail,
};
use crate::client::{retained, stale_keys, ClientRegistry, PeerAddr, LIVENESS_TIMEOUT_MS};
use crate::decoders::{state_for, DecoderMap};
use crate::history::{history_detail, is_json_object};
use crate::jpeg_decoder::{after, outcome, Outcome, ReassemblyState};
use crate::packet::{decoded, encoded, FMPacket, PacketView};
use vstd::prelude::*;

verus! {

/// The port the engine listens on.
pub const FM_SERVER_PORT: u16 = 3333;

/// The port every client listens on; each datagram sent goes there.
pub const FM_CLIENT_PORT: u16 = 3334;

/// What the engine asks of the code that owns the socket and the
/// subscribers, in the order in which it is to be done.
#[derive(Debug)]
pub enum Effect {
    /// Send these bytes to this address.
    Send { addr: PeerAddr, bytes: Vec<u8> },
    /// Hand this event to every subscriber.
    Emit(FMAction),
}

/// An effect as plain values.
pub enum EffectView {
    Send { addr: PeerAddr, bytes: Seq<u8> },
    Emit(ActionView),
}

impl View for Effect {
    type V = EffectView;

    open spec fn view(&self) -> EffectView {
        match self {
            Effect::Send { addr, bytes } => EffectView::Send { addr: *addr, bytes: bytes@ },
            Effect::Emit(action) => EffectView::Emit(action@),
        }
    }
}

/// The effects of a list, as plain values.
pub open spec fn views(effects: Seq<Effect>) -> Seq<EffectView> {
    effects.map_values(|e: Effect| e@)
}

/// Where a datagram for the client at `addr` is sent: the same host, on
/// the port that clients listen on.
pub open spec fn destination(addr: PeerAddr) -> PeerAddr {
    PeerAddr { ip: addr.ip, port: FM_CLIENT_PORT }
}

/// The heartbeat that answers every datagram.
pub open spec fn reply_to(addr: PeerAddr) -> EffectView {
    EffectView::Send { addr: destination(addr), bytes: seq![1u8] }
}

/// What follows from the kind of packet: a completed image, a play
/// history that was read, or nothing.
pub open spec fn packet_effects(
    decoders: Map<PeerAddr, ReassemblyState>,
    addr: PeerAddr,
    packet: PacketView,
    history: Option<Seq<char>>,
) -> Seq<EffectView> {
    match packet {
        PacketView::JPEGPacket { header, data } => match outcome(
            state_for(decoders, addr, header),
            header,
            data,
        ) {
            Outcome::Complete(bytes) => seq![
                EffectView::Emit(ActionView::JpegDecoded { addr, data: bytes }),
            ],
            _ => Seq::empty(),
        },
        PacketView::PlayHistoryPacket { json } => match history {
            Some(player_id) => seq![EffectView::Emit(ActionView::HistoryReceived { player_id })],
            None => Seq::empty(),
        },
        _ => Seq::empty(),
    }
}

/// Everything a datagram leads to while the engine runs: the news of a
/// client heard for the first time, the heartbeat in reply, the packet
/// itself, and what follows from its kind.
pub open spec fn reactions(
    clients: Map<PeerAddr, u64>,
    decoders: Map<PeerAddr, ReassemblyState>,
    addr: PeerAddr,
    packet: PacketView,
    history: Option<Seq<char>>,
) -> Seq<EffectView> {
    let greeting = if clients.contains_key(addr) {
        Seq::<EffectView>::empty()
    } else {
        seq![EffectView::Emit(client_added(addr))]
    };
    greeting + seq![
        reply_to(addr),
        EffectView::Emit(ActionView::PacketReceived { addr, packet }),
    ] + packet_effects(decoders, addr, packet, history)
}

/// The reassemblers after a packet from `addr`.
pub open spec fn decoders_after(
    decoders: Map<PeerAddr, ReassemblyState>,
    addr: PeerAddr,
    packet: PacketView,
) -> Map<PeerAddr, ReassemblyState> {
    match packet {
        PacketView::JPEGPacket { header, data } => decoders.insert(
            addr,
            after(state_for(decoders, addr, header), header, data),
        ),
        _ => decoders,
    }
}

/// The player of the play history that a list of effects ends with.
pub open spec fn announced(effects: Seq<EffectView>) -> Option<Seq<char>> {
    if effects.len() > 0 {
        match effects.last() {
            EffectView::Emit(ActionView::HistoryReceived { player_id }) => Some(player_id),
            _ => None,
        }
    } else {
        None
    }
}

/// The player of a play history, if there is one.
pub open spec fn player_of(history: Option<HistoryDetail>) -> Option<Seq<char>> {
    match history {
        Some(h) => Some(h.player_id@),
        None => None,
    }
}

/// The events that these clients fell silent, in this order.
pub open spec fn removals(addrs: Seq<PeerAddr>) -> Seq<EffectView> {
    addrs.map_values(|a: PeerAddr| EffectView::Emit(client_removed(a)))
}

/// The clients that a list of removal events names, in order.
pub open spec fn evicted(effects: Seq<EffectView>) -> Seq<PeerAddr> {
    effects.map_values(
        |e: EffectView|
            match e {
                EffectView::Emit(ActionView::ClientChanged { add: _, remove: Some(a) }) => a,
                _ => PeerAddr { ip: 0, port: 0 },
            },
    )
}

/// The engine's state: whether it runs, who is alive, and what each
/// client's reassembler holds.
pub struct SocketHandler {
    running: bool,
    clients: ClientRegistry,
    decoders: DecoderMap,
}

impl SocketHandler {
    /// Whether the engine runs.
    pub closed spec fn running(&self) -> bool {
        self.running
    }

    /// The clients that are alive, each with the time last heard.
    pub closed spec fn clients(&self) -> Map<PeerAddr, u64> {
        self.clients@
    }

    /// What each client's reassembler holds.
    pub closed spec fn decoders(&self) -> Map<PeerAddr, ReassemblyState> {
        self.decoders@
    }

    /// The parts are well-formed, and a stopped engine holds nothing.
    pub closed spec fn wf(&self) -> bool {
        &&& self.clients.wf()
        &&& self.decoders.wf()
        &&& !self.running ==> self.clients@ == Map::<PeerAddr, u64>::empty() && self.decoders@
            == Map::<PeerAddr, ReassemblyState>::empty()
    }

    /// A stopped engine.
    pub fn new() -> (r: Self)
        ensures
            r.wf(),
            !r.running(),
            r.clients() == Map::<PeerAddr, u64>::empty(),
            r.decoders() == Map::<PeerAddr, ReassemblyState>::empty(),
    {
        SocketHandler { running: false, clients: ClientRegistry::new(), decoders: DecoderMap::new() }
    }

    /// Whether the engine runs.
    pub fn is_running(&self) -> (r: bool)
        ensures
            r == self.running(),
    {
        self.running
    }

    /// Whether the client at `addr` counts as alive.
    pub fn is_client(&self, addr: PeerAddr) -> (r: bool)
        requires
            self.wf(),
        ensures
            r == self.clients().contains_key(addr),
    {
        self.clients.last_heartbeat(addr).is_some()
    }

    /// Starts the engine, given whether the port could be bound. Returns
    /// whether it started: not where it runs already, and not where the
    /// port could not be bound, which leaves it stopped.
    pub fn run(&mut self, bound: bool) -> (started: bool)
        requires
            old(self).wf(),
        ensures
            final(self).wf(),
            started == (!old(self).running() && bound),
            final(self).running() == (old(self).running() || bound),
            final(self).clients() == old(self).clients(),
            final(self).decoders() == old(self).decoders(),
    {
        if self.running {
            return false;
        }
        if bound {
            self.running = true;
            return true;
        }
        false
    }

    /// Stops the engine and forgets every client and every partial image.
    /// Stopping a stopped engine changes nothing.
    pub fn stop(&mut self)
        ensures
            final(self).wf(),
            !final(self).running(),
            final(self).clients() == Map::<PeerAddr, u64>::empty(),
            final(self).decoders() == Map::<PeerAddr, ReassemblyState>::empty(),
    {
        self.running = false;
        self.clients.clear();
        self.decoders.clear();
    }

    /// The datagram to send for a packet: its encoding, addressed to the
    /// port that clients listen on. None where the engine is stopped or the
    /// packet is of a kind that is not sent.
    pub fn send(&self, addr: PeerAddr, packet: &FMPacket) -> (r: Option<Effect>)
        ensures
            match r {
                Some(e) => self.running() && encoded(packet@) is Some && e@ == (EffectView::Send {
                    addr: destination(addr),
                    bytes: encoded(packet@)->Some_0,
                }),
                None => !self.running() || encoded(packet@) is None,
            },
    {
        if !self.running {
            return None;
        }
        match packet.to_bytes() {
            Some(bytes) => Some(Effect::Send { addr: addr.with_port(FM_CLIENT_PORT), bytes }),
            None => None,
        }
    }

    /// Takes a decoded packet that came from `addr` at `now`, with the play
    /// history read from it if it holds one. A stopped engine ignores it.
    pub fn react(
        &mut self,
        addr: PeerAddr,
        packet: FMPacket,
        history: Option<HistoryDetail>,
        now: u64,
    ) -> (effects: Vec<Effect>)
        requires
            old(self).wf(),
        ensures
            final(self).wf(),
            final(self).running() == old(self).running(),
            old(self).running() ==> {
                &&& final(self).clients() == old(self).clients().insert(addr, now)
                &&& final(self).decoders() == decoders_after(old(self).decoders(), addr, packet@)
                &&& views(effects@) == reactions(
                    old(self).clients(),
                    old(self).decoders(),
                    addr,
                    packet@,
                    player_of(history),
                )
            },
            !old(self).running() ==> {
                &&& final(self).clients() == old(self).clients()
                &&& final(self).decoders() == old(self).decoders()
                &&& effects@.len() == 0
            },
    {
        let mut effects: Vec<Effect> = Vec::new();
        if !self.running {
            return effects;
        }
        let ghost player = player_of(history);
        let ghost expected = reactions(self.clients@, self.decoders@, addr, packet@, player);
        let ghost tail_views = packet_effects(self.decoders@, addr, packet@, player);
        let created: bool = self.clients.touch(addr, now);
        if created {
            effects.push(Effect::Emit(FMAction::ClientChanged(ClientChangedDetail::added(addr))));
        }
        let mut beat: Vec<u8> = Vec::new();
        beat.push(1);
        effects.push(Effect::Send { addr: addr.with_port(FM_CLIENT_PORT), bytes: beat });
        let tail: Option<FMAction> = match &packet {
            FMPacket::JPEGPacket { header, data } => {
                match self.decoders.accept(addr, *header, data) {
                    Ok(Some(bytes)) => Some(
                        FMAction::JpegDecoded(JpegDecodedDetail::new(addr, bytes)),
                    ),
                    _ => None,
                }
            },
            FMPacket::PlayHistoryPacket { json } => {
                match history {
                    Some(h) => Some(FMAction::HistoryReceived(h)),
                    None => None,
                }
            },
            _ => None,
        };
        assert(tail_views =~= match tail {
            Some(a) => seq![EffectView::Emit(a@)],
            None => Seq::empty(),
        });
        effects.push(Effect::Emit(FMAction::PacketReceived { addr, packet }));
        match tail {
            Some(action) => {
                effects.push(Effect::Emit(action));
            },
            None => {},
        }
        assert(views(effects@) =~= expected);
        effects
    }

    /// Takes a datagram that came from `addr` at `now`: decodes it, reads
    /// the play history if it holds one, and reacts. Which history was read
    /// shows in the last effect.
    pub fn receive(&mut self, addr: PeerAddr, raw: &[u8], now: u64) -> (effects: Vec<Effect>)
        requires
            old(self).wf(),
        ensures
            final(self).wf(),
            final(self).running() == old(self).running(),
            old(self).running() ==> {
                &&& final(self).clients() == old(self).clients().insert(addr, now)
                &&& final(self).decoders() == decoders_after(
                    old(self).decoders(),
                    addr,
                    decoded(raw@),
                )
                &&& views(effects@) == reactions(
                    old(self).clients(),
                    old(self).decoders(),
                    addr,
                    decoded(raw@),
                    announced(views(effects@)),
                )
                &&& announced(views(effects@)) is Some ==> decoded(raw@) is PlayHistoryPacket
                    && is_json_object(decoded(raw@)->PlayHistoryPacket_json)
            },
            !old(self).running() ==> {
                &&& final(self).clients() == old(self).clients()
                &&& final(self).decoders() == old(self).decoders()
                &&& effects@.len() == 0
            },
    {
        let packet = FMPacket::new(raw);
        let history: Option<HistoryDetail> = match &packet {
            FMPacket::PlayHistoryPacket { json } => history_detail(json.as_str()),
            _ => None,
        };
        self.react(addr, packet, history, now)
    }

    /// Removes the clients that have been silent for longer than the
    /// liveness timeout at `now`, and reports each of them once. The
    /// reassemblers stay as they are.
    pub fn sweep(&mut self, now: u64) -> (effects: Vec<Effect>)
        requires
            old(self).wf(),
        ensures
            final(self).wf(),
            final(self).running() == old(self).running(),
            final(self).decoders() == old(self).decoders(),
            final(self).clients() == retained(old(self).clients(), now, LIVENESS_TIMEOUT_MS),
            views(effects@) == removals(evicted(views(effects@))),
            evicted(views(effects@)).no_duplicates(),
            evicted(views(effects@)).to_set() == stale_keys(
                old(self).clients(),
                now,
                LIVENESS_TIMEOUT_MS,
            ),
    {
        let removed: Vec<PeerAddr> = self.clients.sweep(now, LIVENESS_TIMEOUT_MS);
        assert(!self.running ==> self.clients@ =~= Map::<PeerAddr, u64>::empty());
        let mut effects: Vec<Effect> = Vec::new();
        let mut i: usize = 0;
        while i < removed.len()
            invariant
                i <= removed.len(),
                effects@.len() == i,
                forall|k: int|
                    0 <= k < i ==> (#[trigger] effects@[k])@ == EffectView::Emit(
                        client_removed(removed@[k]),
                    ),
            decreases removed.len() - i,
        {
            effects.push(Effect::Emit(FMAction::ClientChanged(ClientChangedDetail::removed(removed[i]))));
            i += 1;
        }
        assert(views(effects@) =~= removals(removed@));
        assert(evicted(removals(removed@)) =~= removed@);
        effects
    }
}

} // verus!
