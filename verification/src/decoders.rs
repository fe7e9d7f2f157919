use crate::client::{lemma_key_injective, PeerAddr};
use crate::jpeg_decoder::{
    after, fresh, outcome, outcome_of, FragmentError, JPEGDecoder, JPEGHeader, ReassemblyState,
};
use std::collections::HashMap;
use vstd::prelude::*;
use vstd::std_specs::hash::*;

verus! {

broadcast use vstd::std_specs::hash::group_hash_axioms;

/// The reassemblers as a map from address to state.
pub open spec fn states(m: Map<u64, JPEGDecoder>) -> Map<PeerAddr, ReassemblyState> {
    Map::new(|a: PeerAddr| m.contains_key(a.spec_key()), |a: PeerAddr| m[a.spec_key()]@)
}

/// Every reassembler's buffer is as long as its image.
pub open spec fn all_wf(m: Map<u64, JPEGDecoder>) -> bool {
    forall|k: u64| m.contains_key(k) ==> (#[trigger] m[k]).wf()
}

/// The state that a fragment from `addr` is applied to: the client's own,
/// or that of a reassembler made for this fragment's image.
pub open spec fn state_for(
    m: Map<PeerAddr, ReassemblyState>,
    addr: PeerAddr,
    header: JPEGHeader,
) -> ReassemblyState {
    if m.contains_key(addr) {
        m[addr]
    } else {
        fresh(header)
    }
}

/// The reassemblers, one for each client that has sent a fragment.
pub struct DecoderMap {
    decoders: HashMap<u64, JPEGDecoder>,
}

impl View for DecoderMap {
    type V = Map<PeerAddr, ReassemblyState>;

    closed spec fn view(&self) -> Map<PeerAddr, ReassemblyState> {
        states(self.decoders@)
    }
}

impl DecoderMap {
    /// Each reassembler is well-formed.
    pub closed spec fn wf(&self) -> bool {
        all_wf(self.decoders@)
    }

    /// No reassembler yet.
    pub fn new() -> (r: Self)
        ensures
            r.wf(),
            r@ == Map::<PeerAddr, ReassemblyState>::empty(),
    {
        let r = DecoderMap { decoders: HashMap::new() };
        assert(r@ =~= Map::<PeerAddr, ReassemblyState>::empty());
        r
    }

    /// Whether the client has a reassembler.
    pub fn contains(&self, addr: PeerAddr) -> (r: bool)
        ensures
            r == self@.contains_key(addr),
    {
        let k: u64 = addr.key();
        self.decoders.contains_key(&k)
    }

    /// Hands a fragment from `addr` to that client's reassembler, which is
    /// made for this fragment's image where the client had none.
    pub fn accept(&mut self, addr: PeerAddr, header: JPEGHeader, data: &Vec<u8>) -> (r: Result<
        Option<Vec<u8>>,
        FragmentError,
    >)
        requires
            old(self).wf(),
        ensures
            final(self).wf(),
            final(self)@ == old(self)@.insert(
                addr,
                after(state_for(old(self)@, addr, header), header, data@),
            ),
            outcome_of(r) == outcome(state_for(old(self)@, addr, header), header, data@),
    {
        let k: u64 = addr.key();
        let ghost before = self.decoders@;
        let mut decoder: JPEGDecoder = match self.decoders.remove(&k) {
            Some(known) => known,
            None => JPEGDecoder::new(header),
        };
        assert(decoder.wf());
        assert(decoder@ == state_for(states(before), addr, header));
        let r = decoder.append_data(header, data);
        self.decoders.insert(k, decoder);
        proof {
            assert forall|a: PeerAddr| a.spec_key() == k implies a == addr by {
                lemma_key_injective(a, addr);
            }
            assert(self@ =~= old(self)@.insert(
                addr,
                after(state_for(old(self)@, addr, header), header, data@),
            ));
        }
        r
    }

    /// Drops every reassembler.
    pub fn clear(&mut self)
        ensures
            final(self).wf(),
            final(self)@ == Map::<PeerAddr, ReassemblyState>::empty(),
    {
        self.decoders.clear();
        assert(self@ =~= Map::<PeerAddr, ReassemblyState>::empty());
    }
}

} // verus!
