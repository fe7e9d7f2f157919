use crate::jpeg_decoder::{header_of, JPEGHeader};
use vstd::prelude::*;
use vstd::slice::{slice_subrange, slice_to_vec};
use vstd::utf8::*;

verus! {

/// One datagram, decoded.
#[derive(Clone, Debug, PartialEq, Eq)]
#[allow(inconsistent_fields)]
pub enum FMPacket {
    /// Anything that is not recognised.
    Unknown,
    /// A bare liveness ping.
    Heartbeat,
    /// A text message.
    StringPacket { data: String },
    /// One fragment of an image.
    JPEGPacket { header: JPEGHeader, data: Vec<u8> },
    /// A play history, as the text of a JSON object.
    PlayHistoryPacket { json: String },
}

/// A packet as plain values.
#[allow(inconsistent_fields)]
pub enum PacketView {
    Unknown,
    Heartbeat,
    StringPacket { data: Seq<char> },
    JPEGPacket { header: JPEGHeader, data: Seq<u8> },
    PlayHistoryPacket { json: Seq<char> },
}

impl View for FMPacket {
    type V = PacketView;

    open spec fn view(&self) -> PacketView {
        match self {
            FMPacket::Unknown => PacketView::Unknown,
            FMPacket::Heartbeat => PacketView::Heartbeat,
            FMPacket::StringPacket { data } => PacketView::StringPacket { data: data@ },
            FMPacket::JPEGPacket { header, data } => PacketView::JPEGPacket {
                header: *header,
                data: data@,
            },
            FMPacket::PlayHistoryPacket { json } => PacketView::PlayHistoryPacket { json: json@ },
        }
    }
}

/// What `String::from_utf8_lossy` makes of a byte sequence.
pub uninterp spec fn utf8_lossy(bytes: Seq<u8>) -> Seq<char>;

/// The text that a byte sequence is read as: its characters where it is
/// well-formed UTF-8, else the lossy reading with replacement characters.
pub open spec fn lossy_text(bytes: Seq<u8>) -> Seq<char> {
    if valid_utf8(bytes) {
        decode_utf8(bytes)
    } else {
        utf8_lossy(bytes)
    }
}

/// The packet that a datagram spells.
pub open spec fn decoded(raw: Seq<u8>) -> PacketView {
    if raw.len() == 1 {
        PacketView::Heartbeat
    } else if raw.len() <= 2 {
        PacketView::Unknown
    } else if raw[0] == 0 {
        if raw.len() >= 20 {
            PacketView::JPEGPacket {
                header: header_of(raw.subrange(2, 20)),
                data: raw.subrange(20, raw.len() as int),
            }
        } else {
            PacketView::Unknown
        }
    } else if raw[0] == 1 {
        PacketView::StringPacket { data: lossy_text(raw.subrange(2, raw.len() as int)) }
    } else if raw[0] == 2 {
        PacketView::PlayHistoryPacket { json: lossy_text(raw.subrange(2, raw.len() as int)) }
    } else {
        PacketView::Unknown
    }
}

/// The datagram that a packet is sent as, for the kinds that can be sent.
pub open spec fn encoded(p: PacketView) -> Option<Seq<u8>> {
    match p {
        PacketView::Heartbeat => Some(seq![1u8]),
        PacketView::StringPacket { data } => Some(seq![1u8, 0u8] + encode_utf8(data)),
        _ => None,
    }
}

/// Reads bytes as text with `String::from_utf8_lossy`. The claim: the
/// result is a function of the bytes alone, and where they are well-formed
/// UTF-8 it is the text they encode, unchanged.
#[verifier::external_body]
fn text_of(bytes: &[u8]) -> (r: String)
    ensures
        r@ == utf8_lossy(bytes@),
        valid_utf8(bytes@) ==> r@ == decode_utf8(bytes@),
{
    String::from_utf8_lossy(bytes).into_owned()
}

impl FMPacket {
    /// Decodes a datagram. Never fails: what is not recognised, and an
    /// image fragment too short to hold its header, is `Unknown`.
    pub fn new(raw_data: &[u8]) -> (r: Self)
        ensures
            r@ == decoded(raw_data@),
    {
        let n: usize = raw_data.len();
        if n == 1 {
            return FMPacket::Heartbeat;
        }
        if n <= 2 {
            return FMPacket::Unknown;
        }
        let tag: u8 = raw_data[0];
        if tag == 0 {
            if n < 20 {
                return FMPacket::Unknown;
            }
            match JPEGHeader::new(slice_subrange(raw_data, 2, 20)) {
                Ok(header) => FMPacket::JPEGPacket {
                    header,
                    data: slice_to_vec(slice_subrange(raw_data, 20, n)),
                },
                Err(_) => FMPacket::Unknown,
            }
        } else if tag == 1 {
            Self::decode_string(slice_subrange(raw_data, 2, n))
        } else if tag == 2 {
            Self::decode_play_history(slice_subrange(raw_data, 2, n))
        } else {
            FMPacket::Unknown
        }
    }

    /// A text message whose text is the lossy reading of `bytes`.
    pub fn decode_string(bytes: &[u8]) -> (r: Self)
        ensures
            r@ == (PacketView::StringPacket { data: lossy_text(bytes@) }),
    {
        FMPacket::StringPacket { data: text_of(bytes) }
    }

    /// A play history whose text is the lossy reading of `bytes`.
    pub fn decode_play_history(bytes: &[u8]) -> (r: Self)
        ensures
            r@ == (PacketView::PlayHistoryPacket { json: lossy_text(bytes@) }),
    {
        FMPacket::PlayHistoryPacket { json: text_of(bytes) }
    }

    /// The datagram to send for this packet: one byte for a heartbeat, two
    /// bytes and the text's UTF-8 for a text message, nothing for the kinds
    /// that only arrive.
    pub fn to_bytes(&self) -> (r: Option<Vec<u8>>)
        ensures
            match r {
                Some(bytes) => encoded(self@) == Some(bytes@),
                None => encoded(self@) is None,
            },
    {
        match self {
            FMPacket::Heartbeat => {
                let mut bytes: Vec<u8> = Vec::new();
                bytes.push(1);
                assert(bytes@ =~= seq![1u8]);
                Some(bytes)
            },
            FMPacket::StringPacket { data } => {
                let mut bytes: Vec<u8> = Vec::new();
                bytes.push(1);
                bytes.push(0);
                bytes.extend_from_slice(data.as_str().as_bytes());
                assert(bytes@ =~= seq![1u8, 0u8] + encode_utf8(data@));
                Some(bytes)
            },
            _ => None,
        }
    }
}

/// A datagram of one byte is a heartbeat, whatever the byte; one of no
/// byte or of two bytes is unknown.
pub proof fn lemma_short_datagrams(raw: Seq<u8>)
    ensures
        raw.len() == 1 ==> decoded(raw) == PacketView::Heartbeat,
        raw.len() == 0 || raw.len() == 2 ==> decoded(raw) == PacketView::Unknown,
{
}

/// The UTF-8 of a text that is not empty is not empty.
proof fn lemma_encoding_not_empty(text: Seq<char>)
    requires
        text.len() > 0,
    ensures
        encode_utf8(text).len() > 0,
{
    encode_utf8_first_scalar(text);
}

/// A heartbeat, and a text message whose text is not empty, decode from
/// their own encoding to themselves.
pub proof fn lemma_round_trip(p: PacketView)
    requires
        p is Heartbeat || (p is StringPacket && p->StringPacket_data.len() > 0),
    ensures
        encoded(p) is Some,
        decoded(encoded(p)->Some_0) == p,
{
    match p {
        PacketView::StringPacket { data } => {
            let raw = encoded(p)->Some_0;
            lemma_encoding_not_empty(data);
            assert(raw.subrange(2, raw.len() as int) =~= encode_utf8(data));
            encode_utf8_valid_utf8(data);
            encode_utf8_decode_utf8(data);
        },
        _ => {},
    }
}

} // verus!
