use vstd::prelude::*;

verus! {

/// A value that can hand out an independent copy of itself with the same view.
///
/// The bus gives every registered cursor its own copy of a pushed item.
pub trait Duplicate: Sized + View {
    fn duplicate(&self) -> (r: Self)
        ensures
            r@ == self@,
    ;
}

/// Mathematical model of a frame.
pub struct FrameView {
    pub channel: u8,
    pub id: u32,
    pub payload: Seq<u8>,
    pub timestamp: u64,
}

/// One message on the vehicle network: the adapter channel it travelled on,
/// its 29-bit extended identifier, its payload bytes and the adapter's timestamp.
#[derive(Debug)]
pub struct Frame {
    pub channel: u8,
    pub id: u32,
    pub payload: Vec<u8>,
    pub timestamp: u64,
}

impl View for Frame {
    type V = FrameView;

    open spec fn view(&self) -> FrameView {
        FrameView {
            channel: self.channel,
            id: self.id,
            payload: self.payload@,
            timestamp: self.timestamp,
        }
    }
}

/// Priority field: bits 26 to 28 of the identifier.
pub open spec fn priority_of(id: u32) -> u8 {
    ((id >> 26u32) & 7u32) as u8
}

/// PDU format byte: bits 16 to 23 of the identifier.
pub open spec fn pdu_format_of(id: u32) -> u8 {
    ((id >> 16u32) & 0xFFu32) as u8
}

/// PDU specific byte: bits 8 to 15 of the identifier.
pub open spec fn pdu_specific_of(id: u32) -> u8 {
    ((id >> 8u32) & 0xFFu32) as u8
}

/// Parameter group number. For a peer-to-peer format (PDU format below 240)
/// the PDU specific byte is a destination address and is not part of it.
pub open spec fn pgn_of(id: u32) -> u32 {
    if pdu_format_of(id) < 240 {
        (id >> 8u32) & 0x3FF00u32
    } else {
        (id >> 8u32) & 0x3FFFFu32
    }
}

/// Source address: the low byte of the identifier.
pub open spec fn source_of(id: u32) -> u8 {
    (id & 0xFFu32) as u8
}

/// Destination address: the PDU specific byte for a peer-to-peer format,
/// the global address 0xFF for a broadcast format.
pub open spec fn destination_of(id: u32) -> u8 {
    if pdu_format_of(id) < 240 {
        pdu_specific_of(id)
    } else {
        0xFF
    }
}

/// Identifier built from priority, parameter group, destination and source.
pub open spec fn compose_id(priority: u8, pgn: u32, destination: u8, source: u8) -> u32 {
    let pgn = pgn & 0x3FFFFu32;
    let pgn = if ((pgn >> 8u32) & 0xFFu32) < 240 {
        (pgn & 0x3FF00u32) | (destination as u32)
    } else {
        pgn
    };
    (((priority as u32) & 7u32) << 26u32) | (pgn << 8u32) | (source as u32)
}

pub fn payload_equal(a: &Vec<u8>, b: &Vec<u8>) -> (r: bool)
    ensures
        r == (a@ == b@),
{
    if a.len() != b.len() {
        return false;
    }
    let mut i: usize = 0;
    while i < a.len()
        invariant
            a@.len() == b@.len(),
            i <= a@.len(),
            forall|k: int| 0 <= k < i ==> a@[k] == b@[k],
        decreases a@.len() - i,
    {
        if a[i] != b[i] {
            return false;
        }
        i = i + 1;
    }
    assert(a@ =~= b@);
    true
}

impl Frame {
    pub fn new(channel: u8, id: u32, payload: Vec<u8>, timestamp: u64) -> (r: Frame)
        ensures
            r@ == (FrameView { channel, id, payload: payload@, timestamp }),
    {
        Frame { channel, id, payload, timestamp }
    }

    /// A frame for transmission, its identifier built from its fields.
    pub fn outbound(
        channel: u8,
        priority: u8,
        pgn: u32,
        destination: u8,
        source: u8,
        payload: Vec<u8>,
    ) -> (r: Frame)
        ensures
            r@ == (FrameView {
                channel,
                id: compose_id(priority, pgn, destination, source),
                payload: payload@,
                timestamp: 0,
            }),
    {
        let p = pgn & 0x3FFFFu32;
        let p = if ((p >> 8u32) & 0xFFu32) < 240 {
            (p & 0x3FF00u32) | (destination as u32)
        } else {
            p
        };
        let id = (((priority as u32) & 7u32) << 26u32) | (p << 8u32) | (source as u32);
        Frame { channel, id, payload, timestamp: 0 }
    }

    pub fn priority(&self) -> (r: u8)
        ensures
            r == priority_of(self.id),
            r < 8,
    {
        let id = self.id;
        assert(((id >> 26u32) & 7u32) < 8) by (bit_vector);
        ((id >> 26u32) & 7u32) as u8
    }

    pub fn pgn(&self) -> (r: u32)
        ensures
            r == pgn_of(self.id),
            r <= 0x3FFFF,
    {
        let id = self.id;
        let pf = ((id >> 16u32) & 0xFFu32) as u8;
        assert((id >> 8u32) & 0x3FF00u32 <= 0x3FFFF) by (bit_vector);
        assert((id >> 8u32) & 0x3FFFFu32 <= 0x3FFFF) by (bit_vector);
        if pf < 240 {
            (id >> 8u32) & 0x3FF00u32
        } else {
            (id >> 8u32) & 0x3FFFFu32
        }
    }

    pub fn source_address(&self) -> (r: u8)
        ensures
            r == source_of(self.id),
    {
        (self.id & 0xFFu32) as u8
    }

    pub fn destination_address(&self) -> (r: u8)
        ensures
            r == destination_of(self.id),
    {
        let id = self.id;
        if (((id >> 16u32) & 0xFFu32) as u8) < 240 {
            ((id >> 8u32) & 0xFFu32) as u8
        } else {
            0xFF
        }
    }

    pub fn data(&self) -> (r: &Vec<u8>)
        ensures
            r@ == self.payload@,
    {
        &self.payload
    }
}

impl Duplicate for Frame {
    fn duplicate(&self) -> (r: Frame) {
        let mut payload: Vec<u8> = Vec::new();
        let mut i: usize = 0;
        while i < self.payload.len()
            invariant
                i <= self.payload@.len(),
                payload@ == self.payload@.subrange(0, i as int),
            decreases self.payload@.len() - i,
        {
            payload.push(self.payload[i]);
            i = i + 1;
            assert(payload@ =~= self.payload@.subrange(0, i as int));
        }
        assert(payload@ =~= self.payload@);
        Frame { channel: self.channel, id: self.id, payload, timestamp: self.timestamp }
    }
}

} // verus!
