use crate::text::{
    decode_hex, encode_hex, hex_decoded, hex_encoded, strip_spaces, without_spaces,
};
use crate::error::Error;
use vstd::prelude::*;

verus! {

/// Sum of the bytes of `s`, as an unbounded number.
pub open spec fn byte_sum(s: Seq<u8>) -> nat
    decreases s.len(),
{
    if s.len() == 0 {
        0
    } else {
        byte_sum(s.drop_last()) + s.last() as nat
    }
}

/// The frame checksum of `s`: the sum of its bytes modulo 256.
pub open spec fn checksum_of(s: Seq<u8>) -> u8 {
    (byte_sum(s) % 256) as u8
}

/// Wake-up byte sent before a frame.
pub const WAKE: u8 = 0xfe;

/// Start marker, sent before and after the address.
pub const START: u8 = 0x68;

/// End marker.
pub const END: u8 = 0x16;

/// The logical content of a protocol data unit.
pub struct PduModel {
    /// Wake-up bytes sent before the frame.
    pub front: Seq<u8>,
    /// The start marker.
    pub start: u8,
    /// The device address in wire order, least significant byte first.
    pub address: Seq<u8>,
    /// The control code.
    pub c: u8,
    /// The length byte as last stored; encoding recomputes it.
    pub l: u8,
    /// The byte-stuffed payload.
    pub data: Seq<u8>,
    /// The checksum as last stored; encoding recomputes it.
    pub cs: u8,
    /// The end marker.
    pub end: u8,
}

/// The bytes from the first start marker through the last payload byte, with
/// the length byte taken from the payload itself.
pub open spec fn frame_body(m: PduModel) -> Seq<u8> {
    seq![m.start] + m.address + seq![m.start, m.c, m.data.len() as u8] + m.data
}

/// The wire bytes of `m`: preamble, body, checksum of the body, end marker.
pub open spec fn encoded(m: PduModel) -> Seq<u8> {
    m.front + frame_body(m) + seq![checksum_of(frame_body(m)), m.end]
}

/// The first index at or after `i` that does not hold a wake-up byte.
pub open spec fn wake_end(b: Seq<u8>, i: int) -> int
    decreases b.len() - i,
{
    if 0 <= i < b.len() && b[i] == WAKE {
        wake_end(b, i + 1)
    } else {
        i
    }
}

/// The number of wake-up bytes that `b` starts with.
pub open spec fn preamble_len(b: Seq<u8>) -> int {
    wake_end(b, 0)
}

/// `b` holds, after its preamble, enough bytes for a whole frame: the start
/// byte, six address bytes, the second start byte, control, length, the
/// payload that the length announces, checksum and end.
pub open spec fn is_structured(b: Seq<u8>) -> bool {
    let n = preamble_len(b);
    &&& b.len() >= n + 10
    &&& b.len() >= n + 12 + b[n + 9]
}

/// The unit that the bytes of `b` describe, when `is_structured(b)`.
pub open spec fn model_at(b: Seq<u8>) -> PduModel {
    let n = preamble_len(b);
    let l = b[n + 9];
    PduModel {
        front: b.subrange(0, n),
        start: START,
        address: b.subrange(n + 1, n + 7),
        c: b[n + 8],
        l: l,
        data: b.subrange(n + 10, n + 10 + l),
        cs: b[n + 10 + l],
        end: b[n + 11 + l],
    }
}

/// The wire decoding of `b`: a unit when the frame's parts are all present.
pub open spec fn decoded(b: Seq<u8>) -> Option<PduModel> {
    if is_structured(b) {
        Some(model_at(b))
    } else {
        None
    }
}

/// The textual decoding of `s`: spaces dropped, hexadecimal read, bytes decoded.
pub open spec fn decoded_text(s: Seq<char>) -> Option<PduModel> {
    match hex_decoded(without_spaces(s)) {
        Some(b) => decoded(b),
        None => None,
    }
}

/// `s` in reverse order.
pub open spec fn reversed(s: Seq<u8>) -> Seq<u8> {
    Seq::new(s.len(), |i: int| s[s.len() - 1 - i])
}

/// One data value after byte-stuffing: each byte raised by 0x33 modulo 256,
/// the bytes in reverse order.
pub open spec fn stuffed(v: Seq<u8>) -> Seq<u8> {
    Seq::new(v.len(), |i: int| ((v[v.len() - 1 - i] + 0x33) % 256) as u8)
}

/// The payload for the data values `vs`: each stuffed, in the order given.
pub open spec fn stuffed_all(vs: Seq<Seq<u8>>) -> Seq<u8>
    decreases vs.len(),
{
    if vs.len() == 0 {
        Seq::empty()
    } else {
        stuffed_all(vs.drop_last()) + stuffed(vs.last())
    }
}

/// The unit for a command to the device at `addr` (as people write it, most
/// significant byte first), with control code `c` and data values `vs`.
pub open spec fn cmd_model(addr: Seq<u8>, c: u8, vs: Seq<Seq<u8>>) -> PduModel {
    PduModel {
        front: seq![WAKE, WAKE, WAKE, WAKE],
        start: START,
        address: reversed(addr),
        c: c,
        l: stuffed_all(vs).len() as u8,
        data: stuffed_all(vs),
        cs: 0,
        end: END,
    }
}

/// A freshly made unit: four wake-up bytes, the fixed markers, no address,
/// control code zero and no payload.
pub open spec fn fresh_model() -> PduModel {
    PduModel {
        front: seq![WAKE, WAKE, WAKE, WAKE],
        start: START,
        address: Seq::empty(),
        c: 0,
        l: 0,
        data: Seq::empty(),
        cs: 0,
        end: END,
    }
}

/// The bytes of each text of `ts`, when every one is hexadecimal.
pub open spec fn hex_values(ts: Seq<&str>) -> Option<Seq<Seq<u8>>> {
    if forall|i: int| 0 <= i < ts.len() ==> (#[trigger] hex_decoded(ts[i]@)) is Some {
        Some(Seq::new(ts.len(), |i: int| hex_decoded(ts[i]@)->Some_0))
    } else {
        None
    }
}

/// The unit for a command given as hexadecimal texts: the address, the control
/// code (its first byte) and the data values. `None` where a text is not
/// hexadecimal, the control code is empty, or the payload exceeds 255 bytes.
pub open spec fn cmd_from_text(addr: Seq<char>, c: Seq<char>, ts: Seq<&str>) -> Option<PduModel> {
    match (hex_decoded(addr), hex_decoded(c), hex_values(ts)) {
        (Some(a), Some(cb), Some(vs)) => if cb.len() > 0 && stuffed_all(vs).len() <= 255 {
            Some(cmd_model(a, cb[0], vs))
        } else {
            None
        },
        _ => None,
    }
}

/// What the scanner finds at the head of a buffer.
pub enum Scan {
    /// A whole frame of this many bytes, preamble included.
    Complete(nat),
    /// More bytes are needed before anything can be decided.
    Incomplete,
    /// A marker position held this byte instead of the start marker.
    Desync(u8),
}

/// The scan of `b`: skip the preamble; the next byte must be the start
/// marker; after six address bytes the start marker again; then control and
/// length, the payload that the length announces, checksum and end. Running
/// out of bytes anywhere is `Incomplete`; a wrong marker is `Desync`.
pub open spec fn scan(b: Seq<u8>) -> Scan {
    let n = preamble_len(b);
    if n >= b.len() {
        Scan::Incomplete
    } else if b[n] != START {
        Scan::Desync(b[n])
    } else if b.len() < n + 8 {
        Scan::Incomplete
    } else if b[n + 7] != START {
        Scan::Desync(b[n + 7])
    } else if b.len() < n + 10 || b.len() < n + 12 + b[n + 9] {
        Scan::Incomplete
    } else {
        Scan::Complete((n + 12 + b[n + 9]) as nat)
    }
}

/// A run of wake-up bytes starting at `i` does not end before `i`, nor
/// after the buffer.
pub proof fn lemma_wake_end_bounds(b: Seq<u8>, i: int)
    requires
        0 <= i,
    ensures
        i <= wake_end(b, i),
        wake_end(b, i) <= b.len() || wake_end(b, i) == i,
    decreases b.len() - i,
{
    if 0 <= i < b.len() && b[i] == WAKE {
        lemma_wake_end_bounds(b, i + 1);
    }
}

/// Two buffers that agree on their first `k` bytes end the run of wake-up
/// bytes from `i` at the same place, when it ends within those bytes.
pub proof fn lemma_wake_end_agree(a: Seq<u8>, b: Seq<u8>, i: int, k: int)
    requires
        0 <= i,
        k <= a.len(),
        k <= b.len(),
        wake_end(a, i) < k,
        forall|j: int| 0 <= j < k ==> a[j] == b[j],
    ensures
        wake_end(b, i) == wake_end(a, i),
    decreases a.len() - i,
{
    lemma_wake_end_bounds(a, i);
    if 0 <= i < a.len() && a[i] == WAKE {
        lemma_wake_end_agree(a, b, i + 1, k);
    }
}

/// The first `k` bytes of a buffer whose preamble is at least that long are
/// all preamble.
pub proof fn lemma_wake_end_all_wake(b: Seq<u8>, i: int, k: int)
    requires
        0 <= i <= k <= b.len(),
        wake_end(b, i) >= k,
    ensures
        wake_end(b.subrange(0, k), i) == k,
    decreases k - i,
{
    if i < k {
        lemma_wake_end_all_wake(b, i + 1, k);
    }
}

/// A run of wake-up bytes from `i` that stops at `k` (the end, or a byte that
/// is not a wake-up byte) ends there.
pub proof fn lemma_wake_end_run(b: Seq<u8>, i: int, k: int)
    requires
        0 <= i <= k <= b.len(),
        forall|j: int| i <= j < k ==> b[j] == WAKE,
        k == b.len() || b[k] != WAKE,
    ensures
        wake_end(b, i) == k,
    decreases k - i,
{
    if i < k {
        lemma_wake_end_run(b, i + 1, k);
    }
}

/// The bytes of a complete frame at the head of `b` describe the same unit as
/// `b` does, and scan the same.
pub proof fn lemma_complete_prefix(b: Seq<u8>)
    requires
        scan(b) is Complete,
    ensures
        ({
            let m = scan(b)->Complete_0;
            let p = b.subrange(0, m as int);
            &&& m <= b.len()
            &&& preamble_len(p) == preamble_len(b)
            &&& is_structured(b)
            &&& is_structured(p)
            &&& model_at(p) == model_at(b)
            &&& scan(p) == scan(b)
        }),
{
    let n = preamble_len(b);
    let m = scan(b)->Complete_0;
    let p = b.subrange(0, m as int);
    lemma_wake_end_bounds(b, 0);
    lemma_wake_end_agree(b, p, 0, m as int);
    let l = b[n + 9];
    assert(p.subrange(0, n) == b.subrange(0, n));
    assert(p.subrange(n + 1, n + 7) == b.subrange(n + 1, n + 7));
    assert(p.subrange(n + 10, n + 10 + l) == b.subrange(n + 10, n + 10 + l));
}

/// A protocol data unit: one frame of the protocol.
#[derive(Debug)]
pub struct ProtocolDataUnit {
    /// Wake-up bytes (0xfe) that rouse a sleeping receiver.
    front: Vec<u8>,
    /// Start marker, 0x68.
    start: u8,
    /// Six address bytes, least significant first.
    address: Vec<u8>,
    /// Control code.
    c: u8,
    /// Payload length.
    l: u8,
    /// Payload, each value raised by 0x33 per byte and reversed.
    data: Vec<u8>,
    /// Sum modulo 256 of the bytes from the first start marker to the payload's end.
    cs: u8,
    /// End marker, 0x16.
    end: u8,
}

/// The one way in which bytes or text fail to describe a unit.
#[derive(Debug)]
pub enum TryFromError {
    INVALID,
}

impl View for ProtocolDataUnit {
    type V = PduModel;

    closed spec fn view(&self) -> PduModel {
        PduModel {
            front: self.front@,
            start: self.start,
            address: self.address@,
            c: self.c,
            l: self.l,
            data: self.data@,
            cs: self.cs,
            end: self.end,
        }
    }
}

/// Appends the bytes of `s` to `v`.
fn push_all(v: &mut Vec<u8>, s: &[u8])
    ensures
        final(v)@ == old(v)@ + s@,
{
    let mut i: usize = 0;
    while i < s.len()
        invariant
            i <= s@.len(),
            v@ == old(v)@ + s@.subrange(0, i as int),
        decreases s@.len() - i,
    {
        v.push(s[i]);
        i = i + 1;
        assert(v@ == old(v)@ + s@.subrange(0, i as int));
    }
    assert(s@.subrange(0, s@.len() as int) == s@);
}

impl ProtocolDataUnit {
    #[verifier::type_invariant]
    spec fn well_formed(self) -> bool {
        &&& self.data@.len() <= 255
        &&& self.start == START
        &&& forall|i: int| 0 <= i < self.front@.len() ==> self.front@[i] == WAKE
    }

    /// An empty unit: four wake-up bytes, the fixed markers, no address, control
    /// code zero and no payload.
    pub fn new() -> (r: Self)
        ensures
            r@ == fresh_model(),
    {
        ProtocolDataUnit {
            front: vec![WAKE, WAKE, WAKE, WAKE],
            start: START,
            address: vec![],
            c: 0,
            l: 0,
            data: vec![],
            cs: 0,
            end: END,
        }
    }

    /// The unit for a command to the device at `addr` (most significant byte
    /// first; stored reversed, as it goes on the wire), with control code `c`
    /// and the data values `data`, each byte-stuffed and appended in order.
    /// Fails with `InvalidInput` when the payload would exceed 255 bytes.
    pub fn from_cmd_2(addr: Vec<u8>, c: u8, data: &Vec<Vec<u8>>) -> (r: Result<Self, Error>)
        ensures
            match r {
                Ok(p) => stuffed_all(data.deep_view()).len() <= 255 && p@ == cmd_model(
                    addr@,
                    c,
                    data.deep_view(),
                ),
                Err(e) => stuffed_all(data.deep_view()).len() > 255 && e == Error::InvalidInput,
            },
    {
        let mut address: Vec<u8> = Vec::new();
        let mut i: usize = addr.len();
        while i > 0
            invariant
                i <= addr@.len(),
                address@ == reversed(addr@).subrange(0, addr@.len() - i),
            decreases i,
        {
            i = i - 1;
            address.push(addr[i]);
            assert(address@ == reversed(addr@).subrange(0, addr@.len() - i));
        }
        assert(address@ == reversed(addr@));
        let ghost vs = data.deep_view();
        let mut out: Vec<u8> = Vec::new();
        let mut k: usize = 0;
        while k < data.len()
            invariant
                k <= data@.len(),
                vs == data.deep_view(),
                out@ == stuffed_all(vs.subrange(0, k as int)),
            decreases data@.len() - k,
        {
            let v = &data[k];
            assert(v@ == vs[k as int]);
            let ghost base = out@;
            let mut j: usize = v.len();
            while j > 0
                invariant
                    j <= v@.len(),
                    out@ == base + stuffed(v@).subrange(0, v@.len() - j),
                decreases j,
            {
                j = j - 1;
                out.push(((v[j] as u16 + 0x33) % 256) as u8);
                assert(out@ == base + stuffed(v@).subrange(0, v@.len() - j));
            }
            assert(stuffed(v@).subrange(0, v@.len() as int) == stuffed(v@));
            assert(vs.subrange(0, k + 1).drop_last() == vs.subrange(0, k as int));
            k = k + 1;
        }
        assert(vs.subrange(0, data@.len() as int) == vs);
        if out.len() > 255 {
            return Err(Error::InvalidInput);
        }
        let l = out.len() as u8;
        Ok(ProtocolDataUnit {
            front: vec![WAKE, WAKE, WAKE, WAKE],
            start: START,
            address,
            c,
            l,
            data: out,
            cs: 0,
            end: END,
        })
    }

    /// The unit for a command given as hexadecimal texts: the device address
    /// (most significant byte first), the control code (its first byte) and
    /// the data values. Fails with `InvalidInput` when a text is not
    /// hexadecimal, the control code is empty, or the payload would exceed
    /// 255 bytes.
    pub fn from_cmd(addr: &str, c: &str, data: &Vec<&str>) -> (r: Result<Self, Error>)
        ensures
            match r {
                Ok(p) => cmd_from_text(addr@, c@, data@) == Some(p@),
                Err(e) => cmd_from_text(addr@, c@, data@) is None && e == Error::InvalidInput,
            },
    {
        let address = match decode_hex(addr) {
            Some(a) => a,
            None => return Err(Error::InvalidInput),
        };
        let code = match decode_hex(c) {
            Some(v) => v,
            None => return Err(Error::InvalidInput),
        };
        if code.len() == 0 {
            return Err(Error::InvalidInput);
        }
        let mut values: Vec<Vec<u8>> = Vec::new();
        let mut k: usize = 0;
        while k < data.len()
            invariant
                k <= data@.len(),
                values@.len() == k,
                forall|i: int| 0 <= i < k ==> (#[trigger] hex_decoded(data@[i]@)) == Some(values@[i]@),
            decreases data@.len() - k,
        {
            match decode_hex(data[k]) {
                Some(v) => values.push(v),
                None => {
                    assert(hex_values(data@) is None);
                    return Err(Error::InvalidInput);
                },
            }
            k = k + 1;
        }
        assert forall|i: int| 0 <= i < data@.len() implies (#[trigger] hex_decoded(
            data@[i]@,
        )) is Some by {}
        assert(values.deep_view() =~~= Seq::new(
            data@.len(),
            |i: int| hex_decoded(data@[i]@)->Some_0,
        ));
        Self::from_cmd_2(address, code[0], &values)
    }

    /// The command that asks any device for its address.
    pub fn read_addr() -> (r: Result<Self, Error>)
        ensures
            match r {
                Ok(p) => p@ == cmd_model(seq![0xAAu8, 0xAA, 0xAA, 0xAA, 0xAA, 0xAA], 0x13, seq![]),
                Err(_) => false,
            },
    {
        let empty: Vec<Vec<u8>> = vec![];
        proof {
            assert(empty.deep_view() == Seq::<Seq<u8>>::empty());
        }
        Self::from_cmd_2(vec![0xAA, 0xAA, 0xAA, 0xAA, 0xAA, 0xAA], 0x13, &empty)
    }

    /// The command that sets the address of a device to `aaaaaaaaaaaa`.
    pub fn set_addr() -> (r: Result<Self, Error>)
        ensures
            match r {
                Ok(p) => p@ == cmd_model(
                    seq![0xAAu8, 0xAA, 0xAA, 0xAA, 0xAA, 0xAA],
                    0x15,
                    seq![seq![0xAAu8, 0xAA, 0xAA, 0xAA, 0xAA, 0xAA]],
                ),
                Err(_) => false,
            },
    {
        let values: Vec<Vec<u8>> = vec![vec![0xAA, 0xAA, 0xAA, 0xAA, 0xAA, 0xAA]];
        proof {
            let vs = seq![seq![0xAAu8, 0xAA, 0xAA, 0xAA, 0xAA, 0xAA]];
            assert(values.deep_view() =~~= vs);
            assert(vs.drop_last() == Seq::<Seq<u8>>::empty());
            assert(stuffed_all(Seq::<Seq<u8>>::empty()).len() == 0);
            assert(stuffed_all(vs).len() == 6);
        }
        Self::from_cmd_2(vec![0xAA, 0xAA, 0xAA, 0xAA, 0xAA, 0xAA], 0x15, &values)
    }

    /// The address as it goes on the wire, least significant byte first.
    pub fn address(&self) -> (r: Vec<u8>)
        ensures
            r@ == self@.address,
    {
        vstd::slice::slice_to_vec(self.address.as_slice())
    }

    /// The hexadecimal text of the address in wire order.
    pub fn address_str(&self) -> (r: String)
        ensures
            r@ == hex_encoded(self@.address),
    {
        encode_hex(self.address.as_slice())
    }

    /// The hexadecimal text of the address as people write it, most
    /// significant byte first.
    pub fn address_real_str(&self) -> (r: String)
        ensures
            r@ == hex_encoded(reversed(self@.address)),
    {
        let mut addr: Vec<u8> = Vec::new();
        let mut i: usize = self.address.len();
        while i > 0
            invariant
                i <= self@.address.len(),
                addr@ == reversed(self@.address).subrange(0, self@.address.len() - i),
            decreases i,
        {
            i = i - 1;
            addr.push(self.address[i]);
            assert(addr@ == reversed(self@.address).subrange(0, self@.address.len() - i));
        }
        assert(addr@ == reversed(self@.address));
        encode_hex(addr.as_slice())
    }

    /// The payload bytes, as stuffed on the wire.
    pub fn data(&self) -> (r: Vec<u8>)
        ensures
            r@ == self@.data,
    {
        vstd::slice::slice_to_vec(self.data.as_slice())
    }

    /// The control code.
    pub fn c(&self) -> (r: u8)
        ensures
            r == self@.c,
    {
        self.c
    }

    /// The wire bytes of this unit; the length byte and the checksum are
    /// computed afresh from the payload.
    pub fn encode(&self) -> (r: Vec<u8>)
        ensures
            r@ == encoded(self@),
            self@.data.len() <= 255,
            self@.start == START,
            forall|i: int| 0 <= i < self@.front.len() ==> self@.front[i] == WAKE,
    {
        proof {
            use_type_invariant(self);
        }
        let mut v: Vec<u8> = Vec::new();
        v.push(self.start);
        push_all(&mut v, self.address.as_slice());
        v.push(self.start);
        v.push(self.c);
        v.push(self.data.len() as u8);
        push_all(&mut v, self.data.as_slice());
        assert(v@ == frame_body(self@));
        let cs = Self::compute_cs(&v);
        v.push(cs);
        v.push(self.end);
        let mut out: Vec<u8> = Vec::new();
        push_all(&mut out, self.front.as_slice());
        push_all(&mut out, v.as_slice());
        out
    }

    /// The lowercase hexadecimal text of the wire bytes.
    pub fn encode_hex(&self) -> (r: String)
        ensures
            r@ == hex_encoded(encoded(self@)),
    {
        let v = self.encode();
        encode_hex(v.as_slice())
    }

    /// Reads a unit from wire bytes: leading wake-up bytes become the preamble,
    /// then the start byte, six address bytes, the second start byte, control,
    /// length, payload, checksum and end are taken as they stand; marker
    /// values and the checksum are not compared. Bytes after the end are ignored.
    pub fn from_wire(value: &[u8]) -> (r: Result<Self, TryFromError>)
        ensures
            match r {
                Ok(p) => decoded(value@) == Some(p@),
                Err(_) => decoded(value@) is None,
            },
    {
        let mut front: Vec<u8> = Vec::new();
        let mut i: usize = 0;
        while i < value.len() && value[i] == WAKE
            invariant
                i <= value@.len(),
                front@ == value@.subrange(0, i as int),
                forall|j: int| 0 <= j < i ==> front@[j] == WAKE,
                wake_end(value@, i as int) == preamble_len(value@),
            decreases value@.len() - i,
        {
            front.push(WAKE);
            i = i + 1;
            assert(front@ == value@.subrange(0, i as int));
        }
        let n = i;
        assert(preamble_len(value@) == n);
        // start, address, second start, control and length
        if value.len() - n < 10 {
            return Err(TryFromError::INVALID);
        }
        let l = value[n + 9];
        // payload, checksum and end
        if value.len() - n - 10 < l as usize + 2 {
            return Err(TryFromError::INVALID);
        }
        let address = vstd::slice::slice_to_vec(&value[n + 1..n + 7]);
        let data = vstd::slice::slice_to_vec(&value[n + 10..n + 10 + l as usize]);
        let p = ProtocolDataUnit {
            front,
            start: START,
            address,
            c: value[n + 8],
            l,
            data,
            cs: value[n + 10 + l as usize],
            end: value[n + 11 + l as usize],
        };
        assert(p@ == model_at(value@));
        Ok(p)
    }

    /// Reads a unit from its hexadecimal text; spaces anywhere are ignored.
    pub fn from_text(value: &str) -> (r: Result<Self, TryFromError>)
        ensures
            match r {
                Ok(p) => decoded_text(value@) == Some(p@),
                Err(_) => decoded_text(value@) is None,
            },
    {
        let v = strip_spaces(value);
        match decode_hex(v.as_str()) {
            Some(b) => Self::from_wire(b.as_slice()),
            None => Err(TryFromError::INVALID),
        }
    }

    /// The modulo-256 sum of the bytes of `data`.
    pub fn compute_cs(data: &Vec<u8>) -> (r: u8)
        ensures
            r == checksum_of(data@),
    {
        let mut acc: u8 = 0;
        let mut i: usize = 0;
        while i < data.len()
            invariant
                i <= data.len(),
                acc as nat == byte_sum(data@.subrange(0, i as int)) % 256,
            decreases data.len() - i,
        {
            proof {
                let s = data@.subrange(0, i as int + 1);
                assert(s.drop_last() == data@.subrange(0, i as int));
                vstd::arithmetic::div_mod::lemma_add_mod_noop(
                    byte_sum(data@.subrange(0, i as int)) as int,
                    data@[i as int] as int,
                    256,
                );
            }
            acc = ((acc as u16 + data[i] as u16) % 256) as u8;
            i = i + 1;
        }
        assert(data@.subrange(0, data.len() as int) == data@);
        acc
    }
}

/// The frame scanner. It holds nothing: its operations work on borrowed
/// buffers that may hold nothing, part of a frame, a frame, or a frame and
/// the start of the next.
#[derive(Clone, Copy, Debug)]
pub struct Frame;

/// Why the scanner did not produce a frame.
#[derive(Debug)]
pub enum FrameError {
    /// More bytes are needed.
    Incomplete,
    /// The bytes cannot start a frame, whatever follows.
    Other(Error),
}

/// The byte at `*pos`, moving past it.
fn get_u8(src: &[u8], pos: &mut usize) -> (r: Result<u8, FrameError>)
    requires
        *old(pos) <= src@.len(),
    ensures
        if *old(pos) < src@.len() {
            r == Ok::<u8, FrameError>(src@[*old(pos) as int]) && *final(pos) == *old(pos) + 1
        } else {
            r == Err::<u8, FrameError>(FrameError::Incomplete) && *final(pos) == *old(pos)
        },
{
    if *pos >= src.len() {
        return Err(FrameError::Incomplete);
    }
    let v = src[*pos];
    *pos = *pos + 1;
    Ok(v)
}

/// The byte at `*pos` must be `expect`; moves past it.
fn get_u8_expect(src: &[u8], pos: &mut usize, expect: u8) -> (r: Result<(), FrameError>)
    requires
        *old(pos) <= src@.len(),
    ensures
        if *old(pos) < src@.len() {
            &&& *final(pos) == *old(pos) + 1
            &&& if src@[*old(pos) as int] == expect {
                r == Ok::<(), FrameError>(())
            } else {
                r == Err::<(), FrameError>(
                    FrameError::Other(Error::Protocol(src@[*old(pos) as int])),
                )
            }
        } else {
            r == Err::<(), FrameError>(FrameError::Incomplete) && *final(pos) == *old(pos)
        },
{
    let v = match get_u8(src, pos) {
        Ok(v) => v,
        Err(e) => return Err(e),
    };
    if v != expect {
        return Err(FrameError::Other(Error::Protocol(v)));
    }
    Ok(())
}

/// Moves `n` bytes on, when there are that many.
fn skip(src: &[u8], pos: &mut usize, n: usize) -> (r: Result<(), FrameError>)
    requires
        *old(pos) <= src@.len(),
    ensures
        if src@.len() - *old(pos) >= n {
            r == Ok::<(), FrameError>(()) && *final(pos) == *old(pos) + n
        } else {
            r == Err::<(), FrameError>(FrameError::Incomplete) && *final(pos) == *old(pos)
        },
{
    if src.len() - *pos < n {
        return Err(FrameError::Incomplete);
    }
    *pos = *pos + n;
    Ok(())
}

/// The `n` bytes at `*pos`, moving past them.
fn get_u8_of<'a>(src: &'a [u8], pos: &mut usize, n: usize) -> (r: Result<&'a [u8], FrameError>)
    requires
        *old(pos) <= src@.len(),
    ensures
        if src@.len() - *old(pos) >= n {
            &&& r matches Ok(s) && s@ == src@.subrange(*old(pos) as int, *old(pos) + n)
            &&& *final(pos) == *old(pos) + n
        } else {
            r matches Err(FrameError::Incomplete) && *final(pos) == *old(pos)
        },
{
    let start = *pos;
    if src.len() - start < n {
        return Err(FrameError::Incomplete);
    }
    let end = start + n;
    *pos = end;
    Ok(&src[start..end])
}

impl Frame {
    /// Decides whether `src` starts with a whole frame, without copying, and
    /// gives its length in bytes, preamble included.
    pub fn check(src: &[u8]) -> (r: Result<usize, FrameError>)
        ensures
            match scan(src@) {
                Scan::Complete(n) => r matches Ok(k) && k == n,
                Scan::Incomplete => r == Err::<usize, FrameError>(FrameError::Incomplete),
                Scan::Desync(x) => r == Err::<usize, FrameError>(
                    FrameError::Other(Error::Protocol(x)),
                ),
            },
    {
        let mut pos: usize = 0;
        loop
            invariant_except_break
                pos <= src@.len(),
                wake_end(src@, pos as int) == preamble_len(src@),
            ensures
                pos <= src@.len(),
                pos == preamble_len(src@) + 1,
                src@[pos - 1] == START,
            decreases src@.len() - pos,
        {
            let v = match get_u8(src, &mut pos) {
                Ok(v) => v,
                Err(e) => return Err(e),
            };
            if v != WAKE {
                if v == START {
                    break;
                } else {
                    return Err(FrameError::Other(Error::Protocol(v)));
                }
            }
        }
        // address
        match skip(src, &mut pos, 6) {
            Ok(()) => {},
            Err(e) => return Err(e),
        }
        match get_u8_expect(src, &mut pos, START) {
            Ok(()) => {},
            Err(e) => return Err(e),
        }
        // control code
        match skip(src, &mut pos, 1) {
            Ok(()) => {},
            Err(e) => return Err(e),
        }
        let len = match get_u8(src, &mut pos) {
            Ok(v) => v,
            Err(e) => return Err(e),
        };
        match skip(src, &mut pos, len as usize) {
            Ok(()) => {},
            Err(e) => return Err(e),
        }
        // checksum and end
        match skip(src, &mut pos, 2) {
            Ok(()) => {},
            Err(e) => return Err(e),
        }
        Ok(pos)
    }

    /// Makes the same walk as `check`, copying the frame's bytes as it goes,
    /// and reads the unit from the copy.
    pub fn parse(src: &[u8]) -> (r: Result<ProtocolDataUnit, FrameError>)
        ensures
            match scan(src@) {
                Scan::Complete(_) => r matches Ok(p) && p@ == model_at(src@),
                Scan::Incomplete => r matches Err(FrameError::Incomplete),
                Scan::Desync(x) => r matches Err(FrameError::Other(e)) && e == Error::Protocol(x),
            },
    {
        let mut b: Vec<u8> = Vec::new();
        let mut pos: usize = 0;
        loop
            invariant_except_break
                pos <= src@.len(),
                wake_end(src@, pos as int) == preamble_len(src@),
                b@ == src@.subrange(0, pos as int),
            ensures
                pos <= src@.len(),
                pos == preamble_len(src@) + 1,
                src@[pos - 1] == START,
                b@ == src@.subrange(0, pos as int),
            decreases src@.len() - pos,
        {
            let v = match get_u8(src, &mut pos) {
                Ok(v) => v,
                Err(e) => return Err(e),
            };
            if v != WAKE {
                if v == START {
                    b.push(START);
                    break;
                } else {
                    return Err(FrameError::Other(Error::Protocol(v)));
                }
            }
            b.push(WAKE);
        }
        // address
        match get_u8_of(src, &mut pos, 6) {
            Ok(s) => push_all(&mut b, s),
            Err(e) => return Err(e),
        }
        match get_u8_expect(src, &mut pos, START) {
            Ok(()) => {},
            Err(e) => return Err(e),
        }
        b.push(START);
        // control code
        match get_u8(src, &mut pos) {
            Ok(v) => b.push(v),
            Err(e) => return Err(e),
        }
        let len = match get_u8(src, &mut pos) {
            Ok(v) => v,
            Err(e) => return Err(e),
        };
        b.push(len);
        match get_u8_of(src, &mut pos, len as usize) {
            Ok(s) => push_all(&mut b, s),
            Err(e) => return Err(e),
        }
        // checksum and end
        match get_u8_of(src, &mut pos, 2) {
            Ok(s) => push_all(&mut b, s),
            Err(e) => return Err(e),
        }
        proof {
            assert(b@ == src@.subrange(0, pos as int));
            lemma_complete_prefix(src@);
        }
        match ProtocolDataUnit::from_wire(b.as_slice()) {
            Ok(p) => Ok(p),
            Err(e) => Err(FrameError::Other(Error::from(e))),
        }
    }
}

impl From<TryFromError> for Error {
    fn from(e: TryFromError) -> (r: Error) {
        match e {
            TryFromError::INVALID => Error::InvalidFrame,
        }
    }
}

impl vstd::std_specs::convert::FromSpecImpl<TryFromError> for Error {
    open spec fn obeys_from_spec() -> bool {
        true
    }

    open spec fn from_spec(e: TryFromError) -> Error {
        Error::InvalidFrame
    }
}

impl From<FrameError> for Error {
    fn from(e: FrameError) -> (r: Error) {
        match e {
            FrameError::Incomplete => Error::Incomplete,
            FrameError::Other(e) => e,
        }
    }
}

impl vstd::std_specs::convert::FromSpecImpl<FrameError> for Error {
    open spec fn obeys_from_spec() -> bool {
        true
    }

    open spec fn from_spec(e: FrameError) -> Error {
        match e {
            FrameError::Incomplete => Error::Incomplete,
            FrameError::Other(e) => e,
        }
    }
}

impl Default for ProtocolDataUnit {
    fn default() -> (r: Self)
        ensures
            r@ == fresh_model(),
    {
        Self::new()
    }
}

impl TryFrom<Vec<u8>> for ProtocolDataUnit {
    type Error = TryFromError;

    fn try_from(value: Vec<u8>) -> (r: Result<Self, TryFromError>)
        ensures
            match r {
                Ok(p) => decoded(value@) == Some(p@),
                Err(_) => decoded(value@) is None,
            },
    {
        Self::from_wire(value.as_slice())
    }
}

impl<'a> TryFrom<&'a str> for ProtocolDataUnit {
    type Error = TryFromError;

    fn try_from(value: &'a str) -> (r: Result<Self, TryFromError>)
        ensures
            match r {
                Ok(p) => decoded_text(value@) == Some(p@),
                Err(_) => decoded_text(value@) is None,
            },
    {
        Self::from_text(value)
    }
}

impl From<ProtocolDataUnit> for Vec<u8> {
    fn from(pdu: ProtocolDataUnit) -> (r: Vec<u8>)
        ensures
            r@ == encoded(pdu@),
            pdu@.data.len() <= 255,
            pdu@.start == START,
            forall|i: int| 0 <= i < pdu@.front.len() ==> pdu@.front[i] == WAKE,
    {
        pdu.encode()
    }
}

impl From<ProtocolDataUnit> for String {
    fn from(pdu: ProtocolDataUnit) -> (r: String)
        ensures
            r@ == hex_encoded(encoded(pdu@)),
    {
        pdu.encode_hex()
    }
}

// What the conversions return is stated on the impls above; the std traits'
// own spec functions are left open.
impl vstd::std_specs::convert::TryFromSpecImpl<Vec<u8>> for ProtocolDataUnit {
    open spec fn obeys_try_from_spec() -> bool {
        false
    }

    open spec fn try_from_spec(v: Vec<u8>) -> Result<Self, TryFromError> {
        Err(TryFromError::INVALID)
    }
}

impl<'a> vstd::std_specs::convert::TryFromSpecImpl<&'a str> for ProtocolDataUnit {
    open spec fn obeys_try_from_spec() -> bool {
        false
    }

    open spec fn try_from_spec(v: &'a str) -> Result<Self, TryFromError> {
        Err(TryFromError::INVALID)
    }
}

impl vstd::std_specs::convert::FromSpecImpl<ProtocolDataUnit> for Vec<u8> {
    open spec fn obeys_from_spec() -> bool {
        false
    }

    open spec fn from_spec(pdu: ProtocolDataUnit) -> Vec<u8> {
        vstd::pervasive::arbitrary()
    }
}

impl vstd::std_specs::convert::FromSpecImpl<ProtocolDataUnit> for String {
    open spec fn obeys_from_spec() -> bool {
        false
    }

    open spec fn from_spec(pdu: ProtocolDataUnit) -> String {
        vstd::pervasive::arbitrary()
    }
}

} // verus!
