//! Properties that relate several operations of the library.
use crate::codec::decode_step;
use crate::error::Error;
use crate::frame::{
    checksum_of, cmd_model, decoded, encoded, frame_body, lemma_wake_end_agree,
    lemma_wake_end_all_wake, lemma_wake_end_bounds, lemma_wake_end_run, model_at,
    preamble_len, reversed, scan, stuffed_all, PduModel, Scan, START, WAKE,
};
use crate::frame::ProtocolDataUnit;
use crate::link::{link_next, LinkAction, LinkEvent, LinkState};
use vstd::prelude::*;

verus! {

/// The wire bytes of a unit with a preamble of wake-up bytes, a six-byte
/// address and a payload that fits its length byte form one complete frame,
/// which decodes to the same preamble, address, control code, payload and end
/// marker, with the length and checksum that encoding computed.
pub proof fn lemma_encoded_frame(m: PduModel)
    requires
        m.start == START,
        m.address.len() == 6,
        m.data.len() <= 255,
        forall|i: int| 0 <= i < m.front.len() ==> m.front[i] == WAKE,
    ensures
        scan(encoded(m)) == Scan::Complete(encoded(m).len()),
        decoded(encoded(m)) == Some(
            PduModel {
                front: m.front,
                start: START,
                address: m.address,
                c: m.c,
                l: m.data.len() as u8,
                data: m.data,
                cs: checksum_of(frame_body(m)),
                end: m.end,
            },
        ),
{
    let e = encoded(m);
    let f = m.front.len() as int;
    let l = m.data.len() as int;
    assert(e.len() == f + 12 + l);
    assert forall|j: int| 0 <= j < f implies e[j] == WAKE by {
        assert(e[j] == m.front[j]);
    }
    assert(e[f] == START);
    lemma_wake_end_run(e, 0, f);
    assert(e[f + 7] == START);
    assert(e[f + 8] == m.c);
    assert(e[f + 9] == l as u8);
    assert(e[f + 10 + l] == checksum_of(frame_body(m)));
    assert(e[f + 11 + l] == m.end);
    assert(e.subrange(0, f) == m.front);
    assert(e.subrange(f + 1, f + 7) == m.address);
    assert(e.subrange(f + 10, f + 10 + l) == m.data);
}

/// Round trip: the wire bytes of a command to a six-byte address, whose
/// payload fits its length byte, decode (and scan as one complete frame) to a
/// unit with the address in wire order, the same control code and the
/// stuffed data values.
pub proof fn lemma_round_trip(addr: Seq<u8>, c: u8, vs: Seq<Seq<u8>>)
    requires
        addr.len() == 6,
        stuffed_all(vs).len() <= 255,
    ensures
        ({
            let e = encoded(cmd_model(addr, c, vs));
            &&& scan(e) == Scan::Complete(e.len())
            &&& decoded(e) is Some
            &&& decoded(e)->Some_0.address == reversed(addr)
            &&& decoded(e)->Some_0.c == c
            &&& decoded(e)->Some_0.data == stuffed_all(vs)
        }),
{
    lemma_encoded_frame(cmd_model(addr, c, vs));
}

/// The length byte of the wire bytes of any unit is the length of its
/// payload, whatever length the unit held before.
pub proof fn lemma_length_byte(m: PduModel)
    requires
        m.data.len() <= 255,
    ensures
        encoded(m)[m.front.len() + m.address.len() + 3 as int] == m.data.len(),
        encoded(m).subrange(
            m.front.len() + m.address.len() + 4 as int,
            m.front.len() + m.address.len() + 4 + m.data.len() as int,
        ) == m.data,
{
    let e = encoded(m);
    let p = m.front.len() + m.address.len() + 4 as int;
    assert(e.subrange(p, p + m.data.len() as int) =~= m.data);
}

/// A complete frame `f` scans as incomplete when cut short anywhere, and as
/// exactly itself when bytes `t` follow it.
pub proof fn lemma_scan_incremental(f: Seq<u8>, t: Seq<u8>, k: int)
    requires
        scan(f) == Scan::Complete(f.len()),
        0 <= k < f.len(),
    ensures
        scan(f.subrange(0, k)) == Scan::Incomplete,
        scan(f + t) == Scan::Complete(f.len()),
{
    let n = preamble_len(f);
    lemma_wake_end_bounds(f, 0);
    let p = f.subrange(0, k);
    if k <= n {
        lemma_wake_end_all_wake(f, 0, k);
    } else {
        lemma_wake_end_agree(f, p, 0, k);
    }
    lemma_wake_end_agree(f, f + t, 0, f.len() as int);
}

/// A decode step on a buffer that holds a complete frame `f` and then bytes
/// `t` yields the unit that `f` describes and leaves exactly `t`.
pub proof fn lemma_decode_leaves_rest(
    f: Seq<u8>,
    t: Seq<u8>,
    after: Seq<u8>,
    r: Result<Option<ProtocolDataUnit>, Error>,
)
    requires
        scan(f) == Scan::Complete(f.len()),
        decode_step(f + t, after, r),
    ensures
        after == t,
        r matches Ok(Some(p)) && p@ == model_at(f),
{
    lemma_scan_incremental(f, t, 0);
    lemma_wake_end_bounds(f, 0);
    lemma_wake_end_agree(f, f + t, 0, f.len() as int);
    let n = preamble_len(f);
    let l = f[n + 9] as int;
    assert((f + t).subrange(0, n) == f.subrange(0, n));
    assert((f + t).subrange(n + 1, n + 7) == f.subrange(n + 1, n + 7));
    assert((f + t).subrange(n + 10, n + 10 + l) == f.subrange(n + 10, n + 10 + l));
    assert((f + t).subrange(f.len() as int, (f + t).len() as int) == t);
}

/// A buffer whose first byte after the preamble is not the start marker is
/// a protocol error at once, however short it is.
pub proof fn lemma_desync(b: Seq<u8>)
    requires
        preamble_len(b) < b.len(),
        b[preamble_len(b)] != START,
    ensures
        scan(b) == Scan::Desync(b[preamble_len(b)]),
{
}

/// A command without data values has an empty payload, a zero length byte,
/// and decodes to a unit with an empty payload.
pub proof fn lemma_empty_payload(addr: Seq<u8>, c: u8)
    requires
        addr.len() == 6,
    ensures
        ({
            let m = cmd_model(addr, c, Seq::empty());
            &&& m.data.len() == 0
            &&& encoded(m)[m.front.len() + 9 as int] == 0
            &&& decoded(encoded(m)) is Some
            &&& decoded(encoded(m))->Some_0.data.len() == 0
        }),
{
    let m = cmd_model(addr, c, Seq::empty());
    assert(reversed(addr).len() == 6);
    lemma_length_byte(m);
    lemma_encoded_frame(m);
}

/// Each phase of a send has its own deadline: a write that misses it ends
/// the exchange with `Timeout` and no read; a read that misses it, after the
/// write went out, ends it with `Timeout` too. Either way the connection is
/// left open, and a read is never followed by another write in the same
/// exchange.
pub proof fn lemma_timeouts_are_independent(e: LinkEvent)
    ensures
        link_next(LinkState::Open, LinkEvent::SendRequested) == (
            LinkState::Writing,
            LinkAction::Write,
        ),
        link_next(LinkState::Writing, LinkEvent::WriteTimedOut) == (
            LinkState::Open,
            LinkAction::Reply(Err(Error::Timeout)),
        ),
        link_next(LinkState::Writing, LinkEvent::Written) == (LinkState::Reading, LinkAction::Read),
        link_next(LinkState::Reading, LinkEvent::ReadTimedOut) == (
            LinkState::Open,
            LinkAction::Reply(Err(Error::Timeout)),
        ),
        !(link_next(LinkState::Reading, e).1 is Write),
{
}

} // verus!
