//! Decoding of the records read from an inotify descriptor.

use vstd::prelude::*;
use vstd::slice::slice_subrange;
pub use crate::runtime::inotify::InotifyEvent;

verus! {

/// Size of a record's fixed part: descriptor, mask, cookie and name length.
pub const INOTIFY_EVENT_SIZE: usize = 16;

/// The `u32` that four bytes hold in the machine's byte order.
pub uninterp spec fn ne_u32_of(bytes: Seq<u8>) -> u32;

/// `u32::from_ne_bytes` on four bytes, named by `ne_u32_of`.
#[verifier::external_body]
fn ne_u32(bytes: &[u8]) -> (r: u32)
    requires
        bytes@.len() == 4,
    ensures
        r == ne_u32_of(bytes@),
{
    let mut b = [0u8; 4];
    b.copy_from_slice(bytes);
    u32::from_ne_bytes(b)
}

/// The record at the start of `buf`, with its whole size, if it is complete.
pub open spec fn record_at(buf: Seq<u8>) -> Option<(InotifyEvent, int)> {
    if buf.len() < INOTIFY_EVENT_SIZE {
        None
    } else {
        let name_len = ne_u32_of(buf.subrange(12, 16));
        let size = INOTIFY_EVENT_SIZE + name_len;
        if size > buf.len() {
            None
        } else {
            Some(
                (
                    InotifyEvent {
                        wd: ne_u32_of(buf.subrange(0, 4)) as i32,
                        mask: ne_u32_of(buf.subrange(4, 8)),
                        name_len,
                    },
                    size,
                ),
            )
        }
    }
}

/// The complete records of `buf`, in order; a trailing partial record is
/// dropped.
pub open spec fn records(buf: Seq<u8>) -> Seq<InotifyEvent>
    decreases buf.len(),
{
    match record_at(buf) {
        Some((e, size)) => if size > 0 {
            seq![e] + records(buf.skip(size))
        } else {
            seq![]
        },
        None => seq![],
    }
}

fn record_field(buf: &[u8], at: usize) -> (r: u32)
    requires
        at + 4 <= buf@.len(),
    ensures
        r == ne_u32_of(buf@.subrange(at as int, at + 4)),
{
    let _len = buf.len();
    ne_u32(slice_subrange(buf, at, at + 4))
}

/// Decodes the records read from an inotify descriptor (see `records`).
pub fn decode_events(buf: &[u8]) -> (r: Vec<InotifyEvent>)
    ensures
        r@ == records(buf@),
{
    let mut events: Vec<InotifyEvent> = Vec::new();
    let mut offset: usize = 0;
    let n = buf.len();
    assert(buf@.skip(0) =~= buf@);
    while n - offset >= INOTIFY_EVENT_SIZE
        invariant
            n == buf@.len(),
            offset <= n,
            records(buf@) == events@ + records(buf@.skip(offset as int)),
        decreases n - offset,
    {
        let ghost rest = buf@.skip(offset as int);
        let name_len = record_field(buf, offset + 12);
        assert(buf@.subrange(offset + 12, offset + 16) =~= rest.subrange(12, 16));
        if name_len as usize > n - offset - INOTIFY_EVENT_SIZE {
            assert(records(rest) =~= Seq::<InotifyEvent>::empty());
            assert(events@ + Seq::<InotifyEvent>::empty() =~= events@);
            return events;
        }
        let size = INOTIFY_EVENT_SIZE + name_len as usize;
        let wd = record_field(buf, offset);
        let mask = record_field(buf, offset + 4);
        assert(buf@.subrange(offset as int, offset + 4) =~= rest.subrange(0, 4));
        assert(buf@.subrange(offset + 4, offset + 8) =~= rest.subrange(4, 8));
        let e = InotifyEvent { wd: wd as i32, mask, name_len };
        let ghost before = events@;
        events.push(e);
        proof {
            assert(rest.skip(size as int) =~= buf@.skip(offset + size));
            assert(records(rest) == seq![e] + records(rest.skip(size as int)));
            assert(events@ =~= before + seq![e]);
            assert(before + (seq![e] + records(buf@.skip(offset + size))) =~= events@ + records(
                buf@.skip(offset + size),
            ));
        }
        offset = offset + size;
    }
    proof {
        let rest = buf@.skip(offset as int);
        assert(records(rest) =~= Seq::<InotifyEvent>::empty());
        assert(events@ + Seq::<InotifyEvent>::empty() =~= events@);
    }
    events
}

} // verus!
