//! Building the four endpoint URLs of the session protocol.
//!
//! The entry node reaches the exit node under a base URL that ends with a
//! slash; the relative paths `open`, `upload/{id}`, `download/{id}` and
//! `close/{id}` are appended to it.  URLs are handled as ASCII byte strings;
//! the shell converts them to whatever its HTTP client expects.

use crate::adapter::{chunks_view, flatten, push_chunk};
use crate::id::{encode_id_text, spec_id_text};
use vstd::prelude::*;

verus! {

/// ASCII `/`.
pub const SLASH: u8 = 47;

/// The relative path of the `open` endpoint: `open`.
pub open spec fn spec_open_segment() -> Seq<u8> {
    seq![111u8, 112u8, 101u8, 110u8]
}

/// The leading segment of the `upload` endpoint: `upload/`.
pub open spec fn spec_upload_segment() -> Seq<u8> {
    seq![117u8, 112u8, 108u8, 111u8, 97u8, 100u8, SLASH]
}

/// The leading segment of the `download` endpoint: `download/`.
pub open spec fn spec_download_segment() -> Seq<u8> {
    seq![100u8, 111u8, 119u8, 110u8, 108u8, 111u8, 97u8, 100u8, SLASH]
}

/// The leading segment of the `close` endpoint: `close/`.
pub open spec fn spec_close_segment() -> Seq<u8> {
    seq![99u8, 108u8, 111u8, 115u8, 101u8, SLASH]
}

/// Append relative path segments to a base URL that ends with `/`.  Every
/// segment but the last must itself end with `/`, so that the result again
/// splits at segment boundaries.
pub fn join_url(base: &Vec<u8>, segments: &Vec<Vec<u8>>) -> (r: Vec<u8>)
    requires
        base@.len() > 0,
        base@.last() == SLASH,
        segments@.len() > 0,
        forall|i: int|
            0 <= i < segments@.len() - 1 ==> (#[trigger] segments@[i])@.len() > 0
                && segments@[i]@.last() == SLASH,
    ensures
        r@ == base@ + flatten(chunks_view(segments@)),
{
    let ghost all = chunks_view(segments@);
    let mut out: Vec<u8> = Vec::new();
    push_chunk(&mut out, base.as_slice());
    proof {
        assert(out@ =~= base@ + flatten(all.take(0)));
    }
    let mut i: usize = 0;
    while i < segments.len()
        invariant
            i <= segments@.len(),
            all == chunks_view(segments@),
            out@ == base@ + flatten(all.take(i as int)),
        decreases segments@.len() - i,
    {
        push_chunk(&mut out, segments[i].as_slice());
        proof {
            assert(all.take(i + 1).drop_last() =~= all.take(i as int));
            assert(all.take(i + 1).last() == segments@[i as int]@);
        }
        i = i + 1;
    }
    proof {
        assert(all.take(segments@.len() as int) =~= all);
    }
    out
}

/// Push the bytes of a fixed endpoint segment.
fn push_open_segment(out: &mut Vec<u8>)
    ensures
        final(out)@ == old(out)@ + spec_open_segment(),
{
    out.push(111);
    out.push(112);
    out.push(101);
    out.push(110);
}

fn push_upload_segment(out: &mut Vec<u8>)
    ensures
        final(out)@ == old(out)@ + spec_upload_segment(),
{
    out.push(117);
    out.push(112);
    out.push(108);
    out.push(111);
    out.push(97);
    out.push(100);
    out.push(SLASH);
}

fn push_download_segment(out: &mut Vec<u8>)
    ensures
        final(out)@ == old(out)@ + spec_download_segment(),
{
    out.push(100);
    out.push(111);
    out.push(119);
    out.push(110);
    out.push(108);
    out.push(111);
    out.push(97);
    out.push(100);
    out.push(SLASH);
}

fn push_close_segment(out: &mut Vec<u8>)
    ensures
        final(out)@ == old(out)@ + spec_close_segment(),
{
    out.push(99);
    out.push(108);
    out.push(111);
    out.push(115);
    out.push(101);
    out.push(SLASH);
}

/// The URL that opens a session: `{base}open`.
pub fn open_url(base: &Vec<u8>) -> (r: Vec<u8>)
    requires
        base@.len() > 0,
        base@.last() == SLASH,
    ensures
        r@ == base@ + spec_open_segment(),
{
    let mut out: Vec<u8> = Vec::new();
    push_chunk(&mut out, base.as_slice());
    push_open_segment(&mut out);
    out
}

/// The URL that uploads into a session: `{base}upload/{id}`.
pub fn upload_url(base: &Vec<u8>, id: u128) -> (r: Vec<u8>)
    requires
        base@.len() > 0,
        base@.last() == SLASH,
    ensures
        r@ == base@ + spec_upload_segment() + spec_id_text(id),
{
    let mut out: Vec<u8> = Vec::new();
    push_chunk(&mut out, base.as_slice());
    push_upload_segment(&mut out);
    let text = encode_id_text(id);
    push_chunk(&mut out, text.as_slice());
    out
}

/// The URL that downloads from a session: `{base}download/{id}`.
pub fn download_url(base: &Vec<u8>, id: u128) -> (r: Vec<u8>)
    requires
        base@.len() > 0,
        base@.last() == SLASH,
    ensures
        r@ == base@ + spec_download_segment() + spec_id_text(id),
{
    let mut out: Vec<u8> = Vec::new();
    push_chunk(&mut out, base.as_slice());
    push_download_segment(&mut out);
    let text = encode_id_text(id);
    push_chunk(&mut out, text.as_slice());
    out
}

/// The URL that closes a session: `{base}close/{id}`.
pub fn close_url(base: &Vec<u8>, id: u128) -> (r: Vec<u8>)
    requires
        base@.len() > 0,
        base@.last() == SLASH,
    ensures
        r@ == base@ + spec_close_segment() + spec_id_text(id),
{
    let mut out: Vec<u8> = Vec::new();
    push_chunk(&mut out, base.as_slice());
    push_close_segment(&mut out);
    let text = encode_id_text(id);
    push_chunk(&mut out, text.as_slice());
    out
}

} // verus!
