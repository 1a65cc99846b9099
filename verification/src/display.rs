//! What the display of a device is handed.

use vstd::prelude::*;
use crate::text::Text;

verus! {

/// What is written to the display for `data`: its ASCII characters, in order,
/// and a closing zero byte.
pub open spec fn display_bytes(data: Text) -> Seq<u8> {
    data.filter(|c: char| (c as u32) < 0x80).map_values(|c: char| c as u8).push(0u8)
}

/// The zero-terminated bytes that the display is handed for `data`.
pub fn write_to_display(data: &String) -> (bytes: Vec<u8>)
    ensures
        bytes@ == display_bytes(data@),
{
    let mut bytes: Vec<u8> = Vec::new();
    let ghost keep = |c: char| (c as u32) < 0x80;
    let ghost byte = |c: char| c as u8;
    assert(data@.take(0) =~= seq![]);
    assert(bytes@ =~= data@.take(0).filter(keep).map_values(byte)) by {
        reveal(Seq::filter);
    }
    for c in it: data.as_str().chars()
        invariant
            it.seq() == data@,
            keep == (|c: char| (c as u32) < 0x80),
            byte == (|c: char| c as u8),
            bytes@ == data@.take(it.index()).filter(keep).map_values(byte),
    {
        let ghost done = data@.take(it.index());
        proof {
            done.lemma_filter_push(c, keep);
            assert(data@.take(it.index() + 1) =~= done.push(c));
        }
        if (c as u32) < 0x80 {
            proof {
                assert(done.filter(keep).push(c).map_values(byte) =~= done.filter(
                    keep,
                ).map_values(byte).push(byte(c)));
            }
            bytes.push(c as u8);
        }
    }
    assert(data@.take(data@.len() as int) =~= data@);
    bytes.push(0u8);
    bytes
}

} // verus!
