//! Content sniffing: a file counts as a PDF exactly when its first four
//! bytes are the signature `%PDF`, whatever its name or extension says.

use vstd::prelude::*;

verus! {

/// The four-byte signature that opens every PDF document: `%PDF`.
pub open spec fn pdf_signature() -> Seq<u8> {
    seq![0x25u8, 0x50u8, 0x44u8, 0x46u8]
}

/// A head of a file sniffs as a PDF when at least four bytes could be read
/// and the first four equal the signature.
pub open spec fn is_pdf_head(b: Seq<u8>) -> bool {
    b.len() >= 4 && b.subrange(0, 4) == pdf_signature()
}

/// Classify a file by the bytes read from its head. The caller hands over
/// whatever bytes it could read (fewer than four when the file is shorter,
/// none at all when it could not be opened), so an unreadable or short file
/// always classifies as non-PDF rather than as an error.
pub fn sniff_head(head: &[u8]) -> (r: bool)
    ensures
        r == is_pdf_head(head@),
{
    if head.len() < 4 {
        return false;
    }
    let r = head[0] == 0x25 && head[1] == 0x50 && head[2] == 0x44 && head[3] == 0x46;
    proof {
        assert(head@.subrange(0, 4) =~= seq![head@[0], head@[1], head@[2], head@[3]]);
    }
    r
}

} // verus!
