use vstd::prelude::*;

verus! {

/// The 16-byte signature that opens every SQLite database file:
/// the ASCII text `SQLite format 3` followed by a NUL byte.
pub open spec fn spec_sqlite3_signature() -> Seq<u8> {
    seq![
        0x53u8, 0x51, 0x4c, 0x69, 0x74, 0x65, 0x20, 0x66,
        0x6f, 0x72, 0x6d, 0x61, 0x74, 0x20, 0x33, 0x00,
    ]
}

/// A byte sequence opens a database file exactly when it is at least 16
/// bytes long and its first 16 bytes equal the signature.
pub open spec fn spec_is_sqlite3_header(h: Seq<u8>) -> bool {
    h.len() >= 16 && h.subrange(0, 16) == spec_sqlite3_signature()
}

/// One byte of the signature.
fn signature_byte(i: usize) -> (b: u8)
    requires
        i < 16,
    ensures
        b == spec_sqlite3_signature()[i as int],
{
    let b: u8 = if i == 0 {
        0x53
    } else if i == 1 {
        0x51
    } else if i == 2 {
        0x4c
    } else if i == 3 {
        0x69
    } else if i == 4 {
        0x74
    } else if i == 5 {
        0x65
    } else if i == 6 {
        0x20
    } else if i == 7 {
        0x66
    } else if i == 8 {
        0x6f
    } else if i == 9 {
        0x72
    } else if i == 10 {
        0x6d
    } else if i == 11 {
        0x61
    } else if i == 12 {
        0x74
    } else if i == 13 {
        0x20
    } else if i == 14 {
        0x33
    } else {
        0x00
    };
    b
}

/// The file classifier: decides whether the leading bytes of a file mark it
/// as a SQLite database. `header` holds the first bytes of the file (reading
/// may stop after 16); a short read, and any content other than the
/// signature, classifies as false.
pub fn is_sqlite3_header(header: &Vec<u8>) -> (r: bool)
    ensures
        r == spec_is_sqlite3_header(header@),
{
    if header.len() < 16 {
        return false;
    }
    let mut i: usize = 0;
    while i < 16
        invariant
            i <= 16,
            header@.len() >= 16,
            forall|j: int| 0 <= j < i ==> header@[j] == spec_sqlite3_signature()[j],
        decreases 16 - i,
    {
        if header[i] != signature_byte(i) {
            proof {
                assert(header@.subrange(0, 16)[i as int] == header@[i as int]);
            }
            return false;
        }
        i += 1;
    }
    proof {
        assert(header@.subrange(0, 16) =~= spec_sqlite3_signature());
    }
    true
}

} // verus!
