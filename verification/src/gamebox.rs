use vstd::prelude::*;

use crate::gbx::{has_magic, le_u16};

verus! {

/// The reasons for which a GameBox file is refused.
#[derive(Debug, PartialEq, Eq, Clone, Copy, Structural)]
pub enum GBXError {
    /// The file does not start with `GBX`.
    MissingMagic,
    /// Only version 6 is read.
    UnsupportedVersion(u16),
}

/// Checks the magic and the version of a GameBox file. Its reading of version 6 headers breaks
/// off on the count of external nodes (it reads 3 bytes of 4), so such files are left out.
pub fn try_parse_buffer(buffer: Vec<u8>) -> (r: Result<(), GBXError>)
    requires
        buffer@.len() >= 3,
        has_magic(buffer@) ==> buffer@.len() >= 5 && le_u16(buffer@, 3) != 6,
    ensures
        !has_magic(buffer@) ==> r == Err::<(), GBXError>(GBXError::MissingMagic),
        has_magic(buffer@) ==> r == Err::<(), GBXError>(
            GBXError::UnsupportedVersion(le_u16(buffer@, 3) as u16),
        ),
{
    if !(buffer[0] == 71 && buffer[1] == 66 && buffer[2] == 88) {
        return Err(GBXError::MissingMagic);
    }
    let version = (buffer[3] as u16) + (buffer[4] as u16) * 256;
    Err(GBXError::UnsupportedVersion(version))
}

} // verus!
