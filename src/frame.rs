use vstd::prelude::*;
use crate::extract::{extract, extract_spec, nul_padding, string_views, ExtractError};

verus! {

/// The most bytes read from one connection.
pub const MAX_NOTIFICATION_LENGTH: usize = 1024;

/// The frame that holds what a connection delivered: at most the first
/// `MAX_NOTIFICATION_LENGTH` bytes, padded with NUL bytes to that length.
pub open spec fn frame_of(received: Seq<u8>) -> Seq<u8> {
    let n = if received.len() <= MAX_NOTIFICATION_LENGTH {
        received.len()
    } else {
        MAX_NOTIFICATION_LENGTH as nat
    };
    received.take(n as int) + nul_padding((MAX_NOTIFICATION_LENGTH - n) as nat)
}

/// A fixed-capacity buffer filled by one read from one connection; what was
/// not read is NUL.
pub struct RawFrame {
    bytes: Vec<u8>,
}

impl View for RawFrame {
    type V = Seq<u8>;

    closed spec fn view(&self) -> Seq<u8> {
        self.bytes@
    }
}

impl RawFrame {
    /// The frame of the bytes that a connection delivered; bytes past the
    /// capacity are dropped.
    pub fn from_received(received: &[u8]) -> (f: RawFrame)
        ensures
            f@ == frame_of(received@),
            f@.len() == MAX_NOTIFICATION_LENGTH,
    {
        let n: usize = if received.len() <= MAX_NOTIFICATION_LENGTH {
            received.len()
        } else {
            MAX_NOTIFICATION_LENGTH
        };
        let mut bytes: Vec<u8> = Vec::with_capacity(MAX_NOTIFICATION_LENGTH);
        let mut i: usize = 0;
        while i < MAX_NOTIFICATION_LENGTH
            invariant
                n <= received@.len(),
                n <= MAX_NOTIFICATION_LENGTH,
                n == if received@.len() <= MAX_NOTIFICATION_LENGTH {
                    received@.len()
                } else {
                    MAX_NOTIFICATION_LENGTH as nat
                },
                i <= MAX_NOTIFICATION_LENGTH,
                bytes@.len() == i,
                forall|k: int| 0 <= k < i ==> bytes@[k] == frame_of(received@)[k],
            decreases MAX_NOTIFICATION_LENGTH - i,
        {
            if i < n {
                bytes.push(received[i]);
            } else {
                bytes.push(0u8);
            }
            i = i + 1;
        }
        assert(bytes@ =~= frame_of(received@));
        RawFrame { bytes }
    }

    /// The bytes of the frame.
    pub fn as_bytes(&self) -> (b: &[u8])
        ensures
            b@ == self@,
    {
        self.bytes.as_slice()
    }

    /// The lines that the frame is shown as.
    pub fn message(&self) -> (r: Result<Vec<String>, ExtractError>)
        ensures
            match r {
                Ok(lines) => extract_spec(self@) == Ok::<Seq<Seq<char>>, ExtractError>(
                    string_views(lines@),
                ),
                Err(e) => extract_spec(self@) == Err::<Seq<Seq<char>>, ExtractError>(e),
            },
    {
        extract(self.bytes.as_slice())
    }
}

} // verus!
