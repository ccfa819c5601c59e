//! Images: their digests, and progress on their way.

use vstd::prelude::*;
use crate::digest::{digest_bytes, encode_hex, hex_text, same_bytes, HashAlgorithm, HashWriter};
use crate::text::concat;

verus! {

/// The digest that an image is expected to have.
#[derive(Debug)]
pub enum ImageHash {
    Sha256(Vec<u8>),
}

/// Computes the digest of an image on its way, where one is expected.
pub enum MaybeStreamHasher {
    NoHash,
    Sha256 { hasher: HashWriter, expected: Vec<u8> },
}

/// What is said of an image whose digest is not the expected one.
pub open spec fn mismatch_text(expected: Seq<u8>, found: Seq<u8>) -> Seq<char> {
    "**Image Hash Mismatch:**\nExpected: "@ + hex_text(expected) + "\nFound: "@ + hex_text(found)
        + "\n"@
}

impl MaybeStreamHasher {
    /// The data that was read.
    pub open spec fn consumed(self) -> Seq<u8> {
        match self {
            MaybeStreamHasher::NoHash => Seq::empty(),
            MaybeStreamHasher::Sha256 { hasher, .. } => hasher.written(),
        }
    }

    /// The expected digest.
    pub open spec fn expects(self) -> Option<Seq<u8>> {
        match self {
            MaybeStreamHasher::NoHash => None,
            MaybeStreamHasher::Sha256 { expected, .. } => Some(expected@),
        }
    }

    pub open spec fn wf(self) -> bool {
        self matches MaybeStreamHasher::Sha256 { hasher, .. } ==> hasher.algorithm()
            == HashAlgorithm::Sha256
    }

    /// Nothing was read yet.
    pub fn new(hash: Option<ImageHash>) -> (r: Self)
        ensures
            r.wf(),
            r.consumed() == Seq::<u8>::empty(),
            r.expects() == match hash {
                Some(ImageHash::Sha256(expected)) => Some(expected@),
                None => None,
            },
    {
        match hash {
            Some(ImageHash::Sha256(expected)) => MaybeStreamHasher::Sha256 {
                hasher: HashWriter::new(HashAlgorithm::Sha256),
                expected,
            },
            None => MaybeStreamHasher::NoHash,
        }
    }

    /// Accounts for data that was read: the first `count` bytes of the buffer.
    pub fn read(self, buffer: &[u8], count: usize) -> (r: Self)
        requires
            self.wf(),
            count <= buffer@.len(),
            self.consumed().len() + count <= u64::MAX,
        ensures
            r.wf(),
            r.expects() == self.expects(),
            r.consumed() == if self is NoHash {
                Seq::<u8>::empty()
            } else {
                self.consumed() + buffer@.take(count as int)
            },
    {
        match self {
            MaybeStreamHasher::NoHash => MaybeStreamHasher::NoHash,
            MaybeStreamHasher::Sha256 { hasher, expected } => MaybeStreamHasher::Sha256 {
                hasher: hasher.write(buffer, count),
                expected,
            },
        }
    }

    /// Checks the digest of the data. Without an expected digest there is nothing to check.
    pub fn verify(self) -> (r: Result<(), String>)
        requires
            self.wf(),
        ensures
            ({
                let found = digest_bytes(HashAlgorithm::Sha256.code(), self.consumed());
                match (self.expects(), r) {
                    (None, Ok(_)) => true,
                    (Some(expected), Ok(_)) => expected == found,
                    (Some(expected), Err(message)) => expected != found && message@
                        == mismatch_text(expected, found),
                    (None, Err(_)) => false,
                }
            }),
    {
        match self {
            MaybeStreamHasher::NoHash => Ok(()),
            MaybeStreamHasher::Sha256 { hasher, expected } => {
                let (found, _) = hasher.finalize();
                if same_bytes(expected.as_slice(), found.raw.as_slice()) {
                    return Ok(());
                }
                let first = concat(
                    "**Image Hash Mismatch:**\nExpected: ",
                    encode_hex(expected.as_slice()).as_str(),
                );
                let second = concat(first.as_str(), "\nFound: ");
                let third = concat(
                    second.as_str(),
                    encode_hex(found.raw.as_slice()).as_str(),
                );
                Err(concat(third.as_str(), "\n"))
            },
        }
    }
}

/// How far an update is.
#[derive(Debug, Clone, Copy, PartialEq, Eq, Structural)]
pub struct UpdateState {
    pub bytes_read: u64,
    pub bytes_total: u64,
}

/// How the progress of an update is shown.
#[derive(Debug, Clone, Copy, PartialEq, Eq, Structural)]
pub enum ProgressWidget {
    /// A bar.
    Bar { position: u64, length: u64 },
    /// A spinner, where it is not known how much there is.
    Spinner,
}

/// The progress of an update.
#[derive(Debug, Clone, Copy, PartialEq, Eq, Structural)]
pub struct UpdateStatus {
    pub state: UpdateState,
}

impl UpdateStatus {
    /// Nothing is known yet.
    pub fn new() -> (r: Self)
        ensures
            r.state == (UpdateState { bytes_read: 0, bytes_total: 0 }),
    {
        UpdateStatus { state: UpdateState { bytes_read: 0, bytes_total: 0 } }
    }

    /// Notes progress, where the source knows how much there is and how much was read, and
    /// tells whether it does.
    pub fn record(&mut self, bytes_read: Option<u64>, bytes_total: Option<u64>) -> (r: bool)
        ensures
            r == (bytes_read is Some && bytes_total is Some && bytes_total != Some(0u64)),
            final(self).state == if r {
                UpdateState { bytes_read: bytes_read->0, bytes_total: bytes_total->0 }
            } else {
                old(self).state
            },
    {
        match (bytes_read, bytes_total) {
            (Some(bytes_read), Some(bytes_total)) => {
                if bytes_total == 0 {
                    return false;
                }
                self.state = UpdateState { bytes_read, bytes_total };
                true
            },
            _ => false,
        }
    }

    /// How the progress is shown.
    pub fn widget(&self) -> (r: ProgressWidget)
        ensures
            r == if self.state.bytes_total > 0 {
                ProgressWidget::Bar {
                    position: self.state.bytes_read,
                    length: self.state.bytes_total,
                }
            } else {
                ProgressWidget::Spinner
            },
    {
        if self.state.bytes_total > 0 {
            ProgressWidget::Bar {
                position: self.state.bytes_read,
                length: self.state.bytes_total,
            }
        } else {
            ProgressWidget::Spinner
        }
    }
}

} // verus!
