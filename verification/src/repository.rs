//! The storage sink of a run: two append-only streams, one that holds every
//! stored page compressed and one that holds it raw.

use crate::text::utf8;
use vstd::prelude::*;
use vstd::string::StrSliceExecFns;
use vstd::string::StringExecFns;

verus! {

/// What one stored page adds to the two streams.
#[derive(Debug)]
pub struct StoredPage {
    pub compressed: Vec<u8>,
    pub uncompressed: Vec<u8>,
}

/// Why a page could not be stored.
#[derive(Clone, Copy, Debug, PartialEq, Eq, Structural)]
pub enum StoreError {
    /// The page could not be compressed.
    Compression,
    /// A stream would grow beyond what a file can hold.
    StreamFull,
}

/// The zlib stream that `flate2::write::ZlibEncoder` makes of the bytes of a
/// text at `flate2::Compression::best`, or `None` where it reports an error.
pub uninterp spec fn zlib_best(content: Seq<char>) -> Option<Seq<u8>>;

/// The mathematical value of optional bytes.
pub open spec fn bytes_view(bytes: Option<Vec<u8>>) -> Option<Seq<u8>> {
    match bytes {
        Some(b) => Some(b@),
        None => None,
    }
}

/// Calls `ZlibEncoder::new` with a `Vec` to write to and `Compression::best`,
/// then `write_all` and `finish`. The contract names the result and claims
/// only that it is a function of the text.
#[verifier::external_body]
fn compress(content: &str) -> (r: Option<Vec<u8>>)
    ensures
        bytes_view(r) == zlib_best(content@),
{
    let mut encoder = flate2::write::ZlibEncoder::new(Vec::new(), flate2::Compression::best());
    std::io::Write::write_all(&mut encoder, content.as_bytes()).ok()?;
    encoder.finish().ok()
}

/// The contents of the two streams.
pub struct RepositoryView {
    pub compressed: Seq<u8>,
    pub uncompressed: Seq<u8>,
}

impl RepositoryView {
    /// Two empty streams.
    pub open spec fn empty() -> RepositoryView {
        RepositoryView { compressed: Seq::empty(), uncompressed: Seq::empty() }
    }

    /// Both streams fit in a file.
    pub open spec fn wf(self) -> bool {
        &&& self.compressed.len() <= u64::MAX
        &&& self.uncompressed.len() <= u64::MAX
    }

    /// The streams after a page is stored, or why it cannot be: the page
    /// compressed is appended to one stream and its bytes to the other.
    pub open spec fn store(self, content: Seq<char>) -> Result<RepositoryView, StoreError> {
        match zlib_best(content) {
            None => Err(StoreError::Compression),
            Some(packed) => if self.compressed.len() + packed.len() > u64::MAX
                || self.uncompressed.len() + utf8(content).len() > u64::MAX {
                Err(StoreError::StreamFull)
            } else {
                Ok(
                    RepositoryView {
                        compressed: self.compressed + packed,
                        uncompressed: self.uncompressed + utf8(content),
                    },
                )
            },
        }
    }
}

/// The storage sink of one run. It frames what is appended to the two streams
/// and keeps their lengths; appending the bytes to durable storage is left to
/// the caller.
pub struct Repository {
    compressed_bytes: u64,
    uncompressed_bytes: u64,
    compressed: Ghost<Seq<u8>>,
    uncompressed: Ghost<Seq<u8>>,
}

impl View for Repository {
    type V = RepositoryView;

    closed spec fn view(&self) -> RepositoryView {
        RepositoryView { compressed: self.compressed@, uncompressed: self.uncompressed@ }
    }
}

impl Repository {
    /// The lengths kept are those of the streams.
    pub closed spec fn counted(&self) -> bool {
        &&& self.compressed_bytes == self.compressed@.len()
        &&& self.uncompressed_bytes == self.uncompressed@.len()
    }

    /// The streams fit in a file, and their lengths are kept.
    pub open spec fn wf(&self) -> bool {
        &&& self@.wf()
        &&& self.counted()
    }

    /// The sink of a run that has stored nothing yet.
    pub fn new() -> (repo: Repository)
        ensures
            repo.wf(),
            repo@ == RepositoryView::empty(),
    {
        Repository {
            compressed_bytes: 0,
            uncompressed_bytes: 0,
            compressed: Ghost(Seq::empty()),
            uncompressed: Ghost(Seq::empty()),
        }
    }

    /// The names of the two streams of a run that is known by `stamp`: the
    /// compressed stream first, the raw stream second.
    pub fn file_names(stamp: &str) -> (names: (String, String))
        ensures
            names.0@ == "repo-"@ + stamp@ + ".zlib"@,
            names.1@ == "repo-"@ + stamp@ + ".txt"@,
    {
        let mut compressed = String::from_str("repo-");
        compressed.append(stamp);
        compressed.append(".zlib");
        let mut uncompressed = String::from_str("repo-");
        uncompressed.append(stamp);
        uncompressed.append(".txt");
        (compressed, uncompressed)
    }

    /// Stores a page: returns what to append to each stream and counts it in.
    /// Where the page cannot be stored, nothing changes.
    pub fn store(&mut self, content: &str) -> (r: Result<StoredPage, StoreError>)
        requires
            old(self).wf(),
        ensures
            final(self).wf(),
            match r {
                Ok(page) => {
                    &&& old(self)@.store(content@) == Ok::<RepositoryView, StoreError>(final(self)@)
                    &&& Some(page.compressed@) == zlib_best(content@)
                    &&& page.uncompressed@ == utf8(content@)
                },
                Err(e) => {
                    &&& old(self)@.store(content@) == Err::<RepositoryView, StoreError>(e)
                    &&& final(self)@ == old(self)@
                },
            },
    {
        match compress(content) {
            None => Err(StoreError::Compression),
            Some(compressed) => {
                let uncompressed = content.as_bytes_vec();
                if compressed.len() as u64 > u64::MAX - self.compressed_bytes
                    || uncompressed.len() as u64 > u64::MAX - self.uncompressed_bytes {
                    Err(StoreError::StreamFull)
                } else {
                    self.compressed_bytes = self.compressed_bytes + compressed.len() as u64;
                    self.uncompressed_bytes = self.uncompressed_bytes + uncompressed.len() as u64;
                    proof {
                        self.compressed@ = self.compressed@ + compressed@;
                        self.uncompressed@ = self.uncompressed@ + uncompressed@;
                    }
                    Ok(StoredPage { compressed, uncompressed })
                }
            },
        }
    }

    /// The length of the compressed stream.
    pub fn compressed_bytes(&self) -> (len: u64)
        requires
            self.wf(),
        ensures
            len == self@.compressed.len(),
    {
        self.compressed_bytes
    }

    /// The length of the raw stream.
    pub fn uncompressed_bytes(&self) -> (len: u64)
        requires
            self.wf(),
        ensures
            len == self@.uncompressed.len(),
    {
        self.uncompressed_bytes
    }
}

} // verus!
