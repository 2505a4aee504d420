//! The storage engine: the whole store as an ordered sequence of records,
//! held in memory behind the backing file's path. The owner of a
//! [`FileStorage`] performs the file access itself: it builds the store
//! from the file's bytes with [`FileStorage::from_bytes`] (an absent file
//! stands for the empty store) and writes back [`FileStorage::to_bytes`]
//! after a change. Plain truncate-and-write of that blob is not atomic
//! against crashes: a crash in the middle of a write can corrupt the whole
//! store, a known limitation.

use vstd::prelude::*;

use crate::codec::{decode_store, encode_store, spec_dec_store, spec_enc_store};
use crate::errors::StorageError;
use crate::nft::{NftModel, NFT};

verus! {

/// The record store behind one backing file.
#[derive(Debug)]
pub struct FileStorage {
    /// Where the store lives on disk. The path is carried, not opened: the
    /// owner of this value does the file access.
    pub file_path: String,
    records: Vec<NFT>,
}

impl View for FileStorage {
    type V = Seq<NftModel>;

    /// The store's contents: its records, in order, as models.
    closed spec fn view(&self) -> Seq<NftModel> {
        self.records.deep_view()
    }
}

impl FileStorage {
    /// The backing file path this store is bound to.
    pub closed spec fn spec_path(&self) -> Seq<char> {
        self.file_path@
    }
}

/// Law: save-all followed by load-all yields the saved sequence, for any
/// sequence including the empty one. [`FileStorage::save_all`] ensures the
/// store's contents become exactly the given records, and
/// [`FileStorage::load_all`] ensures it returns the store's contents
/// unchanged; so records read back equal records saved.
pub proof fn lemma_save_then_load(
    saved: Seq<NftModel>,
    contents: Seq<NftModel>,
    loaded: Seq<NftModel>,
)
    requires
        contents == saved,
        loaded == contents,
    ensures
        loaded == saved,
{
}

/// Law: Read is idempotent. [`FileStorage::load_all`] leaves the store as
/// it was and returns its contents; so two reads with no write between —
/// the store holds `contents` at the first read and still at the second —
/// return identical results.
pub proof fn lemma_read_idempotent(
    contents: Seq<NftModel>,
    first: Seq<NftModel>,
    second: Seq<NftModel>,
)
    requires
        first == contents,
        second == contents,
    ensures
        first == second,
{
}

/// A copy of the given records, element for element.
fn clone_records(v: &[NFT]) -> (r: Vec<NFT>)
    ensures
        r@ == v@,
{
    let n = v.len();
    let mut out: Vec<NFT> = Vec::new();
    let mut i: usize = 0;
    while i < n
        invariant
            i <= n,
            n == v@.len(),
            out@ == v@.take(i as int),
        decreases n - i,
    {
        out.push(v[i].clone());
        proof {
            assert(out@ =~= v@.take(i + 1));
        }
        i = i + 1;
    }
    proof {
        assert(v@.take(n as int) =~= v@);
    }
    out
}

impl FileStorage {
    /// An empty store bound to the given backing file path.
    pub fn new(file_path: &str) -> (r: FileStorage)
        ensures
            r@ == Seq::<NftModel>::empty(),
            r.spec_path() == file_path@,
    {
        let r = FileStorage { file_path: file_path.to_owned(), records: Vec::new() };
        proof {
            assert(r.records.deep_view() =~= Seq::<NftModel>::empty());
        }
        r
    }

    /// All records, in store order, leaving the store as it was. It cannot
    /// fail: the whole store is already in memory, and the owner told file
    /// access apart when building the store from bytes.
    pub fn load_all(&mut self) -> (r: Result<Vec<NFT>, StorageError>)
        ensures
            *final(self) == *old(self),
            r matches Ok(v) && v.deep_view() == old(self)@,
    {
        Ok(clone_records(self.records.as_slice()))
    }

    /// Replaces the store's contents with the given records, as they are:
    /// no validation and no key check happens here.
    pub fn save_all(&mut self, nfts: &[NFT]) -> (r: Result<(), StorageError>)
        ensures
            final(self)@ == nfts.deep_view(),
            final(self).spec_path() == old(self).spec_path(),
            r is Ok,
    {
        self.records = clone_records(nfts);
        Ok(())
    }

    /// Appends one record to the store. No duplicate-key check happens
    /// here: saving the same token identifier twice keeps two records with
    /// the same key, a documented quirk of this engine.
    pub fn save(&mut self, nft: &NFT) -> (r: Result<(), StorageError>)
        ensures
            final(self)@ == old(self)@.push(nft@),
            final(self).spec_path() == old(self).spec_path(),
            r is Ok,
    {
        self.records.push(nft.clone());
        proof {
            assert(self.records.deep_view() =~= old(self).records.deep_view().push(nft@));
        }
        Ok(())
    }

    /// The whole store as one byte blob, ready to be written to the
    /// backing file.
    pub fn to_bytes(&self) -> (r: Vec<u8>)
        ensures
            r@ == spec_enc_store(self@),
    {
        encode_store(&self.records)
    }

    /// The store read back from the backing file's contents: `None` stands
    /// for an absent file and yields the empty store, not an error; bytes
    /// that do not decode as a store yield a decode error and touch
    /// nothing.
    pub fn from_bytes(file_path: &str, contents: Option<&Vec<u8>>) -> (r: Result<
        FileStorage,
        StorageError,
    >)
        ensures
            contents is None ==> (r matches Ok(st) && st@ == Seq::<NftModel>::empty()
                && st.spec_path() == file_path@),
            contents matches Some(b) ==> match spec_dec_store(b@) {
                Some(s) => r matches Ok(st) && st@ == s && st.spec_path() == file_path@,
                None => r == Err::<FileStorage, _>(StorageError::Decode),
            },
    {
        match contents {
            None => Ok(FileStorage::new(file_path)),
            Some(bytes) => match decode_store(bytes) {
                Some(records) => Ok(
                    FileStorage { file_path: file_path.to_owned(), records },
                ),
                None => Err(StorageError::Decode),
            },
        }
    }
}

} // verus!
