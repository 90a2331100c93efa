//! The piece store: acceptance of a storage root, the path of each piece,
//! and the caching of what was read.

use crate::cache::is_put_of;
use crate::cache::Cache;
use crate::cache::CacheRecord;
use crate::error::StorageError;
use crate::layout::piece_path;
use crate::layout::piece_path_of;
use crate::layout::pieces_dir;
use crate::layout::pieces_dir_of;
use std::rc::Rc;
use vstd::prelude::*;

verus! {

/// What the filesystem says of a storage root before it is taken into use.
/// The three fields on ownership are the status of a `stat` call on the
/// root, the user id it reported, and the user id of this process; the
/// latter two mean nothing unless the status is 0.
#[derive(Clone, Copy, Debug)]
pub struct RootProbe {
    pub base_exists: bool,
    pub base_is_dir: bool,
    pub stat_status: i32,
    pub owner_uid: u32,
    pub process_uid: u32,
    pub pieces_exists: bool,
    pub pieces_is_dir: bool,
}

/// What remains to be done on disk for an accepted storage root. Nothing
/// here removes or overwrites anything.
#[derive(Clone, Copy, Debug, PartialEq, Eq, Structural)]
pub enum DirAction {
    /// Create the root and the piece directory under it, parents included.
    CreateAll,
    /// Create the piece directory alone, under the root that is there.
    CreatePieces,
    /// Both are in place.
    Keep,
}

/// Why a storage root is refused.
pub enum Refusal {
    BaseNotDirectory,
    StatFailed,
    NotOwner,
    PiecesNotDirectory,
}

/// The ownership check on its own: `Err` where `stat` failed, else whether
/// the owner is this process's user.
pub open spec fn owner_check(stat_status: i32, owner_uid: u32, process_uid: u32) -> Result<
    bool,
    Refusal,
> {
    if stat_status == 0 {
        Ok(owner_uid == process_uid)
    } else {
        Err(Refusal::StatFailed)
    }
}

/// The decision on a storage root. An absent root is created whole. One
/// that exists has to be a directory, then to belong to this user, then to
/// hold either no `.pieces` entry, which is then created, or one that is a
/// directory, which is kept as it is.
pub open spec fn plan_of(probe: RootProbe) -> Result<DirAction, Refusal> {
    if !probe.base_exists {
        Ok(DirAction::CreateAll)
    } else if !probe.base_is_dir {
        Err(Refusal::BaseNotDirectory)
    } else if probe.stat_status != 0 {
        Err(Refusal::StatFailed)
    } else if probe.owner_uid != probe.process_uid {
        Err(Refusal::NotOwner)
    } else if !probe.pieces_exists {
        Ok(DirAction::CreatePieces)
    } else if !probe.pieces_is_dir {
        Err(Refusal::PiecesNotDirectory)
    } else {
        Ok(DirAction::Keep)
    }
}

/// The error that reports `why`: its variant and its message.
pub open spec fn reports(err: StorageError, why: Refusal) -> bool {
    match why {
        Refusal::BaseNotDirectory => err matches StorageError::PathError(msg) && msg@
            == "Provided path exists and is not directory"@,
        Refusal::StatFailed => err matches StorageError::PathError(msg) && msg@
            == "Failed to get stat for path"@,
        Refusal::NotOwner => err matches StorageError::PermissionError(msg) && msg@
            == "Current user not owner of directory at given path"@,
        Refusal::PiecesNotDirectory => err matches StorageError::PathError(msg) && msg@
            == "Invalid pieces path inside of provided path"@,
    }
}

/// What a probe of the same root finds once `action` has been carried out
/// with success. A root created by this process belongs to its user.
pub open spec fn probe_after(probe: RootProbe, action: DirAction) -> RootProbe {
    match action {
        DirAction::CreateAll => RootProbe {
            base_exists: true,
            base_is_dir: true,
            stat_status: 0,
            owner_uid: probe.process_uid,
            process_uid: probe.process_uid,
            pieces_exists: true,
            pieces_is_dir: true,
        },
        DirAction::CreatePieces => RootProbe {
            pieces_exists: true,
            pieces_is_dir: true,
            ..probe
        },
        DirAction::Keep => probe,
    }
}

/// Whether the current user owns a path, from the outcome of `stat` on it
/// and the two user ids.
pub fn _check_if_owner(stat_status: i32, owner_uid: u32, process_uid: u32) -> (res: Result<
    bool,
    StorageError,
>)
    ensures
        match owner_check(stat_status, owner_uid, process_uid) {
            Ok(is_owner) => res == Ok::<bool, StorageError>(is_owner),
            Err(why) => res matches Err(err) && reports(err, why),
        },
{
    if stat_status == 0 {
        Ok(owner_uid == process_uid)
    } else {
        Err(StorageError::PathError("Failed to get stat for path".to_string()))
    }
}

/// Decides on a storage root from what the filesystem says of it.
pub fn plan_root(probe: &RootProbe) -> (res: Result<DirAction, StorageError>)
    ensures
        match plan_of(*probe) {
            Ok(action) => res == Ok::<DirAction, StorageError>(action),
            Err(why) => res matches Err(err) && reports(err, why),
        },
{
    if !probe.base_exists {
        return Ok(DirAction::CreateAll);
    }
    if !probe.base_is_dir {
        return Err(
            StorageError::PathError("Provided path exists and is not directory".to_string()),
        );
    }
    let is_owner = match _check_if_owner(probe.stat_status, probe.owner_uid, probe.process_uid) {
        Ok(is_owner) => is_owner,
        Err(err) => {
            return Err(err);
        },
    };
    if !is_owner {
        return Err(
            StorageError::PermissionError(
                "Current user not owner of directory at given path".to_string(),
            ),
        );
    }
    if probe.pieces_exists {
        if !probe.pieces_is_dir {
            return Err(
                StorageError::PathError("Invalid pieces path inside of provided path".to_string()),
            );
        }
        Ok(DirAction::Keep)
    } else {
        Ok(DirAction::CreatePieces)
    }
}

/// `Rc::clone`: a second handle to the same buffer.
#[verifier::external_body]
fn share(handle: &Rc<Vec<u8>>) -> (other: Rc<Vec<u8>>)
    ensures
        other == *handle,
{
    Rc::clone(handle)
}

/// A piece store over one storage root: the root, the piece directory
/// under it, and the cache of buffers handed out.
pub struct StorageHandler {
    path: String,
    pieces_path: String,
    cache: Cache<Rc<Vec<u8>>>,
}

impl StorageHandler {
    /// The storage root.
    pub closed spec fn root(&self) -> Seq<char> {
        self.path@
    }

    /// The piece directory.
    pub closed spec fn pieces_root(&self) -> Seq<char> {
        self.pieces_path@
    }

    /// The cached buffers by piece index.
    pub closed spec fn cache_view(&self) -> Map<u32, CacheRecord<Rc<Vec<u8>>>> {
        self.cache@
    }

    /// The capacity of the cache.
    pub closed spec fn cache_capacity(&self) -> usize {
        self.cache.capacity()
    }

    /// The piece directory is the root's, and the cache is well formed.
    pub closed spec fn wf(&self) -> bool {
        &&& self.pieces_path@ == pieces_dir_of(self.path@)
        &&& self.cache.wf()
    }

    /// Accepts or refuses `base_path` as a storage root on the strength of
    /// `probe`. On acceptance the store comes with an empty cache of
    /// capacity `cache_size` and with the action that the caller has to
    /// carry out on disk before first use.
    pub fn create(base_path: &str, cache_size: usize, probe: &RootProbe) -> (res: Result<
        (Self, DirAction),
        StorageError,
    >)
        ensures
            match plan_of(*probe) {
                Ok(action) => res matches Ok((handler, todo)) && todo == action && handler.wf()
                    && handler.root() == base_path@ && handler.pieces_root() == pieces_dir_of(
                    base_path@,
                ) && handler.cache_view() == Map::<u32, CacheRecord<Rc<Vec<u8>>>>::empty()
                    && handler.cache_capacity() == cache_size,
                Err(why) => res matches Err(err) && reports(err, why),
            },
    {
        match plan_root(probe) {
            Err(err) => Err(err),
            Ok(action) => {
                let storage_handler = StorageHandler {
                    path: base_path.to_string(),
                    pieces_path: pieces_dir(base_path),
                    cache: Cache::new(cache_size),
                };
                Ok((storage_handler, action))
            },
        }
    }

    /// The storage root.
    pub fn path(&self) -> (p: &str)
        ensures
            p@ == self.root(),
    {
        self.path.as_str()
    }

    /// The piece directory.
    pub fn pieces_path(&self) -> (p: &str)
        ensures
            p@ == self.pieces_root(),
    {
        self.pieces_path.as_str()
    }

    /// The file of piece `piece_index`.
    pub fn _get_piece_path(&self, piece_index: u32) -> (piece_path: String)
        ensures
            piece_path@ == piece_path_of(self.pieces_root(), piece_index),
    {
        piece_path(self.pieces_path.as_str(), piece_index)
    }

    /// Number of buffers in the cache.
    pub fn cache_len(&self) -> (n: usize)
        ensures
            n == self.cache_view().len(),
    {
        self.cache.len()
    }

    /// Whether the cache holds a buffer for `piece_index`.
    pub fn is_cached(&self, piece_index: u32) -> (held: bool)
        ensures
            held == self.cache_view().contains_key(piece_index),
    {
        self.cache.contains(piece_index)
    }

    /// Takes the outcome of reading the file of piece `piece_index`. What
    /// was read is put into a shared buffer, cached under the index and
    /// handed out; a failed read is passed on and leaves the cache alone.
    pub fn retrieve_piece(
        &mut self,
        piece_index: u32,
        read: Result<Vec<u8>, std::io::Error>,
    ) -> (res: Result<Rc<Vec<u8>>, StorageError>)
        requires
            old(self).wf(),
        ensures
            final(self).wf(),
            final(self).root() == old(self).root(),
            final(self).pieces_root() == old(self).pieces_root(),
            final(self).cache_capacity() == old(self).cache_capacity(),
            match read {
                Ok(content) => res matches Ok(buffer) && buffer@ == content@ && exists|ts: u64|
                    #[trigger] is_put_of(
                        old(self).cache_view(),
                        old(self).cache_capacity(),
                        piece_index,
                        buffer,
                        ts,
                        final(self).cache_view(),
                    ),
                Err(cause) => res matches Err(StorageError::IOError(passed)) && passed == cause
                    && final(self).cache_view() == old(self).cache_view(),
            },
            (old(self).cache_capacity() >= 3 && old(self).cache_view().len() <= old(
                self
            ).cache_capacity()) ==> final(self).cache_view().len() <= final(
                self
            ).cache_capacity(),
    {
        match read {
            Err(cause) => {
                let err = StorageError::from(cause);
                assert(err == StorageError::IOError(cause));
                Err(err)
            },
            Ok(file_content) => {
                let ghost content = file_content;
                let file_content = Rc::new(file_content);
                let shared = share(&file_content);
                let ghost before = self.cache@;
                let ghost capacity = self.cache.capacity();
                self.cache.put(piece_index, shared);
                proof {
                    let ts = choose|ts: u64| #[trigger]
                        is_put_of(before, capacity, piece_index, shared, ts, self.cache@);
                    assert(is_put_of(
                        old(self).cache_view(),
                        old(self).cache_capacity(),
                        piece_index,
                        file_content,
                        ts,
                        self.cache_view(),
                    ));
                    assert(file_content@ == content@);
                }
                Ok(file_content)
            },
        }
    }
}

/// A root that was accepted is accepted again once the action has been
/// carried out, and then nothing is left to do.
pub proof fn lemma_create_again_keeps(probe: RootProbe)
    requires
        plan_of(probe) is Ok,
    ensures
        plan_of(probe_after(probe, plan_of(probe)->Ok_0)) == Ok::<DirAction, Refusal>(
            DirAction::Keep,
        ),
{
}

/// A root that exists as a directory of this user, whose `.pieces` entry is
/// absent or a directory, is accepted, and at most the piece directory is
/// created: nothing that is there is touched.
pub proof fn lemma_owned_root_accepted(probe: RootProbe)
    requires
        probe.base_exists,
        probe.base_is_dir,
        probe.stat_status == 0,
        probe.owner_uid == probe.process_uid,
        probe.pieces_exists ==> probe.pieces_is_dir,
    ensures
        plan_of(probe) == Ok::<DirAction, Refusal>(
            if probe.pieces_exists {
                DirAction::Keep
            } else {
                DirAction::CreatePieces
            },
        ),
{
}

/// A root that exists and is no directory is refused with a `PathError`,
/// whatever else holds of it.
pub proof fn lemma_root_file_refused(probe: RootProbe, err: StorageError)
    requires
        probe.base_exists,
        !probe.base_is_dir,
        reports(err, plan_of(probe)->Err_0),
    ensures
        plan_of(probe) == Err::<DirAction, Refusal>(Refusal::BaseNotDirectory),
        err is PathError,
{
}

/// An owned root whose `.pieces` entry exists and is no directory is
/// refused with a `PathError`.
pub proof fn lemma_pieces_file_refused(probe: RootProbe, err: StorageError)
    requires
        probe.base_exists,
        probe.base_is_dir,
        probe.stat_status == 0,
        probe.owner_uid == probe.process_uid,
        probe.pieces_exists,
        !probe.pieces_is_dir,
        reports(err, plan_of(probe)->Err_0),
    ensures
        plan_of(probe) == Err::<DirAction, Refusal>(Refusal::PiecesNotDirectory),
        err is PathError,
{
}

/// A directory that belongs to another user is refused with a
/// `PermissionError`.
pub proof fn lemma_foreign_directory_refused(probe: RootProbe, err: StorageError)
    requires
        probe.base_exists,
        probe.base_is_dir,
        probe.stat_status == 0,
        probe.owner_uid != probe.process_uid,
        reports(err, plan_of(probe)->Err_0),
    ensures
        plan_of(probe) == Err::<DirAction, Refusal>(Refusal::NotOwner),
        err is PermissionError,
{
}

} // verus!
