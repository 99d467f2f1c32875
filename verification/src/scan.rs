//! The remote-tree scan as a state machine. The remote storage client is
//! an external collaborator: the caller asks `next_action` what to do,
//! performs the listing or authentication call, and hands each folder
//! listing back through `ingest`.
//!
//! Authentication is requested exactly once, before the first listing.
//! Roots are visited in input order, and when recursion is enabled a
//! folder's children are placed at the front of the queue, ahead of the
//! remaining roots: each root's whole subtree is listed before the next
//! root, so the accepted files stay grouped by root in input order.
//! Files are accumulated in listing order and filtered as they arrive,
//! so the final list is deterministic given the listings.

use crate::filter::has_archive_extension;
use crate::filter::has_title_id_token;
use crate::filter::keep_file;
use crate::filter::lemma_filter_take_step;
use crate::filter::spec_keep;
use crate::index::parsed_matches;
use crate::index::percent_encoded;
use crate::index::FileInfo;
use crate::index::ParsedFileInfo;
use vstd::prelude::*;
use vstd::utf8::encode_utf8;

verus! {

/// One folder listing as the remote store reports it: the files directly
/// inside, and the identifiers of the child folders.
pub struct FolderListing {
    pub files: Vec<FileInfo>,
    pub folders: Vec<String>,
}

/// What the scan needs next from the remote storage client.
pub enum ScanAction {
    /// Authenticate (or refresh a cached credential); asked exactly once,
    /// before the first listing.
    Authenticate,
    /// List the children of this folder.
    ListFolder(String),
    /// Every reachable folder has been listed.
    Done,
}

/// The filter predicate over a raw descriptor: what `spec_keep` says of
/// its parsed form.
pub open spec fn keep_raw(f: FileInfo, allow_non_nsw: bool, allow_missing_title_id: bool) -> bool {
    &&& (allow_non_nsw || has_archive_extension(encode_utf8(f.name@)))
    &&& (allow_missing_title_id || has_title_id_token(percent_encoded(encode_utf8(f.name@))))
}

/// The scan in progress: the folder queue, the authentication state, the
/// policies, and the files accepted so far.
pub struct ScanState {
    /// Folders not yet listed; the front is next.
    pub pending: Vec<String>,
    /// Whether the client has authenticated this run.
    pub authenticated: bool,
    /// Whether child folders are visited too.
    pub recursion: bool,
    /// Extension-policy override.
    pub allow_non_nsw: bool,
    /// Identifier-policy override.
    pub allow_missing_title_id: bool,
    /// The accepted files, in discovery order.
    pub files: Vec<ParsedFileInfo>,
}

/// An exact copy of a raw descriptor.
fn copy_info(f: &FileInfo) -> (r: FileInfo)
    ensures
        r == *f,
{
    FileInfo {
        id: f.id.clone(),
        size: f.size.clone(),
        name: f.name.clone(),
        shared: f.shared,
    }
}

impl ScanState {
    /// Starts a scan of the given root folders.
    pub fn new(
        roots: Vec<String>,
        recursion: bool,
        allow_non_nsw: bool,
        allow_missing_title_id: bool,
    ) -> (r: ScanState)
        ensures
            r.pending == roots,
            !r.authenticated,
            r.recursion == recursion,
            r.allow_non_nsw == allow_non_nsw,
            r.allow_missing_title_id == allow_missing_title_id,
            r.files@ == Seq::<ParsedFileInfo>::empty(),
    {
        ScanState {
            pending: roots,
            authenticated: false,
            recursion,
            allow_non_nsw,
            allow_missing_title_id,
            files: Vec::new(),
        }
    }

    /// What the client should do next: authenticate first, then list the
    /// front of the queue until it is empty.
    pub fn next_action(&self) -> (r: ScanAction)
        ensures
            !self.authenticated ==> r matches ScanAction::Authenticate,
            (self.authenticated && self.pending@.len() > 0) ==> (r matches ScanAction::ListFolder(
                id,
            ) && id@ == self.pending@[0]@),
            (self.authenticated && self.pending@.len() == 0) ==> r matches ScanAction::Done,
    {
        if !self.authenticated {
            ScanAction::Authenticate
        } else if self.pending.len() > 0 {
            ScanAction::ListFolder(self.pending[0].clone())
        } else {
            ScanAction::Done
        }
    }

    /// Records that the client authenticated. Asked for exactly once per
    /// run: afterwards `next_action` never requests it again.
    pub fn mark_authenticated(&mut self)
        ensures
            final(self).authenticated,
            final(self).pending == old(self).pending,
            final(self).recursion == old(self).recursion,
            final(self).allow_non_nsw == old(self).allow_non_nsw,
            final(self).allow_missing_title_id == old(self).allow_missing_title_id,
            final(self).files == old(self).files,
    {
        self.authenticated = true;
    }

    /// Consumes the listing of the front folder: that folder leaves the
    /// queue, its child folders move to the front of the queue (ahead of
    /// the folders that were already waiting) when recursion is enabled,
    /// and its files are parsed, filtered and appended in listing order.
    #[verifier::rlimit(30)]
    pub fn ingest(&mut self, listing: FolderListing)
        requires
            old(self).authenticated,
            old(self).pending@.len() > 0,
        ensures
            final(self).authenticated == old(self).authenticated,
            final(self).recursion == old(self).recursion,
            final(self).allow_non_nsw == old(self).allow_non_nsw,
            final(self).allow_missing_title_id == old(self).allow_missing_title_id,
            final(self).pending@ == if old(self).recursion {
                listing.folders@ + old(self).pending@.skip(1)
            } else {
                old(self).pending@.skip(1)
            },
            final(self).files@.len() == old(self).files@.len() + listing.files@.filter(
                |f: FileInfo|
                    keep_raw(f, old(self).allow_non_nsw, old(self).allow_missing_title_id),
            ).len(),
            forall|q: int|
                0 <= q < old(self).files@.len() ==> final(self).files@[q] == old(self).files@[q],
            forall|q: int|
                old(self).files@.len() <= q < final(self).files@.len() ==> parsed_matches(
                    #[trigger] final(self).files@[q],
                    listing.files@.filter(
                        |f: FileInfo|
                            keep_raw(f, old(self).allow_non_nsw, old(self).allow_missing_title_id),
                    )[q - old(self).files@.len()],
                ),
    {
        let ghost p = |f: FileInfo|
            keep_raw(f, old(self).allow_non_nsw, old(self).allow_missing_title_id);
        let mut listing = listing;
        self.pending.remove(0);
        proof {
            assert(old(self).pending@.remove(0) =~= old(self).pending@.skip(1));
        }
        if self.recursion {
            let mut queue = listing.folders;
            queue.append(&mut self.pending);
            self.pending = queue;
        }
        let ghost pending_now = self.pending@;
        let ghost orig = listing.files@;
        let ghost base = old(self).files@.len() as int;
        let mut i: usize = 0;
        proof {
            reveal(Seq::filter);
        }
        while i < listing.files.len()
            invariant
                0 <= i <= orig.len(),
                listing.files@ == orig,
                p == (|f: FileInfo|
                    keep_raw(f, old(self).allow_non_nsw, old(self).allow_missing_title_id)),
                self.authenticated == old(self).authenticated,
                self.recursion == old(self).recursion,
                self.allow_non_nsw == old(self).allow_non_nsw,
                self.allow_missing_title_id == old(self).allow_missing_title_id,
                self.pending@ == pending_now,
                base == old(self).files@.len(),
                self.files@.len() == base + orig.take(i as int).filter(p).len(),
                forall|q: int| 0 <= q < base ==> self.files@[q] == old(self).files@[q],
                forall|q: int|
                    base <= q < self.files@.len() ==> parsed_matches(
                        #[trigger] self.files@[q],
                        orig.take(i as int).filter(p)[q - base],
                    ),
            decreases orig.len() - i,
        {
            let info = copy_info(&listing.files[i]);
            let ghost raw = orig[i as int];
            let parsed = ParsedFileInfo::new(info);
            let keep = keep_file(&parsed, self.allow_non_nsw, self.allow_missing_title_id);
            proof {
                assert(spec_keep(parsed, self.allow_non_nsw, self.allow_missing_title_id)
                    == keep_raw(raw, self.allow_non_nsw, self.allow_missing_title_id));
                lemma_filter_take_step(orig, p, i as int);
            }
            if keep {
                self.files.push(parsed);
            }
            i = i + 1;
        }
        proof {
            assert(orig.take(orig.len() as int) =~= orig);
        }
    }
}

} // verus!
