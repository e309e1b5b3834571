//! Asset streaming requests: priorities, and the bookkeeping of requests
//! that are pending with the background loader.

use vstd::prelude::*;
use tokio::sync::mpsc::Sender;
use crate::assets::handle::AssetHandle;

verus! {

/// `tokio::sync::mpsc::Sender`, the sending half of the loader's channel.
#[verifier::external_type_specification]
#[verifier::external_body]
#[verifier::reject_recursive_types(T)]
pub struct ExSender<T>(Sender<T>);

/// Streaming priority levels, from lowest to highest.
#[derive(Debug, Clone, Copy, PartialEq, Eq, PartialOrd, Ord, Structural)]
pub enum StreamPriority {
    Low,
    Medium,
    High,
    Critical,
}

impl Default for StreamPriority {
    fn default() -> (p: Self)
        ensures
            p == StreamPriority::Low,
    {
        Self::Low
    }
}

/// Request for asset streaming.
#[derive(Debug, Clone)]
pub struct StreamRequest {
    pub path: String,
    pub handle: AssetHandle<Vec<u8>>,
    pub priority: StreamPriority,
}

/// Calls `Sender::try_send` with `request`, which hands it to the loader
/// without waiting.  It fails when the channel is full or closed, which
/// depends on the loader's progress; nothing is stated of that outcome.
/// Beside it, the request's path, handle and priority, copied before the
/// call, are given back: they are those of the request handed over.
#[verifier::external_body]
fn try_send_request(tx: &Sender<StreamRequest>, request: StreamRequest) -> (r: (
    bool,
    String,
    AssetHandle<Vec<u8>>,
    StreamPriority,
))
    ensures
        r.1@ == request.path@,
        r.2 == request.handle,
        r.3 == request.priority,
{
    let (path, handle, priority) = (request.path.clone(), request.handle, request.priority);
    (tx.try_send(request).is_ok(), path, handle, priority)
}

/// The character sequences of the given strings.
pub open spec fn path_views(paths: Seq<String>) -> Seq<Seq<char>> {
    paths.map_values(|p: String| p@)
}

/// Asset streamer: sends load requests to a background loader and remembers
/// which paths are pending, so that a path is not requested twice.
pub struct AssetStreamer {
    request_tx: Sender<StreamRequest>,
    pending_requests: Vec<String>,
    sent_attempts: Ghost<Seq<(Seq<char>, u64, StreamPriority, bool)>>,
}

impl AssetStreamer {
    /// No path is pending twice.
    #[verifier::type_invariant]
    spec fn distinct_pending(self) -> bool {
        path_views(self.pending_requests@).no_duplicates()
    }

    /// The pending paths.
    pub closed spec fn pending(&self) -> Set<Seq<char>> {
        path_views(self.pending_requests@).to_set()
    }

    /// The requests handed to the loader's channel so far (path, asset id,
    /// priority), each with whether the channel took it.
    pub closed spec fn attempts(&self) -> Seq<(Seq<char>, u64, StreamPriority, bool)> {
        self.sent_attempts@
    }

    /// The channel the requests are sent on.
    pub closed spec fn sender(&self) -> Sender<StreamRequest> {
        self.request_tx
    }

    /// Creates a streamer that sends its requests on `request_tx`.
    pub fn with_sender(request_tx: Sender<StreamRequest>) -> (s: Self)
        ensures
            s.pending() == Set::<Seq<char>>::empty(),
            s.sender() == request_tx,
            s.attempts() == Seq::<(Seq<char>, u64, StreamPriority, bool)>::empty(),
    {
        let pending_requests: Vec<String> = Vec::new();
        assert(path_views(pending_requests@) =~= Seq::<Seq<char>>::empty());
        let s = Self { request_tx, pending_requests, sent_attempts: Ghost(Seq::empty()) };
        assert(s.pending() =~= Set::<Seq<char>>::empty());
        s
    }

    /// Whether `path` is pending.
    fn is_pending(&self, path: &String) -> (r: bool)
        ensures
            r == self.pending().contains(path@),
    {
        let n = self.pending_requests.len();
        let mut i: usize = 0;
        while i < n
            invariant
                i <= n,
                n == self.pending_requests@.len(),
                forall|j: int| 0 <= j < i ==> self.pending_requests@[j]@ != path@,
            decreases n - i,
        {
            if self.pending_requests[i] == *path {
                assert(path_views(self.pending_requests@)[i as int] == path@);
                return true;
            }
            i += 1;
        }
        proof {
            if self.pending().contains(path@) {
                let k = choose|k: int|
                    0 <= k < self.pending_requests@.len()
                        && #[trigger] path_views(self.pending_requests@)[k] == path@;
                assert(self.pending_requests@[k]@ == path@);
            }
        }
        false
    }

    /// Requests an asset to be streamed, without blocking.
    ///
    /// Returns `false` without sending when the path is already pending;
    /// otherwise sends the request (path, handle, priority) and records the
    /// outcome with `record_outcome`: when the loader accepts it, the path
    /// becomes pending and the result is `true`.
    pub fn request(&mut self, path: String, handle: AssetHandle<Vec<u8>>, priority: StreamPriority) -> (r: bool)
        ensures
            old(self).pending().contains(path@) ==> {
                &&& !r
                &&& final(self).pending() == old(self).pending()
                &&& final(self).attempts() == old(self).attempts()
            },
            !old(self).pending().contains(path@) ==> final(self).attempts()
                == old(self).attempts().push((path@, handle.spec_id(), priority, r)),
            r ==> final(self).pending() == old(self).pending().insert(path@),
            !r ==> final(self).pending() == old(self).pending(),
            final(self).sender() == old(self).sender(),
    {
        proof { use_type_invariant(&*self); }
        if self.is_pending(&path) {
            return false;
        }
        let request = StreamRequest { path: path.clone(), handle, priority };
        let (sent, sent_path, sent_handle, sent_priority) = try_send_request(&self.request_tx, request);
        proof {
            self.sent_attempts = Ghost(
                self.sent_attempts@.push((sent_path@, sent_handle.spec_id(), sent_priority, sent)),
            );
        }
        self.record_outcome(path, sent)
    }

    /// Records the outcome of sending the request for `path`: when it was
    /// sent, the path becomes pending (a pending path stays pending once).
    /// Returns `sent`.
    pub fn record_outcome(&mut self, path: String, sent: bool) -> (r: bool)
        ensures
            r == sent,
            sent ==> final(self).pending() == old(self).pending().insert(path@),
            !sent ==> final(self).pending() == old(self).pending(),
            final(self).attempts() == old(self).attempts(),
            final(self).sender() == old(self).sender(),
    {
        proof { use_type_invariant(&*self); }
        if sent {
            if self.is_pending(&path) {
                assert(old(self).pending().insert(path@) =~= old(self).pending());
                return sent;
            }
            let ghost before = self.pending_requests@;
            let mut pending: Vec<String> = Vec::new();
            std::mem::swap(&mut pending, &mut self.pending_requests);
            pending.push(path);
            proof {
                let views = path_views(before);
                assert(path_views(pending@) =~= views.push(path@));
                assert(!views.contains(path@)) by {
                    if views.contains(path@) {
                        assert(views.to_set().contains(path@));
                    }
                }
                assert forall|a: int, b: int|
                    0 <= a < views.len() + 1 && 0 <= b < views.len() + 1 && a != b
                        implies views.push(path@)[a] != views.push(path@)[b] by {
                    if a == views.len() {
                        assert(views[b] != path@);
                    } else if b == views.len() {
                        assert(views[a] != path@);
                    }
                }
                views.lemma_push_to_set_commute(path@);
            }
            self.pending_requests = pending;
            assert(self.pending() =~= old(self).pending().insert(path@));
        }
        sent
    }

    /// Marks a request as completed: the path is no longer pending.
    pub fn mark_completed(&mut self, path: &str)
        ensures
            final(self).pending() == old(self).pending().remove(path@),
            final(self).sender() == old(self).sender(),
            final(self).attempts() == old(self).attempts(),
    {
        proof { use_type_invariant(&*self); }
        let target = path.to_owned();
        let mut kept: Vec<String> = Vec::new();
        let n = self.pending_requests.len();
        let mut i: usize = 0;
        while i < n
            invariant
                i <= n,
                n == self.pending_requests@.len(),
                self.pending_requests@ == old(self).pending_requests@,
                target@ == path@,
                path_views(self.pending_requests@).no_duplicates(),
                path_views(kept@).no_duplicates(),
                path_views(kept@).to_set() =~= path_views(self.pending_requests@.subrange(0, i as int))
                    .to_set().remove(path@),
            decreases n - i,
        {
            let ghost prev = kept@;
            if self.pending_requests[i] != target {
                kept.push(self.pending_requests[i].clone());
            }
            proof {
                let done = self.pending_requests@.subrange(0, i as int);
                let next = self.pending_requests@.subrange(0, i + 1);
                assert(next =~= done.push(self.pending_requests@[i as int]));
                assert(path_views(next) =~= path_views(done).push(
                    self.pending_requests@[i as int]@));
                let x = self.pending_requests@[i as int]@;
                path_views(done).lemma_push_to_set_commute(x);
                if x != path@ {
                    let pv = path_views(prev);
                    assert(path_views(kept@) =~= pv.push(x));
                    assert(!pv.contains(x)) by {
                        if pv.contains(x) {
                            assert(pv.to_set().contains(x));
                            assert(path_views(done).to_set().contains(x));
                            let k = choose|k: int| 0 <= k < path_views(done).len()
                                && #[trigger] path_views(done)[k] == x;
                            assert(path_views(self.pending_requests@)[k] == x);
                            assert(path_views(self.pending_requests@)[i as int] == x);
                        }
                    }
                    assert forall|a: int, b: int|
                        0 <= a < pv.len() + 1 && 0 <= b < pv.len() + 1 && a != b
                            implies pv.push(x)[a] != pv.push(x)[b] by {
                        if a == pv.len() {
                            assert(pv[b] != x);
                        } else if b == pv.len() {
                            assert(pv[a] != x);
                        }
                    }
                    path_views(prev).lemma_push_to_set_commute(x);
                    assert(path_views(kept@).to_set() =~= path_views(next).to_set().remove(path@));
                } else {
                    assert(kept@ == prev);
                    assert(path_views(kept@).to_set() =~= path_views(next).to_set().remove(path@));
                }
            }
            i += 1;
        }
        assert(self.pending_requests@.subrange(0, n as int) =~= self.pending_requests@);
        self.pending_requests = kept;
    }
}

} // verus!
