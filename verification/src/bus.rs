//! The extension bus: the dispatcher between callers and providers.
//!
//! Running provider code is not the bus's business. A call is made in two
//! steps around the run: `begin` resolves the provider, encodes the request
//! and checks out an instance; `finish` takes what the run produced, decodes
//! it, and gives the instance back or drops it. Whoever drives the sandbox
//! performs the run in between and reports how it ended.

use crate::bridge::BridgeError;
use crate::codec::{
    decode_chapter, decode_entries, decode_entry, encode_params, encode_path,
};
use crate::envelope::{
    decoded_chapter, decoded_entries, decoded_entry, entry_views, params_fit, ser_params,
    CatalogEntry, CatalogEntryView, Chapter, ChapterView, SearchParams,
};
use crate::metadata::ProviderMetadata;
use crate::pool::{
    first_at, lemma_discard_leaves_pool_serving, Grant, Handover, InstanceHandle,
};
use crate::registry::{
    id_at, lemma_other_major_not_served, listing, LoadedProvider, Registry, Status,
};
use crate::wire::{ser_str, str_fits};
use vstd::prelude::*;

verus! {

/// How a bus operation went wrong.
#[derive(Clone, Copy, Debug, PartialEq, Eq, Structural)]
pub enum BusError {
    /// No enabled provider has the identifier asked for.
    UnknownProvider,
    /// The provider was found but the call failed; the reason is kept.
    ProviderFailure(BridgeError),
}

/// The exported entry points of a provider module.
#[derive(Clone, Copy, Debug, PartialEq, Eq, Structural)]
pub enum EntryPoint {
    Search,
    Latest,
    Detail,
    Chapter,
}

/// A typed request to a provider.
#[derive(Debug, PartialEq, Eq)]
pub enum Operation {
    Search(SearchParams),
    Latest,
    Detail(String),
    Chapter(String),
}

/// A typed response of a provider.
#[derive(Debug, PartialEq, Eq)]
pub enum Response {
    Entries(Vec<CatalogEntry>),
    Entry(CatalogEntry),
    Chapter(Chapter),
}

/// Mathematical content of a [`Response`].
pub enum ResponseView {
    Entries(Seq<CatalogEntryView>),
    Entry(CatalogEntryView),
    Chapter(ChapterView),
}

impl View for Response {
    type V = ResponseView;

    open spec fn view(&self) -> ResponseView {
        match self {
            Response::Entries(l) => ResponseView::Entries(entry_views(l@)),
            Response::Entry(e) => ResponseView::Entry(e@),
            Response::Chapter(c) => ResponseView::Chapter(c@),
        }
    }
}

/// How the run of a provider's entry point ended.
#[derive(Debug, PartialEq, Eq)]
pub enum Outcome {
    /// The entry point returned; these are the bytes of its response buffer.
    Returned(Vec<u8>),
    /// The provider code trapped.
    Trapped,
    /// The run was abandoned at the deadline.
    TimedOut,
}

/// A call that the bus has accepted: what to run, on what input, and whether
/// an instance is at hand.
#[derive(Debug, PartialEq, Eq)]
pub struct Call {
    /// Identifier of the provider.
    pub provider: i64,
    /// Entry point to invoke.
    pub entry: EntryPoint,
    /// Request buffer to write into the instance's memory.
    pub request: Vec<u8>,
    /// The instance to run on, or the news that the caller is queued.
    pub grant: Grant,
}

/// The entry point that serves an operation.
pub open spec fn entry_of(op: Operation) -> EntryPoint {
    match op {
        Operation::Search(_) => EntryPoint::Search,
        Operation::Latest => EntryPoint::Latest,
        Operation::Detail(_) => EntryPoint::Detail,
        Operation::Chapter(_) => EntryPoint::Chapter,
    }
}

/// The request buffer of an operation, if its arguments can be framed. The
/// request for the latest entries carries nothing.
pub open spec fn request_of(op: Operation) -> Option<Seq<u8>> {
    match op {
        Operation::Search(p) => if params_fit(p@) {
            Some(ser_params(p@))
        } else {
            None
        },
        Operation::Latest => Some(Seq::empty()),
        Operation::Detail(path) => if str_fits(path@) {
            Some(ser_str(path@))
        } else {
            None
        },
        Operation::Chapter(path) => if str_fits(path@) {
            Some(ser_str(path@))
        } else {
            None
        },
    }
}

/// What the caller is told, given the entry point that ran and how the run
/// ended. Search and latest answer with a list of entries, detail with one
/// entry, chapter with a chapter; a buffer that does not decode as such is
/// malformed.
pub open spec fn reply_of(entry: EntryPoint, outcome: Outcome) -> Result<ResponseView, BusError> {
    match outcome {
        Outcome::Trapped => Err(BusError::ProviderFailure(BridgeError::Trapped)),
        Outcome::TimedOut => Err(BusError::ProviderFailure(BridgeError::Timeout)),
        Outcome::Returned(bytes) => match entry {
            EntryPoint::Search | EntryPoint::Latest => match decoded_entries(bytes@) {
                Some(l) => Ok(ResponseView::Entries(l)),
                None => Err(BusError::ProviderFailure(BridgeError::Malformed)),
            },
            EntryPoint::Detail => match decoded_entry(bytes@) {
                Some(e) => Ok(ResponseView::Entry(e)),
                None => Err(BusError::ProviderFailure(BridgeError::Malformed)),
            },
            EntryPoint::Chapter => match decoded_chapter(bytes@) {
                Some(c) => Ok(ResponseView::Chapter(c)),
                None => Err(BusError::ProviderFailure(BridgeError::Malformed)),
            },
        },
    }
}

/// `post` differs from `pre` at most in the pool of the provider at `i`.
pub open spec fn same_but_pool(pre: Seq<LoadedProvider>, post: Seq<LoadedProvider>, i: int) -> bool {
    &&& post.len() == pre.len()
    &&& 0 <= i < pre.len()
    &&& post[i].metadata == pre[i].metadata
    &&& post[i].status == pre[i].status
    &&& post[i].binary == pre[i].binary
    &&& forall|j: int| 0 <= j < pre.len() && j != i ==> #[trigger] post[j] == pre[j]
}

/// `begin` of `op` for `caller` at the provider `id` leads from the registry
/// `pre` to `post` with the answer `r`.
///
/// An identifier that no enabled provider has is unknown. Arguments that
/// cannot be framed fail the call as malformed. In both cases nothing
/// changes. Otherwise the call is accepted and the provider's pool has
/// answered the caller's request for an instance.
pub open spec fn begins(
    pre: Registry,
    caller: u64,
    id: i64,
    op: Operation,
    post: Registry,
    r: Result<Call, BusError>,
) -> bool {
    if !pre.serves(id) {
        r == Err::<Call, BusError>(BusError::UnknownProvider) && post == pre
    } else if request_of(op) is None {
        r == Err::<Call, BusError>(BusError::ProviderFailure(BridgeError::Malformed)) && post
            == pre
    } else {
        &&& r is Ok
        &&& r->Ok_0.provider == id
        &&& r->Ok_0.entry == entry_of(op)
        &&& Some(r->Ok_0.request@) == request_of(op)
        &&& post.host == pre.host
        &&& exists|i: int|
            {
                &&& id_at(pre.providers@, id, i)
                &&& same_but_pool(pre.providers@, post.providers@, i)
                &&& pre.providers@[i].pool@.acquires(
                    caller,
                    post.providers@[i].pool@,
                    r->Ok_0.grant,
                )
            }
    }
}

/// `finish` of a call at the provider `id` that held `handle` leads from the
/// registry `pre` to `post` and hands the instance on as `handover` tells.
///
/// The instance is given up whatever the reply: kept alive after a reply
/// that decoded, dropped after a trap, a timeout or a malformed buffer. A
/// provider that was unloaded in the meantime has no pool left to change.
pub open spec fn finishes(
    pre: Registry,
    id: i64,
    handle: InstanceHandle,
    keep: bool,
    post: Registry,
    handover: Handover,
) -> bool {
    if !pre.knows(id) {
        handover == Handover::Stale && post == pre
    } else {
        &&& post.host == pre.host
        &&& exists|i: int|
            {
                &&& id_at(pre.providers@, id, i)
                &&& same_but_pool(pre.providers@, post.providers@, i)
                &&& pre.providers@[i].pool@.yields(
                    handle,
                    keep,
                    post.providers@[i].pool@,
                    handover,
                )
            }
    }
}

/// The time allowed for a call has passed: at least `limit` units lie
/// between `started` and `now`. A clock that went backwards counts as no
/// time passed.
pub open spec fn deadline_passed(started: u64, now: u64, limit: u64) -> bool {
    now >= started && now - started >= limit
}

/// Tells whether a call that started at `started` has used up its time at
/// `now`.
pub fn timed_out(started: u64, now: u64, limit: u64) -> (r: bool)
    ensures
        r == deadline_passed(started, now, limit),
{
    now >= started && now - started >= limit
}

/// Encodes the request of an operation.
pub fn encode_request(op: &Operation) -> (r: Option<Vec<u8>>)
    ensures
        r is Some <==> request_of(*op) is Some,
        r matches Some(b) ==> Some(b@) == request_of(*op),
{
    match op {
        Operation::Search(p) => encode_params(p),
        Operation::Latest => Some(Vec::new()),
        Operation::Detail(path) => encode_path(path.as_str()),
        Operation::Chapter(path) => encode_path(path.as_str()),
    }
}

/// Decodes what a run produced into the reply for the caller.
pub fn decode_reply(entry: EntryPoint, outcome: &Outcome) -> (r: Result<Response, BusError>)
    ensures
        r is Ok <==> reply_of(entry, *outcome) is Ok,
        r matches Ok(response) ==> reply_of(entry, *outcome) == Ok::<ResponseView, BusError>(
            response@,
        ),
        r matches Err(e) ==> reply_of(entry, *outcome) == Err::<ResponseView, BusError>(e),
{
    match outcome {
        Outcome::Trapped => Err(BusError::ProviderFailure(BridgeError::Trapped)),
        Outcome::TimedOut => Err(BusError::ProviderFailure(BridgeError::Timeout)),
        Outcome::Returned(bytes) => match entry {
            EntryPoint::Search | EntryPoint::Latest => match decode_entries(bytes.as_slice()) {
                Some(l) => Ok(Response::Entries(l)),
                None => Err(BusError::ProviderFailure(BridgeError::Malformed)),
            },
            EntryPoint::Detail => match decode_entry(bytes.as_slice()) {
                Some(e) => Ok(Response::Entry(e)),
                None => Err(BusError::ProviderFailure(BridgeError::Malformed)),
            },
            EntryPoint::Chapter => match decode_chapter(bytes.as_slice()) {
                Some(c) => Ok(Response::Chapter(c)),
                None => Err(BusError::ProviderFailure(BridgeError::Malformed)),
            },
        },
    }
}

/// The public dispatcher of a host.
#[derive(Debug, PartialEq, Eq)]
pub struct ExtensionBus {
    pub registry: Registry,
}

impl ExtensionBus {
    /// The bus is well formed when its registry is.
    pub open spec fn wf(&self) -> bool {
        self.registry.wf()
    }

    /// A bus over `registry`.
    pub fn new(registry: Registry) -> (bus: ExtensionBus)
        requires
            registry.wf(),
        ensures
            bus.wf(),
            bus.registry == registry,
    {
        ExtensionBus { registry }
    }

    /// The metadata of every compatible, loaded provider, in load order.
    pub fn list(&self) -> (r: Vec<ProviderMetadata>)
        ensures
            r@.len() == listing(self.registry.providers@).len(),
            forall|k: int|
                0 <= k < r@.len() ==> (#[trigger] r@[k])@ == listing(self.registry.providers@)[k],
    {
        self.registry.list()
    }

    /// Every provider with its status, in load order: the listing for
    /// diagnostics, which shows the disabled providers and why they are
    /// disabled.
    pub fn list_all(&self) -> (r: Vec<(ProviderMetadata, Status)>)
        ensures
            r@.len() == self.registry.providers@.len(),
            forall|k: int|
                0 <= k < r@.len() ==> (#[trigger] r@[k]).0@ == self.registry.providers@[k].metadata@
                    && r@[k].1 == self.registry.providers@[k].status,
    {
        self.registry.list_all()
    }

    /// First half of a call: resolves the provider, encodes the request and
    /// asks the provider's pool for an instance on behalf of `caller`.
    pub fn begin(&mut self, caller: u64, provider_id: i64, op: &Operation) -> (r: Result<
        Call,
        BusError,
    >)
        requires
            old(self).wf(),
        ensures
            final(self).wf(),
            begins(old(self).registry, caller, provider_id, *op, final(self).registry, r),
    {
        let i = match self.registry.lookup(provider_id) {
            Some(i) => i,
            None => {
                return Err(BusError::UnknownProvider);
            },
        };
        let request = match encode_request(op) {
            Some(request) => request,
            None => {
                return Err(BusError::ProviderFailure(BridgeError::Malformed));
            },
        };
        let entry = match op {
            Operation::Search(_) => EntryPoint::Search,
            Operation::Latest => EntryPoint::Latest,
            Operation::Detail(_) => EntryPoint::Detail,
            Operation::Chapter(_) => EntryPoint::Chapter,
        };
        let grant = self.registry.providers[i].pool.acquire(caller);
        proof {
            let pre = old(self).registry.providers@;
            let post = self.registry.providers@;
            assert(same_but_pool(pre, post, i as int));
            assert(id_at(pre, provider_id, i as int));
        }
        Ok(Call { provider: provider_id, entry, request, grant })
    }

    /// Second half of a call: turns what the run produced into the reply for
    /// the caller and gives up the instance.
    ///
    /// The reply depends on the entry point and the outcome alone. The
    /// instance is released after a reply that decoded and discarded after
    /// any failure, so that no call leaves an instance held.
    pub fn finish(
        &mut self,
        provider_id: i64,
        handle: InstanceHandle,
        entry: EntryPoint,
        outcome: &Outcome,
    ) -> (r: (Result<Response, BusError>, Handover))
        requires
            old(self).wf(),
        ensures
            final(self).wf(),
            r.0 is Ok <==> reply_of(entry, *outcome) is Ok,
            r.0 matches Ok(response) ==> reply_of(entry, *outcome) == Ok::<ResponseView, BusError>(
                response@,
            ),
            r.0 matches Err(e) ==> reply_of(entry, *outcome) == Err::<ResponseView, BusError>(e),
            finishes(
                old(self).registry,
                provider_id,
                handle,
                r.0 is Ok,
                final(self).registry,
                r.1,
            ),
    {
        let reply = decode_reply(entry, outcome);
        let i = match self.registry.find(provider_id) {
            Some(i) => i,
            None => {
                return (reply, Handover::Stale);
            },
        };
        let handover = if reply.is_ok() {
            self.registry.providers[i].pool.release(handle)
        } else {
            self.registry.providers[i].pool.discard(handle)
        };
        proof {
            let pre = old(self).registry.providers@;
            let post = self.registry.providers@;
            assert(same_but_pool(pre, post, i as int));
            assert(id_at(pre, provider_id, i as int));
        }
        (reply, handover)
    }

    /// Withdraws a caller that waits for an instance of a provider, so that
    /// it is passed over when an instance comes free. Tells whether the
    /// caller was waiting there. A caller that already holds an instance is
    /// not touched: its call runs to its end and is finished as any other.
    pub fn cancel(&mut self, provider_id: i64, caller: u64) -> (found: bool)
        requires
            old(self).wf(),
        ensures
            final(self).wf(),
            final(self).registry.host == old(self).registry.host,
            found == exists|i: int|
                id_at(old(self).registry.providers@, provider_id, i) && old(
                    self,
                ).registry.providers@[i].pool@.waiting.contains(caller),
            !found ==> final(self).registry.providers@ == old(self).registry.providers@,
            found ==> exists|i: int, k: int|
                {
                    &&& id_at(old(self).registry.providers@, provider_id, i)
                    &&& same_but_pool(
                        old(self).registry.providers@,
                        final(self).registry.providers@,
                        i,
                    )
                    &&& final(self).registry.providers@[i].pool@.slots == old(
                        self,
                    ).registry.providers@[i].pool@.slots
                    &&& first_at(old(self).registry.providers@[i].pool@.waiting, caller, k)
                    &&& final(self).registry.providers@[i].pool@.waiting == old(
                        self,
                    ).registry.providers@[i].pool@.waiting.remove(k)
                },
    {
        let i = match self.registry.find(provider_id) {
            Some(i) => i,
            None => {
                return false;
            },
        };
        let found = self.registry.providers[i].pool.withdraw(caller);
        proof {
            let pre = old(self).registry.providers@;
            let post = self.registry.providers@;
            assert(id_at(pre, provider_id, i as int));
            assert forall|j: int| id_at(pre, provider_id, j) implies j == i by {}
            if found {
                assert(same_but_pool(pre, post, i as int));
                let k = choose|k: int|
                    first_at(pre[i as int].pool@.waiting, caller, k) && post[i as int].pool@.waiting
                        == pre[i as int].pool@.waiting.remove(k);
                assert(first_at(pre[i as int].pool@.waiting, caller, k));
            } else {
                assert(post[i as int] == pre[i as int]);
                assert(post =~= pre);
            }
        }
        found
    }

    /// Begins a search at a provider.
    pub fn search(&mut self, caller: u64, provider_id: i64, params: SearchParams) -> (r: Result<
        Call,
        BusError,
    >)
        requires
            old(self).wf(),
        ensures
            final(self).wf(),
            begins(
                old(self).registry,
                caller,
                provider_id,
                Operation::Search(params),
                final(self).registry,
                r,
            ),
    {
        let op = Operation::Search(params);
        self.begin(caller, provider_id, &op)
    }

    /// Begins a request for a provider's latest entries.
    pub fn latest(&mut self, caller: u64, provider_id: i64) -> (r: Result<Call, BusError>)
        requires
            old(self).wf(),
        ensures
            final(self).wf(),
            begins(
                old(self).registry,
                caller,
                provider_id,
                Operation::Latest,
                final(self).registry,
                r,
            ),
    {
        let op = Operation::Latest;
        self.begin(caller, provider_id, &op)
    }

    /// Begins a request for the entry at `path`.
    pub fn detail(&mut self, caller: u64, provider_id: i64, path: String) -> (r: Result<
        Call,
        BusError,
    >)
        requires
            old(self).wf(),
        ensures
            final(self).wf(),
            begins(
                old(self).registry,
                caller,
                provider_id,
                Operation::Detail(path),
                final(self).registry,
                r,
            ),
    {
        let op = Operation::Detail(path);
        self.begin(caller, provider_id, &op)
    }

    /// Begins a request for the chapter at `path`.
    pub fn chapter(&mut self, caller: u64, provider_id: i64, path: String) -> (r: Result<
        Call,
        BusError,
    >)
        requires
            old(self).wf(),
        ensures
            final(self).wf(),
            begins(
                old(self).registry,
                caller,
                provider_id,
                Operation::Chapter(path),
                final(self).registry,
                r,
            ),
    {
        let op = Operation::Chapter(path);
        self.begin(caller, provider_id, &op)
    }
}

/// A call to a provider that was built against another major version than
/// the host's is answered with `UnknownProvider`, and changes nothing.
pub proof fn lemma_other_major_is_unknown(
    pre: Registry,
    i: int,
    caller: u64,
    op: Operation,
    post: Registry,
    r: Result<Call, BusError>,
)
    requires
        pre.wf(),
        0 <= i < pre.providers@.len(),
        pre.providers@[i].metadata.interface_version.major != pre.host.major,
        begins(pre, caller, pre.providers@[i].metadata.id, op, post, r),
    ensures
        r == Err::<Call, BusError>(BusError::UnknownProvider),
        post == pre,
{
    lemma_other_major_not_served(pre, i);
}

/// A call to an identifier that the registry does not hold is answered with
/// `UnknownProvider`.
pub proof fn lemma_absent_is_unknown(
    pre: Registry,
    id: i64,
    caller: u64,
    op: Operation,
    post: Registry,
    r: Result<Call, BusError>,
)
    requires
        !pre.knows(id),
        begins(pre, caller, id, op, post, r),
    ensures
        r == Err::<Call, BusError>(BusError::UnknownProvider),
{
}

/// A run that trapped or timed out fails the call as a provider failure
/// with that reason, whatever the entry point.
pub proof fn lemma_failed_run_is_provider_failure(entry: EntryPoint)
    ensures
        reply_of(entry, Outcome::Trapped) == Err::<ResponseView, BusError>(
            BusError::ProviderFailure(BridgeError::Trapped),
        ),
        reply_of(entry, Outcome::TimedOut) == Err::<ResponseView, BusError>(
            BusError::ProviderFailure(BridgeError::Timeout),
        ),
{
}

/// No failure of a call reaches beyond its provider: finishing a call
/// leaves every other provider, and everything but the pool of its own, as
/// they were.
pub proof fn lemma_finish_is_isolated(
    pre: Registry,
    id: i64,
    handle: InstanceHandle,
    keep: bool,
    post: Registry,
    handover: Handover,
    j: int,
)
    requires
        pre.wf(),
        finishes(pre, id, handle, keep, post, handover),
        0 <= j < pre.providers@.len(),
    ensures
        post.providers@.len() == pre.providers@.len(),
        post.providers@[j].metadata == pre.providers@[j].metadata,
        post.providers@[j].status == pre.providers@[j].status,
        pre.providers@[j].metadata.id != id ==> post.providers@[j] == pre.providers@[j],
{
    if pre.knows(id) {
        let i = choose|i: int|
            {
                &&& id_at(pre.providers@, id, i)
                &&& same_but_pool(pre.providers@, post.providers@, i)
                &&& pre.providers@[i].pool@.yields(
                    handle,
                    keep,
                    post.providers@[i].pool@,
                    handover,
                )
            };
        if j != i {
            assert(post.providers@[j] == pre.providers@[j]);
        }
    }
}

/// A call that failed leaves its provider able to serve: after a finish
/// that dropped the instance, a call with arguments that can be framed is
/// accepted again, and when nobody was waiting it is granted an instance at
/// once.
pub proof fn lemma_failure_does_not_cascade(
    pre: Registry,
    id: i64,
    handle: InstanceHandle,
    mid: Registry,
    handover: Handover,
    caller: u64,
    op: Operation,
    post: Registry,
    r: Result<Call, BusError>,
)
    requires
        pre.wf(),
        pre.serves(id),
        exists|i: int| id_at(pre.providers@, id, i) && pre.providers@[i].pool@.holds(handle),
        finishes(pre, id, handle, false, mid, handover),
        request_of(op) is Some,
        begins(mid, caller, id, op, post, r),
    ensures
        r is Ok,
        handover is Freed ==> r->Ok_0.grant is Ready,
{
    let i = choose|i: int|
        {
            &&& id_at(pre.providers@, id, i)
            &&& same_but_pool(pre.providers@, mid.providers@, i)
            &&& pre.providers@[i].pool@.yields(handle, false, mid.providers@[i].pool@, handover)
        };
    let held = choose|k: int| id_at(pre.providers@, id, k) && pre.providers@[k].pool@.holds(handle);
    assert(held == i);
    let served = choose|k: int|
        id_at(pre.providers@, id, k) && pre.providers@[k].status is Enabled;
    assert(served == i);
    assert(id_at(mid.providers@, id, i) && mid.providers@[i].status is Enabled);
    assert(mid.serves(id));
    let k = choose|k: int|
        {
            &&& id_at(mid.providers@, id, k)
            &&& same_but_pool(mid.providers@, post.providers@, k)
            &&& mid.providers@[k].pool@.acquires(caller, post.providers@[k].pool@, r->Ok_0.grant)
        };
    assert(k == i) by {
        if k != i {
            assert(mid.providers@[k] == pre.providers@[k]);
        }
    }
    lemma_discard_leaves_pool_serving(
        pre.providers@[i].pool@,
        handle,
        mid.providers@[i].pool@,
        handover,
        caller,
        post.providers@[i].pool@,
        r->Ok_0.grant,
    );
}

} // verus!
