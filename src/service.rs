//! The record service: which durable-store call each request needs, and how
//! the cache follows the store's answer. The caller performs the durable call
//! between `plan` and `settle`.
use crate::cache::Cache;
use crate::record::User;
use vstd::prelude::*;

verus! {

/// A request that has passed the routing layer.
pub enum Request {
    Create { fullname: String },
    Read { id: String },
    Update { id: String, fullname: String },
    Delete { id: String },
}

/// One call on the durable store.
pub enum DurableCall {
    InsertOne { id: String, fullname: String },
    FindOne { id: String },
    UpdateFields { id: String, fullname: String },
    DeleteOne { id: String },
}

/// What the durable store answered to a call.
pub enum DurableReply {
    /// The write was acknowledged.
    Done,
    /// The lookup found this record.
    Found(User),
    /// The lookup found nothing.
    Absent,
    /// The call failed.
    Failed,
}

/// What a request comes to.
#[derive(Debug)]
pub enum Outcome {
    Created(String),
    Record(User),
    Updated,
    Deleted,
    Unauthorized,
    NotFound,
    DurableFailure,
}

/// The next thing to do for a request.
pub enum Step {
    Reply(Outcome),
    Call(DurableCall),
}

pub enum RequestModel {
    Create { fullname: Seq<char> },
    Read { id: Seq<char> },
    Update { id: Seq<char>, fullname: Seq<char> },
    Delete { id: Seq<char> },
}

pub enum CallModel {
    InsertOne { id: Seq<char>, fullname: Seq<char> },
    FindOne { id: Seq<char> },
    UpdateFields { id: Seq<char>, fullname: Seq<char> },
    DeleteOne { id: Seq<char> },
}

pub enum ReplyModel {
    Done,
    Found(Seq<char>),
    Absent,
    Failed,
}

pub enum OutcomeModel {
    Created(Seq<char>),
    Record(Seq<char>),
    Updated,
    Deleted,
    Unauthorized,
    NotFound,
    DurableFailure,
}

pub enum StepModel {
    Reply(OutcomeModel),
    Call(CallModel),
}

impl View for Request {
    type V = RequestModel;

    open spec fn view(&self) -> RequestModel {
        match self {
            Request::Create { fullname } => RequestModel::Create { fullname: fullname@ },
            Request::Read { id } => RequestModel::Read { id: id@ },
            Request::Update { id, fullname } => RequestModel::Update { id: id@, fullname: fullname@ },
            Request::Delete { id } => RequestModel::Delete { id: id@ },
        }
    }
}

impl View for DurableCall {
    type V = CallModel;

    open spec fn view(&self) -> CallModel {
        match self {
            DurableCall::InsertOne { id, fullname } => CallModel::InsertOne { id: id@, fullname: fullname@ },
            DurableCall::FindOne { id } => CallModel::FindOne { id: id@ },
            DurableCall::UpdateFields { id, fullname } => CallModel::UpdateFields {
                id: id@,
                fullname: fullname@,
            },
            DurableCall::DeleteOne { id } => CallModel::DeleteOne { id: id@ },
        }
    }
}

impl View for DurableReply {
    type V = ReplyModel;

    open spec fn view(&self) -> ReplyModel {
        match self {
            DurableReply::Done => ReplyModel::Done,
            DurableReply::Found(u) => ReplyModel::Found(u@),
            DurableReply::Absent => ReplyModel::Absent,
            DurableReply::Failed => ReplyModel::Failed,
        }
    }
}

impl View for Outcome {
    type V = OutcomeModel;

    open spec fn view(&self) -> OutcomeModel {
        match self {
            Outcome::Created(id) => OutcomeModel::Created(id@),
            Outcome::Record(u) => OutcomeModel::Record(u@),
            Outcome::Updated => OutcomeModel::Updated,
            Outcome::Deleted => OutcomeModel::Deleted,
            Outcome::Unauthorized => OutcomeModel::Unauthorized,
            Outcome::NotFound => OutcomeModel::NotFound,
            Outcome::DurableFailure => OutcomeModel::DurableFailure,
        }
    }
}

impl View for Step {
    type V = StepModel;

    open spec fn view(&self) -> StepModel {
        match self {
            Step::Reply(o) => StepModel::Reply(o@),
            Step::Call(c) => StepModel::Call(c@),
        }
    }
}

/// The first step of a request, given the cache's contents, whether the
/// caller was admitted, and the id a create would use. A denied request is
/// answered at once; a read is answered from the cache where it can be.
pub open spec fn planned(
    cache: Map<Seq<char>, Seq<char>>,
    req: RequestModel,
    admitted: bool,
    fresh: Seq<char>,
) -> StepModel {
    if !admitted {
        StepModel::Reply(OutcomeModel::Unauthorized)
    } else {
        match req {
            RequestModel::Create { fullname } => StepModel::Call(
                CallModel::InsertOne { id: fresh, fullname },
            ),
            RequestModel::Read { id } => if cache.contains_key(id) {
                StepModel::Reply(OutcomeModel::Record(cache[id]))
            } else {
                StepModel::Call(CallModel::FindOne { id })
            },
            RequestModel::Update { id, fullname } => StepModel::Call(
                CallModel::UpdateFields { id, fullname },
            ),
            RequestModel::Delete { id } => StepModel::Call(CallModel::DeleteOne { id }),
        }
    }
}

/// The cache after the store answered `reply` to `call`: it changes only
/// where the store succeeded, and then after the store.
pub open spec fn settled_cache(
    cache: Map<Seq<char>, Seq<char>>,
    call: CallModel,
    reply: ReplyModel,
) -> Map<Seq<char>, Seq<char>> {
    match (call, reply) {
        (CallModel::InsertOne { id, fullname }, ReplyModel::Done) => cache.insert(id, fullname),
        (CallModel::FindOne { id }, ReplyModel::Found(u)) => cache.insert(id, u),
        (CallModel::UpdateFields { id, fullname }, ReplyModel::Done) => cache.insert(id, fullname),
        (CallModel::DeleteOne { id }, ReplyModel::Done) => cache.remove(id),
        _ => cache,
    }
}

/// What the request comes to once the store answered `reply` to `call`.
pub open spec fn settled_outcome(call: CallModel, reply: ReplyModel) -> OutcomeModel {
    match (call, reply) {
        (CallModel::InsertOne { id, fullname }, ReplyModel::Done) => OutcomeModel::Created(id),
        (CallModel::FindOne { id }, ReplyModel::Found(u)) => OutcomeModel::Record(u),
        (CallModel::FindOne { id }, ReplyModel::Absent) => OutcomeModel::NotFound,
        (CallModel::UpdateFields { id, fullname }, ReplyModel::Done) => OutcomeModel::Updated,
        (CallModel::DeleteOne { id }, ReplyModel::Done) => OutcomeModel::Deleted,
        _ => OutcomeModel::DurableFailure,
    }
}

/// The id that a planned insert carries; empty for any other step.
pub open spec fn inserted_id(step: StepModel) -> Seq<char> {
    match step {
        StepModel::Call(CallModel::InsertOne { id, fullname }) => id,
        _ => Seq::empty(),
    }
}

pub open spec fn is_lower_hex(c: char) -> bool {
    ('0' <= c && c <= '9') || ('a' <= c && c <= 'f')
}

/// A record that was created can be read back at once, from the cache, by
/// the id the create returned.
pub proof fn lemma_read_after_create(
    cache: Map<Seq<char>, Seq<char>>,
    id: Seq<char>,
    fullname: Seq<char>,
    fresh: Seq<char>,
)
    ensures
        ({
            let call = CallModel::InsertOne { id, fullname };
            let after = settled_cache(cache, call, ReplyModel::Done);
            &&& settled_outcome(call, ReplyModel::Done) == OutcomeModel::Created(id)
            &&& planned(after, RequestModel::Read { id }, true, fresh) == StepModel::Reply(
                OutcomeModel::Record(fullname),
            )
        }),
{
}

/// Once an update has succeeded, a read gives the new full name.
pub proof fn lemma_read_after_update(
    cache: Map<Seq<char>, Seq<char>>,
    id: Seq<char>,
    fullname: Seq<char>,
    fresh: Seq<char>,
)
    ensures
        ({
            let call = CallModel::UpdateFields { id, fullname };
            let after = settled_cache(cache, call, ReplyModel::Done);
            &&& settled_outcome(call, ReplyModel::Done) == OutcomeModel::Updated
            &&& planned(after, RequestModel::Read { id }, true, fresh) == StepModel::Reply(
                OutcomeModel::Record(fullname),
            )
        }),
{
}

/// Once a delete has succeeded, a read misses the cache and goes to the
/// store; while the store answers that the record is absent, each read is
/// not-found and leaves the cache without the record, so the old value never
/// comes back.
pub proof fn lemma_read_after_delete(
    cache: Map<Seq<char>, Seq<char>>,
    id: Seq<char>,
    fresh: Seq<char>,
)
    ensures
        ({
            let call = CallModel::DeleteOne { id };
            let after = settled_cache(cache, call, ReplyModel::Done);
            let find = CallModel::FindOne { id };
            &&& settled_outcome(call, ReplyModel::Done) == OutcomeModel::Deleted
            &&& !after.contains_key(id)
            &&& planned(after, RequestModel::Read { id }, true, fresh) == StepModel::Call(find)
            &&& settled_outcome(find, ReplyModel::Absent) == OutcomeModel::NotFound
            &&& settled_cache(after, find, ReplyModel::Absent) == after
        }),
{
}

/// Filling the cache on a miss is idempotent: with the store holding the same
/// record, a second fallback read leaves the cache as the first left it and
/// gives the same record, which a read from the cache gives as well.
pub proof fn lemma_read_fill_idempotent(
    cache: Map<Seq<char>, Seq<char>>,
    id: Seq<char>,
    stored: Seq<char>,
    fresh: Seq<char>,
)
    ensures
        ({
            let find = CallModel::FindOne { id };
            let reply = ReplyModel::Found(stored);
            let once = settled_cache(cache, find, reply);
            &&& settled_cache(once, find, reply) == once
            &&& settled_outcome(find, reply) == OutcomeModel::Record(stored)
            &&& planned(once, RequestModel::Read { id }, true, fresh) == StepModel::Reply(
                OutcomeModel::Record(stored),
            )
        }),
{
    let once = cache.insert(id, stored);
    assert(once.insert(id, stored) =~= once);
}

/// A request that was not admitted is answered unauthorized, before any call
/// on the store or the cache.
pub proof fn lemma_denied_untouched(
    cache: Map<Seq<char>, Seq<char>>,
    req: RequestModel,
    fresh: Seq<char>,
)
    ensures
        planned(cache, req, false, fresh) == StepModel::Reply(OutcomeModel::Unauthorized),
{
}

/// The cache after `n` reads of `id`, each missing the cache and answered
/// absent by the store.
pub open spec fn after_absent_reads(cache: Map<Seq<char>, Seq<char>>, id: Seq<char>, n: nat) -> Map<
    Seq<char>,
    Seq<char>,
>
    decreases n,
{
    if n == 0 {
        cache
    } else {
        settled_cache(
            after_absent_reads(cache, id, (n - 1) as nat),
            CallModel::FindOne { id },
            ReplyModel::Absent,
        )
    }
}

/// After a successful delete, while the store answers absent, every one of
/// any number of reads misses the cache, goes to the store and is
/// not-found: the old value is never read back.
pub proof fn lemma_reads_after_delete(
    cache: Map<Seq<char>, Seq<char>>,
    id: Seq<char>,
    n: nat,
    fresh: Seq<char>,
)
    ensures
        ({
            let after = after_absent_reads(
                settled_cache(cache, CallModel::DeleteOne { id }, ReplyModel::Done),
                id,
                n,
            );
            &&& !after.contains_key(id)
            &&& planned(after, RequestModel::Read { id }, true, fresh) == StepModel::Call(
                CallModel::FindOne { id },
            )
            &&& settled_outcome(CallModel::FindOne { id }, ReplyModel::Absent)
                == OutcomeModel::NotFound
        }),
    decreases n,
{
    if n > 0 {
        lemma_reads_after_delete(cache, id, (n - 1) as nat, fresh);
    }
}

/// One read of `id` with the store holding `stored`: answered from the
/// cache on a hit, else filled from the store.
pub open spec fn read_once(cache: Map<Seq<char>, Seq<char>>, id: Seq<char>, stored: Seq<char>) -> (
    Map<Seq<char>, Seq<char>>,
    OutcomeModel,
) {
    match planned(cache, RequestModel::Read { id }, true, Seq::empty()) {
        StepModel::Reply(o) => (cache, o),
        StepModel::Call(call) => (
            settled_cache(cache, call, ReplyModel::Found(stored)),
            settled_outcome(call, ReplyModel::Found(stored)),
        ),
    }
}

/// The cache after `k` such reads.
pub open spec fn after_reads(
    cache: Map<Seq<char>, Seq<char>>,
    id: Seq<char>,
    stored: Seq<char>,
    k: nat,
) -> Map<Seq<char>, Seq<char>>
    decreases k,
{
    if k == 0 {
        cache
    } else {
        read_once(after_reads(cache, id, stored, (k - 1) as nat), id, stored).0
    }
}

/// Reads of a record that is never updated give the stored record every
/// time, however many of them went to the store: where the cache lacks the
/// record or holds the stored one, the read after any number of earlier
/// reads gives `stored`, and from the first read on the cache holds
/// `stored` and reads no longer change it.
pub proof fn lemma_repeated_reads(
    cache: Map<Seq<char>, Seq<char>>,
    id: Seq<char>,
    stored: Seq<char>,
    k: nat,
)
    requires
        !cache.contains_key(id) || cache[id] == stored,
    ensures
        ({
            let before = after_reads(cache, id, stored, k);
            let (next, out) = read_once(before, id, stored);
            &&& out == OutcomeModel::Record(stored)
            &&& next.contains_key(id) && next[id] == stored
            &&& k > 0 ==> next == before
        }),
    decreases k,
{
    if k > 0 {
        lemma_repeated_reads(cache, id, stored, (k - 1) as nat);
    }
}

#[verifier::external_type_specification]
#[verifier::external_body]
pub struct ExObjectId(bson::oid::ObjectId);

/// Relies on bson's ObjectId::new: a fresh id from the clock, a per-process
/// random value and a counter. Nothing is known of its bytes.
pub assume_specification[ bson::oid::ObjectId::new ]() -> bson::oid::ObjectId;

/// Relies on bson's ObjectId::to_hex, which hex-encodes the id's twelve bytes
/// in lower case.
pub assume_specification[ bson::oid::ObjectId::to_hex ](id: bson::oid::ObjectId) -> (r: String)
    ensures
        r@.len() == 24,
        forall|i: int| 0 <= i < 24 ==> is_lower_hex(#[trigger] r@[i]),
;

/// The record service: the cache tier it keeps in step with the durable store.
pub struct RecordService {
    cache: Cache,
}

impl View for RecordService {
    type V = Map<Seq<char>, Seq<char>>;

    closed spec fn view(&self) -> Map<Seq<char>, Seq<char>> {
        self.cache@
    }
}

impl RecordService {
    pub closed spec fn wf(&self) -> bool {
        self.cache.wf()
    }

    /// A service with an empty cache.
    pub fn new() -> (r: RecordService)
        ensures
            r.wf(),
            r@ == Map::<Seq<char>, Seq<char>>::empty(),
    {
        RecordService { cache: Cache::new() }
    }

    /// The first step of `req`, with `fresh` as the id of a created record.
    pub fn plan_with_id(&self, req: &Request, admitted: bool, fresh: String) -> (r: Step)
        requires
            self.wf(),
        ensures
            r@ == planned(self@, req@, admitted, fresh@),
    {
        if !admitted {
            return Step::Reply(Outcome::Unauthorized);
        }
        match req {
            Request::Create { fullname } => Step::Call(
                DurableCall::InsertOne { id: fresh, fullname: fullname.clone() },
            ),
            Request::Read { id } => match self.cache.lookup(id) {
                Some(u) => Step::Reply(Outcome::Record(u)),
                None => Step::Call(DurableCall::FindOne { id: id.clone() }),
            },
            Request::Update { id, fullname } => Step::Call(
                DurableCall::UpdateFields { id: id.clone(), fullname: fullname.clone() },
            ),
            Request::Delete { id } => Step::Call(DurableCall::DeleteOne { id: id.clone() }),
        }
    }

    /// The first step of `req`. A create is given a freshly generated id of
    /// 24 lower-case hex digits; nothing is generated for other requests.
    pub fn plan(&self, req: &Request, admitted: bool) -> (r: Step)
        requires
            self.wf(),
        ensures
            r@ == planned(self@, req@, admitted, inserted_id(r@)),
            admitted && req is Create ==> inserted_id(r@).len() == 24,
            forall|i: int|
                0 <= i < inserted_id(r@).len() ==> is_lower_hex(#[trigger] inserted_id(r@)[i]),
    {
        let fresh = if admitted && matches!(req, Request::Create { .. }) {
            bson::oid::ObjectId::new().to_hex()
        } else {
            String::new()
        };
        self.plan_with_id(req, admitted, fresh)
    }

    /// Applies the durable store's answer to the cache and says what the
    /// request comes to.
    pub fn settle(&mut self, call: DurableCall, reply: DurableReply) -> (r: Outcome)
        requires
            old(self).wf(),
        ensures
            final(self).wf(),
            final(self)@ == settled_cache(old(self)@, call@, reply@),
            r@ == settled_outcome(call@, reply@),
    {
        match (call, reply) {
            (DurableCall::InsertOne { id, fullname }, DurableReply::Done) => {
                self.cache.insert(&id, User::new(fullname));
                Outcome::Created(id)
            },
            (DurableCall::FindOne { id }, DurableReply::Found(u)) => {
                self.cache.insert(&id, u.duplicate());
                Outcome::Record(u)
            },
            (DurableCall::FindOne { id }, DurableReply::Absent) => Outcome::NotFound,
            (DurableCall::UpdateFields { id, fullname }, DurableReply::Done) => {
                self.cache.insert(&id, User::new(fullname));
                Outcome::Updated
            },
            (DurableCall::DeleteOne { id }, DurableReply::Done) => {
                self.cache.remove(&id);
                Outcome::Deleted
            },
            _ => Outcome::DurableFailure,
        }
    }
}

} // verus!
