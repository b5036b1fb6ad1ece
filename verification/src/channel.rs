//! The point-to-point channel, seen from the verified side.
//!
//! The transport itself (an underlying process-group runtime) is an opaque
//! collaborator; what the library owns is the meaning of a matched exchange:
//! which payload a receive hands back, what its status reports, and the
//! discipline around non-blocking sends. `deliver` states the contract of a
//! matched receive; `SendRequest` and `RequestScope` model the in-flight
//! send and the scoped guard that completes every outstanding request
//! before its buffer can be reused.

use vstd::prelude::*;

verus! {

/// Metadata returned by every receive: the true origin of the message —
/// reported also when the receive used the wildcard source — its tag, and
/// the number of elements actually received, which always equals the
/// element count the sender transmitted.
#[derive(Clone, Copy, Debug, PartialEq, Eq, Structural)]
pub struct Status {
    pub source_rank: i32,
    pub tag: i32,
    pub count: usize,
}

/// What a matching receive hands back once the message sent by `source`
/// with payload `payload` arrives: a fresh buffer holding exactly the
/// transmitted elements, and a status reporting the true origin, the tag,
/// and the transmitted element count.
pub fn deliver<T>(source: i32, tag: i32, payload: Vec<T>) -> (r: (Vec<T>, Status))
    ensures
        r.0 == payload,
        r.1.source_rank == source,
        r.1.tag == tag,
        r.1.count == payload@.len(),
{
    let count = payload.len();
    (payload, Status { source_rank: source, tag, count })
}

/// A single-element exchange: the scalar the sender transmitted, with a
/// status whose count is one.
pub fn deliver_one<T>(source: i32, tag: i32, value: T) -> (r: (T, Status))
    ensures
        r.0 == value,
        r.1.source_rank == source,
        r.1.tag == tag,
        r.1.count == 1,
{
    (value, Status { source_rank: source, tag, count: 1 })
}

/// A non-blocking send in flight. The payload buffer is locked inside the
/// request until completion, so it cannot be reused or freed while the
/// transmission may still be reading it; and completing consumes the
/// request, so no request is ever waited on twice.
pub struct SendRequest<T> {
    target: i32,
    tag: i32,
    payload: Vec<T>,
}

impl<T> SendRequest<T> {
    /// The rank the payload is addressed to.
    pub closed spec fn spec_target(self) -> int {
        self.target as int
    }

    /// The tag the payload travels under.
    pub closed spec fn spec_tag(self) -> int {
        self.tag as int
    }

    /// The elements in flight.
    pub closed spec fn spec_payload(self) -> Seq<T> {
        self.payload@
    }

    /// Issues a non-blocking send and returns at once; the payload stays
    /// owned by the request until the completion wait.
    pub fn issue(target: i32, tag: i32, payload: Vec<T>) -> (r: SendRequest<T>)
        ensures
            r.spec_target() == target,
            r.spec_tag() == tag,
            r.spec_payload() == payload@,
    {
        SendRequest { target, tag, payload }
    }

    /// Blocks until the transmission has completed, then releases the
    /// payload buffer unchanged. Consuming `self` is what makes "exactly
    /// one wait per request" a type-level guarantee.
    pub fn wait(self) -> (r: Vec<T>)
        ensures
            r@ == self.spec_payload(),
    {
        self.payload
    }
}

/// The scoped completion guard around non-blocking sends: requests issued
/// inside the scope are attached to it, and closing the scope waits on
/// every outstanding request, in issue order, before any buffer escapes.
/// Closing consumes the scope, so no request attached to it can be left
/// dangling past the scope's end.
pub struct RequestScope<T> {
    pending: Vec<SendRequest<T>>,
}

impl<T> RequestScope<T> {
    /// The requests still outstanding, in issue order.
    pub closed spec fn spec_pending(self) -> Seq<SendRequest<T>> {
        self.pending@
    }

    /// Opens a scope with no request outstanding.
    pub fn open() -> (r: RequestScope<T>)
        ensures
            r.spec_pending() == Seq::<SendRequest<T>>::empty(),
    {
        RequestScope { pending: Vec::new() }
    }

    /// Attaches an in-flight request to the scope; it will be waited on at
    /// the latest when the scope closes.
    pub fn attach(&mut self, req: SendRequest<T>)
        ensures
            final(self).spec_pending() == old(self).spec_pending().push(req),
    {
        self.pending.push(req);
    }

    /// How many requests the scope still holds.
    pub fn outstanding(&self) -> (n: usize)
        ensures
            n == self.spec_pending().len(),
    {
        self.pending.len()
    }

    /// Closes the scope: every outstanding request is completed, in issue
    /// order, and its payload buffer is released unchanged.
    pub fn close(self) -> (r: Vec<Vec<T>>)
        ensures
            r@.len() == self.spec_pending().len(),
            forall|i: int|
                0 <= i < r@.len() ==> r@[i]@ == self.spec_pending()[i].spec_payload(),
    {
        let RequestScope { mut pending } = self;
        let ghost issued = pending@;
        let mut released: Vec<Vec<T>> = Vec::new();
        while pending.len() > 0
            invariant
                released@.len() + pending@.len() == issued.len(),
                forall|j: int|
                    0 <= j < pending@.len() ==> pending@[j] == issued[released@.len() + j],
                forall|i: int|
                    0 <= i < released@.len() ==> released@[i]@ == issued[i].spec_payload(),
            decreases pending@.len(),
        {
            let req = pending.remove(0);
            let buf = req.wait();
            released.push(buf);
        }
        released
    }
}

} // verus!
