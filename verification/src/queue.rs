//! The FIFO queue of one topic: `queues::Queue<String>`, seen through the
//! sequence of payloads that it holds.

use queues::IsQueue;
use queues::Queue;
use vstd::prelude::*;

verus! {

/// `queues::Queue`, as an opaque type: what a queue holds is known through
/// `queue_items` alone.
#[verifier::external_type_specification]
#[verifier::external_body]
#[verifier::reject_recursive_types(T)]
pub struct ExQueue<T: Clone>(Queue<T>);

/// The payloads that a queue holds, oldest first.
pub uninterp spec fn queue_items(q: Queue<String>) -> Seq<Seq<char>>;

/// `Queue::new`: a queue that holds nothing.
#[verifier::external_body]
pub(crate) fn queue_new() -> (q: Queue<String>)
    ensures
        queue_items(q) == Seq::<Seq<char>>::empty(),
{
    Queue::new()
}

/// `Queue::size`: the number of payloads held.
#[verifier::external_body]
pub(crate) fn queue_size(q: &Queue<String>) -> (n: usize)
    ensures
        n == queue_items(*q).len(),
{
    q.size()
}

/// `Queue::add`: the payload goes to the back; nothing else moves. The queue
/// is unbounded, so the outside call always reports success.
#[verifier::external_body]
pub(crate) fn queue_add(q: &mut Queue<String>, value: String)
    ensures
        queue_items(*final(q)) == queue_items(*old(q)).push(value@),
{
    let _ = q.add(value);
}

/// `Queue::remove`: the oldest payload leaves and is handed out; an empty
/// queue stays as it is and hands out nothing.
#[verifier::external_body]
pub(crate) fn queue_remove(q: &mut Queue<String>) -> (r: Option<String>)
    ensures
        match r {
            Some(v) => queue_items(*old(q)).len() > 0 && v@ == queue_items(*old(q)).first()
                && queue_items(*final(q)) == queue_items(*old(q)).drop_first(),
            None => queue_items(*old(q)).len() == 0 && queue_items(*final(q)) == queue_items(
                *old(q),
            ),
        },
{
    match q.remove() {
        Ok(v) => Some(v),
        Err(_) => None,
    }
}

} // verus!
