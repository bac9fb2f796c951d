//! Naming for upstream provisioning: the transient queue name a new
//! subscription declares and the consumer tag it registers under. The
//! declaring, binding and consuming themselves are network calls made
//! by the surrounding process; this module only builds the values they
//! are given.

use crate::routing_key::RoutingKey;
use rand::Rng;
use vstd::prelude::*;
use vstd::string::StringExecFns;

verus! {

/// Length of the random suffix appended to a queue name.
pub const QUEUE_SUFFIX_LEN: usize = 7;

/// Length of a generated consumer tag.
pub const CONSUMER_TAG_LEN: usize = 15;

/// An ASCII letter or digit.
pub open spec fn is_alphanumeric_char(c: char) -> bool {
    ||| 'a' as u32 <= c as u32 && c as u32 <= 'z' as u32
    ||| 'A' as u32 <= c as u32 && c as u32 <= 'Z' as u32
    ||| '0' as u32 <= c as u32 && c as u32 <= '9' as u32
}

/// A well-formed transient queue name for `topic`: the fixed prefix,
/// the topic itself, a dot, and a random alphanumeric suffix that keeps
/// names of concurrent subscribers to one topic distinct.
pub open spec fn is_queue_name_for(name: Seq<char>, topic: Seq<char>) -> bool {
    &&& name.len() == topic.len() + QUEUE_SUFFIX_LEN + 5
    &&& name.subrange(0, 4) == "sse."@
    &&& name.subrange(4, 4 + topic.len() as int) == topic
    &&& name[4 + topic.len() as int] == '.'
    &&& forall|i: int|
        5 + topic.len() as int <= i < name.len() ==> is_alphanumeric_char(#[trigger] name[i])
}

/// Relies on rand's `Alphanumeric` distribution sampled from the
/// thread-local generator: every drawn byte is an ASCII letter or
/// digit, and `take(len)` draws exactly `len` of them. The result is
/// random, so nothing beyond its length and alphabet is promised.
#[verifier::external_body]
fn random_alphanumeric(len: usize) -> (r: String)
    ensures
        r@.len() == len,
        forall|i: int| 0 <= i < r@.len() ==> is_alphanumeric_char(#[trigger] r@[i]),
{
    rand::thread_rng().sample_iter(&rand::distributions::Alphanumeric).take(len).map(
        char::from,
    ).collect()
}

/// The provisioning side of the core: it names what the surrounding
/// process declares and binds upstream.
pub struct Listener {}

impl Listener {
    /// The listener holds no state of its own; the connection and
    /// channel it provisions over live with the surrounding process.
    pub fn create() -> (r: Listener) {
        Listener {}
    }

    /// The name for a fresh transient queue serving `routing_key`:
    /// the topic string wrapped in a fixed prefix and a random suffix.
    pub fn make_queue_name(&self, routing_key: &RoutingKey) -> (r: String)
        requires
            routing_key.wf(),
        ensures
            is_queue_name_for(r@, routing_key.decoded()),
    {
        let topic = routing_key.decode();
        proof {
            reveal_strlit("sse.");
            reveal_strlit(".");
        }
        let mut name = String::new();
        name.append("sse.");
        name.append(topic.0.as_str());
        name.append(".");
        let suffix = random_alphanumeric(QUEUE_SUFFIX_LEN);
        name.append(suffix.as_str());
        proof {
            let t = routing_key.decoded();
            assert(name@ == "sse."@ + t + "."@ + suffix@);
            assert(name@.subrange(0, 4) =~= "sse."@);
            assert(name@.subrange(4, 4 + t.len() as int) =~= t);
            assert(name@[4 + t.len() as int] == '.');
        }
        name
    }

    /// A fresh consumer tag to register an upstream subscription under.
    pub fn make_consumer_tag(&self) -> (r: String)
        ensures
            r@.len() == CONSUMER_TAG_LEN,
            forall|i: int| 0 <= i < r@.len() ==> is_alphanumeric_char(#[trigger] r@[i]),
    {
        random_alphanumeric(CONSUMER_TAG_LEN)
    }
}

} // verus!
