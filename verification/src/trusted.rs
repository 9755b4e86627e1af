//! What the library takes from other crates without proof: the channel
//! types it carries, and the random draws.

use vstd::prelude::*;

verus! {

/// `tokio::sync::mpsc::Sender`: the sending half of a client's outbound
/// channel. The library stores and hands out such values and never looks
/// inside.
#[verifier::external_type_specification]
#[verifier::external_body]
#[verifier::reject_recursive_types(T)]
pub struct ExMpscSender<T>(tokio::sync::mpsc::Sender<T>);

/// `tokio::sync::broadcast::Sender`: the sending half of a game's
/// broadcast channel, carried like the one above.
#[verifier::external_type_specification]
#[verifier::external_body]
#[verifier::reject_recursive_types(T)]
pub struct ExBroadcastSender<T>(tokio::sync::broadcast::Sender<T>);

/// Whether `c` is an ASCII letter or digit.
pub open spec fn is_alphanumeric(c: char) -> bool {
    ||| '0' <= c <= '9'
    ||| 'A' <= c <= 'Z'
    ||| 'a' <= c <= 'z'
}

/// `rand::distr::SampleString::sample_string` on `rand::distr::Alphanumeric`
/// with the thread's generator: a string of `len` characters, each drawn
/// from `A-Z`, `a-z` and `0-9`. Which characters is left open.
#[verifier::external_body]
pub(crate) fn random_alphanumeric(len: usize) -> (s: String)
    ensures
        s@.len() == len,
        forall|i: int| 0 <= i < s@.len() ==> is_alphanumeric(#[trigger] s@[i]),
{
    rand::distr::SampleString::sample_string(&rand::distr::Alphanumeric, &mut rand::rng(), len)
}

/// `rand::Rng::random_range` on `0..n` with the thread's generator: some
/// number below `n`. The call panics on an empty range, so `n` is positive.
#[verifier::external_body]
pub(crate) fn random_index(n: usize) -> (i: usize)
    requires
        n > 0,
    ensures
        i < n,
{
    rand::Rng::random_range(&mut rand::rng(), 0..n)
}

/// `tokio::sync::broadcast::channel`: the sending half of a new channel
/// that holds up to `capacity` messages. The call panics when `capacity` is
/// zero or above `usize::MAX / 2`. Nothing is claimed of the result.
#[verifier::external_body]
pub(crate) fn new_room_sender(capacity: usize) -> (sender: tokio::sync::broadcast::Sender<String>)
    requires
        0 < capacity <= usize::MAX / 2,
{
    tokio::sync::broadcast::channel(capacity).0
}

} // verus!
