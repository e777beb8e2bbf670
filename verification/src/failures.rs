//! What kind of failure a chain of causes amounts to.
use vstd::prelude::*;
use vstd::string::StringSliceAdditionalSpecFns;

use crate::bytes::copy_bytes;

verus! {

/// One link in the chain of causes of a broker's failure.
#[derive(Clone, Copy, Debug, PartialEq, Eq, Structural)]
pub enum FailureCause {
    UnexpectedEof,
    BrokenPipe,
    ConnectionReset,
    OwnerFenceFailed,
    Other,
}

/// A cause by which the other side of a connection is gone.
pub open spec fn is_gone(cause: FailureCause) -> bool {
    cause == FailureCause::UnexpectedEof || cause == FailureCause::BrokenPipe || cause
        == FailureCause::ConnectionReset
}

/// Whether the other side of the connection is gone.
pub fn is_disconnect(chain: &Vec<FailureCause>) -> (r: bool)
    ensures
        r == exists|i: int| 0 <= i < chain@.len() && is_gone(#[trigger] chain@[i]),
{
    let mut i: usize = 0;
    while i < chain.len()
        invariant
            i <= chain@.len(),
            forall|j: int| 0 <= j < i ==> !is_gone(#[trigger] chain@[j]),
        decreases chain@.len() - i,
    {
        let cause: FailureCause = chain[i];
        if cause == FailureCause::UnexpectedEof || cause == FailureCause::BrokenPipe || cause
            == FailureCause::ConnectionReset {
            assert(is_gone(chain@[i as int]));
            return true;
        }
        i += 1;
    }
    false
}

/// Whether the last frame of an owner could not be taken off the panel.
pub fn is_owner_fence_failure(chain: &Vec<FailureCause>) -> (r: bool)
    ensures
        r == chain@.contains(FailureCause::OwnerFenceFailed),
{
    let mut i: usize = 0;
    while i < chain.len()
        invariant
            i <= chain@.len(),
            forall|j: int|
                0 <= j < i ==> #[trigger] chain@[j] != FailureCause::OwnerFenceFailed,
        decreases chain@.len() - i,
    {
        if chain[i] == FailureCause::OwnerFenceFailed {
            assert(chain@[i as int] == FailureCause::OwnerFenceFailed);
            return true;
        }
        i += 1;
    }
    false
}

/// The socket of the broker: the one that is asked for, or the usual one.
pub fn socket_path(asked: Option<&[u8]>) -> (path: Vec<u8>)
    ensures
        path@ == (match asked {
            Some(path) => path@,
            None => "/run/sliver/broker.sock".spec_bytes(),
        }),
{
    match asked {
        Some(path) => copy_bytes(path),
        None => copy_bytes("/run/sliver/broker.sock".as_bytes()),
    }
}

} // verus!
