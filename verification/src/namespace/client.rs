//! What a namespace client sends.

use vstd::prelude::*;
use vstd::bytes::{spec_u32_to_le_bytes, spec_u64_to_le_bytes, u64_to_le_bytes};

use crate::bootstrap::protocol::push_u32;
use crate::namespace::protocol::MountFlags;

verus! {

/// Bytes of a bind request as the client forms them: the flags on 32 bits, the path length on 64 bits, the
/// path, then the driver name, the integers little-endian.
pub open spec fn bind_message_spec(path: Seq<u8>, name: Seq<u8>, flags: MountFlags) -> Seq<u8> {
    spec_u32_to_le_bytes(flags.spec_bits()) + spec_u64_to_le_bytes(path.len() as u64) + path + name
}

/// The data of a bind request for `path`, the driver `name` and `flags`.
///
/// The server reads the path length on 32 bits and the path from the eighth byte on
/// ([`Namespace::bind_request`](crate::namespace::server::Namespace::bind_request)); this framing writes
/// the length on 64 bits, as the client always has.
pub fn bind_message(path: &[u8], name: &[u8], flags: MountFlags) -> (res: Vec<u8>)
    ensures
        res@ == bind_message_spec(path@, name@, flags),
{
    let mut buf: Vec<u8> = Vec::new();
    push_u32(&mut buf, flags.bits());
    let mut len_bytes = u64_to_le_bytes(path.len() as u64);
    buf.append(&mut len_bytes);
    let ghost head = buf@;
    let mut i: usize = 0;
    while i < path.len()
        invariant
            i <= path@.len(),
            buf@ == head + path@.subrange(0, i as int),
        decreases path@.len() - i,
    {
        buf.push(path[i]);
        i = i + 1;
        assert(path@.subrange(0, i as int) =~= path@.subrange(0, i - 1).push(path@[i - 1]));
    }
    assert(path@.subrange(0, path@.len() as int) =~= path@);
    let ghost mid = buf@;
    let mut k: usize = 0;
    while k < name.len()
        invariant
            k <= name@.len(),
            buf@ == mid + name@.subrange(0, k as int),
        decreases name@.len() - k,
    {
        buf.push(name[k]);
        k = k + 1;
        assert(name@.subrange(0, k as int) =~= name@.subrange(0, k - 1).push(name@[k - 1]));
    }
    assert(name@.subrange(0, name@.len() as int) =~= name@);
    buf
}

} // verus!
