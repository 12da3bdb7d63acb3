//! Block storage: its geometry, and reading a block.

use vstd::prelude::*;
use crate::allow::RwAllowBuffer;
use crate::command_return::CommandReturn;
use crate::error_code::{ErrorCode, WaitError};
use crate::fake::driver::SyscallDriver;
use crate::fake::kernel::{with_scope, Kernel};
use crate::fake::laws::scope::{
    law_scope_exit_revokes, lemma_scope_after_allow_rw, lemma_scope_after_command,
    lemma_scope_after_subscribe, lemma_scope_after_wait, scope_released, scope_revocable,
};
use crate::fake::scope::{Handle, Scope};
use crate::fake::view::KernelView;
use crate::upcall::{Sink, UpcallArgs};

verus! {

/// The number the block storage service is addressed by.
pub const DRIVER_NUM: u32 = 0x50003;

/// Command: is the storage there?
pub const DRIVER_CHECK: u32 = 0;

/// Command: what are the block sizes?
pub const GEOMETRY: u32 = 2;

/// Command: read `argument1` blocks, starting at block `argument0`.
pub const READ: u32 = 4;

/// The subscription slot that is notified when a read is done.
pub const SUBSCRIBE_READ: u32 = 0;

/// The slot that takes the region to read into.
pub const ALLOW_READ: u32 = 0;

/// The sizes of the blocks that the storage writes and erases, in bytes.
#[derive(Clone, Copy, Debug, PartialEq, Eq, Structural)]
pub struct Geometry {
    pub write_block_size: u32,
    pub erase_block_size: u32,
}

/// The block storage.
pub struct BlockStorage;

/// The grant of the region to read into.
pub open spec fn read_grant() -> Handle {
    Handle::AllowRw { driver_num: DRIVER_NUM, buffer_num: ALLOW_READ }
}

/// The subscription that a read waits on.
pub open spec fn read_subscription() -> Handle {
    Handle::Subscribe { driver_num: DRIVER_NUM, subscribe_num: SUBSCRIBE_READ }
}

/// The block sizes that an answer to the geometry query carries: it must
/// be a success with exactly the two sizes.
pub open spec fn geometry_of(returned: CommandReturn) -> Option<Geometry> {
    match returned {
        CommandReturn::Success2U32(write_block_size, erase_block_size) => Some(
            Geometry { write_block_size, erase_block_size },
        ),
        _ => None,
    }
}

/// How the notification of a finished read is read: a first word of zero
/// is success; else the second word is the raw code of the error, and a
/// number that stands for no error is read as [`ErrorCode::Fail`].
pub open spec fn read_outcome(payload: Option<UpcallArgs>) -> Result<(), WaitError> {
    match payload {
        None => Err(WaitError::Hung),
        Some(args) => if args.0 == 0 {
            Ok(())
        } else {
            Err(WaitError::Failed(ErrorCode::of_raw(args.1)))
        },
    }
}

/// What [`BlockStorage::read`] does once the region is granted, up to
/// the notification: the kernel it leaves, the subscriptions it made, and
/// its result.
pub open spec fn read_granted_spec<D: SyscallDriver>(
    kernel: KernelView<D::V>,
    block_idx: u32,
) -> (KernelView<D::V>, Seq<Handle>, Result<(), WaitError>) {
    let (subscribed, previous) = kernel.subscribe_spec(
        DRIVER_NUM,
        SUBSCRIBE_READ,
        Some(Sink::empty()),
    );
    match previous {
        Err(code) => (subscribed, seq![read_grant()], Err(WaitError::Failed(code))),
        Ok(_) => {
            let (commanded, returned) = Kernel::<D>::command_spec(
                subscribed,
                DRIVER_NUM,
                READ,
                block_idx,
                1,
            );
            match returned.unit_result() {
                Err(code) => (
                    commanded,
                    seq![read_grant(), read_subscription()],
                    Err(WaitError::Failed(code)),
                ),
                Ok(_) => {
                    let (waited, payload) = commanded.wait_spec(DRIVER_NUM, SUBSCRIBE_READ);
                    (waited, seq![read_grant(), read_subscription()], read_outcome(payload))
                },
            }
        },
    }
}

/// What [`BlockStorage::read`] does before its scope ends: the kernel it
/// leaves, the grants and subscriptions it made, the contents of the
/// caller's buffer afterwards, and its result.
///
/// The buffer is granted for reading and writing. Where the grant is
/// refused the buffer comes back untouched. Else the read runs, and the
/// region is taken back with what the service wrote to it.
pub open spec fn read_in_scope_spec<D: SyscallDriver>(
    kernel: KernelView<D::V>,
    block_idx: u32,
    buffer: Seq<u8>,
) -> (KernelView<D::V>, Seq<Handle>, Seq<u8>, Result<(), WaitError>) {
    let (granted, allowed) = Kernel::<D>::allow_rw_spec(kernel, DRIVER_NUM, ALLOW_READ, buffer);
    match allowed {
        Err(code) => (granted, Seq::empty(), buffer, Err(WaitError::Failed(code))),
        Ok(_) => {
            let (done, handles, result) = read_granted_spec::<D>(granted, block_idx);
            let (returned, region) = Kernel::<D>::allow_rw_spec(
                done,
                DRIVER_NUM,
                ALLOW_READ,
                Seq::empty(),
            );
            (
                returned,
                handles,
                match region {
                    Ok(held) => held,
                    Err(_) => Seq::empty(),
                },
                result,
            )
        },
    }
}

/// What [`BlockStorage::read`] does: the kernel it leaves, the contents of
/// the caller's buffer afterwards, and its result.
pub open spec fn read_spec<D: SyscallDriver>(
    kernel: KernelView<D::V>,
    block_idx: u32,
    buffer: Seq<u8>,
) -> (KernelView<D::V>, Seq<u8>, Result<(), WaitError>) {
    let (inside, handles, region, result) = read_in_scope_spec::<D>(kernel, block_idx, buffer);
    (Kernel::<D>::revoke_all_spec(inside, handles), region, result)
}

/// Nothing that [`BlockStorage::read`] grants or subscribes outlives it:
/// when it returns, whatever its result and whatever services the kernel
/// hosts, none of the slots it occupied is in use.
pub proof fn law_read_releases_its_scope<D: SyscallDriver>(
    kernel: KernelView<D::V>,
    block_idx: u32,
    buffer: Seq<u8>,
)
    ensures
        scope_released::<D>(
            read_spec::<D>(kernel, block_idx, buffer).0,
            read_in_scope_spec::<D>(kernel, block_idx, buffer).1,
        ),
{
    let (inside, handles, _, _) = read_in_scope_spec::<D>(kernel, block_idx, buffer);
    assert(scope_revocable::<D>(inside, handles)) by {
        let none = Seq::<Handle>::empty();
        let sink = Some(Sink::empty());
        lemma_scope_after_allow_rw::<D>(kernel, none, DRIVER_NUM, ALLOW_READ, buffer);
        let (granted, allowed) = Kernel::<D>::allow_rw_spec(kernel, DRIVER_NUM, ALLOW_READ, buffer);
        if allowed is Ok {
            let one = none.push(read_grant());
            assert(one =~= seq![read_grant()]);
            lemma_scope_after_subscribe::<D>(granted, one, DRIVER_NUM, SUBSCRIBE_READ, sink);
            let (subscribed, previous) = granted.subscribe_spec(DRIVER_NUM, SUBSCRIBE_READ, sink);
            let (done, made, _) = read_granted_spec::<D>(granted, block_idx);
            if previous is Ok {
                let two = one.push(read_subscription());
                assert(two =~= seq![
                    read_grant(),
                    read_subscription(),
                ]);
                lemma_scope_after_command::<D>(subscribed, two, DRIVER_NUM, READ, block_idx, 1);
                let commanded = Kernel::<D>::command_spec(
                    subscribed,
                    DRIVER_NUM,
                    READ,
                    block_idx,
                    1,
                ).0;
                lemma_scope_after_wait::<D>(commanded, two, DRIVER_NUM, SUBSCRIBE_READ);
            }
            assert(scope_revocable::<D>(done, made));
            lemma_scope_after_allow_rw::<D>(done, made, DRIVER_NUM, ALLOW_READ, Seq::empty());
        }
    }
    law_scope_exit_revokes::<D>(inside, handles);
}

impl BlockStorage {
    /// Asks the block storage whether it is there.
    ///
    /// Returns `true` if the service is present. This does not mean that it
    /// works: a later grant may still be refused.
    pub fn driver_check<D: SyscallDriver>(kernel: &mut Kernel<D>) -> (present: bool)
        requires
            old(kernel).wf(),
        ensures
            final(kernel).wf(),
            final(kernel)@ == Kernel::<D>::command_spec(
                old(kernel)@,
                DRIVER_NUM,
                DRIVER_CHECK,
                0,
                0,
            ).0,
            present == !(Kernel::<D>::command_spec(
                old(kernel)@,
                DRIVER_NUM,
                DRIVER_CHECK,
                0,
                0,
            ).1 is Failure),
    {
        kernel.command(DRIVER_NUM, DRIVER_CHECK, 0, 0).is_success()
    }

    /// Asks the block storage for its block sizes. `None` where the answer
    /// does not carry exactly the two sizes.
    pub fn try_get_geometry<D: SyscallDriver>(
        kernel: &mut Kernel<D>,
    ) -> (geometry: Option<Geometry>)
        requires
            old(kernel).wf(),
        ensures
            final(kernel).wf(),
            final(kernel)@ == Kernel::<D>::command_spec(old(kernel)@, DRIVER_NUM, GEOMETRY, 0, 0).0,
            geometry == geometry_of(
                Kernel::<D>::command_spec(old(kernel)@, DRIVER_NUM, GEOMETRY, 0, 0).1,
            ),
    {
        match kernel.command(DRIVER_NUM, GEOMETRY, 0, 0).get_success_2_u32() {
            Some((write_block_size, erase_block_size)) => Some(Geometry {
                write_block_size,
                erase_block_size,
            }),
            None => None,
        }
    }

    /// Asks the block storage for its block sizes.
    ///
    /// The storage must answer the query with the two sizes: a caller that
    /// is not sure of that uses [`BlockStorage::try_get_geometry`].
    pub fn get_geometry<D: SyscallDriver>(kernel: &mut Kernel<D>) -> (geometry: Geometry)
        requires
            old(kernel).wf(),
            geometry_of(
                Kernel::<D>::command_spec(old(kernel)@, DRIVER_NUM, GEOMETRY, 0, 0).1,
            ) is Some,
        ensures
            final(kernel).wf(),
            final(kernel)@ == Kernel::<D>::command_spec(old(kernel)@, DRIVER_NUM, GEOMETRY, 0, 0).0,
            Some(geometry) == geometry_of(
                Kernel::<D>::command_spec(old(kernel)@, DRIVER_NUM, GEOMETRY, 0, 0).1,
            ),
    {
        let answer = kernel.command(DRIVER_NUM, GEOMETRY, 0, 0);
        let (write_block_size, erase_block_size) = answer.get_success_2_u32().unwrap();
        Geometry { write_block_size, erase_block_size }
    }

    /// Reads block `block_idx` into `buf`, and waits until the storage
    /// reports the read done. While the read runs the storage holds the
    /// buffer; it is back in `buf` when the call returns, whatever the
    /// result, and the subscription made on the way is revoked.
    pub fn read<D: SyscallDriver>(
        kernel: &mut Kernel<D>,
        block_idx: u32,
        buf: &mut Vec<u8>,
    ) -> (result: Result<(), WaitError>)
        requires
            old(kernel).wf(),
        ensures
            final(kernel).wf(),
            (final(kernel)@, final(buf)@, result) == read_spec::<D>(
                old(kernel)@,
                block_idx,
                old(buf)@,
            ),
    {
        let mut region: Vec<u8> = Vec::new();
        std::mem::swap(&mut region, buf);
        let body = |inner: &mut Kernel<D>, scope: &mut Scope| -> (out: (
            Result<(), WaitError>,
            Vec<u8>,
        ))
            requires
                inner.wf(),
                scope@ == Seq::<Handle>::empty(),
            ensures
                final(inner).wf(),
                (final(inner)@, final(scope)@, out.1@, out.0) == read_in_scope_spec::<D>(
                    old(inner)@,
                    block_idx,
                    region@,
                ),
            {
                Self::read_in_scope(inner, scope, block_idx, region)
            };
        let (result, returned) = with_scope(kernel, body);
        *buf = returned;
        result
    }

    fn read_in_scope<D: SyscallDriver>(
        kernel: &mut Kernel<D>,
        scope: &mut Scope,
        block_idx: u32,
        region: Vec<u8>,
    ) -> (out: (Result<(), WaitError>, Vec<u8>))
        requires
            old(kernel).wf(),
            old(scope)@ == Seq::<Handle>::empty(),
        ensures
            final(kernel).wf(),
            (final(kernel)@, final(scope)@, out.1@, out.0) == read_in_scope_spec::<D>(
                old(kernel)@,
                block_idx,
                region@,
            ),
    {
        match kernel.allow_rw(scope, DRIVER_NUM, ALLOW_READ, RwAllowBuffer::new(region)) {
            Err((returned, code)) => (Err(WaitError::Failed(code)), returned.into_bytes()),
            Ok(_) => {
                assert(scope@ =~= seq![read_grant()]);
                let result = Self::read_granted(kernel, scope, block_idx);
                match kernel.unallow_rw(DRIVER_NUM, ALLOW_READ) {
                    Ok(held) => (result, held.into_bytes()),
                    Err(_) => (result, Vec::new()),
                }
            },
        }
    }

    fn read_granted<D: SyscallDriver>(
        kernel: &mut Kernel<D>,
        scope: &mut Scope,
        block_idx: u32,
    ) -> (result: Result<(), WaitError>)
        requires
            old(kernel).wf(),
            old(scope)@ == seq![read_grant()],
        ensures
            final(kernel).wf(),
            (final(kernel)@, final(scope)@, result) == read_granted_spec::<D>(
                old(kernel)@,
                block_idx,
            ),
    {
        if let Err(code) = kernel.subscribe(scope, DRIVER_NUM, SUBSCRIBE_READ, Sink::new()) {
            return Err(WaitError::Failed(code));
        }
        assert(scope@ =~= seq![
            read_grant(),
            read_subscription(),
        ]);
        if let Err(code) = kernel.command(DRIVER_NUM, READ, block_idx, 1).to_result() {
            return Err(WaitError::Failed(code));
        }
        match kernel.wait_for(DRIVER_NUM, SUBSCRIBE_READ) {
            None => Err(WaitError::Hung),
            Some(args) => {
                if args.0 == 0 {
                    Ok(())
                } else {
                    Err(WaitError::Failed(ErrorCode::from_raw(args.1)))
                }
            },
        }
    }
}

} // verus!
