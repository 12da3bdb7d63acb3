//! What holds of grants, whatever services the kernel hosts.

use vstd::prelude::*;
use crate::error_code::ErrorCode;
use crate::fake::driver::SyscallDriver;
use crate::fake::kernel::Kernel;
use crate::fake::view::KernelView;

verus! {

/// The region a slot holds for reading; empty where the service is not
/// there.
pub open spec fn ro_region<D: SyscallDriver>(
    kernel: KernelView<D::V>,
    driver_num: u32,
    buffer_num: u32,
) -> Seq<u8> {
    if kernel.has_driver(driver_num) {
        D::ro_buffer(kernel.drivers[driver_num].driver, buffer_num)
    } else {
        Seq::empty()
    }
}

/// The region a slot holds for reading and writing; empty where the service
/// is not there.
pub open spec fn rw_region<D: SyscallDriver>(
    kernel: KernelView<D::V>,
    driver_num: u32,
    buffer_num: u32,
) -> Seq<u8> {
    if kernel.has_driver(driver_num) {
        D::rw_buffer(kernel.drivers[driver_num].driver, buffer_num)
    } else {
        Seq::empty()
    }
}

/// A grant that is accepted returns the region that the slot held, and the
/// slot holds the granted region from then on: so of two grants to one slot
/// in a row, the second returns what the first supplied, and a revocation
/// returns the region to the caller and leaves the empty region behind.
pub proof fn law_grant_returns_previous<D: SyscallDriver>(
    kernel: KernelView<D::V>,
    driver_num: u32,
    buffer_num: u32,
    first: Seq<u8>,
    second: Seq<u8>,
)
    requires
        Kernel::<D>::allow_ro_spec(kernel, driver_num, buffer_num, first).1 is Ok,
    ensures
        ({
            let (granted, returned) = Kernel::<D>::allow_ro_spec(
                kernel,
                driver_num,
                buffer_num,
                first,
            );
            &&& returned == Ok::<Seq<u8>, ErrorCode>(ro_region::<D>(kernel, driver_num, buffer_num))
            &&& ro_region::<D>(granted, driver_num, buffer_num) == first
            &&& Kernel::<D>::allow_ro_spec(granted, driver_num, buffer_num, second).1 == Ok::<
                Seq<u8>,
                ErrorCode,
            >(first)
            &&& ro_region::<D>(
                Kernel::<D>::allow_ro_spec(granted, driver_num, buffer_num, Seq::empty()).0,
                driver_num,
                buffer_num,
            ) == Seq::<u8>::empty()
        }),
{
    let state = kernel.drivers[driver_num].driver;
    D::allow_readonly_law(state, buffer_num, first);
    D::allow_readonly_law(state, buffer_num, Seq::empty());
    let next = D::allow_readonly_spec(state, buffer_num, first)->Ok_0;
    D::allow_readonly_law(next, buffer_num, second);
    D::allow_readonly_law(next, buffer_num, Seq::empty());
}

/// What [`law_grant_returns_previous`] says, of grants for reading and
/// writing.
pub proof fn law_rw_grant_returns_previous<D: SyscallDriver>(
    kernel: KernelView<D::V>,
    driver_num: u32,
    buffer_num: u32,
    first: Seq<u8>,
    second: Seq<u8>,
)
    requires
        Kernel::<D>::allow_rw_spec(kernel, driver_num, buffer_num, first).1 is Ok,
    ensures
        ({
            let (granted, returned) = Kernel::<D>::allow_rw_spec(
                kernel,
                driver_num,
                buffer_num,
                first,
            );
            &&& returned == Ok::<Seq<u8>, ErrorCode>(rw_region::<D>(kernel, driver_num, buffer_num))
            &&& rw_region::<D>(granted, driver_num, buffer_num) == first
            &&& Kernel::<D>::allow_rw_spec(granted, driver_num, buffer_num, second).1 == Ok::<
                Seq<u8>,
                ErrorCode,
            >(first)
            &&& rw_region::<D>(
                Kernel::<D>::allow_rw_spec(granted, driver_num, buffer_num, Seq::empty()).0,
                driver_num,
                buffer_num,
            ) == Seq::<u8>::empty()
        }),
{
    let state = kernel.drivers[driver_num].driver;
    D::allow_readwrite_law(state, buffer_num, first);
    D::allow_readwrite_law(state, buffer_num, Seq::empty());
    let next = D::allow_readwrite_spec(state, buffer_num, first)->Ok_0;
    D::allow_readwrite_law(next, buffer_num, second);
    D::allow_readwrite_law(next, buffer_num, Seq::empty());
}

/// A command has no effect on grants for reading nor on subscriptions: every
/// slot holds the region it held, and every holder stays subscribed with
/// what it remembers.
pub proof fn law_command_spares_grants_and_subscriptions<D: SyscallDriver>(
    kernel: KernelView<D::V>,
    driver_num: u32,
    command_num: u32,
    argument0: u32,
    argument1: u32,
    other: u32,
    slot: u32,
)
    ensures
        ro_region::<D>(
            Kernel::<D>::command_spec(kernel, driver_num, command_num, argument0, argument1).0,
            other,
            slot,
        ) == ro_region::<D>(kernel, other, slot),
        Kernel::<D>::command_spec(kernel, driver_num, command_num, argument0, argument1).0.sink(
            other,
            slot,
        )
            == kernel.sink(other, slot),
{
    if kernel.has_driver(driver_num) {
        D::command_law(kernel.drivers[driver_num].driver, command_num, argument0, argument1);
    }
}

} // verus!
