use libtock2::allow::{RoAllowBuffer, RwAllowBuffer};
use libtock2::command_return::CommandReturn;
use libtock2::console::Console;
use libtock2::error_code::ErrorCode;
use libtock2::fake;
use libtock2::fake::driver::{CommandEffect, SyscallDriver};
use libtock2::fake::either::Either;
use libtock2::fake::kernel::{with_scope, Kernel};
use libtock2::upcall::{Sink, Upcall};
use vstd::seq::Seq;

/// A service under a number of the test's choice. It answers every command
/// with its arguments, and notifies its slot 0 with them.
struct Echo {
    id: u32,
    commands: u32,
    region: RwAllowBuffer,
}

impl Echo {
    fn new(id: u32) -> Echo {
        Echo { id, commands: 0, region: RwAllowBuffer::default() }
    }
}

impl vstd::view::View for Echo {
    type V = ();

    fn view(&self) {}
}

// The specification items of the trait are never run: only a verified
// service gives them a meaning.
impl SyscallDriver for Echo {
    fn driver_num(_state: ()) -> u32 {
        unreachable!()
    }

    fn upcall_count(_state: ()) -> u32 {
        unreachable!()
    }

    fn ro_buffer(_state: (), _buffer_num: u32) -> Seq<u8> {
        unreachable!()
    }

    fn rw_buffer(_state: (), _buffer_num: u32) -> Seq<u8> {
        unreachable!()
    }

    fn allow_readonly_spec(_state: (), _buffer_num: u32, _buffer: Seq<u8>) -> Result<(), ErrorCode> {
        unreachable!()
    }

    fn allow_readwrite_spec(_state: (), _buffer_num: u32, _buffer: Seq<u8>) -> Result<(), ErrorCode> {
        unreachable!()
    }

    fn command_spec(_state: (), _command_num: u32, _argument0: u32, _argument1: u32) -> CommandEffect<()> {
        unreachable!()
    }

    fn allow_readonly_law(_state: (), _buffer_num: u32, _buffer: Seq<u8>) {}

    fn allow_readwrite_law(_state: (), _buffer_num: u32, _buffer: Seq<u8>) {}

    fn command_law(_state: (), _command_num: u32, _argument0: u32, _argument1: u32) {}

    fn id(&self) -> u32 {
        self.id
    }

    fn num_upcalls(&self) -> u32 {
        1
    }

    fn allow_readonly(
        &mut self,
        _buffer_num: u32,
        buffer: RoAllowBuffer,
    ) -> Result<RoAllowBuffer, (RoAllowBuffer, ErrorCode)> {
        Err((buffer, ErrorCode::Invalid))
    }

    fn allow_readwrite(
        &mut self,
        buffer_num: u32,
        buffer: RwAllowBuffer,
    ) -> Result<RwAllowBuffer, (RwAllowBuffer, ErrorCode)> {
        if buffer_num == 0 {
            Ok(std::mem::replace(&mut self.region, buffer))
        } else {
            Err((buffer, ErrorCode::Invalid))
        }
    }

    fn command(
        &mut self,
        command_num: u32,
        argument0: u32,
        argument1: u32,
        upcalls: &mut Vec<Upcall>,
    ) -> CommandReturn {
        self.commands += 1;
        for byte in self.region.bytes.iter_mut() {
            *byte = command_num as u8;
        }
        upcalls.push(Upcall {
            driver_num: self.id,
            subscribe_num: 0,
            args: (command_num, argument0, argument1),
        });
        CommandReturn::Success2U32(argument0, argument1)
    }
}

type Service = Either<fake::console::Console, Echo>;

fn kernel_with_three_services() -> Kernel<Service> {
    let mut kernel: Kernel<Service> = Kernel::new();
    kernel.add_driver(Either::Right(Echo::new(7)));
    kernel.add_driver(Either::Left(fake::console::Console::new()));
    kernel.add_driver(Either::Right(Echo::new(0x9_0001)));
    kernel
}

fn echo(kernel: &Kernel<Service>, driver_num: u32) -> &Echo {
    match kernel.driver(driver_num) {
        Some(Either::Right(echo)) => echo,
        _ => panic!("no echo service under {}", driver_num),
    }
}

#[test]
fn registry_knows_each_service_by_its_number() {
    let kernel = kernel_with_three_services();
    assert!(kernel.has_driver(1));
    assert!(kernel.has_driver(7));
    assert!(kernel.has_driver(0x9_0001));
    assert!(!kernel.has_driver(0));
    assert!(!kernel.has_driver(8));
    assert!(matches!(kernel.driver(1), Some(Either::Left(_))));
    assert!(matches!(kernel.driver(7), Some(Either::Right(_))));
    assert!(kernel.driver(2).is_none());
}

#[test]
fn commands_go_to_the_service_addressed() {
    let mut kernel = kernel_with_three_services();
    assert_eq!(kernel.command(7, 3, 4, 5), CommandReturn::Success2U32(4, 5));
    assert_eq!(kernel.command(0x9_0001, 1, 2, 3), CommandReturn::Success2U32(2, 3));
    assert_eq!(kernel.command(0x9_0001, 1, 2, 3), CommandReturn::Success2U32(2, 3));
    assert_eq!(kernel.command(1, 0, 0, 0), CommandReturn::Success);
    assert_eq!(kernel.command(2, 0, 0, 0), CommandReturn::Failure(ErrorCode::NoSupport));
    assert_eq!(echo(&kernel, 7).commands, 1);
    assert_eq!(echo(&kernel, 0x9_0001).commands, 2);
}

#[test]
fn grants_go_to_the_service_addressed() {
    let mut kernel = kernel_with_three_services();
    with_scope(&mut kernel, |kernel, scope| {
        assert!(kernel.allow_rw(scope, 7, 0, RwAllowBuffer::new(vec![0; 3])).is_ok());
        assert!(kernel.allow_rw(scope, 1, 0, RwAllowBuffer::new(vec![0; 3])).is_err());
        assert!(kernel.allow_ro(scope, 1, 1, RoAllowBuffer::new(vec![9; 2])).is_ok());
        assert!(kernel.allow_ro(scope, 7, 1, RoAllowBuffer::new(vec![9; 2])).is_err());
        assert_eq!(scope.len(), 2);
        kernel.command(7, 5, 0, 0);
        kernel.command(0x9_0001, 6, 0, 0);
        assert_eq!(kernel.unallow_rw(7, 0).unwrap().into_bytes(), vec![5; 3]);
        assert_eq!(kernel.unallow_rw(0x9_0001, 0).unwrap().into_bytes(), vec![]);
    });
    assert_eq!(kernel.unallow_ro(1, 1).unwrap().into_bytes(), vec![]);
}

#[test]
fn upcalls_reach_the_slot_of_their_service() {
    let mut kernel = kernel_with_three_services();
    with_scope(&mut kernel, |kernel, scope| {
        kernel.subscribe(scope, 7, 0, Sink::new()).unwrap();
        kernel.subscribe(scope, 0x9_0001, 0, Sink::new()).unwrap();
        kernel.command(0x9_0001, 1, 2, 3);
        kernel.command(7, 4, 5, 6);
        assert_eq!(kernel.wait_for(7, 0), Some((4, 5, 6)));
        assert_eq!(kernel.delivered(0x9_0001, 0), Some((1, 2, 3)));
        assert_eq!(kernel.delivered(1, 0), None);
    });
}

#[test]
fn console_write_works_beside_other_services() {
    let mut kernel = kernel_with_three_services();
    with_scope(&mut kernel, |kernel, scope| {
        kernel.subscribe(scope, 7, 0, Sink::new()).unwrap();
        kernel.command(7, 1, 1, 1);
        kernel.command(0x9_0001, 2, 2, 2);
        assert_eq!(Console::write(kernel, b"side by side"), Ok(12));
        assert_eq!(kernel.delivered(7, 0), Some((1, 1, 1)));
    });
    match kernel.remove_driver(1) {
        Some(Either::Left(mut console)) => assert_eq!(console.take_bytes(), b"side by side"),
        _ => panic!("no console under 1"),
    }
}

#[test]
fn removing_one_service_leaves_the_others() {
    let mut kernel = kernel_with_three_services();
    assert!(kernel.remove_driver(7).is_some());
    assert!(kernel.remove_driver(7).is_none());
    assert!(!kernel.has_driver(7));
    assert!(kernel.has_driver(1));
    assert!(kernel.has_driver(0x9_0001));
    assert_eq!(kernel.command(7, 0, 0, 0), CommandReturn::Failure(ErrorCode::NoSupport));
    assert_eq!(kernel.command(0x9_0001, 0, 8, 9), CommandReturn::Success2U32(8, 9));
    kernel.add_driver(Either::Right(Echo::new(7)));
    assert_eq!(kernel.command(7, 0, 1, 2), CommandReturn::Success2U32(1, 2));
}

#[test]
fn a_number_is_free_until_a_service_takes_it() {
    let mut kernel: Kernel<Service> = Kernel::new();
    for id in [3, 5, 3, 5, 9] {
        if !kernel.has_driver(id) {
            kernel.add_driver(Either::Right(Echo::new(id)));
        }
    }
    kernel.command(3, 0, 0, 0);
    kernel.command(5, 0, 0, 0);
    kernel.command(5, 0, 0, 0);
    assert_eq!(echo(&kernel, 3).commands, 1);
    assert_eq!(echo(&kernel, 5).commands, 2);
    assert_eq!(echo(&kernel, 9).commands, 0);
}
