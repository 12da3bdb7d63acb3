use libtock2::allow::{RoAllowBuffer, RwAllowBuffer};
use libtock2::block_storage::{
    BlockStorage, Geometry, ALLOW_READ, DRIVER_CHECK, DRIVER_NUM, GEOMETRY, READ, SUBSCRIBE_READ,
};
use libtock2::command_return::CommandReturn;
use libtock2::error_code::{ErrorCode, WaitError};
use libtock2::fake::driver::{CommandEffect, SyscallDriver};
use libtock2::fake::fault::{CommandCall, CommandOverride};
use libtock2::fake::kernel::Kernel;
use libtock2::upcall::Upcall;
use vstd::seq::Seq;

/// A simulated storage whose block `n` is filled with the byte `n`. A read
/// ends with the notification `report`.
struct FakeStorage {
    report: (u32, u32, u32),
    region: RwAllowBuffer,
}

impl FakeStorage {
    fn new() -> FakeStorage {
        FakeStorage { report: (0, 0, 0), region: RwAllowBuffer::default() }
    }

    fn failing(errno: u32) -> FakeStorage {
        FakeStorage { report: (1, errno, 0), region: RwAllowBuffer::default() }
    }
}

impl vstd::view::View for FakeStorage {
    type V = ();

    fn view(&self) {}
}

// The specification items of the trait are never run: only a verified
// service gives them a meaning.
impl SyscallDriver for FakeStorage {
    fn driver_num(_state: ()) -> u32 {
        unreachable!()
    }

    fn upcall_count(_state: ()) -> u32 {
        unreachable!()
    }

    fn ro_buffer(_state: (), _buffer_num: u32) -> Seq<u8> {
        unreachable!()
    }

    fn rw_buffer(_state: (), _buffer_num: u32) -> Seq<u8> {
        unreachable!()
    }

    fn allow_readonly_spec(_state: (), _buffer_num: u32, _buffer: Seq<u8>) -> Result<(), ErrorCode> {
        unreachable!()
    }

    fn allow_readwrite_spec(_state: (), _buffer_num: u32, _buffer: Seq<u8>) -> Result<(), ErrorCode> {
        unreachable!()
    }

    fn command_spec(_state: (), _command_num: u32, _argument0: u32, _argument1: u32) -> CommandEffect<()> {
        unreachable!()
    }

    fn allow_readonly_law(_state: (), _buffer_num: u32, _buffer: Seq<u8>) {}

    fn allow_readwrite_law(_state: (), _buffer_num: u32, _buffer: Seq<u8>) {}

    fn command_law(_state: (), _command_num: u32, _argument0: u32, _argument1: u32) {}

    fn id(&self) -> u32 {
        DRIVER_NUM
    }

    fn num_upcalls(&self) -> u32 {
        3
    }

    fn allow_readonly(
        &mut self,
        _buffer_num: u32,
        buffer: RoAllowBuffer,
    ) -> Result<RoAllowBuffer, (RoAllowBuffer, ErrorCode)> {
        Err((buffer, ErrorCode::Invalid))
    }

    fn allow_readwrite(
        &mut self,
        buffer_num: u32,
        buffer: RwAllowBuffer,
    ) -> Result<RwAllowBuffer, (RwAllowBuffer, ErrorCode)> {
        if buffer_num == ALLOW_READ {
            Ok(std::mem::replace(&mut self.region, buffer))
        } else {
            Err((buffer, ErrorCode::Invalid))
        }
    }

    fn command(
        &mut self,
        command_num: u32,
        argument0: u32,
        _argument1: u32,
        upcalls: &mut Vec<Upcall>,
    ) -> CommandReturn {
        if command_num == DRIVER_CHECK {
            CommandReturn::Success
        } else if command_num == GEOMETRY {
            CommandReturn::Success2U32(512, 4096)
        } else if command_num == READ {
            if self.report.0 == 0 {
                for byte in self.region.bytes.iter_mut() {
                    *byte = argument0 as u8;
                }
            }
            upcalls.push(Upcall {
                driver_num: DRIVER_NUM,
                subscribe_num: SUBSCRIBE_READ,
                args: self.report,
            });
            CommandReturn::Success
        } else {
            CommandReturn::Failure(ErrorCode::NoSupport)
        }
    }
}

fn answer(command_num: u32, result: CommandReturn) -> CommandOverride {
    CommandOverride {
        driver_num: DRIVER_NUM,
        command_num,
        argument0: None,
        argument1: None,
        result,
        remaining: 1,
    }
}

#[test]
fn storage_driver_check_reports_presence() {
    let mut kernel: Kernel<FakeStorage> = Kernel::new();
    assert!(!BlockStorage::driver_check(&mut kernel));
    kernel.add_driver(FakeStorage::new());
    assert!(BlockStorage::driver_check(&mut kernel));
}

#[test]
fn get_geometry_reads_both_block_sizes() {
    let mut kernel: Kernel<FakeStorage> = Kernel::new();
    kernel.add_driver(FakeStorage::new());
    assert_eq!(
        BlockStorage::get_geometry(&mut kernel),
        Geometry { write_block_size: 512, erase_block_size: 4096 }
    );
    assert_eq!(
        BlockStorage::try_get_geometry(&mut kernel),
        Some(Geometry { write_block_size: 512, erase_block_size: 4096 })
    );
    assert_eq!(
        kernel.take_command_log(),
        vec![
            CommandCall { driver_num: DRIVER_NUM, command_num: GEOMETRY, argument0: 0, argument1: 0 },
            CommandCall { driver_num: DRIVER_NUM, command_num: GEOMETRY, argument0: 0, argument1: 0 },
        ]
    );
}

#[test]
fn try_get_geometry_refuses_other_answers() {
    let mut kernel: Kernel<FakeStorage> = Kernel::new();
    assert_eq!(BlockStorage::try_get_geometry(&mut kernel), None);
    kernel.add_driver(FakeStorage::new());
    kernel.add_override(answer(GEOMETRY, CommandReturn::SuccessU32(512)));
    assert_eq!(BlockStorage::try_get_geometry(&mut kernel), None);
    kernel.add_override(answer(GEOMETRY, CommandReturn::Success3U32(1, 2, 3)));
    assert_eq!(BlockStorage::try_get_geometry(&mut kernel), None);
    kernel.add_override(answer(GEOMETRY, CommandReturn::Failure(ErrorCode::Off)));
    assert_eq!(BlockStorage::try_get_geometry(&mut kernel), None);
    kernel.add_override(answer(GEOMETRY, CommandReturn::Success2U32(7, 8)));
    assert_eq!(
        BlockStorage::try_get_geometry(&mut kernel),
        Some(Geometry { write_block_size: 7, erase_block_size: 8 })
    );
}

#[test]
fn read_fills_the_buffer_and_hands_it_back() {
    let mut kernel: Kernel<FakeStorage> = Kernel::new();
    kernel.add_driver(FakeStorage::new());
    let mut buf = vec![0u8; 6];
    assert_eq!(BlockStorage::read(&mut kernel, 43, &mut buf), Ok(()));
    assert_eq!(buf, vec![43u8; 6]);
    assert_eq!(
        kernel.take_command_log(),
        vec![CommandCall { driver_num: DRIVER_NUM, command_num: READ, argument0: 43, argument1: 1 }]
    );
    assert_eq!(kernel.unallow_rw(DRIVER_NUM, ALLOW_READ).unwrap().into_bytes(), b"");
    assert_eq!(kernel.unsubscribe(DRIVER_NUM, SUBSCRIBE_READ), Ok(None));
    assert!(!kernel.yield_wait());
}

#[test]
fn read_reports_the_error_of_the_storage() {
    let mut kernel: Kernel<FakeStorage> = Kernel::new();
    kernel.add_driver(FakeStorage::failing(2));
    let mut buf = vec![9u8; 4];
    assert_eq!(BlockStorage::read(&mut kernel, 1, &mut buf), Err(WaitError::Failed(ErrorCode::Busy)));
    assert_eq!(buf, vec![9u8; 4]);
}

#[test]
fn read_takes_an_unknown_error_for_a_failure() {
    let mut kernel: Kernel<FakeStorage> = Kernel::new();
    kernel.add_driver(FakeStorage::failing(0));
    let mut buf = vec![9u8; 4];
    assert_eq!(BlockStorage::read(&mut kernel, 1, &mut buf), Err(WaitError::Failed(ErrorCode::Fail)));
    let mut kernel: Kernel<FakeStorage> = Kernel::new();
    kernel.add_driver(FakeStorage::failing(5_000));
    assert_eq!(BlockStorage::read(&mut kernel, 1, &mut buf), Err(WaitError::Failed(ErrorCode::Fail)));
    let mut kernel: Kernel<FakeStorage> = Kernel::new();
    kernel.add_driver(FakeStorage::failing(1024));
    assert_eq!(BlockStorage::read(&mut kernel, 1, &mut buf), Err(WaitError::Failed(ErrorCode::BadRVal)));
}

#[test]
fn read_without_a_storage_leaves_the_buffer_alone() {
    let mut kernel: Kernel<FakeStorage> = Kernel::new();
    let mut buf = vec![1u8, 2, 3];
    assert_eq!(
        BlockStorage::read(&mut kernel, 0, &mut buf),
        Err(WaitError::Failed(ErrorCode::NoSupport))
    );
    assert_eq!(buf, vec![1u8, 2, 3]);
    assert!(kernel.take_command_log().is_empty());
}

#[test]
fn read_hands_the_buffer_back_after_a_failed_command() {
    let mut kernel: Kernel<FakeStorage> = Kernel::new();
    kernel.add_driver(FakeStorage::failing(3));
    kernel.add_override(answer(READ, CommandReturn::Failure(ErrorCode::Invalid)));
    let mut buf = vec![5u8; 3];
    assert_eq!(
        BlockStorage::read(&mut kernel, 0, &mut buf),
        Err(WaitError::Failed(ErrorCode::Invalid))
    );
    assert_eq!(buf, vec![5u8; 3]);
    assert_eq!(kernel.unallow_rw(DRIVER_NUM, ALLOW_READ).unwrap().into_bytes(), b"");
    assert_eq!(kernel.unsubscribe(DRIVER_NUM, SUBSCRIBE_READ), Ok(None));
    assert!(!kernel.yield_wait());
}
