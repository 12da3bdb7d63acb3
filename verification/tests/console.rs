use libtock2::allow::{RoAllowBuffer, RwAllowBuffer};
use libtock2::command_return::CommandReturn;
use libtock2::console::{Console, ALLOW_WRITE, DRIVER_CHECK, DRIVER_NUM, SUBSCRIBE_WRITE, WRITE};
use libtock2::error_code::{ErrorCode, WaitError};
use libtock2::fake;
use libtock2::fake::driver::{CommandEffect, SyscallDriver};
use libtock2::fake::fault::{CommandCall, CommandOverride};
use libtock2::fake::kernel::{with_scope, Kernel};
use libtock2::upcall::{Sink, Upcall};
use vstd::seq::Seq;

fn kernel_with_console() -> Kernel<fake::console::Console> {
    let mut kernel: Kernel<fake::console::Console> = Kernel::new();
    kernel.add_driver(fake::console::Console::new());
    kernel
}

fn take_bytes(kernel: &mut Kernel<fake::console::Console>) -> Vec<u8> {
    let mut console = kernel.remove_driver(DRIVER_NUM).unwrap();
    let bytes = console.take_bytes();
    kernel.add_driver(console);
    bytes
}

/// A console that takes at most `chunk` bytes with each write, and that
/// does not notify when it is `silent`.
struct SlowConsole {
    chunk: u32,
    silent: bool,
    messages: Vec<u8>,
    buffer: RoAllowBuffer,
    writes: Vec<u32>,
}

impl SlowConsole {
    fn new(chunk: u32) -> SlowConsole {
        SlowConsole { chunk, silent: false, messages: Vec::new(), buffer: RoAllowBuffer::default(), writes: Vec::new() }
    }
}

impl vstd::view::View for SlowConsole {
    type V = ();

    fn view(&self) {}
}

// The specification items of the trait are never run: only a verified
// service gives them a meaning.
impl SyscallDriver for SlowConsole {
    fn driver_num(_state: ()) -> u32 {
        unreachable!()
    }

    fn upcall_count(_state: ()) -> u32 {
        unreachable!()
    }

    fn ro_buffer(_state: (), _buffer_num: u32) -> Seq<u8> {
        unreachable!()
    }

    fn rw_buffer(_state: (), _buffer_num: u32) -> Seq<u8> {
        unreachable!()
    }

    fn allow_readonly_spec(_state: (), _buffer_num: u32, _buffer: Seq<u8>) -> Result<(), ErrorCode> {
        unreachable!()
    }

    fn allow_readwrite_spec(_state: (), _buffer_num: u32, _buffer: Seq<u8>) -> Result<(), ErrorCode> {
        unreachable!()
    }

    fn command_spec(_state: (), _command_num: u32, _argument0: u32, _argument1: u32) -> CommandEffect<()> {
        unreachable!()
    }

    fn allow_readonly_law(_state: (), _buffer_num: u32, _buffer: Seq<u8>) {}

    fn allow_readwrite_law(_state: (), _buffer_num: u32, _buffer: Seq<u8>) {}

    fn command_law(_state: (), _command_num: u32, _argument0: u32, _argument1: u32) {}

    fn id(&self) -> u32 {
        DRIVER_NUM
    }

    fn num_upcalls(&self) -> u32 {
        2
    }

    fn allow_readonly(
        &mut self,
        buffer_num: u32,
        buffer: RoAllowBuffer,
    ) -> Result<RoAllowBuffer, (RoAllowBuffer, ErrorCode)> {
        if buffer_num == ALLOW_WRITE {
            Ok(std::mem::replace(&mut self.buffer, buffer))
        } else {
            Err((buffer, ErrorCode::Invalid))
        }
    }

    fn allow_readwrite(
        &mut self,
        _buffer_num: u32,
        buffer: RwAllowBuffer,
    ) -> Result<RwAllowBuffer, (RwAllowBuffer, ErrorCode)> {
        Err((buffer, ErrorCode::Invalid))
    }

    fn command(
        &mut self,
        command_num: u32,
        argument0: u32,
        _argument1: u32,
        upcalls: &mut Vec<Upcall>,
    ) -> CommandReturn {
        if command_num == DRIVER_CHECK {
            CommandReturn::Success
        } else if command_num == WRITE {
            self.writes.push(argument0);
            let count = argument0.min(self.chunk).min(self.buffer.len() as u32);
            self.messages.extend_from_slice(&self.buffer.bytes[..count as usize]);
            if !self.silent {
                upcalls.push(Upcall {
                    driver_num: DRIVER_NUM,
                    subscribe_num: SUBSCRIBE_WRITE,
                    args: (count, 0, 0),
                });
            }
            CommandReturn::Success
        } else {
            CommandReturn::Failure(ErrorCode::NoSupport)
        }
    }
}

#[test]
fn no_driver() {
    let mut kernel: Kernel<fake::console::Console> = Kernel::new();
    assert!(!Console::driver_check(&mut kernel));
}

#[test]
fn driver_check() {
    let mut kernel = kernel_with_console();
    assert!(Console::driver_check(&mut kernel));
    assert_eq!(take_bytes(&mut kernel), b"");
}

#[test]
fn driver_absent_check() {
    let mut kernel: Kernel<fake::console::Console> = Kernel::new();
    assert_eq!(kernel.command(1, DRIVER_CHECK, 0, 0), CommandReturn::Failure(ErrorCode::NoSupport));
    assert!(!Console::driver_check(&mut kernel));
    assert_eq!(
        kernel.take_command_log(),
        vec![
            CommandCall { driver_num: 1, command_num: DRIVER_CHECK, argument0: 0, argument1: 0 },
            CommandCall { driver_num: 1, command_num: DRIVER_CHECK, argument0: 0, argument1: 0 },
        ]
    );
}

#[test]
fn write_round_trip() {
    let mut kernel = kernel_with_console();
    assert_eq!(Console::write(&mut kernel, b"hello, world"), Ok(12));
    assert_eq!(take_bytes(&mut kernel), b"hello, world");
    assert_eq!(Console::write(&mut kernel, b""), Ok(0));
    assert_eq!(take_bytes(&mut kernel), b"");
}

#[test]
fn write_appends_to_what_was_written_before() {
    let mut kernel = kernel_with_console();
    assert_eq!(Console::write(&mut kernel, b"abc"), Ok(3));
    assert_eq!(Console::write(&mut kernel, b"de"), Ok(2));
    assert_eq!(take_bytes(&mut kernel), b"abcde");
}

#[test]
fn write_leaves_no_grant_and_no_subscription() {
    let mut kernel = kernel_with_console();
    assert_eq!(Console::write(&mut kernel, b"abc"), Ok(3));
    assert_eq!(kernel.unallow_ro(DRIVER_NUM, ALLOW_WRITE).unwrap().into_bytes(), b"");
    assert_eq!(kernel.unsubscribe(DRIVER_NUM, SUBSCRIBE_WRITE), Ok(None));
    assert!(!kernel.yield_wait());
}

#[test]
fn write_passes_over_upcalls_of_other_slots() {
    let mut kernel = kernel_with_console();
    with_scope(&mut kernel, |kernel, scope| {
        kernel.subscribe(scope, DRIVER_NUM, 0, Sink::new()).unwrap();
        kernel.schedule(DRIVER_NUM, 0, (9, 9, 9));
        kernel.schedule(DRIVER_NUM, SUBSCRIBE_WRITE, (100, 0, 0));
        assert_eq!(Console::write(kernel, b"abcd"), Ok(4));
        assert_eq!(kernel.delivered(DRIVER_NUM, 0), Some((9, 9, 9)));
    });
    assert_eq!(take_bytes(&mut kernel), b"abcd");
}

#[test]
fn write_without_a_console_is_not_supported() {
    let mut kernel: Kernel<fake::console::Console> = Kernel::new();
    assert_eq!(Console::write(&mut kernel, b"abc"), Err(WaitError::Failed(ErrorCode::NoSupport)));
    assert_eq!(Console::write_all(&mut kernel, b"abc"), Err(WaitError::Failed(ErrorCode::NoSupport)));
    assert!(kernel.take_command_log().is_empty());
}

#[test]
fn failed_write() {
    let mut kernel = kernel_with_console();
    kernel.add_override(CommandOverride {
        driver_num: DRIVER_NUM,
        command_num: WRITE,
        argument0: Some(2),
        argument1: Some(0),
        result: CommandReturn::Failure(ErrorCode::Fail),
        remaining: 1,
    });
    assert_eq!(Console::write(&mut kernel, b"72"), Err(WaitError::Failed(ErrorCode::Fail)));
    // The service still receives the command even if an error is injected.
    assert_eq!(take_bytes(&mut kernel), b"72");
    // The notification of the failed write is not delivered to a later one.
    assert_eq!(Console::write(&mut kernel, b"abc"), Ok(3));
    assert_eq!(take_bytes(&mut kernel), b"abc");
}

#[test]
fn write_with_an_unexpected_answer_is_a_bad_return_value() {
    let mut kernel = kernel_with_console();
    kernel.add_override(CommandOverride {
        driver_num: DRIVER_NUM,
        command_num: WRITE,
        argument0: None,
        argument1: None,
        result: CommandReturn::SuccessU32(1),
        remaining: 1,
    });
    assert_eq!(Console::write(&mut kernel, b"x"), Err(WaitError::Failed(ErrorCode::BadRVal)));
}

#[test]
fn write_bytes_all() {
    let mut kernel = kernel_with_console();
    assert_eq!(Console::write_all(&mut kernel, "foo".as_bytes()), Ok(()));
    assert_eq!(Console::write_all(&mut kernel, "bar".as_bytes()), Ok(()));
    assert_eq!(take_bytes(&mut kernel), "foobar".as_bytes());
}

#[test]
fn write_str() {
    let mut kernel = kernel_with_console();
    Console::write_str(&mut kernel, "foo").unwrap();
    assert_eq!(take_bytes(&mut kernel), "foo".as_bytes());
}

#[test]
fn write_all_of_nothing_issues_no_command() {
    let mut kernel = kernel_with_console();
    assert_eq!(Console::write_all(&mut kernel, b""), Ok(()));
    assert!(kernel.take_command_log().is_empty());
}

#[test]
fn write_all_grants_the_rest_again_after_a_partial_write() {
    let mut kernel: Kernel<SlowConsole> = Kernel::new();
    kernel.add_driver(SlowConsole::new(3));
    assert_eq!(Console::write_all(&mut kernel, b"0123456789"), Ok(()));
    let console = kernel.remove_driver(DRIVER_NUM).unwrap();
    assert_eq!(console.messages, b"0123456789");
    assert_eq!(console.writes, vec![10, 7, 4, 1]);
    assert_eq!(console.buffer.len(), 0);
}

#[test]
fn write_reports_a_partial_write() {
    let mut kernel: Kernel<SlowConsole> = Kernel::new();
    kernel.add_driver(SlowConsole::new(3));
    assert_eq!(Console::write(&mut kernel, b"0123456789"), Ok(3));
    let console = kernel.remove_driver(DRIVER_NUM).unwrap();
    assert_eq!(console.messages, b"012");
}

#[test]
fn write_all_to_a_console_that_takes_nothing_hangs() {
    let mut kernel: Kernel<SlowConsole> = Kernel::new();
    kernel.add_driver(SlowConsole::new(0));
    assert_eq!(Console::write_all(&mut kernel, b"abc"), Err(WaitError::Hung));
    assert_eq!(kernel.unsubscribe(DRIVER_NUM, SUBSCRIBE_WRITE), Ok(None));
    let console = kernel.remove_driver(DRIVER_NUM).unwrap();
    assert_eq!(console.writes, vec![3]);
    assert_eq!(console.buffer.len(), 0);
}

#[test]
fn write_that_is_never_answered_hangs() {
    let mut kernel: Kernel<SlowConsole> = Kernel::new();
    let mut console = SlowConsole::new(8);
    console.silent = true;
    kernel.add_driver(console);
    assert_eq!(Console::write(&mut kernel, b"abc"), Err(WaitError::Hung));
    assert_eq!(Console::write_all(&mut kernel, b"abc"), Err(WaitError::Hung));
    assert_eq!(kernel.unsubscribe(DRIVER_NUM, SUBSCRIBE_WRITE), Ok(None));
    let console = kernel.remove_driver(DRIVER_NUM).unwrap();
    assert_eq!(console.messages, b"abcabc");
    assert_eq!(console.buffer.len(), 0);
}
