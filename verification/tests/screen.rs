use libtock2::allow::{RoAllowBuffer, RwAllowBuffer};
use libtock2::command_return::CommandReturn;
use libtock2::error_code::{ErrorCode, WaitError};
use libtock2::fake::driver::{CommandEffect, SyscallDriver};
use libtock2::fake::fault::{CommandCall, CommandOverride};
use libtock2::fake::kernel::Kernel;
use libtock2::screen::{
    PixelFormat, Rectangle, Resolution, Screen, ALLOW_WRITE, CALLBACK_READY,
    CALLBACK_WRITE_COMPLETE, DRIVER_CHECK, DRIVER_NUM, LIGHTNESS_MAX, LIGHTNESS_MIN, LIGHTNESS_OFF,
    PIXEL_FORMAT, RESOLUTION, SET_BRIGHTNESS, SET_FRAME, SET_POWER, SUBSCRIBE_COMMANDS, WRITE,
};
use libtock2::upcall::Upcall;
use vstd::seq::Seq;

/// A simulated screen. Before it reports a command done it reports
/// `chatter` other events; when it is `quiet` it reports those only.
struct FakeScreen {
    chatter: u32,
    quiet: bool,
    powered: bool,
    pixels: RoAllowBuffer,
    frames: Vec<Vec<u8>>,
}

impl FakeScreen {
    fn new(chatter: u32) -> FakeScreen {
        FakeScreen { chatter, quiet: false, powered: false, pixels: RoAllowBuffer::default(), frames: Vec::new() }
    }

    fn report(&self, event: u32, upcalls: &mut Vec<Upcall>) {
        for _ in 0..self.chatter {
            upcalls.push(Upcall {
                driver_num: DRIVER_NUM,
                subscribe_num: SUBSCRIBE_COMMANDS,
                args: (0, 2, 0),
            });
        }
        if !self.quiet {
            upcalls.push(Upcall {
                driver_num: DRIVER_NUM,
                subscribe_num: SUBSCRIBE_COMMANDS,
                args: (0, event, 0),
            });
        }
    }

    fn quiet(chatter: u32) -> FakeScreen {
        let mut screen = FakeScreen::new(chatter);
        screen.quiet = true;
        screen
    }
}

impl vstd::view::View for FakeScreen {
    type V = ();

    fn view(&self) {}
}

// The specification items of the trait are never run: only a verified
// service gives them a meaning.
impl SyscallDriver for FakeScreen {
    fn driver_num(_state: ()) -> u32 {
        unreachable!()
    }

    fn upcall_count(_state: ()) -> u32 {
        unreachable!()
    }

    fn ro_buffer(_state: (), _buffer_num: u32) -> Seq<u8> {
        unreachable!()
    }

    fn rw_buffer(_state: (), _buffer_num: u32) -> Seq<u8> {
        unreachable!()
    }

    fn allow_readonly_spec(_state: (), _buffer_num: u32, _buffer: Seq<u8>) -> Result<(), ErrorCode> {
        unreachable!()
    }

    fn allow_readwrite_spec(_state: (), _buffer_num: u32, _buffer: Seq<u8>) -> Result<(), ErrorCode> {
        unreachable!()
    }

    fn command_spec(_state: (), _command_num: u32, _argument0: u32, _argument1: u32) -> CommandEffect<()> {
        unreachable!()
    }

    fn allow_readonly_law(_state: (), _buffer_num: u32, _buffer: Seq<u8>) {}

    fn allow_readwrite_law(_state: (), _buffer_num: u32, _buffer: Seq<u8>) {}

    fn command_law(_state: (), _command_num: u32, _argument0: u32, _argument1: u32) {}

    fn id(&self) -> u32 {
        DRIVER_NUM
    }

    fn num_upcalls(&self) -> u32 {
        1
    }

    fn allow_readonly(
        &mut self,
        buffer_num: u32,
        buffer: RoAllowBuffer,
    ) -> Result<RoAllowBuffer, (RoAllowBuffer, ErrorCode)> {
        if buffer_num == ALLOW_WRITE {
            Ok(std::mem::replace(&mut self.pixels, buffer))
        } else {
            Err((buffer, ErrorCode::Invalid))
        }
    }

    fn allow_readwrite(
        &mut self,
        _buffer_num: u32,
        buffer: RwAllowBuffer,
    ) -> Result<RwAllowBuffer, (RwAllowBuffer, ErrorCode)> {
        Err((buffer, ErrorCode::Invalid))
    }

    fn command(
        &mut self,
        command_num: u32,
        argument0: u32,
        _argument1: u32,
        upcalls: &mut Vec<Upcall>,
    ) -> CommandReturn {
        if command_num == DRIVER_CHECK {
            CommandReturn::Success
        } else if command_num == SET_POWER {
            self.powered = argument0 != 0;
            self.report(CALLBACK_READY, upcalls);
            CommandReturn::Success
        } else if command_num == SET_BRIGHTNESS || command_num == SET_FRAME {
            CommandReturn::Success
        } else if command_num == RESOLUTION {
            CommandReturn::Success2U32(320, 240)
        } else if command_num == PIXEL_FORMAT {
            CommandReturn::SuccessU32(2)
        } else if command_num == WRITE {
            self.frames.push(self.pixels.bytes[..argument0 as usize].to_vec());
            self.report(CALLBACK_WRITE_COMPLETE, upcalls);
            CommandReturn::Success
        } else {
            CommandReturn::Failure(ErrorCode::NoSupport)
        }
    }
}

fn answer(command_num: u32, result: CommandReturn) -> CommandOverride {
    CommandOverride {
        driver_num: DRIVER_NUM,
        command_num,
        argument0: None,
        argument1: None,
        result,
        remaining: 1,
    }
}

#[test]
fn bpp_of_each_format() {
    assert_eq!(PixelFormat::Mono.bpp(), 1);
    assert_eq!(PixelFormat::RGB_233.bpp(), 8);
    assert_eq!(PixelFormat::RGB_565.bpp(), 16);
    assert_eq!(PixelFormat::RGB_888.bpp(), 24);
    assert_eq!(PixelFormat::ARGB_8888.bpp(), 32);
}

#[test]
fn pixel_format_from_its_number() {
    assert_eq!(PixelFormat::try_from(0), Ok(PixelFormat::Mono));
    assert_eq!(PixelFormat::try_from(1), Ok(PixelFormat::RGB_233));
    assert_eq!(PixelFormat::try_from(2), Ok(PixelFormat::RGB_565));
    assert_eq!(PixelFormat::try_from(3), Ok(PixelFormat::RGB_888));
    assert_eq!(PixelFormat::try_from(4), Ok(PixelFormat::ARGB_8888));
    assert_eq!(PixelFormat::try_from(5), Err(()));
    assert_eq!(PixelFormat::try_from(u32::MAX), Err(()));
}

#[test]
fn lightness_levels() {
    assert_eq!((LIGHTNESS_OFF, LIGHTNESS_MIN, LIGHTNESS_MAX), (0, 1, 65_536));
}

#[test]
fn screen_driver_check_reports_presence() {
    let mut kernel: Kernel<FakeScreen> = Kernel::new();
    assert!(!Screen::driver_check(&mut kernel));
    kernel.add_driver(FakeScreen::new(0));
    assert!(Screen::driver_check(&mut kernel));
    kernel.add_override(answer(DRIVER_CHECK, CommandReturn::Failure(ErrorCode::NoMem)));
    assert!(!Screen::driver_check(&mut kernel));
}

#[test]
fn get_resolution_reads_two_words() {
    let mut kernel: Kernel<FakeScreen> = Kernel::new();
    assert_eq!(Screen::get_resolution(&mut kernel), Err(ErrorCode::NoSupport));
    kernel.add_driver(FakeScreen::new(0));
    assert_eq!(Screen::get_resolution(&mut kernel), Ok(Resolution { width: 320, height: 240 }));
    kernel.add_override(answer(RESOLUTION, CommandReturn::SuccessU32(320)));
    assert_eq!(Screen::get_resolution(&mut kernel), Err(ErrorCode::BadRVal));
    kernel.add_override(answer(RESOLUTION, CommandReturn::Failure(ErrorCode::Off)));
    assert_eq!(Screen::get_resolution(&mut kernel), Err(ErrorCode::Off));
}

#[test]
fn get_pixel_format_decodes_the_answer() {
    let mut kernel: Kernel<FakeScreen> = Kernel::new();
    assert_eq!(Screen::get_pixel_format(&mut kernel), Err(ErrorCode::NoSupport));
    kernel.add_driver(FakeScreen::new(0));
    assert_eq!(Screen::get_pixel_format(&mut kernel), Ok(PixelFormat::RGB_565));
    kernel.add_override(answer(PIXEL_FORMAT, CommandReturn::SuccessU32(0)));
    assert_eq!(Screen::get_pixel_format(&mut kernel), Ok(PixelFormat::Mono));
    kernel.add_override(answer(PIXEL_FORMAT, CommandReturn::SuccessU32(4)));
    assert_eq!(Screen::get_pixel_format(&mut kernel), Ok(PixelFormat::ARGB_8888));
    kernel.add_override(answer(PIXEL_FORMAT, CommandReturn::SuccessU32(5)));
    assert_eq!(Screen::get_pixel_format(&mut kernel), Err(ErrorCode::Invalid));
    kernel.add_override(answer(PIXEL_FORMAT, CommandReturn::Success));
    assert_eq!(Screen::get_pixel_format(&mut kernel), Err(ErrorCode::BadRVal));
    kernel.add_override(answer(PIXEL_FORMAT, CommandReturn::Failure(ErrorCode::Busy)));
    assert_eq!(Screen::get_pixel_format(&mut kernel), Err(ErrorCode::Busy));
}

#[test]
fn set_brightness_passes_the_level() {
    let mut kernel: Kernel<FakeScreen> = Kernel::new();
    assert_eq!(Screen::set_brightness(&mut kernel, LIGHTNESS_MAX), Err(ErrorCode::NoSupport));
    kernel.add_driver(FakeScreen::new(0));
    assert_eq!(Screen::set_brightness(&mut kernel, LIGHTNESS_MIN), Ok(()));
    assert_eq!(
        kernel.take_command_log(),
        vec![
            CommandCall { driver_num: DRIVER_NUM, command_num: SET_BRIGHTNESS, argument0: 65_536, argument1: 0 },
            CommandCall { driver_num: DRIVER_NUM, command_num: SET_BRIGHTNESS, argument0: 1, argument1: 0 },
        ]
    );
}

#[test]
fn set_frame_packs_position_and_size() {
    let mut kernel: Kernel<FakeScreen> = Kernel::new();
    kernel.add_driver(FakeScreen::new(0));
    assert_eq!(Screen::set_frame(&mut kernel, Rectangle { x: 1, y: 2, width: 3, height: 4 }), Ok(()));
    assert_eq!(
        Screen::set_frame(&mut kernel, Rectangle { x: 0xffff, y: 0, width: 0, height: 0xffff }),
        Ok(())
    );
    assert_eq!(
        Screen::set_frame(&mut kernel, Rectangle { x: 0x1234, y: 0x5678, width: 0x9abc, height: 0xdef0 }),
        Ok(())
    );
    assert_eq!(
        kernel.take_command_log(),
        vec![
            CommandCall { driver_num: DRIVER_NUM, command_num: SET_FRAME, argument0: 0x0001_0002, argument1: 0x0003_0004 },
            CommandCall { driver_num: DRIVER_NUM, command_num: SET_FRAME, argument0: 0xffff_0000, argument1: 0x0000_ffff },
            CommandCall { driver_num: DRIVER_NUM, command_num: SET_FRAME, argument0: 0x1234_5678, argument1: 0x9abc_def0 },
        ]
    );
}

#[test]
fn set_power_waits_until_the_screen_is_ready() {
    let mut kernel: Kernel<FakeScreen> = Kernel::new();
    kernel.add_driver(FakeScreen::new(3));
    assert_eq!(Screen::set_power(&mut kernel, true), Ok(()));
    assert!(kernel.driver(DRIVER_NUM).unwrap().powered);
    assert_eq!(Screen::set_power(&mut kernel, false), Ok(()));
    assert!(!kernel.driver(DRIVER_NUM).unwrap().powered);
    assert_eq!(
        kernel.take_command_log(),
        vec![
            CommandCall { driver_num: DRIVER_NUM, command_num: SET_POWER, argument0: 1, argument1: 0 },
            CommandCall { driver_num: DRIVER_NUM, command_num: SET_POWER, argument0: 0, argument1: 0 },
        ]
    );
    assert_eq!(kernel.unsubscribe(DRIVER_NUM, SUBSCRIBE_COMMANDS), Ok(None));
    assert!(!kernel.yield_wait());
}

#[test]
fn set_power_hangs_when_the_screen_never_gets_ready() {
    let mut kernel: Kernel<FakeScreen> = Kernel::new();
    kernel.add_driver(FakeScreen::quiet(2));
    // What was reported before the call is not taken for its answer.
    kernel.schedule(DRIVER_NUM, SUBSCRIBE_COMMANDS, (0, CALLBACK_READY, 0));
    assert_eq!(Screen::set_power(&mut kernel, true), Err(WaitError::Hung));
    assert_eq!(kernel.unsubscribe(DRIVER_NUM, SUBSCRIBE_COMMANDS), Ok(None));
    assert!(!kernel.yield_wait());
    let mut absent: Kernel<FakeScreen> = Kernel::new();
    assert_eq!(Screen::set_power(&mut absent, true), Err(WaitError::Failed(ErrorCode::NoSupport)));
}

#[test]
fn set_power_does_not_wait_after_a_failure() {
    let mut kernel: Kernel<FakeScreen> = Kernel::new();
    kernel.add_driver(FakeScreen::new(0));
    kernel.add_override(answer(SET_POWER, CommandReturn::Failure(ErrorCode::Already)));
    assert_eq!(Screen::set_power(&mut kernel, true), Err(WaitError::Failed(ErrorCode::Already)));
    assert_eq!(kernel.unsubscribe(DRIVER_NUM, SUBSCRIBE_COMMANDS), Ok(None));
    assert!(!kernel.yield_wait());
}

#[test]
fn screen_write_hands_over_the_whole_buffer() {
    let mut kernel: Kernel<FakeScreen> = Kernel::new();
    kernel.add_driver(FakeScreen::new(2));
    assert_eq!(Screen::write(&mut kernel, &[1, 2, 3, 4, 5]), Ok(()));
    assert_eq!(Screen::write(&mut kernel, &[]), Ok(()));
    assert_eq!(
        kernel.take_command_log(),
        vec![
            CommandCall { driver_num: DRIVER_NUM, command_num: WRITE, argument0: 5, argument1: 0 },
            CommandCall { driver_num: DRIVER_NUM, command_num: WRITE, argument0: 0, argument1: 0 },
        ]
    );
    assert_eq!(kernel.unsubscribe(DRIVER_NUM, SUBSCRIBE_COMMANDS), Ok(None));
    let screen = kernel.remove_driver(DRIVER_NUM).unwrap();
    assert_eq!(screen.frames, vec![vec![1, 2, 3, 4, 5], vec![]]);
    assert_eq!(screen.pixels.len(), 0);
}

#[test]
fn screen_write_fails_without_a_screen() {
    let mut kernel: Kernel<FakeScreen> = Kernel::new();
    assert_eq!(Screen::write(&mut kernel, &[1]), Err(WaitError::Failed(ErrorCode::NoSupport)));
    assert!(kernel.take_command_log().is_empty());
}

#[test]
fn screen_write_hangs_when_only_other_events_arrive() {
    let mut kernel: Kernel<FakeScreen> = Kernel::new();
    kernel.add_driver(FakeScreen::quiet(4));
    kernel.schedule(DRIVER_NUM, SUBSCRIBE_COMMANDS, (0, CALLBACK_WRITE_COMPLETE, 0));
    assert_eq!(Screen::write(&mut kernel, &[7, 7]), Err(WaitError::Hung));
    assert_eq!(kernel.unsubscribe(DRIVER_NUM, SUBSCRIBE_COMMANDS), Ok(None));
    let screen = kernel.remove_driver(DRIVER_NUM).unwrap();
    assert_eq!(screen.frames, vec![vec![7, 7]]);
    assert_eq!(screen.pixels.len(), 0);
}

#[test]
fn screen_write_does_not_wait_after_a_failure() {
    let mut kernel: Kernel<FakeScreen> = Kernel::new();
    kernel.add_driver(FakeScreen::new(0));
    kernel.add_override(answer(WRITE, CommandReturn::Failure(ErrorCode::Size)));
    assert_eq!(Screen::write(&mut kernel, &[7, 7]), Err(WaitError::Failed(ErrorCode::Size)));
    assert_eq!(kernel.unsubscribe(DRIVER_NUM, SUBSCRIBE_COMMANDS), Ok(None));
    assert!(!kernel.yield_wait());
}
