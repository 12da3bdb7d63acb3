//! The screen: its geometry, its pixel formats, and the commands that drive
//! it.

use vstd::prelude::*;
use vstd::slice::slice_to_vec;
use crate::allow::RoAllowBuffer;
use crate::command_return::CommandReturn;
use crate::console::len_argument;
use crate::error_code::{ErrorCode, WaitError};
use crate::fake::driver::SyscallDriver;
use crate::fake::kernel::{with_scope, Kernel};
use crate::fake::laws::scope::{
    law_scope_exit_revokes, lemma_scope_after_allow_ro, lemma_scope_after_command,
    lemma_scope_after_subscribe, lemma_scope_after_wait, scope_released, scope_revocable,
};
use crate::fake::scope::{Handle, Scope};
use crate::fake::view::KernelView;
use crate::upcall::Sink;

verus! {

/// The number the screen service is addressed by.
pub const DRIVER_NUM: u32 = 0x90001;

/// Command: is the screen there?
pub const DRIVER_CHECK: u32 = 0;

/// Command: switch the screen on or off.
pub const SET_POWER: u32 = 1;

/// Command: set the brightness.
pub const SET_BRIGHTNESS: u32 = 2;

/// Command: what is the resolution?
pub const RESOLUTION: u32 = 23;

/// Command: what is the pixel format?
pub const PIXEL_FORMAT: u32 = 25;

/// Command: select the frame that is written to.
pub const SET_FRAME: u32 = 100;

/// Command: write the granted region to the frame.
pub const WRITE: u32 = 200;

/// The subscription slot that is notified when a command is done.
pub const SUBSCRIBE_COMMANDS: u32 = 0;

/// The slot that takes the pixel data to write.
pub const ALLOW_WRITE: u32 = 0;

/// Notification: the screen is ready.
pub const CALLBACK_READY: u32 = 0;

/// Notification: the write is complete.
pub const CALLBACK_WRITE_COMPLETE: u32 = 1;

/// Brightness: off.
pub const LIGHTNESS_OFF: u32 = 0;

/// Brightness: the lowest level that is on.
pub const LIGHTNESS_MIN: u32 = 1;

/// Brightness: the highest level.
pub const LIGHTNESS_MAX: u32 = 65536;

/// The size of the screen in pixels.
#[derive(Clone, Copy, Debug, PartialEq, Eq, Structural)]
pub struct Resolution {
    pub width: u32,
    pub height: u32,
}

/// A rectangle on the screen, in pixels.
#[derive(Clone, Copy, Debug, PartialEq, Eq, Structural)]
pub struct Rectangle {
    pub x: u16,
    pub y: u16,
    pub width: u16,
    pub height: u16,
}

/// How a pixel is encoded.
#[derive(Clone, Copy, Debug, PartialEq, Eq, Structural)]
#[allow(non_camel_case_types)]
pub enum PixelFormat {
    /// One bit per pixel, for monochromatic displays.
    Mono,
    /// Two bits of red, three of green, three of blue.
    RGB_233,
    /// Five bits of red, six of green, five of blue.
    RGB_565,
    /// Eight bits each of red, green and blue.
    RGB_888,
    /// Eight bits each of alpha, red, green and blue.
    ARGB_8888,
}

impl PixelFormat {
    /// The number that stands for the format on the wire.
    pub open spec fn code(self) -> u32 {
        match self {
            PixelFormat::Mono => 0,
            PixelFormat::RGB_233 => 1,
            PixelFormat::RGB_565 => 2,
            PixelFormat::RGB_888 => 3,
            PixelFormat::ARGB_8888 => 4,
        }
    }

    /// Bits per pixel.
    pub open spec fn bits(self) -> u8 {
        match self {
            PixelFormat::Mono => 1,
            PixelFormat::RGB_233 => 8,
            PixelFormat::RGB_565 => 16,
            PixelFormat::RGB_888 => 24,
            PixelFormat::ARGB_8888 => 32,
        }
    }

    /// Bits per pixel.
    pub fn bpp(self) -> (bits: u8)
        ensures
            bits == self.bits(),
    {
        match self {
            PixelFormat::Mono => 1,
            PixelFormat::RGB_233 => 8,
            PixelFormat::RGB_565 => 16,
            PixelFormat::RGB_888 => 24,
            PixelFormat::ARGB_8888 => 32,
        }
    }

    /// The format a number stands for, and an error for a number that
    /// stands for none.
    pub fn try_from(v: u32) -> (format: Result<PixelFormat, ()>)
        ensures
            format is Ok <==> v <= 4,
            format matches Ok(decoded) ==> decoded.code() == v,
    {
        match v {
            0 => Ok(PixelFormat::Mono),
            1 => Ok(PixelFormat::RGB_233),
            2 => Ok(PixelFormat::RGB_565),
            3 => Ok(PixelFormat::RGB_888),
            4 => Ok(PixelFormat::ARGB_8888),
            _ => Err(()),
        }
    }
}

/// The screen.
pub struct Screen;

/// The grant of the pixels to write.
pub open spec fn write_grant() -> Handle {
    Handle::AllowRo { driver_num: DRIVER_NUM, buffer_num: ALLOW_WRITE }
}

/// The subscription that a command waits on.
pub open spec fn commands_subscription() -> Handle {
    Handle::Subscribe { driver_num: DRIVER_NUM, subscribe_num: SUBSCRIBE_COMMANDS }
}

/// The two command arguments that select a frame: position and size, each a
/// pair of 16-bit numbers packed into one word, the first in the upper half.
pub open spec fn frame_registers(frame: Rectangle) -> (u32, u32) {
    ((frame.x * 0x1_0000 + frame.y) as u32, (frame.width * 0x1_0000 + frame.height) as u32)
}

/// The pixel format that a successful answer to the format query stands
/// for; a number that stands for none is [`ErrorCode::Invalid`].
pub open spec fn pixel_format_of(returned: CommandReturn) -> Result<PixelFormat, ErrorCode> {
    match returned.u32_result() {
        Err(code) => Err(code),
        Ok(code) => if code == 0 {
            Ok(PixelFormat::Mono)
        } else if code == 1 {
            Ok(PixelFormat::RGB_233)
        } else if code == 2 {
            Ok(PixelFormat::RGB_565)
        } else if code == 3 {
            Ok(PixelFormat::RGB_888)
        } else if code == 4 {
            Ok(PixelFormat::ARGB_8888)
        } else {
            Err(ErrorCode::Invalid)
        },
    }
}

/// What waiting for the screen to report that `command` is done does, and
/// whether the report came: the caller waits for the slot's notification
/// until one names `command` in its second word.
pub open spec fn await_completion_spec<V>(
    kernel: KernelView<V>,
    command: u32,
) -> (KernelView<V>, bool)
    decreases kernel.queue.len(),
{
    let (waited, payload) = kernel.wait_spec(DRIVER_NUM, SUBSCRIBE_COMMANDS);
    match payload {
        None => (waited, false),
        Some(args) => if args.1 == command {
            (waited, true)
        } else {
            proof {
                kernel.lemma_wait_shrinks(DRIVER_NUM, SUBSCRIBE_COMMANDS);
            }
            await_completion_spec(waited, command)
        },
    }
}

/// What [`Screen::set_power`] does before its scope ends.
pub open spec fn set_power_in_scope_spec<D: SyscallDriver>(
    kernel: KernelView<D::V>,
    on: bool,
) -> (KernelView<D::V>, Seq<Handle>, Result<(), WaitError>) {
    let (subscribed, previous) = kernel.subscribe_spec(
        DRIVER_NUM,
        SUBSCRIBE_COMMANDS,
        Some(Sink::empty()),
    );
    match previous {
        Err(code) => (subscribed, Seq::empty(), Err(WaitError::Failed(code))),
        Ok(_) => {
            let (commanded, returned) = Kernel::<D>::command_spec(
                subscribed,
                DRIVER_NUM,
                SET_POWER,
                if on {
                    1
                } else {
                    0
                },
                0,
            );
            match returned.unit_result() {
                Err(code) => (
                    commanded,
                    seq![commands_subscription()],
                    Err(WaitError::Failed(code)),
                ),
                Ok(_) => {
                    let (waited, ready) = await_completion_spec(commanded, CALLBACK_READY);
                    (
                        waited,
                        seq![commands_subscription()],
                        if ready {
                            Ok(())
                        } else {
                            Err(WaitError::Hung)
                        },
                    )
                },
            }
        },
    }
}

/// What [`Screen::set_power`] does to the kernel, and its result.
pub open spec fn set_power_spec<D: SyscallDriver>(
    kernel: KernelView<D::V>,
    on: bool,
) -> (KernelView<D::V>, Result<(), WaitError>) {
    let (inside, handles, result) = set_power_in_scope_spec::<D>(kernel, on);
    (Kernel::<D>::revoke_all_spec(inside, handles), result)
}

/// What [`Screen::write`] does before its scope ends.
pub open spec fn write_in_scope_spec<D: SyscallDriver>(
    kernel: KernelView<D::V>,
    pixels: Seq<u8>,
) -> (KernelView<D::V>, Seq<Handle>, Result<(), WaitError>) {
    let (granted, allowed) = Kernel::<D>::allow_ro_spec(kernel, DRIVER_NUM, ALLOW_WRITE, pixels);
    match allowed {
        Err(code) => (granted, Seq::empty(), Err(WaitError::Failed(code))),
        Ok(_) => {
            let (subscribed, previous) = granted.subscribe_spec(
                DRIVER_NUM,
                SUBSCRIBE_COMMANDS,
                Some(Sink::empty()),
            );
            match previous {
                Err(code) => (subscribed, seq![write_grant()], Err(WaitError::Failed(code))),
                Ok(_) => {
                    let (commanded, returned) = Kernel::<D>::command_spec(
                        subscribed,
                        DRIVER_NUM,
                        WRITE,
                        len_argument(pixels.len()),
                        0,
                    );
                    match returned.unit_result() {
                        Err(code) => (
                            commanded,
                            seq![write_grant(), commands_subscription()],
                            Err(WaitError::Failed(code)),
                        ),
                        Ok(_) => {
                            let (waited, complete) = await_completion_spec(
                                commanded,
                                CALLBACK_WRITE_COMPLETE,
                            );
                            (
                                waited,
                                seq![write_grant(), commands_subscription()],
                                if complete {
                                    Ok(())
                                } else {
                                    Err(WaitError::Hung)
                                },
                            )
                        },
                    }
                },
            }
        },
    }
}

/// What [`Screen::write`] does to the kernel, and its result.
pub open spec fn write_spec<D: SyscallDriver>(
    kernel: KernelView<D::V>,
    pixels: Seq<u8>,
) -> (KernelView<D::V>, Result<(), WaitError>) {
    let (inside, handles, result) = write_in_scope_spec::<D>(kernel, pixels);
    (Kernel::<D>::revoke_all_spec(inside, handles), result)
}

/// A scope stays revocable while its owner waits for the screen to report
/// a command done.
proof fn lemma_scope_after_completion<D: SyscallDriver>(
    kernel: KernelView<D::V>,
    handles: Seq<Handle>,
    command: u32,
)
    requires
        scope_revocable::<D>(kernel, handles),
    ensures
        scope_revocable::<D>(await_completion_spec(kernel, command).0, handles),
    decreases kernel.queue.len(),
{
    lemma_scope_after_wait::<D>(kernel, handles, DRIVER_NUM, SUBSCRIBE_COMMANDS);
    let (waited, payload) = kernel.wait_spec(DRIVER_NUM, SUBSCRIBE_COMMANDS);
    if let Some(args) = payload {
        if args.1 != command {
            kernel.lemma_wait_shrinks(DRIVER_NUM, SUBSCRIBE_COMMANDS);
            lemma_scope_after_completion::<D>(waited, handles, command);
        }
    }
}

/// The subscription that [`Screen::set_power`] makes does not outlive it:
/// when it returns, whatever its result and whatever services the kernel
/// hosts, the slot it occupied is not in use.
pub proof fn law_set_power_releases_its_scope<D: SyscallDriver>(kernel: KernelView<D::V>, on: bool)
    ensures
        scope_released::<D>(
            set_power_spec::<D>(kernel, on).0,
            set_power_in_scope_spec::<D>(kernel, on).1,
        ),
{
    let (inside, handles, _) = set_power_in_scope_spec::<D>(kernel, on);
    assert(scope_revocable::<D>(inside, handles)) by {
        let none = Seq::<Handle>::empty();
        let sink = Some(Sink::empty());
        lemma_scope_after_subscribe::<D>(kernel, none, DRIVER_NUM, SUBSCRIBE_COMMANDS, sink);
        let (subscribed, previous) = kernel.subscribe_spec(DRIVER_NUM, SUBSCRIBE_COMMANDS, sink);
        if previous is Ok {
            let one = none.push(
                commands_subscription(),
            );
            assert(one =~= seq![
                commands_subscription(),
            ]);
            let argument: u32 = if on {
                1
            } else {
                0
            };
            lemma_scope_after_command::<D>(subscribed, one, DRIVER_NUM, SET_POWER, argument, 0);
            let commanded = Kernel::<D>::command_spec(
                subscribed,
                DRIVER_NUM,
                SET_POWER,
                argument,
                0,
            ).0;
            lemma_scope_after_completion::<D>(commanded, one, CALLBACK_READY);
        }
    }
    law_scope_exit_revokes::<D>(inside, handles);
}

/// Nothing that [`Screen::write`] grants or subscribes outlives it: when it
/// returns, whatever its result and whatever services the kernel hosts,
/// none of the slots it occupied is in use.
pub proof fn law_write_releases_its_scope<D: SyscallDriver>(
    kernel: KernelView<D::V>,
    pixels: Seq<u8>,
)
    ensures
        scope_released::<D>(
            write_spec::<D>(kernel, pixels).0,
            write_in_scope_spec::<D>(kernel, pixels).1,
        ),
{
    let (inside, handles, _) = write_in_scope_spec::<D>(kernel, pixels);
    assert(scope_revocable::<D>(inside, handles)) by {
        let none = Seq::<Handle>::empty();
        let sink = Some(Sink::empty());
        lemma_scope_after_allow_ro::<D>(kernel, none, DRIVER_NUM, ALLOW_WRITE, pixels);
        let (granted, allowed) = Kernel::<D>::allow_ro_spec(
            kernel,
            DRIVER_NUM,
            ALLOW_WRITE,
            pixels,
        );
        if allowed is Ok {
            let one = none.push(write_grant());
            assert(one =~= seq![write_grant()]);
            lemma_scope_after_subscribe::<D>(granted, one, DRIVER_NUM, SUBSCRIBE_COMMANDS, sink);
            let (subscribed, previous) = granted.subscribe_spec(
                DRIVER_NUM,
                SUBSCRIBE_COMMANDS,
                sink,
            );
            if previous is Ok {
                let two = one.push(
                    commands_subscription(),
                );
                assert(two =~= seq![
                    write_grant(),
                    commands_subscription(),
                ]);
                lemma_scope_after_command::<D>(
                    subscribed,
                    two,
                    DRIVER_NUM,
                    WRITE,
                    len_argument(pixels.len()),
                    0,
                );
                let commanded = Kernel::<D>::command_spec(
                    subscribed,
                    DRIVER_NUM,
                    WRITE,
                    len_argument(pixels.len()),
                    0,
                ).0;
                lemma_scope_after_completion::<D>(commanded, two, CALLBACK_WRITE_COMPLETE);
            }
        }
    }
    law_scope_exit_revokes::<D>(inside, handles);
}

impl Screen {
    /// Asks the screen whether it is there.
    ///
    /// Returns `true` if the service is present. This does not mean that it
    /// works: a later grant may still be refused.
    pub fn driver_check<D: SyscallDriver>(kernel: &mut Kernel<D>) -> (present: bool)
        requires
            old(kernel).wf(),
        ensures
            final(kernel).wf(),
            final(kernel)@ == Kernel::<D>::command_spec(
                old(kernel)@,
                DRIVER_NUM,
                DRIVER_CHECK,
                0,
                0,
            ).0,
            present == !(Kernel::<D>::command_spec(
                old(kernel)@,
                DRIVER_NUM,
                DRIVER_CHECK,
                0,
                0,
            ).1 is Failure),
    {
        kernel.command(DRIVER_NUM, DRIVER_CHECK, 0, 0).is_success()
    }

    /// Asks the screen for its resolution.
    pub fn get_resolution<D: SyscallDriver>(
        kernel: &mut Kernel<D>,
    ) -> (result: Result<Resolution, ErrorCode>)
        requires
            old(kernel).wf(),
        ensures
            final(kernel).wf(),
            final(kernel)@ == Kernel::<D>::command_spec(
                old(kernel)@,
                DRIVER_NUM,
                RESOLUTION,
                0,
                0,
            ).0,
            result == (match Kernel::<D>::command_spec(
                old(kernel)@,
                DRIVER_NUM,
                RESOLUTION,
                0,
                0,
            ).1.pair_result() {
                Ok((width, height)) => Ok(Resolution { width, height }),
                Err(code) => Err(code),
            }),
    {
        match kernel.command(DRIVER_NUM, RESOLUTION, 0, 0).to_result_2_u32() {
            Ok((width, height)) => Ok(Resolution { width, height }),
            Err(code) => Err(code),
        }
    }

    /// Asks the screen for its pixel format.
    pub fn get_pixel_format<D: SyscallDriver>(
        kernel: &mut Kernel<D>,
    ) -> (result: Result<PixelFormat, ErrorCode>)
        requires
            old(kernel).wf(),
        ensures
            final(kernel).wf(),
            final(kernel)@ == Kernel::<D>::command_spec(
                old(kernel)@,
                DRIVER_NUM,
                PIXEL_FORMAT,
                0,
                0,
            ).0,
            result == pixel_format_of(
                Kernel::<D>::command_spec(old(kernel)@, DRIVER_NUM, PIXEL_FORMAT, 0, 0).1,
            ),
    {
        match kernel.command(DRIVER_NUM, PIXEL_FORMAT, 0, 0).to_result_u32() {
            Ok(code) => match PixelFormat::try_from(code) {
                Ok(format) => Ok(format),
                Err(_) => Err(ErrorCode::Invalid),
            },
            Err(code) => Err(code),
        }
    }

    /// Switches the screen on or off, and waits until it reports that it is
    /// ready. The subscription made on the way is revoked before it
    /// returns, whatever the result.
    pub fn set_power<D: SyscallDriver>(
        kernel: &mut Kernel<D>,
        on: bool,
    ) -> (result: Result<(), WaitError>)
        requires
            old(kernel).wf(),
        ensures
            final(kernel).wf(),
            (final(kernel)@, result) == set_power_spec::<D>(old(kernel)@, on),
    {
        let body = |inner: &mut Kernel<D>, scope: &mut Scope| -> (result: Result<(), WaitError>)
            requires
                inner.wf(),
                scope@ == Seq::<Handle>::empty(),
            ensures
                final(inner).wf(),
                (final(inner)@, final(scope)@, result) == set_power_in_scope_spec::<D>(
                    old(inner)@,
                    on,
                ),
            {
                Self::set_power_in_scope(inner, scope, on)
            };
        with_scope(kernel, body)
    }

    fn set_power_in_scope<D: SyscallDriver>(
        kernel: &mut Kernel<D>,
        scope: &mut Scope,
        on: bool,
    ) -> (result: Result<(), WaitError>)
        requires
            old(kernel).wf(),
            old(scope)@ == Seq::<Handle>::empty(),
        ensures
            final(kernel).wf(),
            (final(kernel)@, final(scope)@, result) == set_power_in_scope_spec::<D>(
                old(kernel)@,
                on,
            ),
    {
        if let Err(code) = kernel.subscribe(scope, DRIVER_NUM, SUBSCRIBE_COMMANDS, Sink::new()) {
            return Err(WaitError::Failed(code));
        }
        assert(scope@ =~= seq![
            commands_subscription(),
        ]);
        let argument: u32 = if on {
            1
        } else {
            0
        };
        if let Err(code) = kernel.command(DRIVER_NUM, SET_POWER, argument, 0).to_result() {
            return Err(WaitError::Failed(code));
        }
        if Self::await_completion(kernel, CALLBACK_READY) {
            Ok(())
        } else {
            Err(WaitError::Hung)
        }
    }

    fn await_completion<D: SyscallDriver>(kernel: &mut Kernel<D>, command: u32) -> (complete: bool)
        requires
            old(kernel).wf(),
        ensures
            final(kernel).wf(),
            (final(kernel)@, complete) == await_completion_spec(old(kernel)@, command),
    {
        loop
            invariant
                kernel.wf(),
                await_completion_spec(kernel@, command) == await_completion_spec(
                    old(kernel)@,
                    command,
                ),
            decreases kernel@.queue.len(),
        {
            proof {
                kernel@.lemma_wait_shrinks(DRIVER_NUM, SUBSCRIBE_COMMANDS);
            }
            match kernel.wait_for(DRIVER_NUM, SUBSCRIBE_COMMANDS) {
                None => {
                    return false;
                },
                Some(args) => {
                    if args.1 == command {
                        return true;
                    }
                },
            }
        }
    }

    /// Sets the brightness of the screen.
    pub fn set_brightness<D: SyscallDriver>(
        kernel: &mut Kernel<D>,
        lightness: u32,
    ) -> (result: Result<(), ErrorCode>)
        requires
            old(kernel).wf(),
        ensures
            final(kernel).wf(),
            final(kernel)@ == Kernel::<D>::command_spec(
                old(kernel)@,
                DRIVER_NUM,
                SET_BRIGHTNESS,
                lightness,
                0,
            ).0,
            result == Kernel::<D>::command_spec(
                old(kernel)@,
                DRIVER_NUM,
                SET_BRIGHTNESS,
                lightness,
                0,
            ).1.unit_result(),
    {
        kernel.command(DRIVER_NUM, SET_BRIGHTNESS, lightness, 0).to_result()
    }

    /// Selects the frame that the next write goes to.
    pub fn set_frame<D: SyscallDriver>(
        kernel: &mut Kernel<D>,
        frame: Rectangle,
    ) -> (result: Result<(), ErrorCode>)
        requires
            old(kernel).wf(),
        ensures
            final(kernel).wf(),
            final(kernel)@ == Kernel::<D>::command_spec(
                old(kernel)@,
                DRIVER_NUM,
                SET_FRAME,
                frame_registers(frame).0,
                frame_registers(frame).1,
            ).0,
            result == Kernel::<D>::command_spec(
                old(kernel)@,
                DRIVER_NUM,
                SET_FRAME,
                frame_registers(frame).0,
                frame_registers(frame).1,
            ).1.unit_result(),
    {
        let reg1: u32 = pack(frame.x, frame.y);
        let reg2: u32 = pack(frame.width, frame.height);
        kernel.command(DRIVER_NUM, SET_FRAME, reg1, reg2).to_result()
    }

    /// Writes the whole buffer of pixel data to the selected frame, and
    /// waits until the screen reports the write complete. It checks neither
    /// the alignment of the buffer nor its bounds. The grant and the
    /// subscription made on the way are revoked before it returns, whatever
    /// the result.
    pub fn write<D: SyscallDriver>(
        kernel: &mut Kernel<D>,
        buffer: &[u8],
    ) -> (result: Result<(), WaitError>)
        requires
            old(kernel).wf(),
        ensures
            final(kernel).wf(),
            (final(kernel)@, result) == write_spec::<D>(old(kernel)@, buffer@),
    {
        let body = |inner: &mut Kernel<D>, scope: &mut Scope| -> (result: Result<(), WaitError>)
            requires
                inner.wf(),
                scope@ == Seq::<Handle>::empty(),
            ensures
                final(inner).wf(),
                (final(inner)@, final(scope)@, result) == write_in_scope_spec::<D>(
                    old(inner)@,
                    buffer@,
                ),
            {
                Self::write_in_scope(inner, scope, buffer)
            };
        with_scope(kernel, body)
    }

    fn write_in_scope<D: SyscallDriver>(
        kernel: &mut Kernel<D>,
        scope: &mut Scope,
        buffer: &[u8],
    ) -> (result: Result<(), WaitError>)
        requires
            old(kernel).wf(),
            old(scope)@ == Seq::<Handle>::empty(),
        ensures
            final(kernel).wf(),
            (final(kernel)@, final(scope)@, result) == write_in_scope_spec::<D>(
                old(kernel)@,
                buffer@,
            ),
    {
        let pixels = RoAllowBuffer::new(slice_to_vec(buffer));
        if let Err((_, code)) = kernel.allow_ro(scope, DRIVER_NUM, ALLOW_WRITE, pixels) {
            return Err(WaitError::Failed(code));
        }
        assert(scope@ =~= seq![write_grant()]);
        if let Err(code) = kernel.subscribe(scope, DRIVER_NUM, SUBSCRIBE_COMMANDS, Sink::new()) {
            return Err(WaitError::Failed(code));
        }
        assert(scope@ =~= seq![
            write_grant(),
            commands_subscription(),
        ]);
        if let Err(code) = kernel.command(DRIVER_NUM, WRITE, buffer.len() as u32, 0).to_result() {
            return Err(WaitError::Failed(code));
        }
        if Self::await_completion(kernel, CALLBACK_WRITE_COMPLETE) {
            Ok(())
        } else {
            Err(WaitError::Hung)
        }
    }
}

/// Packs two 16-bit numbers into one word, the first in the upper half.
fn pack(upper: u16, lower: u16) -> (word: u32)
    ensures
        word == upper * 0x1_0000 + lower,
{
    let word: u32 = (upper as u32) << 16 | lower as u32;
    assert(((upper as u32) << 16 | lower as u32) == (upper as u32) * 0x1_0000 + (lower as u32))
        by (bit_vector);
    word
}

} // verus!
