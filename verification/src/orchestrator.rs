//! What the interrupt handlers and the main loop decide: how received bytes
//! become commands and responses, when the panel is scanned, redrawn and
//! cleared, and when the animations advance. Reading the serial ports and
//! writing the output port is left to the caller.

use crate::command_interpreter::{
    byte_at, device_of, interpret_command, interpreted, lemma_zero_padding_is_neutral, DeviceView,
};
use crate::display::text_display::ROWS;
use crate::display::{DisplayMode, DisplayModeView};
use crate::hub75::scan::{pass_ops, refresh_ops, PortOp, THRESHOLDS};
use crate::hub75::{image_width, Hub75, PixelCell};
use crate::uart::{
    encode_response, frame, lemma_frame_delivered, response_frame, zeros, UartController, UartView,
    MAX_FRAME_PAYLOAD,
};
use vstd::prelude::*;
use vstd::utf8::{encode_utf8, is_ascii_chars, is_ascii_chars_encode_utf8};

verus! {

/// The device after a payload was handled, and the text that answers it: the
/// answer of the command, or the message of the error that the payload or
/// the command failed with.
pub open spec fn handled(buffer: Seq<u8>, width: nat, device: DeviceView, stripe: bool) -> (
    DeviceView,
    Seq<char>,
) {
    match interpreted(buffer, width) {
        Ok(command) => {
            let (after, outcome) = command.executed(device, stripe);
            (
                after,
                match outcome {
                    Ok(answer) => answer,
                    Err(error) => error.message_spec(),
                },
            )
        },
        Err(error) => (device, error.message_spec()),
    }
}

/// The texts that can answer a payload.
pub open spec fn is_response_text(text: Seq<char>) -> bool {
    ||| text == "OK"@
    ||| text == "Pong"@
    ||| text == "Mode:Text"@
    ||| text == "Mode:Direct"@
    ||| text == "cleared"@
    ||| text == "Index out of Bounds"@
    ||| text == "Incorrect Mode"@
    ||| text == "Invalid Setting"@
    ||| text == "Invalid Command"@
    ||| text == "Drawing Error"@
}

/// Every payload is answered by one of the response texts.
pub proof fn lemma_handled_answers(buffer: Seq<u8>, width: nat, device: DeviceView, stripe: bool)
    ensures
        is_response_text(handled(buffer, width, device, stripe).1),
{
}

/// The response texts are plain ASCII of at most 19 characters, so each
/// takes as many bytes as it has characters.
pub proof fn lemma_response_text_is_short(text: Seq<char>)
    requires
        is_response_text(text),
    ensures
        is_ascii_chars(text),
        encode_utf8(text).len() == text.len(),
        text.len() <= 19,
{
    reveal_strlit("OK");
    reveal_strlit("Pong");
    reveal_strlit("Mode:Text");
    reveal_strlit("Mode:Direct");
    reveal_strlit("cleared");
    reveal_strlit("Index out of Bounds");
    reveal_strlit("Incorrect Mode");
    reveal_strlit("Invalid Setting");
    reveal_strlit("Invalid Command");
    reveal_strlit("Drawing Error");
    assert(is_ascii_chars(text));
    is_ascii_chars_encode_utf8(text);
}

/// Reads a payload as a command, carries it out, and gives the text that
/// answers it.
pub fn parse_command<
    const WIDTH: usize,
    const ROW_LENGTH: usize,
    const ROWS_ADDR: usize,
    const STRIPE: bool,
>(
    buffer: &[u8],
    mode: &mut DisplayMode,
    target: &mut Hub75<ROW_LENGTH, ROWS_ADDR, STRIPE>,
    oe: &mut bool,
    clear_requested: &mut bool,
) -> (response: &'static str)
    requires
        old(mode).wf(),
        old(target).wf(),
    ensures
        final(mode).wf(),
        final(target).wf(),
        final(target).pin_masks() == old(target).pin_masks(),
        (device_of(final(mode)@, final(target)@, *final(oe), *final(clear_requested)), response@)
            == handled(
            buffer@,
            WIDTH as nat,
            device_of(old(mode)@, old(target)@, *old(oe), *old(clear_requested)),
            STRIPE,
        ),
{
    match interpret_command::<WIDTH>(buffer) {
        Ok(command) => match command.execute(mode, target, oe, clear_requested) {
            Ok(response) => response,
            Err(error) => error.message(),
        },
        Err(error) => error.message(),
    }
}

/// Handles a payload and frames the answer for the way back: header, length,
/// the opcode of the payload, the answer, and the checksum.
pub fn respond<
    const WIDTH: usize,
    const ROW_LENGTH: usize,
    const ROWS_ADDR: usize,
    const STRIPE: bool,
>(
    buffer: &[u8],
    mode: &mut DisplayMode,
    target: &mut Hub75<ROW_LENGTH, ROWS_ADDR, STRIPE>,
    oe: &mut bool,
    clear_requested: &mut bool,
) -> (reply: Vec<u8>)
    requires
        old(mode).wf(),
        old(target).wf(),
    ensures
        final(mode).wf(),
        final(target).wf(),
        final(target).pin_masks() == old(target).pin_masks(),
        ({
            let (after, answer) = handled(
                buffer@,
                WIDTH as nat,
                device_of(old(mode)@, old(target)@, *old(oe), *old(clear_requested)),
                STRIPE,
            );
            &&& device_of(final(mode)@, final(target)@, *final(oe), *final(clear_requested))
                == after
            &&& reply@ == response_frame(byte_at(buffer@, 0), encode_utf8(answer))
        }),
{
    let opcode = if buffer.len() > 0 {
        buffer[0]
    } else {
        0
    };
    proof {
        let before = device_of(mode@, target@, *oe, *clear_requested);
        lemma_handled_answers(buffer@, WIDTH as nat, before, STRIPE);
        lemma_response_text_is_short(handled(buffer@, WIDTH as nat, before, STRIPE).1);
    }
    let response = parse_command::<WIDTH, ROW_LENGTH, ROWS_ADDR, STRIPE>(
        buffer,
        mode,
        target,
        oe,
        clear_requested,
    );
    encode_response(opcode, response.as_bytes())
}

/// What a serial interrupt does with the bytes it has read: they go through
/// the reassembler, and if that completes a payload, the payload is handled
/// and the framed answer returned. Bytes that follow a complete payload in
/// the same run are dropped.
pub fn serve<
    const RX_BUFFER_SIZE: usize,
    const WIDTH: usize,
    const ROW_LENGTH: usize,
    const ROWS_ADDR: usize,
    const STRIPE: bool,
>(
    uart: &mut UartController<RX_BUFFER_SIZE>,
    bytes: &[u8],
    mode: &mut DisplayMode,
    target: &mut Hub75<ROW_LENGTH, ROWS_ADDR, STRIPE>,
    oe: &mut bool,
    clear_requested: &mut bool,
) -> (reply: Option<Vec<u8>>)
    requires
        old(uart).wf(),
        old(mode).wf(),
        old(target).wf(),
    ensures
        final(uart).wf(),
        final(mode).wf(),
        final(target).wf(),
        final(target).pin_masks() == old(target).pin_masks(),
        final(uart)@ == old(uart)@.run(bytes@).taken(),
        ({
            let before = device_of(old(mode)@, old(target)@, *old(oe), *old(clear_requested));
            let after = device_of(
                final(mode)@,
                final(target)@,
                *final(oe),
                *final(clear_requested),
            );
            match old(uart)@.run(bytes@).command() {
                Some(buffer) => {
                    let (expected, answer) = handled(buffer, WIDTH as nat, before, STRIPE);
                    &&& after == expected
                    &&& reply matches Some(frame) && frame@ == response_frame(
                        byte_at(buffer, 0),
                        encode_utf8(answer),
                    )
                },
                None => after == before && reply is None,
            }
        }),
{
    uart.read_bytes(bytes);
    match uart.get_command() {
        Some(buffer) => Some(
            respond::<WIDTH, ROW_LENGTH, ROWS_ADDR, STRIPE>(
                buffer.as_slice(),
                mode,
                target,
                oe,
                clear_requested,
            ),
        ),
        None => None,
    }
}

/// What the scan timer does: one refresh of the panel if the output is
/// enabled, nothing if it is not. The panel buffer is left alone either way.
pub fn scan_step<const ROW_LENGTH: usize, const ROWS_ADDR: usize, const STRIPE: bool>(
    target: &Hub75<ROW_LENGTH, ROWS_ADDR, STRIPE>,
    output_enabled: bool,
) -> (ops: Vec<PortOp>)
    requires
        target.wf(),
    ensures
        ops@ == if output_enabled {
            refresh_ops(target.pin_masks(), target@.cells, 16)
        } else {
            Seq::<PortOp>::empty()
        },
{
    if output_enabled {
        target.output()
    } else {
        Vec::new()
    }
}

/// Number of passes in one refresh.
pub const PASSES: usize = 16;

/// One pass of what the scan timer does, for a caller that cannot hold a
/// whole refresh at once: pass number `pass` of the refresh if the output is
/// enabled, nothing if it is not or if the refresh has no such pass. The
/// passes `0` to `15` in turn are the refresh that `scan_step` gives.
pub fn scan_pass<const ROW_LENGTH: usize, const ROWS_ADDR: usize, const STRIPE: bool>(
    target: &Hub75<ROW_LENGTH, ROWS_ADDR, STRIPE>,
    output_enabled: bool,
    pass: usize,
) -> (ops: Vec<PortOp>)
    requires
        target.wf(),
    ensures
        ops@ == if output_enabled && pass < PASSES {
            pass_ops(target.pin_masks(), target@.cells, THRESHOLDS@[pass as int], pass == 0)
        } else {
            Seq::<PortOp>::empty()
        },
        output_enabled && pass < PASSES ==> refresh_ops(
            target.pin_masks(),
            target@.cells,
            pass + 1,
        ) == refresh_ops(target.pin_masks(), target@.cells, pass as int) + ops@,
{
    if output_enabled && pass < PASSES {
        target.output_single(THRESHOLDS[pass], pass == 0)
    } else {
        Vec::new()
    }
}

/// What the animation timer does: in text mode every row's animation
/// advances by one tick.
pub fn anim_step(mode: &mut DisplayMode)
    requires
        old(mode).wf(),
    ensures
        final(mode).wf(),
        final(mode)@ == match old(mode)@ {
            DisplayModeView::TextMode(text) => DisplayModeView::TextMode(text.tick()),
            DisplayModeView::DirectMode => DisplayModeView::DirectMode,
        },
{
    match mode {
        DisplayMode::TextMode(text) => {
            text.anim_tick();
        },
        DisplayMode::DirectMode => {},
    }
}

/// What the main loop does in every round: in text mode it draws the text of
/// every row on the panel, top row first; in direct mode it leaves the panel
/// alone.
pub fn render_step<const ROW_LENGTH: usize, const ROWS_ADDR: usize, const STRIPE: bool>(
    mode: &mut DisplayMode,
    target: &mut Hub75<ROW_LENGTH, ROWS_ADDR, STRIPE>,
)
    requires
        old(mode).wf(),
        old(target).wf(),
    ensures
        final(mode)@ == old(mode)@,
        final(target).wf(),
        final(target).pin_masks() == old(target).pin_masks(),
        final(target)@ == match old(mode)@ {
            DisplayModeView::TextMode(text) => old(target)@.lettered_all(
                text.draws(image_width(ROW_LENGTH as int, STRIPE)),
                ROWS as int,
                STRIPE,
            ),
            DisplayModeView::DirectMode => old(target)@,
        },
{
    match mode {
        DisplayMode::TextMode(text) => {
            text.update(target);
        },
        DisplayMode::DirectMode => {},
    }
}

/// What the main loop does about a request to clear the panel: it switches
/// every pixel off and takes the request back.
pub fn clear_step<const ROW_LENGTH: usize, const ROWS_ADDR: usize, const STRIPE: bool>(
    target: &mut Hub75<ROW_LENGTH, ROWS_ADDR, STRIPE>,
    clear_requested: &mut bool,
)
    requires
        old(target).wf(),
    ensures
        final(target).wf(),
        final(target).pin_masks() == old(target).pin_masks(),
        !*final(clear_requested),
        final(target)@ == if *old(clear_requested) {
            old(target)@.flooded(PixelCell::dark())
        } else {
            old(target)@
        },
{
    if *clear_requested {
        target.clear_display();
        *clear_requested = false;
    }
}

/// A command survives the way through the wire. Whatever was received
/// before: once the reassembler awaits a frame, the frame of a payload that is
/// not empty and fits the buffer makes the reassembler hand out a buffer that
/// is read as the same command, and handled in the same way, as the payload
/// itself.
pub proof fn lemma_framed_payload_is_handled(
    start: UartView,
    junk: Seq<u8>,
    payload: Seq<u8>,
    width: nat,
    device: DeviceView,
    stripe: bool,
)
    requires
        start.wf(),
        start.run(junk).awaits_frame(),
        0 < payload.len() <= start.buffer.len(),
        payload.len() <= MAX_FRAME_PAYLOAD,
    ensures
        start.run(junk + frame(payload)).command() matches Some(buffer) && interpreted(
            buffer,
            width,
        ) == interpreted(payload, width) && handled(buffer, width, device, stripe) == handled(
            payload,
            width,
            device,
            stripe,
        ),
{
    let padding = (start.buffer.len() - payload.len()) as nat;
    lemma_frame_delivered(start, junk, payload);
    lemma_zero_padding_is_neutral(payload, padding, width);
    assert(zeros(padding as int) =~= Seq::new(padding, |i: int| 0u8));
}

} // verus!
