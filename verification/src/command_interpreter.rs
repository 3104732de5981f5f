//! The commands of the serial protocol: how a payload is read as a command,
//! and what each command does to the display.

use crate::display::font::Font;
use crate::display::row_text::{row_chars, row_new, row_push_str, TEXT_ROW_LENGTH};
use crate::display::text_animations::{
    BlinkView, BlinkingAnimation, SlideAnimation, SlideDirection, SlideView, TextAnimation,
    TextAnimationView,
};
use crate::display::text_display::{TextDisplay, TextDisplayView, ROWS};
use crate::display::{DisplayError, DisplayMode, DisplayModeView};
use crate::hub75::{Dot, Hub75, PanelView, PixelCell};
use crate::shapes::{
    circle_dots, circle_pixels, line_dots, line_fits, line_is_drawable, line_pixels,
    rectangle_dots, rectangle_pixels, triangle_dots, triangle_fits, triangle_is_drawable,
    triangle_pixels,
};
use vstd::prelude::*;
use vstd::string::StringSliceAdditionalSpecFns;
use vstd::utf8::{decode_utf8, encode_utf8, valid_utf8};

verus! {

/// The byte at a position of a payload. A payload that ends before the
/// position reads as zero there.
pub open spec fn byte_at(buffer: Seq<u8>, index: int) -> u8 {
    if 0 <= index < buffer.len() {
        buffer[index]
    } else {
        0
    }
}

/// Reads a byte of a payload, zero behind its end.
fn payload_byte(buffer: &[u8], index: usize) -> (byte: u8)
    ensures
        byte == byte_at(buffer@, index as int),
{
    if index < buffer.len() {
        buffer[index]
    } else {
        0
    }
}

/// Number of bytes before the first zero byte, or the number of all bytes
/// where none is zero.
pub open spec fn first_zero(bytes: Seq<u8>) -> int
    decreases bytes.len(),
{
    if bytes.len() == 0 || bytes[0] == 0 {
        0
    } else {
        1 + first_zero(bytes.drop_first())
    }
}

/// The bytes of the text in a payload: those after the opcode and the row,
/// up to the first zero byte or the end of the payload.
pub open spec fn text_bytes(buffer: Seq<u8>) -> Seq<u8> {
    if buffer.len() <= 2 {
        Seq::empty()
    } else {
        let tail = buffer.subrange(2, buffer.len() as int);
        tail.subrange(0, first_zero(tail))
    }
}

/// How `first_zero` is found: no byte before it is zero, and it is the end or
/// a zero byte.
proof fn lemma_first_zero(bytes: Seq<u8>, n: int)
    requires
        0 <= n <= bytes.len(),
        forall|k: int| 0 <= k < n ==> bytes[k] != 0,
        n == bytes.len() || bytes[n] == 0,
    ensures
        first_zero(bytes) == n,
    decreases bytes.len(),
{
    if n > 0 {
        lemma_first_zero(bytes.drop_first(), n - 1);
    }
}

/// `core::str::from_utf8`. Trusted: it succeeds exactly on valid UTF-8, and
/// the string it then returns has the given bytes.
#[verifier::external_body]
fn str_from_utf8(bytes: &[u8]) -> (text: Option<&str>)
    ensures
        text is Some <==> valid_utf8(bytes@),
        text matches Some(t) ==> t.spec_bytes() == bytes@,
{
    core::str::from_utf8(bytes).ok()
}

/// Switches between text mode (0) and direct mode (1).
#[derive(Debug, Clone, Copy, PartialEq, Eq)]
pub struct SwitchMode {
    pub mode: u8,
}

impl SwitchMode {
    pub open spec fn parsed(buffer: Seq<u8>) -> SwitchMode {
        SwitchMode { mode: byte_at(buffer, 1) }
    }

    /// Reads the mode. Any value is taken here; an unknown mode is refused
    /// when the command is carried out.
    pub fn new(buffer: &[u8]) -> (result: Result<Self, DisplayError>)
        ensures
            result == Ok::<Self, DisplayError>(Self::parsed(buffer@)),
    {
        Ok(SwitchMode { mode: payload_byte(buffer, 1) })
    }
}

/// Replaces the text of a row.
#[derive(Debug)]
pub struct Write {
    pub text: heapless::String<256>,
    pub row: usize,
}

/// Mathematical model of a `Write` command.
pub struct WriteView {
    pub text: Seq<char>,
    pub row: int,
}

impl View for Write {
    type V = WriteView;

    open spec fn view(&self) -> WriteView {
        WriteView { text: row_chars(self.text), row: self.row as int }
    }
}

impl Write {
    /// The text has to be valid UTF-8 of at most 256 bytes.
    pub open spec fn parsed(buffer: Seq<u8>) -> Result<WriteView, DisplayError> {
        let bytes = text_bytes(buffer);
        if valid_utf8(bytes) && bytes.len() <= TEXT_ROW_LENGTH {
            Ok(WriteView { text: decode_utf8(bytes), row: byte_at(buffer, 1) as int })
        } else {
            Err(DisplayError::InvalidSetting)
        }
    }

    /// Reads the row and the text, which ends at the first zero byte.
    pub fn new(buffer: &[u8]) -> (result: Result<Self, DisplayError>)
        ensures
            match result {
                Ok(command) => Self::parsed(buffer@) == Ok::<WriteView, DisplayError>(command@),
                Err(error) => Self::parsed(buffer@) == Err::<WriteView, DisplayError>(error),
            },
    {
        let row = payload_byte(buffer, 1) as usize;
        let length = buffer.len();
        let mut end: usize = 2;
        if length > 2 {
            while end < length && buffer[end] != 0
                invariant
                    2 <= end <= length,
                    length == buffer@.len(),
                    forall|k: int| 2 <= k < end ==> buffer@[k] != 0,
                decreases length - end,
            {
                end = end + 1;
            }
        }
        let bytes: &[u8] = if length > 2 {
            proof {
                lemma_first_zero(buffer@.subrange(2, length as int), end - 2);
            }
            vstd::slice::slice_subrange(buffer, 2, end)
        } else {
            vstd::slice::slice_subrange(buffer, 0, 0)
        };
        assert(bytes@ =~= text_bytes(buffer@));
        let parsed = str_from_utf8(bytes);
        match parsed {
            Some(text) => {
                let mut row_text = row_new();
                proof {
                    vstd::utf8::encode_utf8_decode_utf8(text@);
                    assert(encode_utf8(Seq::<char>::empty()) =~= Seq::<u8>::empty());
                }
                if row_push_str(&mut row_text, text) {
                    assert(row_chars(row_text) =~= text@);
                    Ok(Write { text: row_text, row })
                } else {
                    Err(DisplayError::InvalidSetting)
                }
            },
            None => Err(DisplayError::InvalidSetting),
        }
    }
}

/// Sets the font of a row.
#[derive(Debug, Clone, Copy, PartialEq, Eq)]
pub struct SetFont {
    pub font: Font,
    pub row: usize,
}

impl SetFont {
    /// The font is 0 for the default font, 1 for ProFont, 2 for the IBM font.
    pub open spec fn parsed(buffer: Seq<u8>) -> Result<SetFont, DisplayError> {
        let row = byte_at(buffer, 1) as usize;
        let font = byte_at(buffer, 2);
        if font == 0 {
            Ok(SetFont { font: Font::Default, row })
        } else if font == 1 {
            Ok(SetFont { font: Font::ProFont, row })
        } else if font == 2 {
            Ok(SetFont { font: Font::Ibm, row })
        } else {
            Err(DisplayError::InvalidSetting)
        }
    }

    /// Reads the row and the font.
    pub fn new(buffer: &[u8]) -> (result: Result<Self, DisplayError>)
        ensures
            result == Self::parsed(buffer@),
    {
        let row = payload_byte(buffer, 1) as usize;
        let font = match payload_byte(buffer, 2) {
            0 => Font::Default,
            1 => Font::ProFont,
            2 => Font::Ibm,
            _ => {
                return Err(DisplayError::InvalidSetting);
            },
        };
        Ok(SetFont { row, font })
    }
}

/// Sets the text colour of a row.
#[derive(Debug, Clone, Copy, PartialEq, Eq)]
pub struct SetColor {
    pub rgb_color: (u8, u8, u8),
    pub row: usize,
}

impl SetColor {
    pub open spec fn parsed(buffer: Seq<u8>) -> SetColor {
        SetColor {
            rgb_color: (byte_at(buffer, 2), byte_at(buffer, 3), byte_at(buffer, 4)),
            row: byte_at(buffer, 1) as usize,
        }
    }

    /// Reads the row and the colour.
    pub fn new(buffer: &[u8]) -> (result: Result<Self, DisplayError>)
        ensures
            result == Ok::<Self, DisplayError>(Self::parsed(buffer@)),
    {
        let row = payload_byte(buffer, 1) as usize;
        let rgb_color = (payload_byte(buffer, 2), payload_byte(buffer, 3), payload_byte(buffer, 4));
        Ok(SetColor { rgb_color, row })
    }
}

/// Gives a row an animation.
#[derive(Debug, Clone, Copy)]
pub struct SetAnimation {
    pub animation: TextAnimation,
    pub row: usize,
}

/// Mathematical model of a `SetAnimation` command.
pub struct SetAnimationView {
    pub animation: TextAnimationView,
    pub row: int,
}

impl View for SetAnimation {
    type V = SetAnimationView;

    open spec fn view(&self) -> SetAnimationView {
        SetAnimationView { animation: self.animation@, row: self.row as int }
    }
}

impl SetAnimation {
    /// The kind is 0 for no animation, 1 for blinking, 2 for sliding; the
    /// next byte is the tempo. A slide goes right if the byte after the
    /// tempo is 1, else left. Every animation starts from its initial state.
    pub open spec fn parsed(buffer: Seq<u8>) -> Result<SetAnimationView, DisplayError> {
        let row = byte_at(buffer, 1) as int;
        let kind = byte_at(buffer, 2);
        let tempo = byte_at(buffer, 3) as int;
        if kind == 0 {
            Ok(SetAnimationView { animation: TextAnimationView::NoAnimation, row })
        } else if kind == 1 {
            Ok(
                SetAnimationView {
                    animation: TextAnimationView::Blink(
                        BlinkView { visible: true, tempo, counter: 0 },
                    ),
                    row,
                },
            )
        } else if kind == 2 {
            Ok(
                SetAnimationView {
                    animation: TextAnimationView::Slide(
                        SlideView {
                            slide_length: 0,
                            direction: if byte_at(buffer, 4) == 1 {
                                SlideDirection::Right
                            } else {
                                SlideDirection::Left
                            },
                            tempo,
                            x_offset: 0,
                            counter: 0,
                        },
                    ),
                    row,
                },
            )
        } else {
            Err(DisplayError::InvalidSetting)
        }
    }

    /// Reads the row and the animation.
    pub fn new(buffer: &[u8]) -> (result: Result<Self, DisplayError>)
        ensures
            match result {
                Ok(command) => Self::parsed(buffer@) == Ok::<SetAnimationView, DisplayError>(
                    command@,
                ) && command.animation.wf(),
                Err(error) => Self::parsed(buffer@) == Err::<SetAnimationView, DisplayError>(
                    error,
                ),
            },
    {
        let row = payload_byte(buffer, 1) as usize;
        let animation = match payload_byte(buffer, 2) {
            0 => TextAnimation::NoAnimation,
            1 => {
                let anim = BlinkingAnimation::new(payload_byte(buffer, 3) as i32);
                TextAnimation::BlinkingAnimation(anim)
            },
            2 => {
                let dir = match payload_byte(buffer, 4) {
                    1 => SlideDirection::Right,
                    _ => SlideDirection::Left,
                };
                let anim = SlideAnimation::new(payload_byte(buffer, 3) as i32, dir);
                TextAnimation::SlideAnimation(anim)
            },
            _ => {
                return Err(DisplayError::InvalidSetting);
            },
        };
        Ok(SetAnimation { row, animation })
    }
}

/// Draws one pixel.
#[derive(Debug, Clone, Copy, PartialEq, Eq)]
pub struct DrawPixel {
    pub rgb_color: (u8, u8, u8),
    pub coords: (usize, usize),
}

impl DrawPixel {
    pub open spec fn parsed(buffer: Seq<u8>) -> DrawPixel {
        DrawPixel {
            rgb_color: (byte_at(buffer, 3), byte_at(buffer, 4), byte_at(buffer, 5)),
            coords: (byte_at(buffer, 1) as usize, byte_at(buffer, 2) as usize),
        }
    }

    /// Reads the coordinates and the colour.
    pub fn new(buffer: &[u8]) -> (result: Result<Self, DisplayError>)
        ensures
            result == Ok::<Self, DisplayError>(Self::parsed(buffer@)),
    {
        let coords = (payload_byte(buffer, 1) as usize, payload_byte(buffer, 2) as usize);
        let rgb_color = (payload_byte(buffer, 3), payload_byte(buffer, 4), payload_byte(buffer, 5));
        Ok(DrawPixel { rgb_color, coords })
    }
}

/// Draws a whole row of pixels, one colour for every column.
#[derive(Debug, Clone, Copy, PartialEq, Eq)]
pub struct DrawRow<const ROW_LENGTH: usize> {
    pub rgb_color: [(u8, u8, u8); ROW_LENGTH],
    pub row: usize,
}

/// Mathematical model of a `DrawRow` command.
pub struct DrawRowView {
    pub rgb_color: Seq<(u8, u8, u8)>,
    pub row: int,
}

impl<const ROW_LENGTH: usize> View for DrawRow<ROW_LENGTH> {
    type V = DrawRowView;

    open spec fn view(&self) -> DrawRowView {
        DrawRowView { rgb_color: self.rgb_color@, row: self.row as int }
    }
}

/// The colour of a column in the payload of a `DrawRow` command: three bytes
/// for every column, after the opcode and the row.
pub open spec fn row_color(buffer: Seq<u8>, column: int) -> (u8, u8, u8) {
    (
        byte_at(buffer, 2 + 3 * column),
        byte_at(buffer, 3 + 3 * column),
        byte_at(buffer, 4 + 3 * column),
    )
}

impl<const ROW_LENGTH: usize> DrawRow<ROW_LENGTH> {
    pub open spec fn parsed(buffer: Seq<u8>) -> DrawRowView {
        DrawRowView {
            rgb_color: Seq::new(ROW_LENGTH as nat, |column: int| row_color(buffer, column)),
            row: byte_at(buffer, 1) as int,
        }
    }

    /// Reads the row and the colours of its columns.
    pub fn new(buffer: &[u8]) -> (result: Result<Self, DisplayError>)
        ensures
            result matches Ok(command) && command@ == Self::parsed(buffer@),
    {
        let row = payload_byte(buffer, 1) as usize;
        let mut rgb_color = [(0u8, 0u8, 0u8); ROW_LENGTH];
        let length = buffer.len();
        let mut i: usize = 0;
        while i < ROW_LENGTH
            invariant
                0 <= i <= ROW_LENGTH,
                length == buffer@.len(),
                forall|k: int| 0 <= k < i ==> #[trigger] rgb_color@[k] == row_color(buffer@, k),
            decreases ROW_LENGTH - i,
        {
            let color = if i < length {
                let offset: u128 = 2 + 3 * (i as u128);
                (
                    wide_payload_byte(buffer, offset),
                    wide_payload_byte(buffer, offset + 1),
                    wide_payload_byte(buffer, offset + 2),
                )
            } else {
                (0u8, 0u8, 0u8)
            };
            rgb_color[i] = color;
            i = i + 1;
        }
        let command = DrawRow { row, rgb_color };
        assert(command@.rgb_color =~= Self::parsed(buffer@).rgb_color);
        Ok(command)
    }
}

/// Reads a byte of a payload at a position that may lie beyond every
/// payload, zero behind its end.
fn wide_payload_byte(buffer: &[u8], index: u128) -> (byte: u8)
    ensures
        byte == byte_at(buffer@, index as int),
{
    if index < buffer.len() as u128 {
        buffer[index as usize]
    } else {
        0
    }
}

/// Draws a line.
#[derive(Debug, Clone, Copy, PartialEq, Eq)]
pub struct DrawLine {
    pub point_a: (u8, u8),
    pub point_b: (u8, u8),
    pub thickness: u8,
    pub color: (u8, u8, u8),
}

impl DrawLine {
    pub open spec fn parsed(buffer: Seq<u8>) -> DrawLine {
        DrawLine {
            point_a: (byte_at(buffer, 1), byte_at(buffer, 2)),
            point_b: (byte_at(buffer, 3), byte_at(buffer, 4)),
            thickness: byte_at(buffer, 5),
            color: (byte_at(buffer, 6), byte_at(buffer, 7), byte_at(buffer, 8)),
        }
    }

    /// Reads the two ends, the thickness and the colour.
    pub fn new(buffer: &[u8]) -> (result: Result<Self, DisplayError>)
        ensures
            result == Ok::<Self, DisplayError>(Self::parsed(buffer@)),
    {
        Ok(
            DrawLine {
                point_a: (payload_byte(buffer, 1), payload_byte(buffer, 2)),
                point_b: (payload_byte(buffer, 3), payload_byte(buffer, 4)),
                thickness: payload_byte(buffer, 5),
                color: (payload_byte(buffer, 6), payload_byte(buffer, 7), payload_byte(buffer, 8)),
            },
        )
    }
}

/// Draws a rectangle, given by two opposite corners.
#[derive(Debug, Clone, Copy, PartialEq, Eq)]
pub struct DrawRectangle {
    pub point_a: (u8, u8),
    pub point_b: (u8, u8),
    pub thickness: u8,
    pub color: (u8, u8, u8),
    pub filled: bool,
}

impl DrawRectangle {
    pub open spec fn parsed(buffer: Seq<u8>) -> DrawRectangle {
        DrawRectangle {
            point_a: (byte_at(buffer, 1), byte_at(buffer, 2)),
            point_b: (byte_at(buffer, 3), byte_at(buffer, 4)),
            thickness: byte_at(buffer, 5),
            color: (byte_at(buffer, 6), byte_at(buffer, 7), byte_at(buffer, 8)),
            filled: byte_at(buffer, 9) != 0,
        }
    }

    /// Reads the corners, the thickness, the colour and whether the
    /// rectangle is filled.
    pub fn new(buffer: &[u8]) -> (result: Result<Self, DisplayError>)
        ensures
            result == Ok::<Self, DisplayError>(Self::parsed(buffer@)),
    {
        let filled = match payload_byte(buffer, 9) {
            0 => false,
            _ => true,
        };
        Ok(
            DrawRectangle {
                point_a: (payload_byte(buffer, 1), payload_byte(buffer, 2)),
                point_b: (payload_byte(buffer, 3), payload_byte(buffer, 4)),
                thickness: payload_byte(buffer, 5),
                color: (payload_byte(buffer, 6), payload_byte(buffer, 7), payload_byte(buffer, 8)),
                filled,
            },
        )
    }
}

/// Draws a triangle.
#[derive(Debug, Clone, Copy, PartialEq, Eq)]
pub struct DrawTriangle {
    pub point_a: (u8, u8),
    pub point_b: (u8, u8),
    pub point_c: (u8, u8),
    pub thickness: u8,
    pub color: (u8, u8, u8),
    pub filled: bool,
}

impl DrawTriangle {
    pub open spec fn parsed(buffer: Seq<u8>) -> DrawTriangle {
        DrawTriangle {
            point_a: (byte_at(buffer, 1), byte_at(buffer, 2)),
            point_b: (byte_at(buffer, 3), byte_at(buffer, 4)),
            point_c: (byte_at(buffer, 5), byte_at(buffer, 6)),
            thickness: byte_at(buffer, 7),
            color: (byte_at(buffer, 8), byte_at(buffer, 9), byte_at(buffer, 10)),
            filled: byte_at(buffer, 11) != 0,
        }
    }

    /// Reads the three corners, the thickness, the colour and whether the
    /// triangle is filled.
    pub fn new(buffer: &[u8]) -> (result: Result<Self, DisplayError>)
        ensures
            result == Ok::<Self, DisplayError>(Self::parsed(buffer@)),
    {
        let filled = match payload_byte(buffer, 11) {
            0 => false,
            _ => true,
        };
        Ok(
            DrawTriangle {
                point_a: (payload_byte(buffer, 1), payload_byte(buffer, 2)),
                point_b: (payload_byte(buffer, 3), payload_byte(buffer, 4)),
                point_c: (payload_byte(buffer, 5), payload_byte(buffer, 6)),
                thickness: payload_byte(buffer, 7),
                color: (payload_byte(buffer, 8), payload_byte(buffer, 9), payload_byte(buffer, 10)),
                filled,
            },
        )
    }
}

/// Draws a circle, given by its centre and radius.
#[derive(Debug, Clone, Copy, PartialEq, Eq)]
pub struct DrawCircle {
    pub center: (u8, u8),
    pub radius: u8,
    pub thickness: u8,
    pub color: (u8, u8, u8),
    pub filled: bool,
}

impl DrawCircle {
    pub open spec fn parsed(buffer: Seq<u8>) -> DrawCircle {
        DrawCircle {
            center: (byte_at(buffer, 1), byte_at(buffer, 2)),
            radius: byte_at(buffer, 3),
            thickness: byte_at(buffer, 4),
            color: (byte_at(buffer, 5), byte_at(buffer, 6), byte_at(buffer, 7)),
            filled: byte_at(buffer, 8) != 0,
        }
    }

    /// Reads the centre, the radius, the thickness, the colour and whether
    /// the circle is filled.
    pub fn new(buffer: &[u8]) -> (result: Result<Self, DisplayError>)
        ensures
            result == Ok::<Self, DisplayError>(Self::parsed(buffer@)),
    {
        let filled = match payload_byte(buffer, 8) {
            0 => false,
            _ => true,
        };
        Ok(
            DrawCircle {
                center: (payload_byte(buffer, 1), payload_byte(buffer, 2)),
                radius: payload_byte(buffer, 3),
                thickness: payload_byte(buffer, 4),
                color: (payload_byte(buffer, 5), payload_byte(buffer, 6), payload_byte(buffer, 7)),
                filled,
            },
        )
    }
}

/// A command of the serial protocol.
#[derive(Debug)]
pub enum Command<const ROW_LENGTH: usize> {
    Ping,
    ParamRequest,
    DisableOutput,
    EnableOutput,
    Clear,
    SwitchMode(SwitchMode),
    Write(Write),
    SetFont(SetFont),
    SetColor(SetColor),
    SetAnimation(SetAnimation),
    DrawPixel(DrawPixel),
    DrawRow(DrawRow<ROW_LENGTH>),
    DrawLine(DrawLine),
    DrawRectangle(DrawRectangle),
    DrawTriangle(DrawTriangle),
    DrawCircle(DrawCircle),
}

/// Mathematical model of a command.
pub enum CommandView {
    Ping,
    ParamRequest,
    DisableOutput,
    EnableOutput,
    Clear,
    SwitchMode(SwitchMode),
    Write(WriteView),
    SetFont(SetFont),
    SetColor(SetColor),
    SetAnimation(SetAnimationView),
    DrawPixel(DrawPixel),
    DrawRow(DrawRowView),
    DrawLine(DrawLine),
    DrawRectangle(DrawRectangle),
    DrawTriangle(DrawTriangle),
    DrawCircle(DrawCircle),
}

impl<const ROW_LENGTH: usize> View for Command<ROW_LENGTH> {
    type V = CommandView;

    open spec fn view(&self) -> CommandView {
        match self {
            Command::Ping => CommandView::Ping,
            Command::ParamRequest => CommandView::ParamRequest,
            Command::DisableOutput => CommandView::DisableOutput,
            Command::EnableOutput => CommandView::EnableOutput,
            Command::Clear => CommandView::Clear,
            Command::SwitchMode(command) => CommandView::SwitchMode(*command),
            Command::Write(command) => CommandView::Write(command@),
            Command::SetFont(command) => CommandView::SetFont(*command),
            Command::SetColor(command) => CommandView::SetColor(*command),
            Command::SetAnimation(command) => CommandView::SetAnimation(command@),
            Command::DrawPixel(command) => CommandView::DrawPixel(*command),
            Command::DrawRow(command) => CommandView::DrawRow(command@),
            Command::DrawLine(command) => CommandView::DrawLine(*command),
            Command::DrawRectangle(command) => CommandView::DrawRectangle(*command),
            Command::DrawTriangle(command) => CommandView::DrawTriangle(*command),
            Command::DrawCircle(command) => CommandView::DrawCircle(*command),
        }
    }
}

impl CommandView {
    /// The animation that a command carries is well-formed.
    pub open spec fn wf(self) -> bool {
        self matches CommandView::SetAnimation(command) ==> command.animation.wf()
    }
}

/// The command that a payload stands for. The first byte is the opcode; an
/// empty payload and an unknown opcode are no command.
pub open spec fn interpreted(buffer: Seq<u8>, row_length: nat) -> Result<CommandView, DisplayError> {
    if buffer.len() == 0 {
        Err(DisplayError::InvalidCommand)
    } else {
        match buffer[0] {
            0u8 => Ok(CommandView::ParamRequest),
            1u8 => Ok(CommandView::SwitchMode(SwitchMode::parsed(buffer))),
            2u8 => match Write::parsed(buffer) {
                Ok(command) => Ok(CommandView::Write(command)),
                Err(error) => Err(error),
            },
            3u8 => match SetFont::parsed(buffer) {
                Ok(command) => Ok(CommandView::SetFont(command)),
                Err(error) => Err(error),
            },
            4u8 => Ok(CommandView::SetColor(SetColor::parsed(buffer))),
            5u8 => match SetAnimation::parsed(buffer) {
                Ok(command) => Ok(CommandView::SetAnimation(command)),
                Err(error) => Err(error),
            },
            6u8 => Ok(CommandView::DrawPixel(DrawPixel::parsed(buffer))),
            7u8 => Ok(
                CommandView::DrawRow(
                    DrawRowView {
                        rgb_color: Seq::new(row_length, |column: int| row_color(buffer, column)),
                        row: byte_at(buffer, 1) as int,
                    },
                ),
            ),
            8u8 => Ok(CommandView::DrawLine(DrawLine::parsed(buffer))),
            9u8 => Ok(CommandView::DrawRectangle(DrawRectangle::parsed(buffer))),
            10u8 => Ok(CommandView::DrawTriangle(DrawTriangle::parsed(buffer))),
            11u8 => Ok(CommandView::DrawCircle(DrawCircle::parsed(buffer))),
            12u8 => Ok(CommandView::Clear),
            13u8 => Ok(CommandView::EnableOutput),
            14u8 => Ok(CommandView::DisableOutput),
            15u8 => Ok(CommandView::Ping),
            _ => Err(DisplayError::InvalidCommand),
        }
    }
}

/// Reads a payload as a command. Parameters that the payload is too short
/// for read as zero.
pub fn interpret_command<const ROW_LENGTH: usize>(buffer: &[u8]) -> (result: Result<
    Command<ROW_LENGTH>,
    DisplayError,
>)
    ensures
        match result {
            Ok(command) => interpreted(buffer@, ROW_LENGTH as nat) == Ok::<
                CommandView,
                DisplayError,
            >(command@) && command@.wf(),
            Err(error) => interpreted(buffer@, ROW_LENGTH as nat) == Err::<
                CommandView,
                DisplayError,
            >(error),
        },
{
    if buffer.len() == 0 {
        return Err(DisplayError::InvalidCommand);
    }
    let command_id = buffer[0];
    match command_id {
        0 => Ok(Command::ParamRequest),
        1 => match SwitchMode::new(buffer) {
            Ok(command) => Ok(Command::SwitchMode(command)),
            Err(error) => Err(error),
        },
        2 => match Write::new(buffer) {
            Ok(command) => Ok(Command::Write(command)),
            Err(error) => Err(error),
        },
        3 => match SetFont::new(buffer) {
            Ok(command) => Ok(Command::SetFont(command)),
            Err(error) => Err(error),
        },
        4 => match SetColor::new(buffer) {
            Ok(command) => Ok(Command::SetColor(command)),
            Err(error) => Err(error),
        },
        5 => match SetAnimation::new(buffer) {
            Ok(command) => Ok(Command::SetAnimation(command)),
            Err(error) => Err(error),
        },
        6 => match DrawPixel::new(buffer) {
            Ok(command) => Ok(Command::DrawPixel(command)),
            Err(error) => Err(error),
        },
        7 => match DrawRow::<ROW_LENGTH>::new(buffer) {
            Ok(command) => Ok(Command::DrawRow(command)),
            Err(error) => Err(error),
        },
        8 => match DrawLine::new(buffer) {
            Ok(command) => Ok(Command::DrawLine(command)),
            Err(error) => Err(error),
        },
        9 => match DrawRectangle::new(buffer) {
            Ok(command) => Ok(Command::DrawRectangle(command)),
            Err(error) => Err(error),
        },
        10 => match DrawTriangle::new(buffer) {
            Ok(command) => Ok(Command::DrawTriangle(command)),
            Err(error) => Err(error),
        },
        11 => match DrawCircle::new(buffer) {
            Ok(command) => Ok(Command::DrawCircle(command)),
            Err(error) => Err(error),
        },
        12 => Ok(Command::Clear),
        13 => Ok(Command::EnableOutput),
        14 => Ok(Command::DisableOutput),
        15 => Ok(Command::Ping),
        _ => Err(DisplayError::InvalidCommand),
    }
}

/// The colour that is stored for a cleared pixel.
pub open spec fn black() -> (u8, u8, u8) {
    (0u8, 0u8, 0u8)
}

/// The fill of a shape: its own colour if it is filled.
pub open spec fn fill_of(filled: bool, color: (u8, u8, u8)) -> Option<(u8, u8, u8)> {
    if filled {
        Some(color)
    } else {
        None
    }
}

/// The diameter of a circle that reaches `radius` pixels to each side of its
/// centre pixel.
pub open spec fn diameter_of(radius: u8) -> u32 {
    (2 * radius + 1) as u32
}

/// The pixels of a row of colours, left to right.
pub open spec fn row_dots(row: int, colors: Seq<(u8, u8, u8)>) -> Seq<Dot> {
    Seq::new(
        colors.len(),
        |x: int| (x as i32, row as i32, colors[x].0, colors[x].1, colors[x].2),
    )
}

impl SwitchMode {
    /// The mode that the command switches to: a fresh text engine for 0,
    /// direct mode for 1, none for any other value.
    pub open spec fn target(self) -> Option<DisplayModeView> {
        if self.mode == 0 {
            Some(DisplayModeView::TextMode(TextDisplayView::initial()))
        } else if self.mode == 1 {
            Some(DisplayModeView::DirectMode)
        } else {
            None
        }
    }

    /// Switches the display mode and asks for the panel to be cleared. The
    /// text engine of the mode that is left is discarded; text mode always
    /// starts with a fresh one.
    pub fn execute(self, mode: &mut DisplayMode, clear_requested: &mut bool) -> (result: Result<
        (),
        DisplayError,
    >)
        ensures
            match self.target() {
                Some(next) => {
                    &&& result is Ok
                    &&& final(mode)@ == next
                    &&& final(mode).wf()
                    &&& *final(clear_requested)
                },
                None => {
                    &&& result == Err::<(), DisplayError>(DisplayError::InvalidCommand)
                    &&& final(mode)@ == old(mode)@
                    &&& *final(clear_requested) == *old(clear_requested)
                },
            },
    {
        match self.mode {
            0 => {
                *mode = DisplayMode::TextMode(TextDisplay::new());
                *clear_requested = true;
            },
            1 => {
                *mode = DisplayMode::DirectMode;
                *clear_requested = true;
            },
            _ => {
                return Err(DisplayError::InvalidCommand);
            },
        }
        Ok(())
    }
}

impl Write {
    /// Writes the text to its row.
    pub fn execute(self, target: &mut TextDisplay) -> (result: Result<(), DisplayError>)
        requires
            old(target).wf(),
        ensures
            final(target).wf(),
            self.row >= ROWS ==> result == Err::<(), DisplayError>(DisplayError::OutOfBounds)
                && final(target)@ == old(target)@,
            self.row < ROWS ==> result is Ok && final(target)@ == old(target)@.write(
                self@.row,
                self@.text,
            ),
    {
        target.write(self.row, self.text)
    }
}

impl SetFont {
    /// Sets the font of its row.
    pub fn execute(self, target: &mut TextDisplay) -> (result: Result<(), DisplayError>)
        requires
            old(target).wf(),
        ensures
            final(target).wf(),
            self.row >= ROWS ==> result == Err::<(), DisplayError>(DisplayError::OutOfBounds)
                && final(target)@ == old(target)@,
            self.row < ROWS ==> result is Ok && final(target)@ == old(target)@.set_font(
                self.row as int,
                self.font,
            ),
    {
        target.set_font(self.row, self.font)
    }
}

impl SetColor {
    /// Sets the text colour of its row.
    pub fn execute(self, target: &mut TextDisplay) -> (result: Result<(), DisplayError>)
        requires
            old(target).wf(),
        ensures
            final(target).wf(),
            self.row >= ROWS ==> result == Err::<(), DisplayError>(DisplayError::OutOfBounds)
                && final(target)@ == old(target)@,
            self.row < ROWS ==> result is Ok && final(target)@ == old(target)@.set_color(
                self.row as int,
                self.rgb_color,
            ),
    {
        target.set_color(self.row, self.rgb_color)
    }
}

impl SetAnimation {
    /// Gives its row the animation.
    pub fn execute(self, target: &mut TextDisplay) -> (result: Result<(), DisplayError>)
        requires
            old(target).wf(),
            self.animation.wf(),
        ensures
            final(target).wf(),
            self.row >= ROWS ==> result == Err::<(), DisplayError>(DisplayError::OutOfBounds)
                && final(target)@ == old(target)@,
            self.row < ROWS ==> result is Ok && final(target)@ == old(target)@.set_animation(
                self@.row,
                self@.animation,
            ),
    {
        target.set_animation(self.row, self.animation)
    }
}

impl DrawPixel {
    /// The pixel that the command draws.
    pub open spec fn dot(self) -> Dot {
        (
            self.coords.0 as i32,
            self.coords.1 as i32,
            self.rgb_color.0,
            self.rgb_color.1,
            self.rgb_color.2,
        )
    }

    /// Draws the pixel. A pixel outside the image is discarded.
    pub fn execute<const ROW_LENGTH: usize, const ROWS_ADDR: usize, const STRIPE: bool>(
        self,
        target: &mut Hub75<ROW_LENGTH, ROWS_ADDR, STRIPE>,
    ) -> (result: Result<(), DisplayError>)
        requires
            old(target).wf(),
        ensures
            result is Ok,
            final(target).wf(),
            final(target).pin_masks() == old(target).pin_masks(),
            final(target)@ == old(target)@.painted(self.dot(), STRIPE),
    {
        let (x, y) = self.coords;
        target.draw_pixel(x as i32, y as i32, self.rgb_color);
        Ok(())
    }
}

impl<const WIDTH: usize> DrawRow<WIDTH> {
    /// Draws the colours into its row, left to right. What lies outside the
    /// image is discarded.
    pub fn execute<const ROW_LENGTH: usize, const ROWS_ADDR: usize, const STRIPE: bool>(
        self,
        target: &mut Hub75<ROW_LENGTH, ROWS_ADDR, STRIPE>,
    ) -> (result: Result<(), DisplayError>)
        requires
            old(target).wf(),
        ensures
            result is Ok,
            final(target).wf(),
            final(target).pin_masks() == old(target).pin_masks(),
            final(target)@ == old(target)@.painted_all(
                row_dots(self@.row, self@.rgb_color),
                STRIPE,
            ),
    {
        let y = self.row as i32;
        let ghost dots = row_dots(self@.row, self@.rgb_color);
        let mut x: usize = 0;
        while x < WIDTH
            invariant
                0 <= x <= WIDTH,
                y == self@.row as i32,
                dots == row_dots(self@.row, self@.rgb_color),
                dots.len() == WIDTH,
                target.wf(),
                target.pin_masks() == old(target).pin_masks(),
                target@ == old(target)@.painted_prefix(dots, x as int, STRIPE),
            decreases WIDTH - x,
        {
            let color = self.rgb_color[x];
            target.draw_pixel(x as i32, y, color);
            x = x + 1;
        }
        Ok(())
    }
}

impl DrawLine {
    /// The pixels of the line.
    pub open spec fn dots(self) -> Seq<Dot> {
        line_pixels(
            self.point_a.0,
            self.point_a.1,
            self.point_b.0,
            self.point_b.1,
            self.thickness,
            self.color,
        )
    }

    /// The rasterizer can draw the line: it is not too thick for its length.
    pub open spec fn drawable(self) -> bool {
        line_fits(self.point_a, self.point_b, self.thickness)
    }

    /// Draws the line. What lies outside the image is discarded. A line that
    /// the rasterizer cannot draw fails with `DrawError` and leaves the panel
    /// as it is.
    pub fn execute<const ROW_LENGTH: usize, const ROWS_ADDR: usize, const STRIPE: bool>(
        self,
        target: &mut Hub75<ROW_LENGTH, ROWS_ADDR, STRIPE>,
    ) -> (result: Result<(), DisplayError>)
        requires
            old(target).wf(),
        ensures
            final(target).wf(),
            final(target).pin_masks() == old(target).pin_masks(),
            self.drawable() ==> result is Ok && final(target)@ == old(target)@.painted_all(
                self.dots(),
                STRIPE,
            ),
            !self.drawable() ==> result == Err::<(), DisplayError>(DisplayError::DrawError)
                && final(target)@ == old(target)@,
    {
        if !line_is_drawable(self.point_a, self.point_b, self.thickness) {
            return Err(DisplayError::DrawError);
        }
        let (x1, y1) = self.point_a;
        let (x2, y2) = self.point_b;
        let dots = line_dots(x1, y1, x2, y2, self.thickness, self.color);
        target.draw_iter(dots.as_slice());
        Ok(())
    }
}

impl DrawRectangle {
    /// The pixels of the rectangle: its outline, and its inside if it is filled.
    pub open spec fn dots(self) -> Seq<Dot> {
        rectangle_pixels(
            self.point_a.0,
            self.point_a.1,
            self.point_b.0,
            self.point_b.1,
            self.thickness,
            self.color,
            fill_of(self.filled, self.color),
        )
    }

    /// Draws the rectangle. What lies outside the image is discarded.
    pub fn execute<const ROW_LENGTH: usize, const ROWS_ADDR: usize, const STRIPE: bool>(
        self,
        target: &mut Hub75<ROW_LENGTH, ROWS_ADDR, STRIPE>,
    ) -> (result: Result<(), DisplayError>)
        requires
            old(target).wf(),
        ensures
            result is Ok,
            final(target).wf(),
            final(target).pin_masks() == old(target).pin_masks(),
            final(target)@ == old(target)@.painted_all(self.dots(), STRIPE),
    {
        let (x1, y1) = self.point_a;
        let (x2, y2) = self.point_b;
        let fill = if self.filled {
            Some(self.color)
        } else {
            None
        };
        let dots = rectangle_dots(x1, y1, x2, y2, self.thickness, self.color, fill);
        target.draw_iter(dots.as_slice());
        Ok(())
    }
}

impl DrawTriangle {
    /// The pixels of the triangle: its outline, and its inside if it is filled.
    pub open spec fn dots(self) -> Seq<Dot> {
        triangle_pixels(
            (self.point_a, self.point_b, self.point_c),
            self.thickness,
            self.color,
            fill_of(self.filled, self.color),
        )
    }

    /// The rasterizer can draw the triangle: its stroke is not too thick for
    /// its edges, it is not too large, and under a stroke of two pixels or
    /// more no corner is too pointed.
    pub open spec fn drawable(self) -> bool {
        triangle_fits((self.point_a, self.point_b, self.point_c), self.thickness)
    }

    /// Draws the triangle. What lies outside the image is discarded. A
    /// triangle that the rasterizer cannot draw fails with `DrawError` and
    /// leaves the panel as it is.
    pub fn execute<const ROW_LENGTH: usize, const ROWS_ADDR: usize, const STRIPE: bool>(
        self,
        target: &mut Hub75<ROW_LENGTH, ROWS_ADDR, STRIPE>,
    ) -> (result: Result<(), DisplayError>)
        requires
            old(target).wf(),
        ensures
            final(target).wf(),
            final(target).pin_masks() == old(target).pin_masks(),
            self.drawable() ==> result is Ok && final(target)@ == old(target)@.painted_all(
                self.dots(),
                STRIPE,
            ),
            !self.drawable() ==> result == Err::<(), DisplayError>(DisplayError::DrawError)
                && final(target)@ == old(target)@,
    {
        if !triangle_is_drawable((self.point_a, self.point_b, self.point_c), self.thickness) {
            return Err(DisplayError::DrawError);
        }
        let fill = if self.filled {
            Some(self.color)
        } else {
            None
        };
        let dots = triangle_dots(
            (self.point_a, self.point_b, self.point_c),
            self.thickness,
            self.color,
            fill,
        );
        target.draw_iter(dots.as_slice());
        Ok(())
    }
}

impl DrawCircle {
    /// The pixels of the circle: its outline, and its inside if it is filled.
    pub open spec fn dots(self) -> Seq<Dot> {
        circle_pixels(
            self.center.0,
            self.center.1,
            diameter_of(self.radius),
            self.thickness,
            self.color,
            fill_of(self.filled, self.color),
        )
    }

    /// Draws the circle. What lies outside the image is discarded.
    pub fn execute<const ROW_LENGTH: usize, const ROWS_ADDR: usize, const STRIPE: bool>(
        self,
        target: &mut Hub75<ROW_LENGTH, ROWS_ADDR, STRIPE>,
    ) -> (result: Result<(), DisplayError>)
        requires
            old(target).wf(),
        ensures
            result is Ok,
            final(target).wf(),
            final(target).pin_masks() == old(target).pin_masks(),
            final(target)@ == old(target)@.painted_all(self.dots(), STRIPE),
    {
        let (cx, cy) = self.center;
        let diameter: u32 = 2 * (self.radius as u32) + 1;
        let fill = if self.filled {
            Some(self.color)
        } else {
            None
        };
        let dots = circle_dots(cx, cy, diameter, self.thickness, self.color, fill);
        target.draw_iter(dots.as_slice());
        Ok(())
    }
}

/// Everything that a command can change: the display mode with its text
/// engine, the panel, whether the panel is scanned at all, and whether the
/// main loop has been asked to clear the panel.
pub struct DeviceView {
    pub mode: DisplayModeView,
    pub panel: PanelView,
    pub output_enabled: bool,
    pub clear_requested: bool,
}

impl DeviceView {
    /// The device with every pixel of the panel off.
    pub open spec fn wiped(self) -> DeviceView {
        DeviceView { panel: self.panel.flooded(PixelCell::filled(black())), ..self }
    }
}

impl CommandView {
    /// What a text command does to the text engine, or the error that it
    /// fails with. No other command touches the text engine.
    pub open spec fn written(self, text: TextDisplayView) -> Result<TextDisplayView, DisplayError> {
        match self {
            CommandView::Write(command) => if command.row >= ROWS {
                Err(DisplayError::OutOfBounds)
            } else {
                Ok(text.write(command.row, command.text))
            },
            CommandView::SetFont(command) => if command.row >= ROWS {
                Err(DisplayError::OutOfBounds)
            } else {
                Ok(text.set_font(command.row as int, command.font))
            },
            CommandView::SetColor(command) => if command.row >= ROWS {
                Err(DisplayError::OutOfBounds)
            } else {
                Ok(text.set_color(command.row as int, command.rgb_color))
            },
            CommandView::SetAnimation(command) => if command.row >= ROWS {
                Err(DisplayError::OutOfBounds)
            } else {
                Ok(text.set_animation(command.row, command.animation))
            },
            _ => Ok(text),
        }
    }

    /// The command changes the text engine.
    pub open spec fn is_text_command(self) -> bool {
        self is Write || self is SetFont || self is SetColor || self is SetAnimation
    }

    /// The command draws on the panel.
    pub open spec fn is_draw_command(self) -> bool {
        self is DrawPixel || self is DrawRow || self is DrawLine || self is DrawRectangle
            || self is DrawTriangle || self is DrawCircle || self is Clear
    }

    /// The rasterizer can draw what the command asks for. Only a line or a
    /// triangle can be beyond it.
    pub open spec fn drawable(self) -> bool {
        match self {
            CommandView::DrawLine(command) => command.drawable(),
            CommandView::DrawTriangle(command) => command.drawable(),
            _ => true,
        }
    }

    /// What a drawing command does to the panel. No other command draws.
    pub open spec fn drawn(self, panel: PanelView, stripe: bool) -> PanelView {
        match self {
            CommandView::DrawPixel(command) => panel.painted(command.dot(), stripe),
            CommandView::DrawRow(command) => panel.painted_all(
                row_dots(command.row, command.rgb_color),
                stripe,
            ),
            CommandView::DrawLine(command) => panel.painted_all(command.dots(), stripe),
            CommandView::DrawRectangle(command) => panel.painted_all(command.dots(), stripe),
            CommandView::DrawTriangle(command) => panel.painted_all(command.dots(), stripe),
            CommandView::DrawCircle(command) => panel.painted_all(command.dots(), stripe),
            CommandView::Clear => panel.flooded(PixelCell::filled(black())),
            _ => panel,
        }
    }

    /// What the command answers when it succeeds in the given mode.
    pub open spec fn answer(self, text_mode: bool) -> Seq<char> {
        match self {
            CommandView::Ping => "Pong"@,
            CommandView::ParamRequest => if text_mode {
                "Mode:Text"@
            } else {
                "Mode:Direct"@
            },
            CommandView::Clear => "cleared"@,
            _ => "OK"@,
        }
    }

    /// The device after the command, and the answer or the error.
    ///
    /// `Ping`, `ParamRequest`, `EnableOutput`, `DisableOutput` and
    /// `SwitchMode` work in every mode. `EnableOutput` and `DisableOutput`
    /// change the flag that the scan timer looks at and nothing else.
    /// `SwitchMode` changes the mode and asks the main loop to clear the
    /// panel; it does not touch the panel itself. The text commands need text
    /// mode, the drawing commands and `Clear` need direct mode; in the other
    /// mode they fail with `IncorrectMode`. A line or a triangle that the
    /// rasterizer cannot draw fails with `DrawError`. A command that fails
    /// changes nothing. The panel is wiped after a command that changed the
    /// text engine, so that the text is drawn afresh.
    pub open spec fn executed(self, device: DeviceView, stripe: bool) -> (
        DeviceView,
        Result<Seq<char>, DisplayError>,
    ) {
        let text_mode = device.mode is TextMode;
        let done = Ok::<Seq<char>, DisplayError>(self.answer(text_mode));
        match self {
            CommandView::Ping | CommandView::ParamRequest => (device, done),
            CommandView::DisableOutput | CommandView::EnableOutput => (
                DeviceView { output_enabled: self is EnableOutput, ..device },
                done,
            ),
            CommandView::SwitchMode(command) => match command.target() {
                Some(mode) => (DeviceView { mode, clear_requested: true, ..device }, done),
                None => (device, Err(DisplayError::InvalidCommand)),
            },
            _ => if self.is_text_command() {
                match device.mode {
                    DisplayModeView::TextMode(text) => match self.written(text) {
                        Ok(after) => (
                            DeviceView { mode: DisplayModeView::TextMode(after), ..device }.wiped(),
                            done,
                        ),
                        Err(error) => (device, Err(error)),
                    },
                    DisplayModeView::DirectMode => (device, Err(DisplayError::IncorrectMode)),
                }
            } else {
                if text_mode {
                    (device, Err(DisplayError::IncorrectMode))
                } else if !self.drawable() {
                    (device, Err(DisplayError::DrawError))
                } else {
                    (DeviceView { panel: self.drawn(device.panel, stripe), ..device }, done)
                }
            },
        }
    }
}

/// The device as a command finds it or leaves it.
pub open spec fn device_of(
    mode: DisplayModeView,
    panel: PanelView,
    output_enabled: bool,
    clear_requested: bool,
) -> DeviceView {
    DeviceView { mode, panel, output_enabled, clear_requested }
}

/// The answer or error that was returned is the one that was expected.
pub open spec fn answered(
    result: Result<&'static str, DisplayError>,
    expected: Result<Seq<char>, DisplayError>,
) -> bool {
    match result {
        Ok(answer) => expected == Ok::<Seq<char>, DisplayError>(answer@),
        Err(error) => expected == Err::<Seq<char>, DisplayError>(error),
    }
}

impl<const WIDTH: usize> Command<WIDTH> {
    /// Carries out a command that changes the text engine.
    fn execute_text<const ROW_LENGTH: usize, const ROWS_ADDR: usize, const STRIPE: bool>(
        self,
        mode: &mut DisplayMode,
        target: &mut Hub75<ROW_LENGTH, ROWS_ADDR, STRIPE>,
    ) -> (result: Result<&'static str, DisplayError>)
        requires
            self@.wf(),
            self@.is_text_command(),
            old(mode).wf(),
            old(target).wf(),
        ensures
            final(mode).wf(),
            final(target).wf(),
            final(target).pin_masks() == old(target).pin_masks(),
            forall|oe: bool, clear: bool|
                {
                    let expected = #[trigger] self@.executed(
                        device_of(old(mode)@, old(target)@, oe, clear),
                        STRIPE,
                    );
                    &&& device_of(final(mode)@, final(target)@, oe, clear) == expected.0
                    &&& answered(result, expected.1)
                },
    {
        let written = match mode {
            DisplayMode::TextMode(text) => match self {
                Command::Write(command) => command.execute(text),
                Command::SetFont(command) => command.execute(text),
                Command::SetColor(command) => command.execute(text),
                Command::SetAnimation(command) => command.execute(text),
                _ => Ok(()),
            },
            DisplayMode::DirectMode => Err(DisplayError::IncorrectMode),
        };
        match written {
            Ok(()) => {
                target.clear((0, 0, 0));
                Ok("OK")
            },
            Err(error) => Err(error),
        }
    }

    /// Carries out a command that draws on the panel.
    fn execute_draw<const ROW_LENGTH: usize, const ROWS_ADDR: usize, const STRIPE: bool>(
        self,
        mode: &DisplayMode,
        target: &mut Hub75<ROW_LENGTH, ROWS_ADDR, STRIPE>,
    ) -> (result: Result<&'static str, DisplayError>)
        requires
            self@.is_draw_command(),
            old(target).wf(),
        ensures
            final(target).wf(),
            final(target).pin_masks() == old(target).pin_masks(),
            forall|oe: bool, clear: bool|
                {
                    let expected = #[trigger] self@.executed(
                        device_of(mode@, old(target)@, oe, clear),
                        STRIPE,
                    );
                    &&& device_of(mode@, final(target)@, oe, clear) == expected.0
                    &&& answered(result, expected.1)
                },
    {
        if let DisplayMode::TextMode(_) = mode {
            return Err(DisplayError::IncorrectMode);
        }
        let drawn = match self {
            Command::DrawPixel(command) => command.execute(target),
            Command::DrawRow(command) => command.execute(target),
            Command::DrawLine(command) => command.execute(target),
            Command::DrawRectangle(command) => command.execute(target),
            Command::DrawTriangle(command) => command.execute(target),
            Command::DrawCircle(command) => command.execute(target),
            _ => {
                target.clear((0, 0, 0));
                return Ok("cleared");
            },
        };
        match drawn {
            Ok(()) => Ok("OK"),
            Err(error) => Err(error),
        }
    }

    /// Carries the command out on the display: `mode` is the display mode
    /// with its text engine, `target` the panel, `oe` tells the scan timer
    /// whether to scan the panel, and `clear_requested` asks the main loop to
    /// clear the panel.
    pub fn execute<const ROW_LENGTH: usize, const ROWS_ADDR: usize, const STRIPE: bool>(
        self,
        mode: &mut DisplayMode,
        target: &mut Hub75<ROW_LENGTH, ROWS_ADDR, STRIPE>,
        oe: &mut bool,
        clear_requested: &mut bool,
    ) -> (result: Result<&'static str, DisplayError>)
        requires
            self@.wf(),
            old(mode).wf(),
            old(target).wf(),
        ensures
            final(mode).wf(),
            final(target).wf(),
            final(target).pin_masks() == old(target).pin_masks(),
            ({
                let expected = self@.executed(
                    device_of(old(mode)@, old(target)@, *old(oe), *old(clear_requested)),
                    STRIPE,
                );
                &&& device_of(final(mode)@, final(target)@, *final(oe), *final(clear_requested))
                    == expected.0
                &&& answered(result, expected.1)
            }),
    {
        let text_mode = match mode {
            DisplayMode::TextMode(_) => true,
            DisplayMode::DirectMode => false,
        };
        match self {
            Command::Ping => Ok("Pong"),
            Command::ParamRequest => if text_mode {
                Ok("Mode:Text")
            } else {
                Ok("Mode:Direct")
            },
            Command::DisableOutput => {
                *oe = false;
                Ok("OK")
            },
            Command::EnableOutput => {
                *oe = true;
                Ok("OK")
            },
            Command::SwitchMode(command) => match command.execute(mode, clear_requested) {
                Ok(()) => Ok("OK"),
                Err(error) => Err(error),
            },
            Command::Write(_) | Command::SetFont(_) | Command::SetColor(_) | Command::SetAnimation(
                _,
            ) => {
                let ghost before = device_of(mode@, target@, *oe, *clear_requested);
                let ghost command = self@;
                let result = self.execute_text(mode, target);
                assert(device_of(mode@, target@, *oe, *clear_requested) == command.executed(
                    before,
                    STRIPE,
                ).0);
                result
            },
            _ => {
                let ghost before = device_of(mode@, target@, *oe, *clear_requested);
                let ghost command = self@;
                let result = self.execute_draw(mode, target);
                assert(device_of(mode@, target@, *oe, *clear_requested) == command.executed(
                    before,
                    STRIPE,
                ).0);
                result
            },
        }
    }
}

/// Switching to text mode always starts from a fresh text engine, whatever
/// the device was doing before. So switching to text mode, to direct mode and
/// to text mode again leaves the text engine in its initial state, and so
/// does every other sequence of switches that ends in text mode.
pub proof fn lemma_switch_to_text_is_fresh(device: DeviceView, stripe: bool)
    ensures
        ({
            let to_text = CommandView::SwitchMode(SwitchMode { mode: 0 });
            let to_direct = CommandView::SwitchMode(SwitchMode { mode: 1 });
            let first = to_text.executed(device, stripe).0;
            let second = to_direct.executed(first, stripe).0;
            let third = to_text.executed(second, stripe).0;
            &&& first.mode == DisplayModeView::TextMode(TextDisplayView::initial())
            &&& second.mode == DisplayModeView::DirectMode
            &&& third.mode == DisplayModeView::TextMode(TextDisplayView::initial())
            &&& third.mode == first.mode
        }),
{
}

/// What `first_zero` finds: no byte before it is zero, and it is the end or a
/// zero byte.
proof fn lemma_first_zero_found(bytes: Seq<u8>)
    ensures
        0 <= first_zero(bytes) <= bytes.len(),
        forall|k: int| 0 <= k < first_zero(bytes) ==> bytes[k] != 0,
        first_zero(bytes) == bytes.len() || bytes[first_zero(bytes)] == 0,
    decreases bytes.len(),
{
    if !(bytes.len() == 0 || bytes[0] == 0) {
        let rest = bytes.drop_first();
        lemma_first_zero_found(rest);
        assert forall|k: int| 0 <= k < first_zero(bytes) implies bytes[k] != 0 by {
            if k > 0 {
                assert(bytes[k] == rest[k - 1]);
            }
        }
    }
}

/// Zero bytes behind a payload do not change what the payload stands for. So
/// a payload that the reassembler hands out in its buffer, followed by zeros
/// up to the size of the buffer, is read as the command that was framed.
pub proof fn lemma_zero_padding_is_neutral(payload: Seq<u8>, padding: nat, row_length: nat)
    requires
        payload.len() > 0,
    ensures
        interpreted(payload + Seq::new(padding, |i: int| 0u8), row_length) == interpreted(
            payload,
            row_length,
        ),
{
    let padded = payload + Seq::new(padding, |i: int| 0u8);
    assert forall|i: int| byte_at(padded, i) == byte_at(payload, i) by {}
    assert(text_bytes(padded) =~= text_bytes(payload)) by {
        if payload.len() <= 2 {
            if padded.len() > 2 {
                let tail = padded.subrange(2, padded.len() as int);
                assert(tail[0] == 0u8);
            }
        } else {
            let tail = payload.subrange(2, payload.len() as int);
            let padded_tail = padded.subrange(2, padded.len() as int);
            lemma_first_zero_found(tail);
            let end = first_zero(tail);
            assert forall|k: int| 0 <= k < end implies padded_tail[k] != 0 by {
                assert(padded_tail[k] == tail[k]);
            }
            if end < tail.len() {
                assert(padded_tail[end] == tail[end]);
            } else if end < padded_tail.len() {
                assert(padded_tail[end] == 0u8);
            }
            lemma_first_zero(padded_tail, end);
            assert(padded_tail.subrange(0, end) =~= tail.subrange(0, end));
        }
    }
    assert(Seq::new(row_length, |column: int| row_color(padded, column)) =~= Seq::new(
        row_length,
        |column: int| row_color(payload, column),
    ));
}

} // verus!
