//! The serial protocol spoken with the LED strip controller: instruction
//! codes, the configuration handshake and the frame checks.
use vstd::prelude::*;
use vstd::string::StringExecFns;
use crate::decimal::{decimal, signed_decimal, i64_to_decimal, u64_to_decimal};

verus! {

/// Instructions exchanged with the LED controller, one signed byte each.
#[allow(non_camel_case_types)]
#[derive(Debug, Clone, Copy, PartialEq, Eq, Structural)]
pub enum LEDSerialControllerInstruction {
    CONNECT,
    ALREADY_CONNECTED,
    INIT,
    DATA,
    ACK,
    READY,
    ERROR,
    NOOP,
}

/// Failures of the byte-level serial link. The variants that wrap an error
/// of the operating system or of the serial driver carry its message.
#[derive(Debug, Clone)]
pub enum SerialControllerError {
    InvalidInstruction(String),
    IOError(String),
    SerialPortUnavailable(String),
    SerialPortConfigError(String),
    ConnectionTimeout(),
}

/// Failures of the LED protocol on top of the serial link.
#[derive(Debug, Clone)]
pub enum LEDSerialControllerError {
    InvalidParameter(String),
    MissingParameter(String),
    InvalidData(String),
    OutOfSync(String),
    NoAck(),
    SetupFailed(),
}

/// Any failure of an LED controller operation.
#[derive(Debug, Clone)]
pub enum LedControlError {
    Serial(SerialControllerError),
    Controller(LEDSerialControllerError),
}

impl LEDSerialControllerInstruction {
    /// The wire code of the instruction.
    pub open spec fn spec_code(self) -> int {
        match self {
            LEDSerialControllerInstruction::CONNECT => 0,
            LEDSerialControllerInstruction::ALREADY_CONNECTED => 1,
            LEDSerialControllerInstruction::INIT => 2,
            LEDSerialControllerInstruction::DATA => 3,
            LEDSerialControllerInstruction::ACK => 4,
            LEDSerialControllerInstruction::READY => 5,
            LEDSerialControllerInstruction::ERROR => 6,
            LEDSerialControllerInstruction::NOOP => 7,
        }
    }

    /// The instruction with the given wire code, if any.
    pub open spec fn spec_from_code(code: int) -> Option<LEDSerialControllerInstruction> {
        if code == 0 {
            Some(LEDSerialControllerInstruction::CONNECT)
        } else if code == 1 {
            Some(LEDSerialControllerInstruction::ALREADY_CONNECTED)
        } else if code == 2 {
            Some(LEDSerialControllerInstruction::INIT)
        } else if code == 3 {
            Some(LEDSerialControllerInstruction::DATA)
        } else if code == 4 {
            Some(LEDSerialControllerInstruction::ACK)
        } else if code == 5 {
            Some(LEDSerialControllerInstruction::READY)
        } else if code == 6 {
            Some(LEDSerialControllerInstruction::ERROR)
        } else if code == 7 {
            Some(LEDSerialControllerInstruction::NOOP)
        } else {
            None
        }
    }

    /// The instruction for a received code; an unknown code is refused.
    pub fn try_from(instruction_code: i8) -> (res: Result<LEDSerialControllerInstruction, SerialControllerError>)
        ensures
            match Self::spec_from_code(instruction_code as int) {
                Some(i) => res == Ok::<LEDSerialControllerInstruction, SerialControllerError>(i),
                None => res matches Err(SerialControllerError::InvalidInstruction(msg))
                    && msg@ == unknown_code_message(instruction_code as int),
            },
    {
        if instruction_code == 0 {
            Ok(LEDSerialControllerInstruction::CONNECT)
        } else if instruction_code == 1 {
            Ok(LEDSerialControllerInstruction::ALREADY_CONNECTED)
        } else if instruction_code == 2 {
            Ok(LEDSerialControllerInstruction::INIT)
        } else if instruction_code == 4 {
            Ok(LEDSerialControllerInstruction::ACK)
        } else if instruction_code == 3 {
            Ok(LEDSerialControllerInstruction::DATA)
        } else if instruction_code == 5 {
            Ok(LEDSerialControllerInstruction::READY)
        } else if instruction_code == 6 {
            Ok(LEDSerialControllerInstruction::ERROR)
        } else if instruction_code == 7 {
            Ok(LEDSerialControllerInstruction::NOOP)
        } else {
            let mut msg = String::from_str("unknown instruction code: ");
            msg.append(i64_to_decimal(instruction_code as i64).as_str());
            Err(SerialControllerError::InvalidInstruction(msg))
        }
    }

    /// The wire code of the instruction; every code fits a signed byte.
    pub fn to_i8(self) -> (res: Result<i8, SerialControllerError>)
        ensures
            res matches Ok(code) && code as int == self.spec_code(),
    {
        match self {
            LEDSerialControllerInstruction::CONNECT => Ok(0),
            LEDSerialControllerInstruction::ALREADY_CONNECTED => Ok(1),
            LEDSerialControllerInstruction::INIT => Ok(2),
            LEDSerialControllerInstruction::DATA => Ok(3),
            LEDSerialControllerInstruction::ACK => Ok(4),
            LEDSerialControllerInstruction::READY => Ok(5),
            LEDSerialControllerInstruction::ERROR => Ok(6),
            LEDSerialControllerInstruction::NOOP => Ok(7),
        }
    }
}

/// Encoding an instruction and decoding its code gives the instruction back.
pub proof fn lemma_instruction_roundtrip(i: LEDSerialControllerInstruction)
    ensures
        LEDSerialControllerInstruction::spec_from_code(i.spec_code()) == Some(i),
{
}

/// A decoded code is the code of the instruction it names.
pub proof fn lemma_code_roundtrip(code: int)
    ensures
        LEDSerialControllerInstruction::spec_from_code(code) matches Some(i) ==> i.spec_code() == code,
        LEDSerialControllerInstruction::spec_from_code(code) is Some <==> 0 <= code <= 7,
{
}

/// The instruction read from the line: a byte that names no instruction is
/// read as nothing.
pub fn decode_instruction(code: i8) -> (res: Option<LEDSerialControllerInstruction>)
    ensures
        res == LEDSerialControllerInstruction::spec_from_code(code as int),
{
    match LEDSerialControllerInstruction::try_from(code) {
        Ok(i) => Some(i),
        Err(_) => None,
    }
}

/// The message of an unknown instruction code.
pub open spec fn unknown_code_message(code: int) -> Seq<char> {
    "unknown instruction code: "@ + signed_decimal(code)
}

/// One LED strip: the data pin it is wired to and its number of LEDs.
#[derive(Debug, Clone)]
pub struct LightStrip {
    pub pin: i32,
    pub num_lights: i64,
}

/// The LED strips behind one serial port.
#[derive(Debug, Clone)]
pub struct Lights {
    pub serial_port: String,
    pub strips: Vec<LightStrip>,
}

/// The number of LEDs a strip counts for in the total: a negative count
/// does not convert to an unsigned count and counts as zero.
pub open spec fn counted_lights(s: LightStrip) -> int {
    if s.num_lights >= 0 {
        s.num_lights as int
    } else {
        0
    }
}

/// The number of LEDs a strip counts for in the minimum: a count outside
/// the `i32` range counts as zero.
pub open spec fn min_counted_lights(s: LightStrip) -> int {
    if i32::MIN <= s.num_lights <= i32::MAX {
        s.num_lights as int
    } else {
        0
    }
}

/// The total number of LEDs over all strips.
pub open spec fn total_lights(strips: Seq<LightStrip>) -> int
    decreases strips.len(),
{
    if strips.len() == 0 {
        0
    } else {
        total_lights(strips.drop_last()) + counted_lights(strips.last())
    }
}

/// The smallest LED count of the strips, `i32::MAX` when there is none.
pub open spec fn min_lights(strips: Seq<LightStrip>) -> int
    decreases strips.len(),
{
    if strips.len() == 0 {
        i32::MAX as int
    } else {
        let m = min_lights(strips.drop_last());
        let c = min_counted_lights(strips.last());
        if c < m { c } else { m }
    }
}

proof fn lemma_total_nonneg_monotone(strips: Seq<LightStrip>, i: int)
    requires
        0 <= i <= strips.len(),
    ensures
        0 <= total_lights(strips.take(i)) <= total_lights(strips),
    decreases strips.len(),
{
    if strips.len() > 0 {
        if i == strips.len() {
            assert(strips.take(i) =~= strips);
            lemma_total_nonneg_monotone(strips.drop_last(), i - 1);
            assert(strips.drop_last().take(i - 1) =~= strips.drop_last());
        } else {
            lemma_total_nonneg_monotone(strips.drop_last(), i);
            assert(strips.drop_last().take(i) =~= strips.take(i));
            lemma_total_nonneg_monotone(strips.drop_last(), strips.len() - 1);
            assert(strips.drop_last().take(strips.len() - 1) =~= strips.drop_last());
        }
    } else {
        assert(strips.take(i) =~= strips);
    }
}

proof fn lemma_min_bounds(strips: Seq<LightStrip>)
    ensures
        i32::MIN <= min_lights(strips) <= i32::MAX,
    decreases strips.len(),
{
    if strips.len() > 0 {
        lemma_min_bounds(strips.drop_last());
    }
}

/// Whether a strip's data pin fits a signed byte.
pub open spec fn pin_fits(s: LightStrip) -> bool {
    i8::MIN <= s.pin <= i8::MAX
}

/// Whether a strip's LED count fits an `i32`.
pub open spec fn count_fits(s: LightStrip) -> bool {
    i32::MIN <= s.num_lights <= i32::MAX
}

/// The message of a strip count that does not fit an `i32`.
pub open spec fn strip_count_message(n: nat) -> Seq<char> {
    "number of light strips ("@ + decimal(n) + ") does not fit i32"@
}

/// The message of a strip count echoed wrongly by the device.
pub open spec fn strip_count_sync_message(got: int, expected: int) -> Seq<char> {
    "received unexpected value from device setting num_strips ("@ + signed_decimal(got)
        + " but expected "@ + signed_decimal(expected) + ")"@
}

/// The message of a data pin that does not fit a signed byte.
pub open spec fn pin_message(pin: int, idx: nat) -> Seq<char> {
    "data pin ("@ + signed_decimal(pin) + ") of strip "@ + decimal(idx) + " does not fit i8"@
}

/// The message of an LED count that does not fit an `i32`.
pub open spec fn count_message(n: int, idx: nat) -> Seq<char> {
    "num leds ("@ + signed_decimal(n) + ") of strip "@ + decimal(idx) + " does not fit i32"@
}

/// The message of a data pin echoed wrongly by the device.
pub open spec fn pin_sync_message(idx: nat, got: int, expected: int) -> Seq<char> {
    "received unexpected value from device setting pin for strip "@ + decimal(idx) + " (got "@
        + signed_decimal(got) + " but expected "@ + signed_decimal(expected) + ")"@
}

/// The message of an LED count echoed wrongly by the device.
pub open spec fn count_sync_message(n: int, idx: nat) -> Seq<char> {
    "received unexpected value from device setting num_lights "@ + signed_decimal(n)
        + " for strip "@ + decimal(idx)
}

/// The message of a color buffer of the wrong size.
pub open spec fn color_buffer_message(expected: nat, got: nat) -> Seq<char> {
    "color buffer must have size total_light_count * 3 = "@ + decimal(expected) + ", but got "@
        + decimal(got)
}

/// The kinds of failure of the LED controller, over both error types.
#[derive(Debug, Clone, Copy, PartialEq, Eq, Structural)]
pub enum ErrorKind {
    InvalidInstruction,
    IOError,
    SerialPortUnavailable,
    SerialPortConfigError,
    ConnectionTimeout,
    InvalidParameter,
    MissingParameter,
    InvalidData,
    OutOfSync,
    NoAck,
    SetupFailed,
}

/// An error as contracts see it: its kind and its message.
pub struct ErrorModel {
    pub kind: ErrorKind,
    pub message: Seq<char>,
}

/// The model of an error of the given kind and message.
pub open spec fn error(kind: ErrorKind, message: Seq<char>) -> ErrorModel {
    ErrorModel { kind, message }
}

impl View for SerialControllerError {
    type V = ErrorModel;

    open spec fn view(&self) -> ErrorModel {
        match self {
            SerialControllerError::InvalidInstruction(m) => error(ErrorKind::InvalidInstruction, m@),
            SerialControllerError::IOError(m) => error(ErrorKind::IOError, m@),
            SerialControllerError::SerialPortUnavailable(m) => error(ErrorKind::SerialPortUnavailable, m@),
            SerialControllerError::SerialPortConfigError(m) => error(ErrorKind::SerialPortConfigError, m@),
            SerialControllerError::ConnectionTimeout() => error(ErrorKind::ConnectionTimeout, Seq::empty()),
        }
    }
}

impl View for LEDSerialControllerError {
    type V = ErrorModel;

    open spec fn view(&self) -> ErrorModel {
        match self {
            LEDSerialControllerError::InvalidParameter(m) => error(ErrorKind::InvalidParameter, m@),
            LEDSerialControllerError::MissingParameter(m) => error(ErrorKind::MissingParameter, m@),
            LEDSerialControllerError::InvalidData(m) => error(ErrorKind::InvalidData, m@),
            LEDSerialControllerError::OutOfSync(m) => error(ErrorKind::OutOfSync, m@),
            LEDSerialControllerError::NoAck() => error(ErrorKind::NoAck, Seq::empty()),
            LEDSerialControllerError::SetupFailed() => error(ErrorKind::SetupFailed, Seq::empty()),
        }
    }
}

impl View for LedControlError {
    type V = ErrorModel;

    open spec fn view(&self) -> ErrorModel {
        match self {
            LedControlError::Serial(e) => e@,
            LedControlError::Controller(e) => e@,
        }
    }
}

/// What the configuration handshake asks the serial link to do next.
#[derive(Debug)]
pub enum LinkCommand {
    /// Write one instruction.
    Send(LEDSerialControllerInstruction),
    /// Write a signed byte, then read one back.
    EchoI8(i8),
    /// Write an `i32`, then read one back.
    EchoI32(i32),
    /// Read one instruction.
    AwaitInstruction,
    /// The handshake is over, with this outcome.
    Finish(Result<(), LedControlError>),
}

/// A link command as contracts see it.
pub enum CommandModel {
    Send(LEDSerialControllerInstruction),
    EchoI8(i8),
    EchoI32(i32),
    AwaitInstruction,
    Finish(Result<(), ErrorModel>),
}

impl View for LinkCommand {
    type V = CommandModel;

    open spec fn view(&self) -> CommandModel {
        match self {
            LinkCommand::Send(i) => CommandModel::Send(*i),
            LinkCommand::EchoI8(v) => CommandModel::EchoI8(*v),
            LinkCommand::EchoI32(v) => CommandModel::EchoI32(*v),
            LinkCommand::AwaitInstruction => CommandModel::AwaitInstruction,
            LinkCommand::Finish(Ok(())) => CommandModel::Finish(Ok(())),
            LinkCommand::Finish(Err(e)) => CommandModel::Finish(Err(e@)),
        }
    }
}

/// What the serial link answered to the last command.
#[derive(Debug, Clone)]
pub enum LinkReply {
    Sent,
    EchoedI8(i8),
    EchoedI32(i32),
    Received(Option<LEDSerialControllerInstruction>),
    LinkFailed(SerialControllerError),
}

/// Where the configuration handshake stands.
#[derive(Debug, Clone, Copy)]
pub enum ConfigureStage {
    Start,
    InitSent,
    CountSent(i32),
    PinSent(usize, i8, i32),
    LightsSent(usize, i32),
    AwaitingAck,
    Done,
}

/// A failure that ends the handshake.
pub open spec fn fail(kind: ErrorKind, message: Seq<char>) -> (ConfigureStage, CommandModel) {
    (ConfigureStage::Done, CommandModel::Finish(Err(error(kind, message))))
}

/// The step that starts the exchange for strip `i`, or the wait for the
/// final acknowledgement once every strip is set up. A pin or count that
/// does not fit the wire ends the handshake before anything is sent for
/// that strip.
pub open spec fn strip_step(strips: Seq<LightStrip>, i: nat) -> (ConfigureStage, CommandModel) {
    if i >= strips.len() {
        (ConfigureStage::AwaitingAck, CommandModel::AwaitInstruction)
    } else {
        let s = strips[i as int];
        if !pin_fits(s) {
            fail(ErrorKind::InvalidParameter, pin_message(s.pin as int, i))
        } else if !count_fits(s) {
            fail(ErrorKind::InvalidParameter, count_message(s.num_lights as int, i))
        } else {
            (
                ConfigureStage::PinSent(i as usize, s.pin as i8, s.num_lights as i32),
                CommandModel::EchoI8(s.pin as i8),
            )
        }
    }
}

/// The configuration handshake, one step: from where it stands and the
/// link's reply to the last command, where it goes and what it asks next.
/// The strip count, each pin and each LED count are written and must come
/// back unchanged; a failure to read the final acknowledgement is not an
/// error.
pub open spec fn configure_transition(
    strips: Seq<LightStrip>,
    stage: ConfigureStage,
    reply: LinkReply,
) -> (ConfigureStage, CommandModel) {
    match stage {
        ConfigureStage::Start => (
            ConfigureStage::InitSent,
            CommandModel::Send(LEDSerialControllerInstruction::INIT),
        ),
        ConfigureStage::InitSent => match reply {
            LinkReply::LinkFailed(e) => (ConfigureStage::Done, CommandModel::Finish(Err(e@))),
            _ => if strips.len() <= i32::MAX {
                (ConfigureStage::CountSent(strips.len() as i32), CommandModel::EchoI32(strips.len() as i32))
            } else {
                fail(ErrorKind::InvalidParameter, strip_count_message(strips.len()))
            },
        },
        ConfigureStage::CountSent(n) => match reply {
            LinkReply::EchoedI32(c) => if c == n {
                strip_step(strips, 0)
            } else {
                fail(ErrorKind::OutOfSync, strip_count_sync_message(c as int, n as int))
            },
            LinkReply::LinkFailed(e) => (ConfigureStage::Done, CommandModel::Finish(Err(e@))),
            _ => (ConfigureStage::Done, CommandModel::Finish(Ok(()))),
        },
        ConfigureStage::PinSent(i, pin, lights) => match reply {
            LinkReply::EchoedI8(c) => if c == pin {
                (ConfigureStage::LightsSent(i, lights), CommandModel::EchoI32(lights))
            } else {
                fail(ErrorKind::OutOfSync, pin_sync_message(i as nat, c as int, pin as int))
            },
            LinkReply::LinkFailed(e) => (ConfigureStage::Done, CommandModel::Finish(Err(e@))),
            _ => (ConfigureStage::Done, CommandModel::Finish(Ok(()))),
        },
        ConfigureStage::LightsSent(i, lights) => match reply {
            LinkReply::EchoedI32(c) => if c == lights {
                strip_step(strips, (i + 1) as nat)
            } else {
                fail(ErrorKind::OutOfSync, count_sync_message(lights as int, i as nat))
            },
            LinkReply::LinkFailed(e) => (ConfigureStage::Done, CommandModel::Finish(Err(e@))),
            _ => (ConfigureStage::Done, CommandModel::Finish(Ok(()))),
        },
        ConfigureStage::AwaitingAck => match reply {
            LinkReply::Received(Some(LEDSerialControllerInstruction::ACK)) => (
                ConfigureStage::Done,
                CommandModel::Finish(Ok(())),
            ),
            LinkReply::LinkFailed(_) => (ConfigureStage::Done, CommandModel::Finish(Ok(()))),
            _ => (ConfigureStage::AwaitingAck, CommandModel::AwaitInstruction),
        },
        ConfigureStage::Done => (ConfigureStage::Done, CommandModel::Finish(Ok(()))),
    }
}

/// Whether `reply` answers the command issued when entering `stage`.
pub open spec fn reply_fits(stage: ConfigureStage, reply: LinkReply) -> bool {
    match stage {
        ConfigureStage::Start => true,
        ConfigureStage::InitSent => reply is Sent || reply is LinkFailed,
        ConfigureStage::CountSent(_) => reply is EchoedI32 || reply is LinkFailed,
        ConfigureStage::PinSent(..) => reply is EchoedI8 || reply is LinkFailed,
        ConfigureStage::LightsSent(..) => reply is EchoedI32 || reply is LinkFailed,
        ConfigureStage::AwaitingAck => reply is Received || reply is LinkFailed,
        ConfigureStage::Done => false,
    }
}

/// Whether the strip indices of `stage` are indices of `strips`.
pub open spec fn stage_valid(strips: Seq<LightStrip>, stage: ConfigureStage) -> bool {
    match stage {
        ConfigureStage::PinSent(i, _, _) => i < strips.len(),
        ConfigureStage::LightsSent(i, _) => i < strips.len(),
        _ => true,
    }
}

/// The link-independent state of an LED controller: the strips it drives
/// and the LED counts derived from them.
#[derive(Debug, Clone)]
pub struct LEDSerialController {
    pub min_light_count: i32,
    pub total_light_count: u64,
    pub lights: Lights,
}

fn strip_count_text(n: usize) -> (m: String)
    ensures
        m@ == strip_count_message(n as nat),
{
    let mut m = String::from_str("number of light strips (");
    m.append(u64_to_decimal(n as u64).as_str());
    m.append(") does not fit i32");
    m
}

fn strip_count_sync_text(got: i32, expected: i32) -> (m: String)
    ensures
        m@ == strip_count_sync_message(got as int, expected as int),
{
    let mut m = String::from_str("received unexpected value from device setting num_strips (");
    m.append(i64_to_decimal(got as i64).as_str());
    m.append(" but expected ");
    m.append(i64_to_decimal(expected as i64).as_str());
    m.append(")");
    m
}

fn pin_text(pin: i32, idx: usize) -> (m: String)
    ensures
        m@ == pin_message(pin as int, idx as nat),
{
    let mut m = String::from_str("data pin (");
    m.append(i64_to_decimal(pin as i64).as_str());
    m.append(") of strip ");
    m.append(u64_to_decimal(idx as u64).as_str());
    m.append(" does not fit i8");
    m
}

fn count_text(n: i64, idx: usize) -> (m: String)
    ensures
        m@ == count_message(n as int, idx as nat),
{
    let mut m = String::from_str("num leds (");
    m.append(i64_to_decimal(n).as_str());
    m.append(") of strip ");
    m.append(u64_to_decimal(idx as u64).as_str());
    m.append(" does not fit i32");
    m
}

fn pin_sync_text(idx: usize, got: i8, expected: i8) -> (m: String)
    ensures
        m@ == pin_sync_message(idx as nat, got as int, expected as int),
{
    let mut m = String::from_str("received unexpected value from device setting pin for strip ");
    m.append(u64_to_decimal(idx as u64).as_str());
    m.append(" (got ");
    m.append(i64_to_decimal(got as i64).as_str());
    m.append(" but expected ");
    m.append(i64_to_decimal(expected as i64).as_str());
    m.append(")");
    m
}

fn count_sync_text(n: i32, idx: usize) -> (m: String)
    ensures
        m@ == count_sync_message(n as int, idx as nat),
{
    let mut m = String::from_str("received unexpected value from device setting num_lights ");
    m.append(i64_to_decimal(n as i64).as_str());
    m.append(" for strip ");
    m.append(u64_to_decimal(idx as u64).as_str());
    m
}

fn color_buffer_text(expected: u64, got: usize) -> (m: String)
    ensures
        m@ == color_buffer_message(expected as nat, got as nat),
{
    let mut m = String::from_str("color buffer must have size total_light_count * 3 = ");
    m.append(u64_to_decimal(expected).as_str());
    m.append(", but got ");
    m.append(u64_to_decimal(got as u64).as_str());
    m
}

fn protocol_failure(kind_error: LEDSerialControllerError) -> (res: (ConfigureStage, LinkCommand))
    ensures
        res.0 == ConfigureStage::Done,
        res.1@ == CommandModel::Finish(Err(kind_error@)),
{
    (ConfigureStage::Done, LinkCommand::Finish(Err(LedControlError::Controller(kind_error))))
}

impl LEDSerialController {
    /// The controller state for the given strips: the total LED count and
    /// the smallest LED count over the strips.
    pub fn new(lights: Lights) -> (c: LEDSerialController)
        requires
            total_lights(lights.strips@) <= u64::MAX,
        ensures
            c.total_light_count as int == total_lights(lights.strips@),
            c.min_light_count as int == min_lights(lights.strips@),
            c.lights == lights,
    {
        let mut total: u64 = 0;
        let mut min: i32 = i32::MAX;
        let mut i: usize = 0;
        while i < lights.strips.len()
            invariant
                i <= lights.strips.len(),
                total_lights(lights.strips@) <= u64::MAX,
                total as int == total_lights(lights.strips@.take(i as int)),
                min as int == min_lights(lights.strips@.take(i as int)),
            decreases lights.strips.len() - i,
        {
            let strip = &lights.strips[i];
            proof {
                assert(lights.strips@.take(i + 1).drop_last() =~= lights.strips@.take(i as int));
                lemma_total_nonneg_monotone(lights.strips@, i + 1);
            }
            let counted: u64 = if strip.num_lights >= 0 {
                strip.num_lights as u64
            } else {
                0
            };
            total = total + counted;
            let c: i32 = if i32::MIN as i64 <= strip.num_lights && strip.num_lights <= i32::MAX as i64 {
                strip.num_lights as i32
            } else {
                0
            };
            if c < min {
                min = c;
            }
            i = i + 1;
        }
        assert(lights.strips@.take(i as int) =~= lights.strips@);
        LEDSerialController { min_light_count: min, total_light_count: total, lights }
    }

    fn strip_step(&self, i: usize) -> (res: (ConfigureStage, LinkCommand))
        requires
            i <= self.lights.strips.len(),
        ensures
            (res.0, res.1@) == strip_step(self.lights.strips@, i as nat),
            stage_valid(self.lights.strips@, res.0),
    {
        if i >= self.lights.strips.len() {
            (ConfigureStage::AwaitingAck, LinkCommand::AwaitInstruction)
        } else {
            let s = &self.lights.strips[i];
            if !(-128 <= s.pin && s.pin <= 127) {
                protocol_failure(LEDSerialControllerError::InvalidParameter(pin_text(s.pin, i)))
            } else if !(i32::MIN as i64 <= s.num_lights && s.num_lights <= i32::MAX as i64) {
                protocol_failure(LEDSerialControllerError::InvalidParameter(count_text(s.num_lights, i)))
            } else {
                (
                    ConfigureStage::PinSent(i, s.pin as i8, s.num_lights as i32),
                    LinkCommand::EchoI8(s.pin as i8),
                )
            }
        }
    }

    /// One step of the configuration handshake (see `configure_transition`).
    /// Start from `ConfigureStage::Start` with any reply, perform each
    /// command and hand its reply to the next step, until the command is
    /// `Finish`.
    pub fn configure_step(&self, stage: ConfigureStage, reply: LinkReply) -> (res: (ConfigureStage, LinkCommand))
        requires
            reply_fits(stage, reply),
            stage_valid(self.lights.strips@, stage),
        ensures
            (res.0, res.1@) == configure_transition(self.lights.strips@, stage, reply),
            stage_valid(self.lights.strips@, res.0),
    {
        match stage {
            ConfigureStage::Start => (
                ConfigureStage::InitSent,
                LinkCommand::Send(LEDSerialControllerInstruction::INIT),
            ),
            ConfigureStage::InitSent => match reply {
                LinkReply::LinkFailed(e) => (ConfigureStage::Done, LinkCommand::Finish(Err(LedControlError::Serial(e)))),
                _ => {
                    let n = self.lights.strips.len();
                    if n <= i32::MAX as usize {
                        (ConfigureStage::CountSent(n as i32), LinkCommand::EchoI32(n as i32))
                    } else {
                        protocol_failure(LEDSerialControllerError::InvalidParameter(strip_count_text(n)))
                    }
                },
            },
            ConfigureStage::CountSent(n) => match reply {
                LinkReply::EchoedI32(c) => if c == n {
                    self.strip_step(0)
                } else {
                    protocol_failure(LEDSerialControllerError::OutOfSync(strip_count_sync_text(c, n)))
                },
                LinkReply::LinkFailed(e) => (ConfigureStage::Done, LinkCommand::Finish(Err(LedControlError::Serial(e)))),
                _ => (ConfigureStage::Done, LinkCommand::Finish(Ok(()))),
            },
            ConfigureStage::PinSent(i, pin, lights) => match reply {
                LinkReply::EchoedI8(c) => if c == pin {
                    (ConfigureStage::LightsSent(i, lights), LinkCommand::EchoI32(lights))
                } else {
                    protocol_failure(LEDSerialControllerError::OutOfSync(pin_sync_text(i, c, pin)))
                },
                LinkReply::LinkFailed(e) => (ConfigureStage::Done, LinkCommand::Finish(Err(LedControlError::Serial(e)))),
                _ => (ConfigureStage::Done, LinkCommand::Finish(Ok(()))),
            },
            ConfigureStage::LightsSent(i, lights) => match reply {
                LinkReply::EchoedI32(c) => if c == lights {
                    self.strip_step(i + 1)
                } else {
                    protocol_failure(LEDSerialControllerError::OutOfSync(count_sync_text(lights, i)))
                },
                LinkReply::LinkFailed(e) => (ConfigureStage::Done, LinkCommand::Finish(Err(LedControlError::Serial(e)))),
                _ => (ConfigureStage::Done, LinkCommand::Finish(Ok(()))),
            },
            ConfigureStage::AwaitingAck => match reply {
                LinkReply::Received(Some(LEDSerialControllerInstruction::ACK)) => (
                    ConfigureStage::Done,
                    LinkCommand::Finish(Ok(())),
                ),
                LinkReply::LinkFailed(_) => (ConfigureStage::Done, LinkCommand::Finish(Ok(()))),
                _ => (ConfigureStage::AwaitingAck, LinkCommand::AwaitInstruction),
            },
            ConfigureStage::Done => (ConfigureStage::Done, LinkCommand::Finish(Ok(()))),
        }
    }
}

/// What a device that works as intended answers: every written value comes
/// back unchanged, and the instruction it sends is an acknowledgement.
pub open spec fn faithful_reply(cmd: CommandModel) -> LinkReply {
    match cmd {
        CommandModel::EchoI8(v) => LinkReply::EchoedI8(v),
        CommandModel::EchoI32(v) => LinkReply::EchoedI32(v),
        CommandModel::AwaitInstruction => LinkReply::Received(Some(LEDSerialControllerInstruction::ACK)),
        _ => LinkReply::Sent,
    }
}

/// The outcome of the handshake against a faithful device, from `stage`
/// right after `cmd` was issued, within `fuel` further steps.
pub open spec fn run_faithful(
    strips: Seq<LightStrip>,
    stage: ConfigureStage,
    cmd: CommandModel,
    fuel: nat,
) -> Option<Result<(), ErrorModel>>
    decreases fuel,
{
    match cmd {
        CommandModel::Finish(r) => Some(r),
        _ => if fuel == 0 {
            None
        } else {
            let next = configure_transition(strips, stage, faithful_reply(cmd));
            run_faithful(strips, next.0, next.1, (fuel - 1) as nat)
        },
    }
}

/// What configuring the strips from strip `i` on must end with: the first
/// strip whose pin or LED count does not fit the wire is refused.
pub open spec fn expected_from(strips: Seq<LightStrip>, i: nat) -> Result<(), ErrorModel>
    decreases strips.len() - i,
{
    if i >= strips.len() {
        Ok(())
    } else if !pin_fits(strips[i as int]) {
        Err(error(ErrorKind::InvalidParameter, pin_message(strips[i as int].pin as int, i)))
    } else if !count_fits(strips[i as int]) {
        Err(error(ErrorKind::InvalidParameter, count_message(strips[i as int].num_lights as int, i)))
    } else {
        expected_from(strips, i + 1)
    }
}

/// What configuring the strips must end with against a faithful device.
pub open spec fn expected_configuration(strips: Seq<LightStrip>) -> Result<(), ErrorModel> {
    if strips.len() > i32::MAX {
        Err(error(ErrorKind::InvalidParameter, strip_count_message(strips.len())))
    } else {
        expected_from(strips, 0)
    }
}

proof fn lemma_run_from_strip(strips: Seq<LightStrip>, i: nat, fuel: nat)
    requires
        i <= strips.len(),
        strips.len() <= usize::MAX,
        fuel >= 2 * (strips.len() - i) + 1,
    ensures
        run_faithful(strips, strip_step(strips, i).0, strip_step(strips, i).1, fuel)
            == Some(expected_from(strips, i)),
    decreases strips.len() - i,
{
    if i < strips.len() {
        let s = strips[i as int];
        if pin_fits(s) && count_fits(s) {
            lemma_run_from_strip(strips, i + 1, (fuel - 2) as nat);
            let st1 = strip_step(strips, i);
            let st2 = configure_transition(strips, st1.0, faithful_reply(st1.1));
            let st3 = configure_transition(strips, st2.0, faithful_reply(st2.1));
            assert(st3 == strip_step(strips, i + 1));
            assert(run_faithful(strips, st1.0, st1.1, fuel)
                == run_faithful(strips, st2.0, st2.1, (fuel - 1) as nat));
            assert(run_faithful(strips, st2.0, st2.1, (fuel - 1) as nat)
                == run_faithful(strips, st3.0, st3.1, (fuel - 2) as nat));
            assert(expected_from(strips, i) == expected_from(strips, i + 1));
        }
    } else {
        let st1 = strip_step(strips, i);
        let st2 = configure_transition(strips, st1.0, faithful_reply(st1.1));
        assert(st2.1 == CommandModel::Finish(Ok(())));
        assert(run_faithful(strips, st1.0, st1.1, fuel)
            == run_faithful(strips, st2.0, st2.1, (fuel - 1) as nat));
    }
}

/// Against a device that echoes every value and acknowledges, configuration
/// succeeds exactly when the strip count, every pin and every LED count fit
/// the wire; otherwise it fails with the parameter error of the first value
/// that does not. It finishes within `2 * strips + 4` steps.
pub proof fn lemma_configure_faithful_device(strips: Seq<LightStrip>)
    requires
        strips.len() <= usize::MAX,
    ensures
        ({
            let first = configure_transition(strips, ConfigureStage::Start, LinkReply::Sent);
            run_faithful(strips, first.0, first.1, (2 * strips.len() + 4) as nat)
                == Some(expected_configuration(strips))
        }),
{
    let fuel = (2 * strips.len() + 4) as nat;
    let st1 = configure_transition(strips, ConfigureStage::Start, LinkReply::Sent);
    let st2 = configure_transition(strips, st1.0, faithful_reply(st1.1));
    if strips.len() <= i32::MAX {
        let st3 = configure_transition(strips, st2.0, faithful_reply(st2.1));
        assert(st3 == strip_step(strips, 0));
        lemma_run_from_strip(strips, 0, (fuel - 2) as nat);
        assert(run_faithful(strips, st1.0, st1.1, fuel) == run_faithful(strips, st2.0, st2.1, (fuel - 1) as nat));
        assert(run_faithful(strips, st2.0, st2.1, (fuel - 1) as nat) == run_faithful(strips, st3.0, st3.1, (fuel - 2) as nat));
    }
}

/// Any value that comes back different from what was written ends the
/// handshake with an out-of-sync error.
pub proof fn lemma_configure_detects_desync(strips: Seq<LightStrip>, stage: ConfigureStage, reply: LinkReply)
    requires
        match (stage, reply) {
            (ConfigureStage::CountSent(n), LinkReply::EchoedI32(c)) => c != n,
            (ConfigureStage::PinSent(_, p, _), LinkReply::EchoedI8(c)) => c != p,
            (ConfigureStage::LightsSent(_, l), LinkReply::EchoedI32(c)) => c != l,
            _ => false,
        },
    ensures
        configure_transition(strips, stage, reply).0 == ConfigureStage::Done,
        configure_transition(strips, stage, reply).1 matches CommandModel::Finish(Err(e))
            && e.kind == ErrorKind::OutOfSync,
{
}

/// A failure of the serial link while a value is being written or echoed
/// back ends the handshake with that very failure: before the final
/// acknowledgement, a broken link is never reported as a configured device.
pub proof fn lemma_link_failure_is_reported(strips: Seq<LightStrip>, stage: ConfigureStage, e: SerialControllerError)
    requires
        stage is InitSent || stage is CountSent || stage is PinSent || stage is LightsSent,
    ensures
        configure_transition(strips, stage, LinkReply::LinkFailed(e)) == (
            ConfigureStage::Done,
            CommandModel::Finish(Err(e@)),
        ),
        configure_transition(strips, stage, LinkReply::LinkFailed(e)).1 != CommandModel::Finish(Ok(())),
{
}

/// Against any device, the handshake reports success only from the wait for
/// the final acknowledgement: every echo stage that does not end in an
/// error goes on to another step.
pub proof fn lemma_success_only_after_echoes(strips: Seq<LightStrip>, stage: ConfigureStage, reply: LinkReply)
    requires
        stage is InitSent || stage is CountSent || stage is PinSent || stage is LightsSent,
        reply_fits(stage, reply),
    ensures
        configure_transition(strips, stage, reply).1 != CommandModel::Finish(Ok(())),
{
}

impl LEDSerialController {
    /// Whether an instruction read while waiting for a reply is a leftover of
    /// the connection handshake, to be skipped.
    pub fn is_handshake_noise(instruction: Option<LEDSerialControllerInstruction>) -> (skip: bool)
        ensures
            skip <==> (instruction == Some(LEDSerialControllerInstruction::ALREADY_CONNECTED)
                || instruction == Some(LEDSerialControllerInstruction::CONNECT)),
    {
        match instruction {
            Some(LEDSerialControllerInstruction::ALREADY_CONNECTED) => true,
            Some(LEDSerialControllerInstruction::CONNECT) => true,
            _ => false,
        }
    }

    /// Whether the device's answer to a connection request shows it is
    /// connected; any other answer means asking again.
    pub fn is_connected_reply(instruction: Option<LEDSerialControllerInstruction>) -> (connected: bool)
        ensures
            connected <==> instruction == Some(LEDSerialControllerInstruction::ALREADY_CONNECTED),
    {
        match instruction {
            Some(LEDSerialControllerInstruction::ALREADY_CONNECTED) => true,
            _ => false,
        }
    }

    /// Whether an instruction read while waiting for `wanted` ends the wait;
    /// codes that name no instruction and other instructions do not.
    pub fn is_awaited(
        received: Option<LEDSerialControllerInstruction>,
        wanted: LEDSerialControllerInstruction,
    ) -> (done: bool)
        ensures
            done <==> received == Some(wanted),
    {
        match received {
            Some(r) => r == wanted,
            None => false,
        }
    }

    /// The color sent in a data frame, checked against the LED layout: the
    /// buffer must hold three bytes per LED, and the first three are sent.
    pub fn color_frame(&self, colors: &Vec<u8>) -> (res: Result<(u8, u8, u8), LEDSerialControllerError>)
        requires
            self.total_light_count * 3 <= usize::MAX,
            colors.len() > 0 || self.total_light_count > 0,
        ensures
            colors.len() == self.total_light_count * 3 ==> res == Ok::<(u8, u8, u8), LEDSerialControllerError>(
                (colors[0], colors[1], colors[2]),
            ),
            colors.len() != self.total_light_count * 3 ==> (res matches Err(e) && e@ == error(
                ErrorKind::InvalidData,
                color_buffer_message((self.total_light_count * 3) as nat, colors.len() as nat),
            )),
    {
        let expected: u64 = self.total_light_count * 3;
        if colors.len() as u64 != expected {
            return Err(LEDSerialControllerError::InvalidData(color_buffer_text(expected, colors.len())));
        }
        Ok((colors[0], colors[1], colors[2]))
    }
}

fn prefixed(prefix: &str, text: &String) -> (m: String)
    ensures
        m@ == prefix@ + text@,
{
    let mut m = String::from_str(prefix);
    m.append(text.as_str());
    m
}

/// The text a serial link error is shown as.
pub open spec fn serial_error_text(e: SerialControllerError) -> Seq<char> {
    match e {
        SerialControllerError::SerialPortUnavailable(m) => "serial port is not available: "@ + m@,
        SerialControllerError::SerialPortConfigError(m) => "serial port configuration failed: "@ + m@,
        SerialControllerError::InvalidInstruction(m) => "invalid instruction: "@ + m@,
        SerialControllerError::IOError(m) => "IO error: "@ + m@,
        SerialControllerError::ConnectionTimeout() => "serial connection attempt timeout"@,
    }
}

/// The text an LED protocol error is shown as.
pub open spec fn controller_error_text(e: LEDSerialControllerError) -> Seq<char> {
    match e {
        LEDSerialControllerError::InvalidParameter(m) => m@,
        LEDSerialControllerError::MissingParameter(m) => m@,
        LEDSerialControllerError::InvalidData(m) => m@,
        LEDSerialControllerError::OutOfSync(m) => "out of sync: "@ + m@,
        LEDSerialControllerError::NoAck() => "did not receive acknowledgement"@,
        LEDSerialControllerError::SetupFailed() => "setup failed"@,
    }
}

impl SerialControllerError {
    /// The text the error is shown as.
    pub fn message(&self) -> (m: String)
        ensures
            m@ == serial_error_text(*self),
    {
        match self {
            SerialControllerError::SerialPortUnavailable(e) => prefixed("serial port is not available: ", e),
            SerialControllerError::SerialPortConfigError(e) => prefixed("serial port configuration failed: ", e),
            SerialControllerError::InvalidInstruction(e) => prefixed("invalid instruction: ", e),
            SerialControllerError::IOError(e) => prefixed("IO error: ", e),
            SerialControllerError::ConnectionTimeout() => String::from_str("serial connection attempt timeout"),
        }
    }
}

impl LEDSerialControllerError {
    /// The text the error is shown as.
    pub fn message(&self) -> (m: String)
        ensures
            m@ == controller_error_text(*self),
    {
        match self {
            LEDSerialControllerError::InvalidParameter(e) => e.clone(),
            LEDSerialControllerError::MissingParameter(e) => e.clone(),
            LEDSerialControllerError::InvalidData(e) => e.clone(),
            LEDSerialControllerError::OutOfSync(e) => prefixed("out of sync: ", e),
            LEDSerialControllerError::NoAck() => String::from_str("did not receive acknowledgement"),
            LEDSerialControllerError::SetupFailed() => String::from_str("setup failed"),
        }
    }
}

impl LedControlError {
    /// The text the error is shown as: that of the failure it wraps.
    pub fn message(&self) -> (m: String)
        ensures
            m@ == match self {
                LedControlError::Serial(e) => serial_error_text(*e),
                LedControlError::Controller(e) => controller_error_text(*e),
            },
    {
        match self {
            LedControlError::Serial(e) => e.message(),
            LedControlError::Controller(e) => e.message(),
        }
    }
}

} // verus!
