use disco::codec::{byte_to_i8, decode_i16, decode_i32, encode_i16, encode_i32, i8_to_byte};
use disco::led::{
    decode_instruction, ConfigureStage, LEDSerialController, LEDSerialControllerError,
    LEDSerialControllerInstruction, LedControlError, LightStrip, Lights, LinkCommand, LinkReply,
    SerialControllerError,
};

fn lights(strips: Vec<(i32, i64)>) -> Lights {
    Lights {
        serial_port: "/dev/ttyUSB0".to_string(),
        strips: strips
            .into_iter()
            .map(|(pin, num_lights)| LightStrip { pin, num_lights })
            .collect(),
    }
}

/// Runs the configuration handshake against a simulated device that answers
/// each echo with `echo(value)` and then acknowledges.
fn run_configure(
    controller: &LEDSerialController,
    echo8: impl Fn(i8) -> i8,
    echo32: impl Fn(i32) -> i32,
) -> (Result<(), LedControlError>, Vec<String>) {
    let mut stage = ConfigureStage::Start;
    let mut reply = LinkReply::Sent;
    let mut log = Vec::new();
    for _ in 0..100 {
        let (next, cmd) = controller.configure_step(stage, reply);
        stage = next;
        reply = match cmd {
            LinkCommand::Send(i) => {
                log.push(format!("send {:?}", i));
                LinkReply::Sent
            }
            LinkCommand::EchoI8(v) => {
                log.push(format!("i8 {}", v));
                LinkReply::EchoedI8(echo8(v))
            }
            LinkCommand::EchoI32(v) => {
                log.push(format!("i32 {}", v));
                LinkReply::EchoedI32(echo32(v))
            }
            LinkCommand::AwaitInstruction => {
                log.push("await".to_string());
                LinkReply::Received(Some(LEDSerialControllerInstruction::ACK))
            }
            LinkCommand::Finish(r) => return (r, log),
        };
    }
    panic!("handshake did not finish");
}

#[test]
fn i16_wire_format_is_little_endian_twos_complement() {
    assert_eq!(encode_i16(0x1234), vec![0x34, 0x12]);
    assert_eq!(encode_i16(-1), vec![0xff, 0xff]);
    assert_eq!(encode_i16(-32768), vec![0x00, 0x80]);
    assert_eq!(decode_i16(0x34, 0x12), 0x1234);
    assert_eq!(decode_i16(0xff, 0xff), -1);
    assert_eq!(decode_i16(0x00, 0x80), -32768);
}

#[test]
fn i32_wire_format_is_little_endian_twos_complement() {
    assert_eq!(encode_i32(0x12345678), vec![0x78, 0x56, 0x34, 0x12]);
    assert_eq!(encode_i32(-2), vec![0xfe, 0xff, 0xff, 0xff]);
    assert_eq!(encode_i32(i32::MIN), vec![0, 0, 0, 0x80]);
    assert_eq!(decode_i32(0x78, 0x56, 0x34, 0x12), 0x12345678);
    assert_eq!(decode_i32(0xfe, 0xff, 0xff, 0xff), -2);
}

#[test]
fn integers_survive_the_wire() {
    for v in [0i32, 1, -1, 150, -150, 65535, i32::MAX, i32::MIN] {
        let b = encode_i32(v);
        assert_eq!(decode_i32(b[0], b[1], b[2], b[3]), v);
    }
    for v in [0i16, 7, -7, i16::MAX, i16::MIN] {
        let b = encode_i16(v);
        assert_eq!(decode_i16(b[0], b[1]), v);
    }
    for v in [0i8, 5, -5, i8::MIN, i8::MAX] {
        assert_eq!(byte_to_i8(i8_to_byte(v)), v);
    }
    assert_eq!(i8_to_byte(-1), 0xff);
    assert_eq!(byte_to_i8(0x80), -128);
}

#[test]
fn instruction_codes() {
    let all = [
        LEDSerialControllerInstruction::CONNECT,
        LEDSerialControllerInstruction::ALREADY_CONNECTED,
        LEDSerialControllerInstruction::INIT,
        LEDSerialControllerInstruction::DATA,
        LEDSerialControllerInstruction::ACK,
        LEDSerialControllerInstruction::READY,
        LEDSerialControllerInstruction::ERROR,
        LEDSerialControllerInstruction::NOOP,
    ];
    for (code, instr) in all.iter().enumerate() {
        assert_eq!(instr.to_i8().unwrap(), code as i8);
        assert_eq!(LEDSerialControllerInstruction::try_from(code as i8).unwrap(), *instr);
        assert_eq!(decode_instruction(code as i8), Some(*instr));
    }
    assert_eq!(decode_instruction(8), None);
    assert_eq!(decode_instruction(-1), None);
    match LEDSerialControllerInstruction::try_from(42) {
        Err(SerialControllerError::InvalidInstruction(msg)) => {
            assert_eq!(msg, "unknown instruction code: 42")
        }
        other => panic!("unexpected {:?}", other),
    }
    match LEDSerialControllerInstruction::try_from(-3) {
        Err(SerialControllerError::InvalidInstruction(msg)) => {
            assert_eq!(msg, "unknown instruction code: -3")
        }
        other => panic!("unexpected {:?}", other),
    }
}

#[test]
fn light_counts() {
    let c = LEDSerialController::new(lights(vec![(3, 60), (5, 30), (6, -4)]));
    assert_eq!(c.total_light_count, 90);
    assert_eq!(c.min_light_count, -4);
    let c = LEDSerialController::new(lights(vec![(3, 1 << 40), (5, 30)]));
    assert_eq!(c.total_light_count, (1 << 40) + 30);
    assert_eq!(c.min_light_count, 0);
    let c = LEDSerialController::new(lights(vec![]));
    assert_eq!(c.total_light_count, 0);
    assert_eq!(c.min_light_count, i32::MAX);
}

#[test]
fn configure_with_a_faithful_device() {
    let c = LEDSerialController::new(lights(vec![(3, 60), (5, 30)]));
    let (r, log) = run_configure(&c, |v| v, |v| v);
    assert!(r.is_ok());
    assert_eq!(
        log,
        vec!["send INIT", "i32 2", "i8 3", "i32 60", "i8 5", "i32 30", "await"]
    );
}

#[test]
fn configure_refuses_a_pin_outside_a_byte() {
    let c = LEDSerialController::new(lights(vec![(3, 60), (300, 30)]));
    let (r, log) = run_configure(&c, |v| v, |v| v);
    match r {
        Err(LedControlError::Controller(LEDSerialControllerError::InvalidParameter(msg))) => {
            assert_eq!(msg, "data pin (300) of strip 1 does not fit i8")
        }
        other => panic!("unexpected {:?}", other),
    }
    assert_eq!(log, vec!["send INIT", "i32 2", "i8 3", "i32 60"]);
}

#[test]
fn configure_refuses_a_count_outside_i32() {
    let c = LEDSerialController::new(lights(vec![(3, 1 << 33)]));
    let (r, _) = run_configure(&c, |v| v, |v| v);
    match r {
        Err(LedControlError::Controller(LEDSerialControllerError::InvalidParameter(msg))) => {
            assert_eq!(msg, "num leds (8589934592) of strip 0 does not fit i32")
        }
        other => panic!("unexpected {:?}", other),
    }
}

#[test]
fn configure_detects_a_device_out_of_sync() {
    let c = LEDSerialController::new(lights(vec![(3, 60)]));
    let (r, _) = run_configure(&c, |v| v, |v| if v == 1 { 2 } else { v });
    match r {
        Err(LedControlError::Controller(LEDSerialControllerError::OutOfSync(msg))) => assert_eq!(
            msg,
            "received unexpected value from device setting num_strips (2 but expected 1)"
        ),
        other => panic!("unexpected {:?}", other),
    }
    let (r, _) = run_configure(&c, |v| v + 1, |v| v);
    match r {
        Err(LedControlError::Controller(LEDSerialControllerError::OutOfSync(msg))) => assert_eq!(
            msg,
            "received unexpected value from device setting pin for strip 0 (got 4 but expected 3)"
        ),
        other => panic!("unexpected {:?}", other),
    }
    let (r, _) = run_configure(&c, |v| v, |v| if v == 60 { 61 } else { v });
    match r {
        Err(LedControlError::Controller(e)) => {
            assert_eq!(
                e.message(),
                "out of sync: received unexpected value from device setting num_lights 60 for strip 0"
            )
        }
        other => panic!("unexpected {:?}", other),
    }
}

#[test]
fn configure_link_failures() {
    let c = LEDSerialController::new(lights(vec![(3, 60)]));
    let (_, cmd) = c.configure_step(ConfigureStage::Start, LinkReply::Sent);
    assert!(matches!(cmd, LinkCommand::Send(LEDSerialControllerInstruction::INIT)));
    let (stage, cmd) = c.configure_step(
        ConfigureStage::InitSent,
        LinkReply::LinkFailed(SerialControllerError::IOError("broken pipe".to_string())),
    );
    assert!(matches!(stage, ConfigureStage::Done));
    match cmd {
        LinkCommand::Finish(Err(LedControlError::Serial(e))) => {
            assert_eq!(e.message(), "IO error: broken pipe")
        }
        other => panic!("unexpected {:?}", other),
    }
    // a failure while waiting for the acknowledgement is not an error
    let (_, cmd) = c.configure_step(
        ConfigureStage::AwaitingAck,
        LinkReply::LinkFailed(SerialControllerError::ConnectionTimeout()),
    );
    assert!(matches!(cmd, LinkCommand::Finish(Ok(()))));
    // anything but an acknowledgement keeps waiting
    let (stage, cmd) = c.configure_step(
        ConfigureStage::AwaitingAck,
        LinkReply::Received(Some(LEDSerialControllerInstruction::READY)),
    );
    assert!(matches!(stage, ConfigureStage::AwaitingAck));
    assert!(matches!(cmd, LinkCommand::AwaitInstruction));
}

#[test]
fn handshake_decisions() {
    assert!(LEDSerialController::is_connected_reply(Some(LEDSerialControllerInstruction::ALREADY_CONNECTED)));
    assert!(!LEDSerialController::is_connected_reply(Some(LEDSerialControllerInstruction::CONNECT)));
    assert!(!LEDSerialController::is_connected_reply(None));
    assert!(LEDSerialController::is_handshake_noise(Some(LEDSerialControllerInstruction::CONNECT)));
    assert!(LEDSerialController::is_handshake_noise(Some(LEDSerialControllerInstruction::ALREADY_CONNECTED)));
    assert!(!LEDSerialController::is_handshake_noise(Some(LEDSerialControllerInstruction::ACK)));
    assert!(!LEDSerialController::is_handshake_noise(None));
    assert!(LEDSerialController::is_awaited(Some(LEDSerialControllerInstruction::ACK), LEDSerialControllerInstruction::ACK));
    assert!(!LEDSerialController::is_awaited(Some(LEDSerialControllerInstruction::READY), LEDSerialControllerInstruction::ACK));
    assert!(!LEDSerialController::is_awaited(None, LEDSerialControllerInstruction::ACK));
}

#[test]
fn color_frames() {
    let c = LEDSerialController::new(lights(vec![(3, 2)]));
    assert_eq!(c.color_frame(&vec![1, 2, 3, 4, 5, 6]).unwrap(), (1, 2, 3));
    match c.color_frame(&vec![1, 2, 3]) {
        Err(LEDSerialControllerError::InvalidData(msg)) => assert_eq!(
            msg,
            "color buffer must have size total_light_count * 3 = 6, but got 3"
        ),
        other => panic!("unexpected {:?}", other),
    }
}

#[test]
fn error_texts() {
    assert_eq!(
        SerialControllerError::SerialPortUnavailable("gone".to_string()).message(),
        "serial port is not available: gone"
    );
    assert_eq!(
        SerialControllerError::ConnectionTimeout().message(),
        "serial connection attempt timeout"
    );
    assert_eq!(LEDSerialControllerError::NoAck().message(), "did not receive acknowledgement");
    assert_eq!(LEDSerialControllerError::InvalidData("x".to_string()).message(), "x");
}
