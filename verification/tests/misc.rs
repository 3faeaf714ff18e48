use disco::audio::{
    frame_shape, input_device_choice, output_device_choice, select_device, AudioInputConfig,
    AudioStreamInfo, CpalAudioFile, DeviceChoice,
};
use disco::buffering::{check_fft_size, silent_window, slide_window, take_windows, FFTError};
use disco::cli::Opts;
use disco::controller::{clip, validate_lights};
use disco::decimal::{i64_to_decimal, u64_to_decimal};
use disco::errors::{AudioAnalysisError, AudioError, FeatureDisabledError};
use disco::led::{LightStrip, Lights};
use disco::server::{sum_as_string, PortaudioAudioBackend, Test};
use disco::session::Code;

#[test]
fn clipping() {
    assert_eq!(clip(5, 0, 3), 3);
    assert_eq!(clip(-5, 0, 3), 0);
    assert_eq!(clip(2, 0, 3), 2);
    assert_eq!(clip(10u8, 20, 30), 20);
}

#[test]
fn lights_requests() {
    let strips = vec![LightStrip { pin: 3, num_lights: 10 }];
    assert!(validate_lights(Some(Lights { serial_port: "/dev/tty".to_string(), strips: strips.clone() })).is_ok());
    let e = validate_lights(None).unwrap_err();
    assert_eq!(e.code, Code::InvalidArgument);
    assert_eq!(e.message, "missing lights");
    let e = validate_lights(Some(Lights { serial_port: String::new(), strips: strips.clone() })).unwrap_err();
    assert_eq!(e.message, "missing light serial connection port");
    let e = validate_lights(Some(Lights { serial_port: "/dev/tty".to_string(), strips: vec![] })).unwrap_err();
    assert_eq!(e.message, "no light strips");
}

#[test]
fn decimal_text() {
    assert_eq!(u64_to_decimal(0), "0");
    assert_eq!(u64_to_decimal(1234567890), "1234567890");
    assert_eq!(u64_to_decimal(u64::MAX), u64::MAX.to_string());
    assert_eq!(i64_to_decimal(-42), "-42");
    assert_eq!(i64_to_decimal(i64::MIN), i64::MIN.to_string());
    assert_eq!(sum_as_string(40, 2), "42");
}

#[test]
fn error_messages() {
    let e = FeatureDisabledError::new("recording");
    assert_eq!(e.message(), "feature disabled: recording");
    assert_eq!(AudioError::Unknown("x".to_string()).message(), "audio error: x");
    assert_eq!(
        AudioError::DeviceNotFound("mic".to_string()).message(),
        "device \"mic\" was not found"
    );
    assert_eq!(
        AudioError::DeviceNotAvailable("mic".to_string()).message(),
        "device \"mic\" is not available"
    );
    assert_eq!(AudioAnalysisError::Unknown("y".to_string()).message(), "analysis error: y");
}

#[test]
fn frames() {
    assert_eq!(frame_shape(8, 2), Some((4, 2)));
    assert_eq!(frame_shape(7, 2), None);
    assert_eq!(frame_shape(0, 1), Some((0, 1)));
    let info = AudioStreamInfo::default();
    assert_eq!(info.sample_rate, 0);
}

#[test]
fn input_config_from_options() {
    let opts = Opts {
        input_device: Some("mic".to_string()),
        output_device: None,
        latency: 150,
        use_portaudio: false,
        commands: None,
    };
    let c = AudioInputConfig::from(opts);
    assert_eq!(c.input_device, Some("mic".to_string()));
    assert_eq!(c.output_device, None);
    let d = AudioInputConfig::default();
    assert_eq!(d.input_device, None);
}

#[test]
fn portaudio_backend_records_nothing() {
    let b = PortaudioAudioBackend::new();
    assert!(b.new_recorder().is_ok());
    assert!(b.query().is_ok());
    let r = b.new_recorder().unwrap();
    assert!(r.stream_input().is_ok());
    assert!(r.stream_file("song.wav".to_string()).is_ok());
    let _t: Test<u8> = Test::new(1u8);
}

#[test]
fn devices_are_found_by_name() {
    let names = vec![
        Some("hw:0".to_string()),
        None,
        Some("pulse".to_string()),
        Some("pulse".to_string()),
    ];
    let prefix = "unable to find selected output device: ";
    assert_eq!(
        select_device(&names, true, &Some("pulse".to_string()), prefix),
        Ok(DeviceChoice::Listed(2))
    );
    assert_eq!(select_device(&names, false, &None, prefix).unwrap_err(), "unable to find selected output device: \"default\"");
    assert_eq!(select_device(&names, true, &None, prefix), Ok(DeviceChoice::Default));
    assert_eq!(
        select_device(&names, true, &Some("jack".to_string()), "unable to find selected input device: "),
        Err("unable to find selected input device: \"jack\"".to_string())
    );
    assert!(select_device(&vec![], true, &Some("x".to_string()), prefix).is_err());
}

#[test]
fn audio_files_describe_themselves() {
    let info = AudioStreamInfo { sample_rate: 44100, nchannels: 2 };
    let f: CpalAudioFile<f32> = CpalAudioFile::new(
        "song.wav".to_string(),
        true,
        "ALSA".to_string(),
        Some(("default".to_string(), Ok(info))),
    )
    .unwrap();
    let d = f.descriptor();
    assert_eq!(d.backend, "cpal");
    assert_eq!(d.host, "ALSA");
    assert_eq!(d.device, "default");
    assert_eq!(d.file, "song.wav");
    assert_eq!(f.input_stream_params(), info);
    assert!(f.looped);
}

#[test]
fn audio_files_need_a_default_output_device() {
    let missing = CpalAudioFile::<f32>::new("a.wav".to_string(), false, "ALSA".to_string(), None);
    assert_eq!(missing.unwrap_err(), "unable to find selected output device: \"default\"");
    let broken = CpalAudioFile::<f32>::new(
        "a.wav".to_string(),
        false,
        "ALSA".to_string(),
        Some(("hw:0".to_string(), Err("stream configuration not supported".to_string()))),
    );
    assert_eq!(broken.unwrap_err(), "stream configuration not supported");
}

#[test]
fn device_choices_name_their_direction() {
    let names = vec![Some("mic".to_string())];
    assert_eq!(
        output_device_choice(&names, false, &None).unwrap_err(),
        "unable to find selected output device: \"default\""
    );
    assert_eq!(
        input_device_choice(&names, true, &Some("line".to_string())).unwrap_err(),
        "unable to find selected input device: \"line\""
    );
    assert_eq!(input_device_choice(&names, false, &Some("mic".to_string())), Ok(DeviceChoice::Listed(0)));
}

fn rows(values: &[i32]) -> Vec<Vec<i32>> {
    values.iter().map(|v| vec![*v, -*v]).collect()
}

#[test]
fn the_window_keeps_the_latest_frames() {
    let window = rows(&[0, 0, 0]);
    let next = slide_window(window, rows(&[1, 2]), 2, 2, 3);
    assert_eq!(next, rows(&[0, 1, 2]));
    let next = slide_window(next, rows(&[3, 4, 5, 6]), 2, 2, 3);
    assert_eq!(next, rows(&[4, 5, 6]));
    // a block of another width is refused
    let next = slide_window(next, vec![vec![9]], 2, 1, 3);
    assert_eq!(next, rows(&[4, 5, 6]));
    // a window of no frames keeps everything
    let next = slide_window(rows(&[1]), rows(&[2]), 2, 2, 0);
    assert_eq!(next, rows(&[1, 2]));
}

#[test]
fn the_buffer_is_cut_into_whole_windows() {
    let (windows, rest) = take_windows(rows(&[1]), rows(&[2, 3, 4, 5, 6]), 2, 2, 2, 100);
    assert_eq!(windows, vec![rows(&[1, 2]), rows(&[3, 4]), rows(&[5, 6])]);
    assert!(rest.is_empty());
    let (windows, rest) = take_windows(rows(&[]), rows(&[7, 8, 9]), 2, 2, 2, 100);
    assert_eq!(windows, vec![rows(&[7, 8])]);
    assert_eq!(rest, rows(&[9]));
    let (windows, rest) = take_windows(rows(&[1]), vec![vec![5, 5, 5]], 2, 3, 4, 100);
    assert!(windows.is_empty());
    assert_eq!(rest, rows(&[1]));
}

#[test]
fn spectra_need_a_power_of_two() {
    for n in [2, 4, 8, 16, 32, 64, 128, 256, 512, 1024, 2048, 4096] {
        assert!(check_fft_size(n).is_ok());
    }
    assert_eq!(
        check_fft_size(100).unwrap_err().message(),
        "fft error: sample buffer length must be power of two between 2 and 4096, but is 100"
    );
    assert_eq!(FFTError::new("bad".to_string()).message(), "fft error: bad");
    assert!(check_fft_size(1).is_err());
    assert!(check_fft_size(8192).is_err());
}

#[test]
fn analyzers_start_from_silence() {
    let window = silent_window(3, 2, 0.0f32);
    assert_eq!(window, vec![vec![0.0f32, 0.0]; 3]);
    let mut window = window;
    for block in [vec![vec![1.0f32, 1.0]], vec![vec![2.0, 2.0], vec![3.0, 3.0], vec![4.0, 4.0]]] {
        window = slide_window(window, block, 2, 2, 3);
    }
    assert_eq!(window, vec![vec![2.0f32, 2.0], vec![3.0, 3.0], vec![4.0, 4.0]]);
    assert!(silent_window(0, 2, 0u8).is_empty());
}
