use disco::descriptors::{AudioAnalyzerDescriptor, AudioInputDescriptor, AudioOutputDescriptor};
use disco::cli::{Config, Opts, StartOpts};
use disco::session_store::{new_viewer_instance, Session};
use disco::session::Timestamp;
use disco::handlers::{
    attach_viewer, register_analyzer, register_input_stream, register_output_stream, Attachment,
    analyzer_not_found, analyzer_request, ensure_new, output_request, AnalyzerKind, input_not_found, lights_request, lookup, require_field,
    session_not_found, status, subscription_request, take, viewer_does_not_exist,
    viewer_not_found,
};
use disco::led::{LightStrip, Lights};
use disco::registry::Registry;
use disco::session::{Code, InstanceId, SessionToken};

fn input(device: &str) -> AudioInputDescriptor {
    AudioInputDescriptor {
        backend: "PortAudio".to_string(),
        host: "alsa".to_string(),
        device: device.to_string(),
        file: String::new(),
    }
}

fn token(t: &str) -> SessionToken {
    SessionToken { token: t.to_string() }
}

#[test]
fn registry_reads_back_what_was_written() {
    let mut r: Registry<SessionToken, u32> = Registry::new();
    assert_eq!(r.len(), 0);
    assert!(r.insert_new(token("a"), 1).is_ok());
    assert!(r.insert_new(token("b"), 2).is_ok());
    assert_eq!(r.get(&token("a")), Some(&1));
    assert_eq!(r.get(&token("b")), Some(&2));
    assert_eq!(r.get(&token("c")), None);
    assert_eq!(r.len(), 2);
}

#[test]
fn registry_never_replaces_an_entry() {
    let mut r: Registry<SessionToken, u32> = Registry::new();
    assert!(r.insert_new(token("a"), 1).is_ok());
    let refused = r.insert_new(token("a"), 9).unwrap_err();
    assert_eq!(refused.0.token, "a");
    assert_eq!(refused.1, 9);
    r.insert_if_absent(token("a"), 7);
    assert_eq!(r.get(&token("a")), Some(&1));
    r.insert_if_absent(token("z"), 7);
    assert_eq!(r.get(&token("z")), Some(&7));
    assert_eq!(r.len(), 2);
}

#[test]
fn registry_remove_and_keys() {
    let mut r: Registry<InstanceId, &str> = Registry::new();
    for (k, v) in [("1", "one"), ("2", "two"), ("3", "three")] {
        assert!(r.insert_new(InstanceId { id: k.to_string() }, v).is_ok());
    }
    assert_eq!(r.remove(&InstanceId { id: "2".to_string() }), Some("two"));
    assert_eq!(r.remove(&InstanceId { id: "2".to_string() }), None);
    assert!(!r.contains_key(&InstanceId { id: "2".to_string() }));
    let keys: Vec<String> = r.keys().into_iter().map(|k| k.id).collect();
    assert_eq!(keys, vec!["1".to_string(), "3".to_string()]);
}

#[test]
fn descriptors_are_keyed_by_all_their_fields() {
    let mut r: Registry<AudioInputDescriptor, u8> = Registry::new();
    assert!(r.insert_new(input("mic"), 1).is_ok());
    assert!(r.contains_key(&input("mic")));
    assert!(!r.contains_key(&input("line")));
    let mut other = input("mic");
    other.file = "song.wav".to_string();
    assert!(!r.contains_key(&other));
}

#[test]
fn descriptor_texts() {
    let i = input("mic");
    assert_eq!(i.text(), "[INPUT,PortAudio,alsa,mic]");
    let out = AudioOutputDescriptor {
        input: None,
        backend: "PortAudio".to_string(),
        host: "alsa".to_string(),
        device: "speaker".to_string(),
    };
    assert_eq!(out.text(), "(None -> [OUTPUT,PortAudio,alsa,speaker])");
    let fed = out.with_input(&i);
    assert_eq!(
        fed.text(),
        "(Some([INPUT,PortAudio,alsa,mic]) -> [OUTPUT,PortAudio,alsa,speaker])"
    );
    let an = AudioAnalyzerDescriptor { input: None, name: "Spectral".to_string() };
    assert_eq!(an.text(), "(None -> [ANALYZER,Spectral])");
    assert_eq!(
        an.with_input(&i).text(),
        "(Some([INPUT,PortAudio,alsa,mic]) -> [ANALYZER,Spectral])"
    );
    assert_eq!(token("abc").text(), "\"abc\"");
    assert_eq!(InstanceId { id: "7".to_string() }.text(), "\"7\"");
}

#[test]
fn missing_fields_are_invalid_arguments() {
    assert_eq!(require_field(Some(3), "missing").unwrap(), 3);
    let err = require_field::<u8>(None, "missing descriptor").unwrap_err();
    assert_eq!(err.code, Code::InvalidArgument);
    assert_eq!(err.message, "missing descriptor");
    let s = status(Code::Internal, "boom".to_string());
    assert_eq!(s.code, Code::Internal);
    assert_eq!(s.message, "boom");
}

#[test]
fn lookups_and_takes() {
    let mut r: Registry<SessionToken, u32> = Registry::new();
    assert!(r.insert_new(token("a"), 5).is_ok());
    assert_eq!(*lookup(&r, &token("a"), "x".to_string()).unwrap(), 5);
    let err = lookup(&r, &token("b"), session_not_found(&token("b"))).unwrap_err();
    assert_eq!(err.code, Code::NotFound);
    assert_eq!(err.message, "session \"b\" does not exist");
    let err = take(&mut r, &token("b"), "gone".to_string()).unwrap_err();
    assert_eq!(err.code, Code::NotFound);
    assert_eq!(err.message, "gone");
    assert_eq!(take(&mut r, &token("a"), "gone".to_string()).unwrap(), 5);
    assert_eq!(r.len(), 0);
}

#[test]
fn duplicates_already_exist() {
    let mut r: Registry<AudioInputDescriptor, u8> = Registry::new();
    assert!(ensure_new(&r, &input("mic"), "dup").is_ok());
    assert!(r.insert_new(input("mic"), 1).is_ok());
    let err = ensure_new(&r, &input("mic"), "input already exists").unwrap_err();
    assert_eq!(err.code, Code::AlreadyExists);
    assert_eq!(err.message, "input already exists");
}

#[test]
fn not_found_messages() {
    assert_eq!(input_not_found(&input("mic")), "no input [INPUT,PortAudio,alsa,mic] found");
    let an = AudioAnalyzerDescriptor { input: Some(input("mic")), name: "Spectral".to_string() };
    assert_eq!(
        analyzer_not_found(&an),
        "no audio analyzer (Some([INPUT,PortAudio,alsa,mic]) -> [ANALYZER,Spectral]) found"
    );
    let id = InstanceId { id: "3".to_string() };
    assert_eq!(viewer_not_found(&id), "no viewer instance \"3\" found");
    assert_eq!(viewer_does_not_exist(&id), "viewer instance \"3\" does not exist");
}

fn lights(port: &str, strips: usize) -> Lights {
    Lights {
        serial_port: port.to_string(),
        strips: (0..strips).map(|i| LightStrip { pin: i as i32, num_lights: 10 }).collect(),
    }
}

fn spectral() -> AudioAnalyzerDescriptor {
    AudioAnalyzerDescriptor { input: Some(input("mic")), name: "Spectral".to_string() }
}

#[test]
fn lights_requests_are_checked_in_order() {
    let mut analyzers: Registry<AudioAnalyzerDescriptor, u8> = Registry::new();
    let t = token("abcd");
    let err = lights_request::<u8>(None, None, &t, Some(&analyzers)).unwrap_err();
    assert_eq!((err.code, err.message.as_str()), (Code::InvalidArgument, "missing lights"));
    let err = lights_request::<u8>(Some(lights("", 1)), None, &t, None).unwrap_err();
    assert_eq!(err.message, "missing light serial connection port");
    let err = lights_request::<u8>(Some(lights("/dev/ttyACM0", 0)), None, &t, None).unwrap_err();
    assert_eq!(err.message, "no light strips");
    let err = lights_request::<u8>(Some(lights("/dev/ttyACM0", 2)), None, &t, None).unwrap_err();
    assert_eq!((err.code, err.message.as_str()), (Code::InvalidArgument, "missing audio analyzer descriptor"));
    let err = lights_request::<u8>(Some(lights("/dev/ttyACM0", 2)), Some(spectral()), &t, None).unwrap_err();
    assert_eq!((err.code, err.message.as_str()), (Code::NotFound, "session \"abcd\" does not exist"));
    let err = lights_request::<u8>(Some(lights("/dev/ttyACM0", 2)), Some(spectral()), &t, Some(&analyzers))
        .unwrap_err();
    assert_eq!(err.code, Code::NotFound);
    assert_eq!(
        err.message,
        "no audio analyzer (Some([INPUT,PortAudio,alsa,mic]) -> [ANALYZER,Spectral]) found"
    );
    assert!(analyzers.insert_new(spectral(), 1).is_ok());
    let (l, a) = lights_request::<u8>(Some(lights("/dev/ttyACM0", 2)), Some(spectral()), &t, Some(&analyzers))
        .unwrap();
    assert_eq!(l.strips.len(), 2);
    assert_eq!(a.name, "Spectral");
}

#[test]
fn subscriptions_are_checked_in_order() {
    let mut analyzers: Registry<AudioAnalyzerDescriptor, u8> = Registry::new();
    let mut viewers: Registry<InstanceId, u8> = Registry::new();
    let t = token("wxyz");
    let id = || Some(InstanceId { id: "1".to_string() });
    let err = subscription_request::<u8, u8>(None, Some(spectral()), &t, None).unwrap_err();
    assert_eq!((err.code, err.message.as_str()), (Code::InvalidArgument, "missing instance id"));
    let err = subscription_request::<u8, u8>(id(), None, &t, None).unwrap_err();
    assert_eq!(err.message, "missing audio analyzer descriptor");
    let err = subscription_request::<u8, u8>(id(), Some(spectral()), &t, None).unwrap_err();
    assert_eq!((err.code, err.message.as_str()), (Code::NotFound, "session \"wxyz\" does not exist"));
    let err = subscription_request::<u8, u8>(id(), Some(spectral()), &t, Some((&analyzers, &viewers))).unwrap_err();
    assert!(err.message.starts_with("no audio analyzer"));
    assert!(analyzers.insert_new(spectral(), 1).is_ok());
    let err = subscription_request::<u8, u8>(id(), Some(spectral()), &t, Some((&analyzers, &viewers))).unwrap_err();
    assert_eq!((err.code, err.message.as_str()), (Code::NotFound, "no viewer instance \"1\" found"));
    assert!(viewers.insert_new(InstanceId { id: "1".to_string() }, 7).is_ok());
    let (i, a) = subscription_request::<u8, u8>(id(), Some(spectral()), &t, Some((&analyzers, &viewers))).unwrap();
    assert_eq!(i.id, "1");
    assert_eq!(a.name, "Spectral");
}

#[test]
fn analyzer_requests_name_the_kind_last() {
    let mut inputs: Registry<AudioInputDescriptor, u8> = Registry::new();
    let t = token("abcd");
    let err = analyzer_request::<u8>(None, None, &t, None).unwrap_err();
    assert_eq!((err.code, err.message.as_str()), (Code::InvalidArgument, "missing audio analyzer"));
    let err = analyzer_request::<u8>(Some(None), None, &t, None).unwrap_err();
    assert_eq!(err.message, "missing input stream descriptor");
    let err = analyzer_request::<u8>(Some(None), Some(input("mic")), &t, None).unwrap_err();
    assert_eq!((err.code, err.message.as_str()), (Code::NotFound, "session \"abcd\" does not exist"));
    let err = analyzer_request(Some(None), Some(input("mic")), &t, Some(&inputs)).unwrap_err();
    assert_eq!((err.code, err.message.as_str()), (Code::NotFound, "no input [INPUT,PortAudio,alsa,mic] found"));
    assert!(inputs.insert_new(input("mic"), 1).is_ok());
    let err = analyzer_request(Some(None), Some(input("mic")), &t, Some(&inputs)).unwrap_err();
    assert_eq!((err.code, err.message.as_str()), (Code::InvalidArgument, "missing analyzer"));
    let (k, i) = analyzer_request(Some(Some(AnalyzerKind::Bpm)), Some(input("mic")), &t, Some(&inputs))
        .unwrap();
    assert_eq!(k, AnalyzerKind::Bpm);
    assert_eq!(i.device, "mic");
}

#[test]
fn output_requests_check_the_session_first() {
    let mut inputs: Registry<AudioInputDescriptor, u8> = Registry::new();
    let t = token("abcd");
    let err = output_request::<u8>(None, &t, None).unwrap_err();
    assert_eq!((err.code, err.message.as_str()), (Code::NotFound, "session \"abcd\" does not exist"));
    let err = output_request(None, &t, Some(&inputs)).unwrap_err();
    assert_eq!((err.code, err.message.as_str()), (Code::InvalidArgument, "missing input stream descriptor"));
    let err = output_request(Some(input("mic")), &t, Some(&inputs)).unwrap_err();
    assert_eq!(err.code, Code::NotFound);
    assert!(inputs.insert_new(input("mic"), 1).is_ok());
    assert_eq!(output_request(Some(input("mic")), &t, Some(&inputs)).unwrap().device, "mic");
}

#[test]
fn analyzers_are_registered_once_with_their_input() {
    let mut analyzers: Registry<AudioAnalyzerDescriptor, u8> = Registry::new();
    let created = AudioAnalyzerDescriptor { input: None, name: "Spectral".to_string() };
    let d = register_analyzer(&mut analyzers, &created, &input("mic"), 1).unwrap();
    assert_eq!(d.input.as_ref().unwrap().device, "mic");
    assert_eq!(analyzers.get(&d), Some(&1));
    let err = register_analyzer(&mut analyzers, &created, &input("mic"), 2).unwrap_err();
    assert_eq!((err.code, err.message.as_str()), (Code::AlreadyExists, "audio analyzer already exists"));
    assert_eq!(analyzers.get(&d), Some(&1));
    assert!(register_analyzer(&mut analyzers, &created, &input("line"), 3).is_ok());
    assert_eq!(analyzers.len(), 2);
}

#[test]
fn streams_are_registered_once() {
    let mut inputs: Registry<AudioInputDescriptor, u8> = Registry::new();
    assert!(register_input_stream(&mut inputs, &input("mic"), 1).is_ok());
    let err = register_input_stream(&mut inputs, &input("mic"), 2).unwrap_err();
    assert_eq!((err.code, err.message.as_str()), (Code::AlreadyExists, "input stream already exists"));
    assert_eq!(inputs.get(&input("mic")), Some(&1));
    let mut outputs: Registry<AudioOutputDescriptor, u8> = Registry::new();
    let out = AudioOutputDescriptor {
        input: None,
        backend: "cpal".to_string(),
        host: "ALSA".to_string(),
        device: "speaker".to_string(),
    };
    let d = register_output_stream(&mut outputs, &out, &input("mic"), 1).unwrap();
    assert_eq!(d.input.as_ref().unwrap().device, "mic");
    let err = register_output_stream(&mut outputs, &out, &input("mic"), 2).unwrap_err();
    assert_eq!((err.code, err.message.as_str()), (Code::AlreadyExists, "output stream already exists"));
    assert_eq!(outputs.len(), 1);
}

#[test]
fn known_viewers_are_reattached() {
    let mut viewers: Registry<InstanceId, u8> = Registry::new();
    let id = || InstanceId { id: "1".to_string() };
    assert_eq!(attach_viewer(&mut viewers, id(), 1), Attachment::Added);
    assert_eq!(attach_viewer(&mut viewers, id(), 2), Attachment::Reattached);
    assert_eq!(viewers.get(&id()), Some(&1));
    assert_eq!(viewers.len(), 1);
}

fn config() -> Config {
    let run = StartOpts {
        port: 9000,
        play_file: None,
        max_sessions: None,
        max_viewers: None,
        max_controllers: None,
        max_keepalive_sec: 30,
        no_sound: false,
        led_serial_device: None,
        leds_per_strip: None,
        num_led_strips: None,
    };
    let default = Opts {
        input_device: None,
        output_device: None,
        latency: 150,
        use_portaudio: false,
        commands: None,
    };
    Config { run, default }
}

type TestSession = Session<u8, u8, u8, u8, u8>;

#[test]
fn viewer_ids_open_the_session() {
    let mut sessions: Registry<SessionToken, TestSession> = Registry::new();
    let now = Timestamp { seconds: 10, nanos: 0 };
    let id = new_viewer_instance(&mut sessions, &token("abcd"), config(), now, Some(2)).unwrap();
    assert_eq!(id.id, "1");
    assert_eq!(sessions.len(), 1);
    let session = sessions.get(&token("abcd")).unwrap();
    assert_eq!(session.viewers.len(), 0);
    assert_eq!(session.started, now);
    let mut existing: TestSession = Session::new(token("wxyz"), config(), now);
    assert!(existing.viewers.insert_new(InstanceId { id: "1".to_string() }, 0).is_ok());
    assert!(existing.viewers.insert_new(InstanceId { id: "3".to_string() }, 0).is_ok());
    assert!(sessions.insert_new(token("wxyz"), existing).is_ok());
    let id = new_viewer_instance(&mut sessions, &token("wxyz"), config(), now, Some(5)).unwrap();
    assert_eq!(id.id, "2");
    let err = new_viewer_instance(&mut sessions, &token("wxyz"), config(), now, Some(2)).unwrap_err();
    assert_eq!(err.code, Code::Unavailable);
    assert_eq!(err.message, "maximum number of viewers (2) exceeded");
    assert_eq!(sessions.len(), 2);
}
