//! Audio stream parameters, the configuration of audio inputs, the choice of
//! device and the sound files played through one.
use vstd::prelude::*;
use std::marker::PhantomData;
use vstd::string::StringExecFns;
use crate::cli::Opts;
use crate::descriptors::AudioInputDescriptor;

verus! {

/// The parameters of an audio stream.
#[derive(Clone, Copy, Debug, PartialEq, Eq, Structural)]
pub struct AudioStreamInfo {
    pub sample_rate: u32,
    pub nchannels: u16,
}

impl Default for AudioStreamInfo {
    /// No samples, no channels.
    fn default() -> (info: AudioStreamInfo)
        ensures
            info.sample_rate == 0,
            info.nchannels == 0,
    {
        AudioStreamInfo { sample_rate: 0, nchannels: 0 }
    }
}

/// The choice of audio backend. The builds this crate supports have a
/// single backend, so there is nothing to choose.
#[derive(Clone, Debug)]
pub struct AudioBackendConfig {}

impl Default for AudioBackendConfig {
    fn default() -> (c: AudioBackendConfig) {
        AudioBackendConfig {}
    }
}

/// Which devices an audio input records from and plays back to.
#[derive(Clone, Debug)]
pub struct AudioInputConfig {
    pub backend_config: AudioBackendConfig,
    pub input_device: Option<String>,
    pub output_device: Option<String>,
}

impl Default for AudioInputConfig {
    /// The system's default devices.
    fn default() -> (c: AudioInputConfig)
        ensures
            c.input_device is None,
            c.output_device is None,
    {
        AudioInputConfig { backend_config: AudioBackendConfig::default(), input_device: None, output_device: None }
    }
}

impl From<Opts> for AudioInputConfig {
    /// The devices named on the command line.
    fn from(options: Opts) -> (c: AudioInputConfig) {
        AudioInputConfig {
            backend_config: AudioBackendConfig {},
            input_device: options.input_device,
            output_device: options.output_device,
        }
    }
}

impl vstd::std_specs::convert::FromSpecImpl<Opts> for AudioInputConfig {
    open spec fn obeys_from_spec() -> bool {
        true
    }

    open spec fn from_spec(options: Opts) -> AudioInputConfig {
        AudioInputConfig {
            backend_config: AudioBackendConfig {},
            input_device: options.input_device,
            output_device: options.output_device,
        }
    }
}

/// The shape of a block of interleaved samples: one row per frame, one
/// column per channel. A block that is not a whole number of frames has no
/// such shape.
pub fn frame_shape(num_samples: usize, nchannels: u16) -> (shape: Option<(usize, usize)>)
    requires
        nchannels > 0,
    ensures
        num_samples as int % (nchannels as int) == 0 <==> shape is Some,
        shape matches Some(s) ==> s.0 == num_samples as int / (nchannels as int) && s.1 == nchannels
            && s.0 * s.1 == num_samples,
{
    let c = nchannels as usize;
    let r = num_samples / c;
    if num_samples % c == 0 {
        proof {
            vstd::arithmetic::div_mod::lemma_fundamental_div_mod(num_samples as int, c as int);
            vstd::arithmetic::mul::lemma_mul_is_commutative(c as int, r as int);
        }
        Some((r, c))
    } else {
        None
    }
}

/// Which device of a host streams audio.
#[derive(Debug, Clone, Copy, PartialEq, Eq, Structural)]
pub enum DeviceChoice {
    /// The host's default device.
    Default,
    /// The device at this position in the host's device list.
    Listed(usize),
}

/// Whether the device listed as `name` is called `wanted`; a device whose
/// name the host cannot tell is called nothing.
pub open spec fn is_called(name: Option<String>, wanted: Seq<char>) -> bool {
    name matches Some(n) && n@ == wanted
}

/// The message of a device that cannot be found: `prefix`, then the name
/// asked for, or `default`, in double quotes.
pub open spec fn missing_device_message(prefix: Seq<char>, wanted: Option<String>) -> Seq<char> {
    prefix + "\""@ + match wanted {
        Some(w) => w@,
        None => "default"@,
    } + "\""@
}

fn missing_device(prefix: &str, wanted: &Option<String>) -> (m: String)
    ensures
        m@ == missing_device_message(prefix@, *wanted),
{
    let mut m = String::from_str(prefix);
    m.append("\"");
    match wanted {
        Some(w) => m.append(w.as_str()),
        None => m.append("default"),
    }
    m.append("\"");
    m
}

/// What choosing a device gives (see `select_device`).
pub open spec fn device_selected(
    names: Seq<Option<String>>,
    has_default: bool,
    wanted: Option<String>,
    prefix: Seq<char>,
    res: Result<DeviceChoice, String>,
) -> bool {
    match wanted {
        None => if has_default {
            res == Ok::<DeviceChoice, String>(DeviceChoice::Default)
        } else {
            res matches Err(m) && m@ == missing_device_message(prefix, wanted)
        },
        Some(w) => match res {
            Ok(DeviceChoice::Listed(i)) => i < names.len() && is_called(names[i as int], w@)
                && forall|j: int| 0 <= j < i ==> !is_called(#[trigger] names[j], w@),
            Ok(DeviceChoice::Default) => false,
            Err(m) => m@ == missing_device_message(prefix, wanted)
                && forall|j: int| 0 <= j < names.len() ==> !is_called(#[trigger] names[j], w@),
        },
    }
}

/// The device to stream with: the first listed device called `wanted`, or
/// the default device when no name is asked for. `names` holds the names of
/// the host's devices in the order the host lists them, `has_default`
/// whether the host has a default device; when there is no such device the
/// failure message starts with `prefix`.
pub fn select_device(
    names: &Vec<Option<String>>,
    has_default: bool,
    wanted: &Option<String>,
    prefix: &str,
) -> (res: Result<DeviceChoice, String>)
    ensures
        device_selected(names@, has_default, *wanted, prefix@, res),
{
    match wanted {
        None => {
            if has_default {
                Ok(DeviceChoice::Default)
            } else {
                Err(missing_device(prefix, wanted))
            }
        },
        Some(w) => {
            let mut i: usize = 0;
            while i < names.len()
                invariant
                    *wanted == Some(*w),
                    i <= names.len(),
                    forall|j: int| 0 <= j < i ==> !is_called(#[trigger] names@[j], w@),
                decreases names.len() - i,
            {
                let found = match &names[i] {
                    Some(n) => *n == *w,
                    None => false,
                };
                if found {
                    return Ok(DeviceChoice::Listed(i));
                }
                i = i + 1;
            }
            Err(missing_device(prefix, wanted))
        },
    }
}

/// The start of the message of an output device that cannot be found.
pub const OUTPUT_DEVICE_MISSING: &'static str = "unable to find selected output device: ";

/// The start of the message of an input device that cannot be found.
pub const INPUT_DEVICE_MISSING: &'static str = "unable to find selected input device: ";

/// The output device to stream to (see `select_device`), failing with the
/// missing-device message of an output device.
pub fn output_device_choice(names: &Vec<Option<String>>, has_default: bool, wanted: &Option<String>) -> (res: Result<
    DeviceChoice,
    String,
>)
    ensures
        device_selected(names@, has_default, *wanted, OUTPUT_DEVICE_MISSING@, res),
{
    select_device(names, has_default, wanted, OUTPUT_DEVICE_MISSING)
}

/// The input device to record from (see `select_device`), failing with the
/// missing-device message of an input device.
pub fn input_device_choice(names: &Vec<Option<String>>, has_default: bool, wanted: &Option<String>) -> (res: Result<
    DeviceChoice,
    String,
>)
    ensures
        device_selected(names@, has_default, *wanted, INPUT_DEVICE_MISSING@, res),
{
    select_device(names, has_default, wanted, INPUT_DEVICE_MISSING)
}

/// A sound file played through an output device: the host and device it
/// plays on, by name, and the stream parameters of the device.
#[derive(Debug)]
pub struct CpalAudioFile<T> {
    pub host: String,
    pub path: String,
    pub looped: bool,
    pub output_device: String,
    pub output_config: AudioStreamInfo,
    pub phantom: PhantomData<T>,
}

impl<T> CpalAudioFile<T> {
    /// A file to play, `looped` or once, on the default output device of the
    /// host `host` (the output configuration names no device).
    /// `default_output` is that device's name and the result of asking it for
    /// its default stream parameters, `None` when the host has no default
    /// output device. Without the device the file is refused with the
    /// missing-device message of an output device; a failed query of its
    /// parameters is passed on.
    pub fn new(
        path: String,
        looped: bool,
        host: String,
        default_output: Option<(String, Result<AudioStreamInfo, String>)>,
    ) -> (res: Result<CpalAudioFile<T>, String>)
        ensures
            match default_output {
                None => res matches Err(m) && m@ == missing_device_message(OUTPUT_DEVICE_MISSING@, None),
                Some((_, Err(e))) => res matches Err(m) && m@ == e@,
                Some((name, Ok(info))) => res matches Ok(f) && {
                    &&& f.path@ == path@
                    &&& f.looped == looped
                    &&& f.host@ == host@
                    &&& f.output_device@ == name@
                    &&& f.output_config == info
                },
            },
    {
        match default_output {
            None => Err(missing_device(OUTPUT_DEVICE_MISSING, &None)),
            Some((_, Err(e))) => Err(e),
            Some((output_device, Ok(output_config))) => Ok(
                CpalAudioFile { host, path, looped, output_device, output_config, phantom: PhantomData },
            ),
        }
    }

    /// The input the file stands for: the `cpal` backend, the host and
    /// device it plays on, and the file.
    pub fn descriptor(&self) -> (d: AudioInputDescriptor)
        ensures
            d.backend@ == "cpal"@,
            d.host@ == self.host@,
            d.device@ == self.output_device@,
            d.file@ == self.path@,
    {
        AudioInputDescriptor {
            backend: String::from_str("cpal"),
            host: self.host.clone(),
            device: self.output_device.clone(),
            file: self.path.clone(),
        }
    }

    /// The stream parameters of the file's output device.
    pub fn input_stream_params(&self) -> (info: AudioStreamInfo)
        ensures
            info == self.output_config,
    {
        self.output_config
    }
}

} // verus!
