//! Names of the audio streams and analyzers of a session, and the keys of
//! the session stores.
use vstd::prelude::*;
use vstd::string::StringExecFns;
use crate::registry::Keyed;
use crate::session::{InstanceId, SessionToken};

verus! {

/// An audio input: the backend, host and device it records from, or the
/// file it plays.
#[derive(Debug, Clone)]
pub struct AudioInputDescriptor {
    pub backend: String,
    pub host: String,
    pub device: String,
    pub file: String,
}

/// An audio output fed by an input.
#[derive(Debug, Clone)]
pub struct AudioOutputDescriptor {
    pub input: Option<AudioInputDescriptor>,
    pub backend: String,
    pub host: String,
    pub device: String,
}

/// An analyzer fed by an input.
#[derive(Debug, Clone)]
pub struct AudioAnalyzerDescriptor {
    pub input: Option<AudioInputDescriptor>,
    pub name: String,
}

/// What identifies an input.
pub open spec fn input_model(d: AudioInputDescriptor) -> (Seq<char>, Seq<char>, Seq<char>, Seq<char>) {
    (d.backend@, d.host@, d.device@, d.file@)
}

/// What identifies an optional input.
pub open spec fn optional_input_model(d: Option<AudioInputDescriptor>) -> Option<
    (Seq<char>, Seq<char>, Seq<char>, Seq<char>),
> {
    match d {
        Some(i) => Some(input_model(i)),
        None => None,
    }
}

fn same_text(a: &String, b: &String) -> (same: bool)
    ensures
        same == (a@ == b@),
{
    *a == *b
}

fn same_input(a: &AudioInputDescriptor, b: &AudioInputDescriptor) -> (same: bool)
    ensures
        same == (input_model(*a) == input_model(*b)),
{
    same_text(&a.backend, &b.backend) && same_text(&a.host, &b.host) && same_text(&a.device, &b.device)
        && same_text(&a.file, &b.file)
}

fn same_optional_input(a: &Option<AudioInputDescriptor>, b: &Option<AudioInputDescriptor>) -> (same: bool)
    ensures
        same == (optional_input_model(*a) == optional_input_model(*b)),
{
    match (a, b) {
        (Some(x), Some(y)) => same_input(x, y),
        (None, None) => true,
        _ => false,
    }
}

fn copy_input(a: &AudioInputDescriptor) -> (c: AudioInputDescriptor)
    ensures
        input_model(c) == input_model(*a),
{
    AudioInputDescriptor {
        backend: a.backend.clone(),
        host: a.host.clone(),
        device: a.device.clone(),
        file: a.file.clone(),
    }
}

fn copy_optional_input(a: &Option<AudioInputDescriptor>) -> (c: Option<AudioInputDescriptor>)
    ensures
        optional_input_model(c) == optional_input_model(*a),
{
    match a {
        Some(x) => Some(copy_input(x)),
        None => None,
    }
}

impl Keyed for AudioInputDescriptor {
    type Model = (Seq<char>, Seq<char>, Seq<char>, Seq<char>);

    open spec fn model(&self) -> Self::Model {
        input_model(*self)
    }

    fn same_as(&self, other: &Self) -> (same: bool) {
        same_input(self, other)
    }

    fn duplicate(&self) -> (k: Self) {
        copy_input(self)
    }
}

impl Keyed for AudioOutputDescriptor {
    type Model = (Option<(Seq<char>, Seq<char>, Seq<char>, Seq<char>)>, Seq<char>, Seq<char>, Seq<char>);

    open spec fn model(&self) -> Self::Model {
        (optional_input_model(self.input), self.backend@, self.host@, self.device@)
    }

    fn same_as(&self, other: &Self) -> (same: bool) {
        same_optional_input(&self.input, &other.input) && same_text(&self.backend, &other.backend)
            && same_text(&self.host, &other.host) && same_text(&self.device, &other.device)
    }

    fn duplicate(&self) -> (k: Self) {
        AudioOutputDescriptor {
            input: copy_optional_input(&self.input),
            backend: self.backend.clone(),
            host: self.host.clone(),
            device: self.device.clone(),
        }
    }
}

impl Keyed for AudioAnalyzerDescriptor {
    type Model = (Option<(Seq<char>, Seq<char>, Seq<char>, Seq<char>)>, Seq<char>);

    open spec fn model(&self) -> Self::Model {
        (optional_input_model(self.input), self.name@)
    }

    fn same_as(&self, other: &Self) -> (same: bool) {
        same_optional_input(&self.input, &other.input) && same_text(&self.name, &other.name)
    }

    fn duplicate(&self) -> (k: Self) {
        AudioAnalyzerDescriptor { input: copy_optional_input(&self.input), name: self.name.clone() }
    }
}

impl Keyed for SessionToken {
    type Model = Seq<char>;

    open spec fn model(&self) -> Seq<char> {
        self.token@
    }

    fn same_as(&self, other: &Self) -> (same: bool) {
        same_text(&self.token, &other.token)
    }

    fn duplicate(&self) -> (k: Self) {
        SessionToken { token: self.token.clone() }
    }
}

impl Keyed for InstanceId {
    type Model = Seq<char>;

    open spec fn model(&self) -> Seq<char> {
        self.id@
    }

    fn same_as(&self, other: &Self) -> (same: bool) {
        same_text(&self.id, &other.id)
    }

    fn duplicate(&self) -> (k: Self) {
        InstanceId { id: self.id.clone() }
    }
}

/// The text of an input: `[INPUT,backend,host,device]`.
pub open spec fn input_text(d: AudioInputDescriptor) -> Seq<char> {
    "[INPUT,"@ + d.backend@ + ","@ + d.host@ + ","@ + d.device@ + "]"@
}

/// The text of an optional input.
pub open spec fn optional_input_text(d: Option<AudioInputDescriptor>) -> Seq<char> {
    match d {
        Some(i) => "Some("@ + input_text(i) + ")"@,
        None => "None"@,
    }
}

impl AudioInputDescriptor {
    /// The text the input is shown as.
    pub fn text(&self) -> (t: String)
        ensures
            t@ == input_text(*self),
    {
        let mut t = String::from_str("[INPUT,");
        t.append(self.backend.as_str());
        t.append(",");
        t.append(self.host.as_str());
        t.append(",");
        t.append(self.device.as_str());
        t.append("]");
        t
    }
}

fn optional_text(d: &Option<AudioInputDescriptor>) -> (t: String)
    ensures
        t@ == optional_input_text(*d),
{
    match d {
        Some(i) => {
            let mut t = String::from_str("Some(");
            t.append(i.text().as_str());
            t.append(")");
            t
        },
        None => String::from_str("None"),
    }
}

impl AudioOutputDescriptor {
    /// The text the output is shown as: `(input -> [OUTPUT,backend,host,device])`.
    pub fn text(&self) -> (t: String)
        ensures
            t@ == "("@ + optional_input_text(self.input) + " -> [OUTPUT,"@ + self.backend@ + ","@
                + self.host@ + ","@ + self.device@ + "])"@,
    {
        let mut t = String::from_str("(");
        t.append(optional_text(&self.input).as_str());
        t.append(" -> [OUTPUT,");
        t.append(self.backend.as_str());
        t.append(",");
        t.append(self.host.as_str());
        t.append(",");
        t.append(self.device.as_str());
        t.append("])");
        t
    }

    /// The output as fed by `input`.
    pub fn with_input(&self, input: &AudioInputDescriptor) -> (d: AudioOutputDescriptor)
        ensures
            d.input matches Some(i) && input_model(i) == input_model(*input),
            d.backend@ == self.backend@,
            d.host@ == self.host@,
            d.device@ == self.device@,
    {
        AudioOutputDescriptor {
            input: Some(copy_input(input)),
            backend: self.backend.clone(),
            host: self.host.clone(),
            device: self.device.clone(),
        }
    }
}

impl AudioAnalyzerDescriptor {
    /// The text the analyzer is shown as: `(input -> [ANALYZER,name])`.
    pub fn text(&self) -> (t: String)
        ensures
            t@ == "("@ + optional_input_text(self.input) + " -> [ANALYZER,"@ + self.name@ + "])"@,
    {
        let mut t = String::from_str("(");
        t.append(optional_text(&self.input).as_str());
        t.append(" -> [ANALYZER,");
        t.append(self.name.as_str());
        t.append("])");
        t
    }

    /// The analyzer as fed by `input`.
    pub fn with_input(&self, input: &AudioInputDescriptor) -> (d: AudioAnalyzerDescriptor)
        ensures
            d.input matches Some(i) && input_model(i) == input_model(*input),
            d.name@ == self.name@,
    {
        AudioAnalyzerDescriptor { input: Some(copy_input(input)), name: self.name.clone() }
    }
}

impl SessionToken {
    /// The text the token is shown as: the token in double quotes.
    pub fn text(&self) -> (t: String)
        ensures
            t@ == "\""@ + self.token@ + "\""@,
    {
        let mut t = String::from_str("\"");
        t.append(self.token.as_str());
        t.append("\"");
        t
    }
}

impl InstanceId {
    /// The text the id is shown as: the id in double quotes.
    pub fn text(&self) -> (t: String)
        ensures
            t@ == "\""@ + self.id@ + "\""@,
    {
        let mut t = String::from_str("\"");
        t.append(self.id.as_str());
        t.append("\"");
        t
    }
}

/// Two inputs are the same key of a store exactly when their backends,
/// hosts, devices and files are all equal.
pub proof fn lemma_input_key_is_every_field(a: AudioInputDescriptor, b: AudioInputDescriptor)
    ensures
        a.model() == b.model() <==> (a.backend@ == b.backend@ && a.host@ == b.host@ && a.device@ == b.device@
            && a.file@ == b.file@),
{
}

/// Two outputs are the same key exactly when they are fed by the same input
/// (or both by none) and their backends, hosts and devices are equal.
pub proof fn lemma_output_key_is_every_field(a: AudioOutputDescriptor, b: AudioOutputDescriptor)
    ensures
        a.model() == b.model() <==> ((a.input is None && b.input is None) || (a.input matches Some(x)
            && b.input matches Some(y) && x.backend@ == y.backend@ && x.host@ == y.host@ && x.device@ == y.device@
            && x.file@ == y.file@)) && a.backend@ == b.backend@ && a.host@ == b.host@ && a.device@ == b.device@,
{
}

/// Two analyzers are the same key exactly when they are fed by the same
/// input (or both by none) and have the same name.
pub proof fn lemma_analyzer_key_is_every_field(a: AudioAnalyzerDescriptor, b: AudioAnalyzerDescriptor)
    ensures
        a.model() == b.model() <==> ((a.input is None && b.input is None) || (a.input matches Some(x)
            && b.input matches Some(y) && x.backend@ == y.backend@ && x.host@ == y.host@ && x.device@ == y.device@
            && x.file@ == y.file@)) && a.name@ == b.name@,
{
}

} // verus!
