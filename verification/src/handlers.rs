//! The checks the remote-control requests make before they act: required
//! request fields, lookups in the session stores, and duplicate streams.
use vstd::prelude::*;
use vstd::string::StringExecFns;
use crate::controller::{lights_request_ok, validate_lights};
use crate::descriptors::{
    AudioAnalyzerDescriptor, AudioInputDescriptor, AudioOutputDescriptor, input_model, input_text, optional_input_text,
};
use crate::led::Lights;
use crate::registry::{Keyed, Registry};
use crate::session::{Code, InstanceId, SessionToken, Status};

verus! {

/// A failure of the given class with the given message.
pub fn status(code: Code, message: String) -> (s: Status)
    ensures
        s.code == code,
        s.message@ == message@,
{
    Status { code, message }
}

/// A field the request must carry: missing, the request is refused as an
/// invalid argument with `message`.
pub fn require_field<T>(field: Option<T>, message: &str) -> (r: Result<T, Status>)
    ensures
        match field {
            Some(v) => r == Ok::<T, Status>(v),
            None => r matches Err(s) && s.code == Code::InvalidArgument && s.message@ == message@,
        },
{
    match field {
        Some(v) => Ok(v),
        None => Err(Status { code: Code::InvalidArgument, message: String::from_str(message) }),
    }
}

/// The entry of a session store that a request names: missing, the request
/// is refused as not found with `message`.
pub fn lookup<'a, K: Keyed, V>(store: &'a Registry<K, V>, key: &K, message: String) -> (r: Result<&'a V, Status>)
    ensures
        store@.dom().contains(key.model()) ==> (r matches Ok(v) && *v == store@[key.model()]),
        !store@.dom().contains(key.model()) ==> (r matches Err(s) && s.code == Code::NotFound
            && s.message@ == message@),
{
    match store.get(key) {
        Some(v) => Ok(v),
        None => Err(Status { code: Code::NotFound, message }),
    }
}

/// Take out the entry of a session store that a request names: missing,
/// the request is refused as not found with `message`.
pub fn take<K: Keyed, V>(store: &mut Registry<K, V>, key: &K, message: String) -> (r: Result<V, Status>)
    ensures
        final(store)@ == old(store)@.remove(key.model()),
        old(store)@.dom().contains(key.model()) ==> (r matches Ok(v) && v == old(store)@[key.model()]),
        !old(store)@.dom().contains(key.model()) ==> (r matches Err(s) && s.code == Code::NotFound
            && s.message@ == message@),
{
    match store.remove(key) {
        Some(v) => Ok(v),
        None => Err(Status { code: Code::NotFound, message }),
    }
}

/// Refuse a stream or analyzer whose key the session store already has.
pub fn ensure_new<K: Keyed, V>(store: &Registry<K, V>, key: &K, message: &str) -> (r: Result<(), Status>)
    ensures
        !store@.dom().contains(key.model()) <==> r is Ok,
        r matches Err(s) ==> s.code == Code::AlreadyExists && s.message@ == message@,
{
    if store.contains_key(key) {
        Err(Status { code: Code::AlreadyExists, message: String::from_str(message) })
    } else {
        Ok(())
    }
}

fn wrap(prefix: &str, middle: &String, suffix: &str) -> (m: String)
    ensures
        m@ == prefix@ + middle@ + suffix@,
{
    let mut m = String::from_str(prefix);
    m.append(middle.as_str());
    m.append(suffix);
    m
}

/// The message of a request naming a session that does not exist.
pub open spec fn session_not_found_text(token: SessionToken) -> Seq<char> {
    "session "@ + ("\""@ + token.token@ + "\""@) + " does not exist"@
}

/// The message of a request naming an input the session does not have.
pub open spec fn input_not_found_text(input: AudioInputDescriptor) -> Seq<char> {
    "no input "@ + input_text(input) + " found"@
}

/// The message of a request naming an analyzer the session does not have.
pub open spec fn analyzer_not_found_text(analyzer: AudioAnalyzerDescriptor) -> Seq<char> {
    "no audio analyzer "@ + ("("@ + optional_input_text(analyzer.input) + " -> [ANALYZER,"@
        + analyzer.name@ + "])"@) + " found"@
}

/// The message of a request naming a viewer the session does not have.
pub open spec fn viewer_not_found_text(id: InstanceId) -> Seq<char> {
    "no viewer instance "@ + ("\""@ + id.id@ + "\""@) + " found"@
}

/// The message of a request naming a session that does not exist.
pub fn session_not_found(token: &SessionToken) -> (m: String)
    ensures
        m@ == session_not_found_text(*token),
{
    wrap("session ", &token.text(), " does not exist")
}

/// The message of a request naming an input the session does not have.
pub fn input_not_found(input: &AudioInputDescriptor) -> (m: String)
    ensures
        m@ == input_not_found_text(*input),
{
    wrap("no input ", &input.text(), " found")
}

/// The message of a request naming an analyzer the session does not have.
pub fn analyzer_not_found(analyzer: &AudioAnalyzerDescriptor) -> (m: String)
    ensures
        m@ == analyzer_not_found_text(*analyzer),
{
    wrap("no audio analyzer ", &analyzer.text(), " found")
}

/// The message of a request naming a viewer the session does not have.
pub fn viewer_not_found(id: &InstanceId) -> (m: String)
    ensures
        m@ == viewer_not_found_text(*id),
{
    wrap("no viewer instance ", &id.text(), " found")
}

/// The message of a disconnect from a viewer the session does not have.
pub fn viewer_does_not_exist(id: &InstanceId) -> (m: String)
    ensures
        m@ == "viewer instance "@ + ("\""@ + id.id@ + "\""@) + " does not exist"@,
{
    wrap("viewer instance ", &id.text(), " does not exist")
}

/// Whether a failure has the given class and message.
pub open spec fn fails_with<T>(res: Result<T, Status>, code: Code, message: Seq<char>) -> bool {
    res matches Err(s) && s.code == code && s.message@ == message
}

/// The checks of a request for lights to follow an analyzer, in the order
/// they are made: the lights (see `validate_lights`), the analyzer
/// descriptor, the session (`session_analyzers` is the analyzer store of
/// the session the request names, `None` when there is no such session),
/// and the analyzer in it.
pub fn lights_request<V>(
    lights: Option<Lights>,
    analyzer: Option<AudioAnalyzerDescriptor>,
    token: &SessionToken,
    session_analyzers: Option<&Registry<AudioAnalyzerDescriptor, V>>,
) -> (res: Result<(Lights, AudioAnalyzerDescriptor), Status>)
    ensures
        lights is None ==> fails_with(res, Code::InvalidArgument, "missing lights"@),
        lights matches Some(l) && l.serial_port@.len() == 0 ==> fails_with(
            res,
            Code::InvalidArgument,
            "missing light serial connection port"@,
        ),
        lights matches Some(l) && l.serial_port@.len() > 0 && l.strips.len() == 0 ==> fails_with(
            res,
            Code::InvalidArgument,
            "no light strips"@,
        ),
        lights_request_ok(lights) ==> match (analyzer, session_analyzers) {
            (None, _) => fails_with(res, Code::InvalidArgument, "missing audio analyzer descriptor"@),
            (Some(_), None) => fails_with(res, Code::NotFound, session_not_found_text(*token)),
            (Some(a), Some(st)) => if st@.dom().contains(a.model()) {
                res == Ok::<(Lights, AudioAnalyzerDescriptor), Status>((lights->0, a))
            } else {
                fails_with(res, Code::NotFound, analyzer_not_found_text(a))
            },
        },
{
    let lights = match validate_lights(lights) {
        Ok(l) => l,
        Err(s) => return Err(s),
    };
    let analyzer = match require_field(analyzer, "missing audio analyzer descriptor") {
        Ok(a) => a,
        Err(s) => return Err(s),
    };
    let store = match session_analyzers {
        Some(st) => st,
        None => return Err(Status { code: Code::NotFound, message: session_not_found(token) }),
    };
    if !store.contains_key(&analyzer) {
        return Err(Status { code: Code::NotFound, message: analyzer_not_found(&analyzer) });
    }
    Ok((lights, analyzer))
}

/// The checks of a request to forward an analyzer's results to a viewer, in
/// the order they are made: the instance id, the analyzer descriptor, the
/// session (`session_stores` holds the analyzer and viewer stores of the
/// session the request names, `None` when there is no such session), the
/// analyzer in it and the viewer in it.
pub fn subscription_request<A, W>(
    instance: Option<InstanceId>,
    analyzer: Option<AudioAnalyzerDescriptor>,
    token: &SessionToken,
    session_stores: Option<(&Registry<AudioAnalyzerDescriptor, A>, &Registry<InstanceId, W>)>,
) -> (res: Result<(InstanceId, AudioAnalyzerDescriptor), Status>)
    ensures
        match (instance, analyzer, session_stores) {
            (None, _, _) => fails_with(res, Code::InvalidArgument, "missing instance id"@),
            (Some(_), None, _) => fails_with(res, Code::InvalidArgument, "missing audio analyzer descriptor"@),
            (Some(_), Some(_), None) => fails_with(res, Code::NotFound, session_not_found_text(*token)),
            (Some(i), Some(a), Some(stores)) => if !stores.0@.dom().contains(a.model()) {
                fails_with(res, Code::NotFound, analyzer_not_found_text(a))
            } else if !stores.1@.dom().contains(i.model()) {
                fails_with(res, Code::NotFound, viewer_not_found_text(i))
            } else {
                res == Ok::<(InstanceId, AudioAnalyzerDescriptor), Status>((i, a))
            },
        },
{
    let instance = match require_field(instance, "missing instance id") {
        Ok(i) => i,
        Err(s) => return Err(s),
    };
    let analyzer = match require_field(analyzer, "missing audio analyzer descriptor") {
        Ok(a) => a,
        Err(s) => return Err(s),
    };
    let (analyzers, viewers) = match session_stores {
        Some(stores) => stores,
        None => return Err(Status { code: Code::NotFound, message: session_not_found(token) }),
    };
    if !analyzers.contains_key(&analyzer) {
        return Err(Status { code: Code::NotFound, message: analyzer_not_found(&analyzer) });
    }
    if !viewers.contains_key(&instance) {
        return Err(Status { code: Code::NotFound, message: viewer_not_found(&instance) });
    }
    Ok((instance, analyzer))
}

/// The kinds of analyzer a request can ask for.
#[derive(Debug, Clone, Copy, PartialEq, Eq, Structural)]
pub enum AnalyzerKind {
    Spectral,
    Bpm,
}

/// The checks of a request to add an analyzer, in the order they are made:
/// the analyzer field (`analyzer` is `None` when the request lacks it,
/// `Some(None)` when it names no kind), the input descriptor, the session
/// (`session_inputs` is the input store of the session the request names,
/// `None` when there is no such session), the input in it, and only then
/// the kind of analyzer.
pub fn analyzer_request<I>(
    analyzer: Option<Option<AnalyzerKind>>,
    input: Option<AudioInputDescriptor>,
    token: &SessionToken,
    session_inputs: Option<&Registry<AudioInputDescriptor, I>>,
) -> (res: Result<(AnalyzerKind, AudioInputDescriptor), Status>)
    ensures
        match (analyzer, input, session_inputs) {
            (None, _, _) => fails_with(res, Code::InvalidArgument, "missing audio analyzer"@),
            (Some(_), None, _) => fails_with(res, Code::InvalidArgument, "missing input stream descriptor"@),
            (Some(_), Some(_), None) => fails_with(res, Code::NotFound, session_not_found_text(*token)),
            (Some(kind), Some(i), Some(st)) => if !st@.dom().contains(i.model()) {
                fails_with(res, Code::NotFound, input_not_found_text(i))
            } else {
                match kind {
                    None => fails_with(res, Code::InvalidArgument, "missing analyzer"@),
                    Some(k) => res == Ok::<(AnalyzerKind, AudioInputDescriptor), Status>((k, i)),
                }
            },
        },
{
    let kind = match require_field(analyzer, "missing audio analyzer") {
        Ok(k) => k,
        Err(s) => return Err(s),
    };
    let input = match require_field(input, "missing input stream descriptor") {
        Ok(i) => i,
        Err(s) => return Err(s),
    };
    let store = match session_inputs {
        Some(st) => st,
        None => return Err(Status { code: Code::NotFound, message: session_not_found(token) }),
    };
    if !store.contains_key(&input) {
        return Err(Status { code: Code::NotFound, message: input_not_found(&input) });
    }
    match require_field(kind, "missing analyzer") {
        Ok(k) => Ok((k, input)),
        Err(s) => Err(s),
    }
}

/// The checks of a request to add an output stream, in the order they are
/// made: the session first (`session_inputs` is the input store of the
/// session the request names, `None` when there is no such session), then
/// the input descriptor, then the input in the session.
pub fn output_request<I>(
    input: Option<AudioInputDescriptor>,
    token: &SessionToken,
    session_inputs: Option<&Registry<AudioInputDescriptor, I>>,
) -> (res: Result<AudioInputDescriptor, Status>)
    ensures
        match (session_inputs, input) {
            (None, _) => fails_with(res, Code::NotFound, session_not_found_text(*token)),
            (Some(_), None) => fails_with(res, Code::InvalidArgument, "missing input stream descriptor"@),
            (Some(st), Some(i)) => if st@.dom().contains(i.model()) {
                res == Ok::<AudioInputDescriptor, Status>(i)
            } else {
                fails_with(res, Code::NotFound, input_not_found_text(i))
            },
        },
{
    let store = match session_inputs {
        Some(st) => st,
        None => return Err(Status { code: Code::NotFound, message: session_not_found(token) }),
    };
    let input = match require_field(input, "missing input stream descriptor") {
        Ok(i) => i,
        Err(s) => return Err(s),
    };
    if !store.contains_key(&input) {
        return Err(Status { code: Code::NotFound, message: input_not_found(&input) });
    }
    Ok(input)
}

/// Add a new analyzer `node` to the session's analyzers. Its descriptor is
/// the `created` analyzer's, fed by `input`; an analyzer with that
/// descriptor already there refuses the request and leaves the store as it
/// was.
pub fn register_analyzer<V>(
    analyzers: &mut Registry<AudioAnalyzerDescriptor, V>,
    created: &AudioAnalyzerDescriptor,
    input: &AudioInputDescriptor,
    node: V,
) -> (res: Result<AudioAnalyzerDescriptor, Status>)
    ensures
        res matches Ok(d) ==> {
            &&& d.input matches Some(i) && input_model(i) == input_model(*input)
            &&& d.name@ == created.name@
            &&& !old(analyzers)@.dom().contains(d.model())
            &&& final(analyzers)@ == old(analyzers)@.insert(d.model(), node)
        },
        res is Err ==> final(analyzers)@ == old(analyzers)@ && fails_with(
            res,
            Code::AlreadyExists,
            "audio analyzer already exists"@,
        ),
        res is Err <==> old(analyzers)@.dom().contains(
            (Some(input_model(*input)), created.name@),
        ),
{
    let d = created.with_input(input);
    if analyzers.contains_key(&d) {
        return Err(Status { code: Code::AlreadyExists, message: String::from_str("audio analyzer already exists") });
    }
    let key = d.duplicate();
    match analyzers.insert_new(key, node) {
        Ok(()) => Ok(d),
        Err(_) => {
            assert(false);
            Err(Status { code: Code::AlreadyExists, message: String::from_str("audio analyzer already exists") })
        },
    }
}

/// Add a new output stream `node` to the session's outputs. Its descriptor
/// is the `created` output's, fed by `input`; an output with that
/// descriptor already there refuses the request and leaves the store as it
/// was.
pub fn register_output_stream<V>(
    outputs: &mut Registry<AudioOutputDescriptor, V>,
    created: &AudioOutputDescriptor,
    input: &AudioInputDescriptor,
    node: V,
) -> (res: Result<AudioOutputDescriptor, Status>)
    ensures
        res matches Ok(d) ==> {
            &&& d.input matches Some(i) && input_model(i) == input_model(*input)
            &&& d.backend@ == created.backend@ && d.host@ == created.host@ && d.device@ == created.device@
            &&& !old(outputs)@.dom().contains(d.model())
            &&& final(outputs)@ == old(outputs)@.insert(d.model(), node)
        },
        res is Err ==> final(outputs)@ == old(outputs)@ && fails_with(
            res,
            Code::AlreadyExists,
            "output stream already exists"@,
        ),
        res is Err <==> old(outputs)@.dom().contains(
            (Some(input_model(*input)), created.backend@, created.host@, created.device@),
        ),
{
    let d = created.with_input(input);
    if outputs.contains_key(&d) {
        return Err(Status { code: Code::AlreadyExists, message: String::from_str("output stream already exists") });
    }
    let key = d.duplicate();
    match outputs.insert_new(key, node) {
        Ok(()) => Ok(d),
        Err(_) => {
            assert(false);
            Err(Status { code: Code::AlreadyExists, message: String::from_str("output stream already exists") })
        },
    }
}

/// Add a new input stream `node` to the session's inputs under its
/// `descriptor`; an input with that descriptor already there refuses the
/// request and leaves the store as it was.
pub fn register_input_stream<V>(
    inputs: &mut Registry<AudioInputDescriptor, V>,
    descriptor: &AudioInputDescriptor,
    node: V,
) -> (res: Result<AudioInputDescriptor, Status>)
    ensures
        res matches Ok(d) ==> input_model(d) == input_model(*descriptor) && final(inputs)@ == old(
            inputs,
        )@.insert(d.model(), node),
        res is Err ==> final(inputs)@ == old(inputs)@ && fails_with(
            res,
            Code::AlreadyExists,
            "input stream already exists"@,
        ),
        res is Err <==> old(inputs)@.dom().contains(descriptor.model()),
{
    if inputs.contains_key(descriptor) {
        return Err(Status { code: Code::AlreadyExists, message: String::from_str("input stream already exists") });
    }
    match inputs.insert_new(descriptor.duplicate(), node) {
        Ok(()) => Ok(descriptor.duplicate()),
        Err(_) => {
            assert(false);
            Err(Status { code: Code::AlreadyExists, message: String::from_str("input stream already exists") })
        },
    }
}

/// What happens when a viewer subscribes under an id.
#[derive(Debug, Clone, Copy, PartialEq, Eq, Structural)]
pub enum Attachment {
    /// The session already had a viewer with the id: its connection is
    /// handed over to the new stream, and the store stays as it was.
    Reattached,
    /// The viewer is new and was added to the store.
    Added,
}

/// Subscribe a viewer under `id`: a viewer already there is re-attached
/// and the store left as it was; otherwise `viewer` is added.
pub fn attach_viewer<W>(viewers: &mut Registry<InstanceId, W>, id: InstanceId, viewer: W) -> (a: Attachment)
    ensures
        old(viewers)@.dom().contains(id.id@) ==> a == Attachment::Reattached && final(viewers)@ == old(viewers)@,
        !old(viewers)@.dom().contains(id.id@) ==> a == Attachment::Added && final(viewers)@ == old(
            viewers,
        )@.insert(id.id@, viewer),
{
    match viewers.insert_new(id, viewer) {
        Ok(()) => Attachment::Added,
        Err(_) => Attachment::Reattached,
    }
}

} // verus!
