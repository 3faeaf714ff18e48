//! Session and instance bookkeeping of the server: instance ids, session
//! tokens, connection status and the request metadata that names them.
use vstd::prelude::*;
use vstd::string::StringExecFns;
use crate::decimal::{decimal, u64_to_decimal, lemma_decimal_injective};
use crate::registry::{Keyed, Registry};

verus! {

/// The token that names a session.
#[derive(Debug, Clone)]
pub struct SessionToken {
    pub token: String,
}

/// The id of a viewer or controller instance within a session.
#[derive(Debug, Clone)]
pub struct InstanceId {
    pub id: String,
}

/// A point in time: seconds and nanoseconds since the Unix epoch.
#[derive(Debug, Clone, Copy, PartialEq, Eq, Structural)]
pub struct Timestamp {
    pub seconds: i64,
    pub nanos: i32,
}

/// Whether an instance is currently reachable.
#[derive(Debug, Clone, Copy, PartialEq, Eq, Structural)]
pub enum InstanceState {
    Offline,
    Online,
}

impl InstanceState {
    /// The wire number of the state.
    pub open spec fn spec_code(self) -> i32 {
        match self {
            InstanceState::Offline => 0,
            InstanceState::Online => 1,
        }
    }

    /// The wire number of the state.
    pub fn code(self) -> (c: i32)
        ensures
            c == self.spec_code(),
    {
        match self {
            InstanceState::Offline => 0,
            InstanceState::Online => 1,
        }
    }
}

/// What the server knows about a connected instance.
#[derive(Debug, Clone)]
pub struct InstanceInfo {
    pub session_token: Option<SessionToken>,
    pub instance_id: Option<InstanceId>,
    pub connected_since: Option<Timestamp>,
    pub state: i32,
}

impl InstanceInfo {
    /// What the server knows of an instance that has just joined: its
    /// session and id, offline, never connected.
    pub fn new_offline(token: SessionToken, id: InstanceId) -> (info: InstanceInfo)
        ensures
            info.session_token == Some(token),
            info.instance_id == Some(id),
            info.connected_since is None,
            info.state == InstanceState::Offline.spec_code(),
    {
        InstanceInfo {
            session_token: Some(token),
            instance_id: Some(id),
            connected_since: None,
            state: InstanceState::Offline.code(),
        }
    }

    /// Record a change of state at time `now`: going online starts the
    /// connection time, any other state clears it. Setting the state it
    /// already has changes nothing.
    pub fn set_status(&mut self, state: InstanceState, now: Timestamp)
        ensures
            old(self).state == state.spec_code() ==> *final(self) == *old(self),
            old(self).state != state.spec_code() ==> {
                &&& final(self).state == state.spec_code()
                &&& final(self).connected_since == (if state == InstanceState::Online {
                    Some(now)
                } else {
                    None
                })
                &&& final(self).session_token == old(self).session_token
                &&& final(self).instance_id == old(self).instance_id
            },
    {
        if self.state != state.code() {
            match state {
                InstanceState::Online => {
                    self.connected_since = Some(now);
                },
                _ => self.connected_since = None,
            };
            self.state = state.code();
        }
    }
}

/// The classes of failure a request can end with.
#[derive(Debug, Clone, Copy, PartialEq, Eq, Structural)]
pub enum Code {
    InvalidArgument,
    NotFound,
    AlreadyExists,
    Unavailable,
    Internal,
}

/// The failure a request ends with: its class and a message.
#[derive(Debug, Clone)]
pub struct Status {
    pub code: Code,
    pub message: String,
}

/// The message of a full session.
pub open spec fn max_viewers_message(max: nat) -> Seq<char> {
    "maximum number of viewers ("@ + decimal(max) + ") exceeded"@
}

/// The message of a server that holds its maximum number of sessions.
pub open spec fn max_sessions_message(max: nat) -> Seq<char> {
    "maximum number of sessions ("@ + decimal(max) + ") exceeded"@
}

/// Whether the instance id with number `c` is among the existing ids.
pub open spec fn id_taken(existing: Seq<InstanceId>, c: nat) -> bool {
    exists|i: int| 0 <= i < existing.len() && (#[trigger] existing[i]).id@ == decimal(c)
}

/// The outcome of picking an id for a new viewer among `existing`: a session
/// holding `max_viewers` viewers is full; otherwise the id is the smallest
/// number from 1 on whose decimal text is not taken.
pub open spec fn new_instance_id_spec(
    existing: Seq<InstanceId>,
    max_viewers: Option<usize>,
    res: Result<InstanceId, Status>,
) -> bool {
    if max_viewers is Some && existing.len() >= max_viewers->0 {
        res matches Err(s) && s.code == Code::Unavailable && s.message@ == max_viewers_message(
            max_viewers->0 as nat,
        )
    } else {
        (exists|c: nat| 1 <= c <= existing.len() + 1 && !id_taken(existing, c))
            ==> (res matches Ok(id) && exists|c: nat| {
                &&& 1 <= c <= existing.len() + 1
                &&& id.id@ == decimal(c)
                &&& !id_taken(existing, c)
                &&& forall|d: nat| 1 <= d < c ==> id_taken(existing, d)
            })
    }
}

/// The outcome of picking an id for a new viewer of a session whose viewers
/// have the ids `ids`: a session holding `max_viewers` viewers is full;
/// otherwise the id is the smallest number from 1 on whose decimal text is
/// not among `ids`.
pub open spec fn decimal_ids_outcome(
    ids: Set<Seq<char>>,
    max_viewers: Option<usize>,
    res: Result<InstanceId, Status>,
) -> bool {
    if max_viewers is Some && ids.len() >= max_viewers->0 {
        res matches Err(s) && s.code == Code::Unavailable && s.message@ == max_viewers_message(
            max_viewers->0 as nat,
        )
    } else {
        res matches Ok(id) && exists|c: nat| {
            &&& 1 <= c <= ids.len() + 1
            &&& id.id@ == decimal(c)
            &&& !ids.contains(decimal(c))
            &&& forall|d: nat| 1 <= d < c ==> ids.contains(#[trigger] decimal(d))
        }
    }
}

/// For ids given without repetition, picking among the sequence is picking
/// among the set.
pub proof fn lemma_instance_id_of_set(
    existing: Seq<InstanceId>,
    ids: Set<Seq<char>>,
    max_viewers: Option<usize>,
    res: Result<InstanceId, Status>,
)
    requires
        ids.finite(),
        ids.len() == existing.len(),
        forall|s: Seq<char>| ids.contains(s) <==> exists|i: int| 0 <= i < existing.len() && (#[trigger] existing[i]).id@ == s,
        new_instance_id_spec(existing, max_viewers, res),
        (max_viewers is Some && existing.len() >= max_viewers->0) <==> res is Err,
    ensures
        decimal_ids_outcome(ids, max_viewers, res),
{
    lemma_free_instance_id_exists(existing);
    assert forall|c: nat| id_taken(existing, c) <==> ids.contains(decimal(c)) by {
        if ids.contains(decimal(c)) {
            let i = choose|i: int| 0 <= i < existing.len() && (#[trigger] existing[i]).id@ == decimal(c);
        }
    }
    if !(max_viewers is Some && existing.len() >= max_viewers->0) {
        let id = res->Ok_0;
        let c = choose|c: nat| {
            &&& 1 <= c <= existing.len() + 1
            &&& id.id@ == decimal(c)
            &&& !id_taken(existing, c)
            &&& forall|d: nat| 1 <= d < c ==> id_taken(existing, d)
        };
        assert forall|d: nat| 1 <= d < c implies ids.contains(#[trigger] decimal(d)) by {
            assert(id_taken(existing, d));
        }
    }
}

fn contains_id(existing: &Vec<InstanceId>, candidate: &String) -> (found: bool)
    ensures
        found <==> exists|i: int| 0 <= i < existing.len() && (#[trigger] existing@[i]).id@ == candidate@,
{
    let mut i: usize = 0;
    while i < existing.len()
        invariant
            i <= existing.len(),
            forall|j: int| 0 <= j < i ==> (#[trigger] existing@[j]).id@ != candidate@,
        decreases existing.len() - i,
    {
        if existing[i].id == *candidate {
            return true;
        }
        i = i + 1;
    }
    false
}

/// There is always a free id: `n` existing ids cannot take all of the
/// numbers `1..=n+1`, since distinct numbers have distinct decimal texts.
pub proof fn lemma_free_instance_id_exists(existing: Seq<InstanceId>)
    ensures
        exists|c: nat| 1 <= c <= existing.len() + 1 && !id_taken(existing, c),
{
    let n = existing.len();
    if forall|c: nat| 1 <= c <= n + 1 ==> id_taken(existing, c) {
        let names = existing.map_values(|x: InstanceId| x.id@);
        let numbers = vstd::set_lib::set_int_range(1, n + 2 as int);
        let f = |c: int| decimal(c as nat);
        vstd::set_lib::lemma_int_range(1, n + 2 as int);
        assert forall|a: int, b: int| numbers.contains(a) && numbers.contains(b) && #[trigger] f(a) == #[trigger] f(b)
            implies a == b by {
            lemma_decimal_injective(a as nat, b as nat);
        }
        assert(vstd::relations::injective_on(f, numbers));
        vstd::set_lib::lemma_map_size(numbers, numbers.map(f), f);
        assert forall|t: Seq<char>| numbers.map(f).contains(t) implies names.to_set().contains(t) by {
            let c = choose|c: int| numbers.contains(c) && f(c) == t;
            assert(id_taken(existing, c as nat));
            let i = choose|i: int| 0 <= i < existing.len() && (#[trigger] existing[i]).id@ == decimal(c as nat);
            assert(names[i] == t);
        }
        names.lemma_cardinality_of_set();
        vstd::seq_lib::seq_to_set_is_finite(names);
        vstd::set_lib::lemma_len_subset(numbers.map(f), names.to_set());
        assert(false);
    }
}

/// A new id for a viewer joining a session with the `existing` viewers:
/// refused when the session is full, otherwise the smallest free number.
pub fn new_instance_id(existing: &Vec<InstanceId>, max_viewers: Option<usize>) -> (res: Result<InstanceId, Status>)
    requires
        existing.len() + 2 <= usize::MAX,
    ensures
        new_instance_id_spec(existing@, max_viewers, res),
        (max_viewers is Some && existing.len() >= max_viewers->0) <==> res is Err,
{
    let count = existing.len();
    if let Some(max) = max_viewers {
        if count >= max {
            let mut message = String::from_str("maximum number of viewers (");
            message.append(u64_to_decimal(max as u64).as_str());
            message.append(") exceeded");
            return Err(Status { code: Code::Unavailable, message });
        }
    }
    proof {
        lemma_free_instance_id_exists(existing@);
    }
    let mut candidate: usize = 1;
    while candidate < count + 2
        invariant
            count == existing.len(),
            count + 2 <= usize::MAX,
            1 <= candidate <= count + 2,
            forall|d: nat| 1 <= d < candidate ==> id_taken(existing@, d),
            exists|c: nat| 1 <= c <= existing.len() + 1 && !id_taken(existing@, c),
            !(max_viewers is Some && count >= max_viewers->0),
        decreases count + 2 - candidate,
    {
        let id = u64_to_decimal(candidate as u64);
        if !contains_id(existing, &id) {
            let ghost c = candidate as nat;
            assert(!id_taken(existing@, c));
            let res = InstanceId { id };
            assert(res.id@ == decimal(c));
            return Ok(res);
        }
        candidate = candidate + 1;
    }
    proof {
        let c = choose|c: nat| 1 <= c <= existing.len() + 1 && !id_taken(existing@, c);
        assert(id_taken(existing@, c));
    }
    let message = String::from_str("failed to generate instance id");
    Err(Status { code: Code::Internal, message })
}

/// The metadata key that carries the session token of a request.
pub const SESSION_TOKEN_KEY: &'static str = "session-token";

/// The metadata key that carries the instance id of a request.
pub const INSTANCE_ID_KEY: &'static str = "instance-id";

/// The letters session tokens are drawn from: `a` to `z`, in order.
pub open spec fn token_alphabet() -> Seq<char> {
    seq![
        'a', 'b', 'c', 'd', 'e', 'f', 'g', 'h', 'i', 'j', 'k', 'l', 'm', 'n', 'o', 'p', 'q',
        'r', 's', 't', 'u', 'v', 'w', 'x', 'y', 'z',
    ]
}

/// The number of letters of a session token.
pub const TOKEN_SIZE: usize = 4;

/// The number of tokens drawn for a new session before giving up.
pub const TOKEN_DRAWS: usize = 100;

/// The letters session tokens are drawn from.
pub fn token_letters() -> (letters: [char; 26])
    ensures
        letters@ == token_alphabet(),
{
    let letters: [char; 26] = [
        'a', 'b', 'c', 'd', 'e', 'f', 'g', 'h', 'i', 'j', 'k', 'l', 'm', 'n', 'o', 'p', 'q',
        'r', 's', 't', 'u', 'v', 'w', 'x', 'y', 'z',
    ];
    assert(letters@ =~= token_alphabet());
    letters
}

/// `nanoid::format` with the operating system's random source
/// (`nanoid::rngs::default`): a string of `size` characters drawn from
/// `alphabet`. The characters themselves are random; only their number and
/// their origin are stated. An empty alphabet, a size of zero or characters
/// outside ASCII would make it loop forever (it counts bytes, not
/// characters), an alphabet of more than 255 characters makes it panic, and
/// so does a size whose eightfold overflows. Left unsaid: it also panics if
/// the operating system cannot provide random bytes.
#[verifier::external_body]
fn random_id(alphabet: &[char], size: usize) -> (id: String)
    requires
        0 < alphabet@.len() <= 255,
        forall|i: int| 0 <= i < alphabet@.len() ==> (#[trigger] alphabet@[i] as u32) < 128,
        0 < size,
        8 * size <= usize::MAX,
    ensures
        id@.len() == size,
        forall|i: int| 0 <= i < id@.len() ==> alphabet@.contains(#[trigger] id@[i]),
{
    nanoid::format(nanoid::rngs::default, alphabet, size)
}

/// Whether a token is already in use by one of the `existing` sessions.
pub open spec fn token_taken(existing: Seq<SessionToken>, token: Seq<char>) -> bool {
    exists|i: int| 0 <= i < existing.len() && (#[trigger] existing[i]).token@ == token
}

/// Whether `candidate` names none of the `existing` sessions.
pub fn is_free_token(existing: &Vec<SessionToken>, candidate: &String) -> (free: bool)
    ensures
        free <==> !token_taken(existing@, candidate@),
{
    let mut i: usize = 0;
    while i < existing.len()
        invariant
            i <= existing.len(),
            forall|j: int| 0 <= j < i ==> (#[trigger] existing@[j]).token@ != candidate@,
        decreases existing.len() - i,
    {
        if existing[i].token == *candidate {
            return false;
        }
        i = i + 1;
    }
    true
}

/// Whether `drawn` is what drawing session tokens may give: `TOKEN_DRAWS`
/// tokens of `TOKEN_SIZE` letters from `token_alphabet()`.
pub open spec fn token_draws(drawn: Seq<Seq<char>>) -> bool {
    &&& drawn.len() == TOKEN_DRAWS
    &&& forall|i: int| 0 <= i < drawn.len() ==> (#[trigger] drawn[i]).len() == TOKEN_SIZE
    &&& forall|i: int, k: int| 0 <= i < drawn.len() && 0 <= k < drawn[i].len() ==> token_alphabet().contains(
        #[trigger] drawn[i][k],
    )
}

/// What choosing among drawn tokens gives: the first drawn token for which
/// `taken` does not hold, or, when every one is taken, an internal failure.
pub open spec fn first_free_outcome(
    taken: spec_fn(Seq<char>) -> bool,
    drawn: Seq<Seq<char>>,
    res: Result<SessionToken, Status>,
) -> bool {
    if exists|i: int| 0 <= i < drawn.len() && !taken(#[trigger] drawn[i]) {
        res matches Ok(t) && exists|i: int| {
            &&& 0 <= i < drawn.len()
            &&& t.token@ == #[trigger] drawn[i]
            &&& !taken(drawn[i])
            &&& forall|j: int| 0 <= j < i ==> taken(#[trigger] drawn[j])
        }
    } else {
        res matches Err(s) && s.code == Code::Internal && s.message@ == "failed to generate a new session token"@
    }
}

/// The first of the `drawn` tokens that no `existing` session uses; when
/// each is in use, the internal failure of a server that could not find a
/// new token.
pub fn first_free_token(existing: &Vec<SessionToken>, drawn: &Vec<String>) -> (res: Result<SessionToken, Status>)
    ensures
        first_free_outcome(|t: Seq<char>| token_taken(existing@, t), drawn@.map_values(|d: String| d@), res),
{
    let ghost taken = |t: Seq<char>| token_taken(existing@, t);
    let ghost views = drawn@.map_values(|d: String| d@);
    let mut i: usize = 0;
    while i < drawn.len()
        invariant
            i <= drawn.len(),
            views == drawn@.map_values(|d: String| d@),
            taken == (|t: Seq<char>| token_taken(existing@, t)),
            forall|j: int| 0 <= j < i ==> taken(#[trigger] views[j]),
        decreases drawn.len() - i,
    {
        if is_free_token(existing, &drawn[i]) {
            let token = SessionToken { token: drawn[i].clone() };
            proof {
                assert(!taken(views[i as int]));
            }
            return Ok(token);
        }
        i = i + 1;
    }
    Err(Status { code: Code::Internal, message: String::from_str("failed to generate a new session token") })
}

/// A token for a new session: refused when the server holds `max_sessions`
/// sessions; otherwise `TOKEN_DRAWS` random tokens of `TOKEN_SIZE` letters
/// from `token_alphabet()` are drawn and the first one no existing session
/// uses is taken (see `first_free_token`).
pub fn new_session_token(existing: &Vec<SessionToken>, max_sessions: Option<usize>) -> (res: Result<SessionToken, Status>)
    ensures
        (max_sessions is Some && existing.len() >= max_sessions->0) ==> (res matches Err(s)
            && s.code == Code::Unavailable && s.message@ == max_sessions_message(max_sessions->0 as nat)),
        !(max_sessions is Some && existing.len() >= max_sessions->0) ==> exists|drawn: Seq<Seq<char>>|
            token_draws(drawn) && first_free_outcome(|t: Seq<char>| token_taken(existing@, t), drawn, res),
        res matches Ok(t) ==> {
            &&& t.token@.len() == TOKEN_SIZE
            &&& forall|i: int| 0 <= i < t.token@.len() ==> token_alphabet().contains(#[trigger] t.token@[i])
            &&& !token_taken(existing@, t.token@)
        },
{
    let count = existing.len();
    if let Some(max) = max_sessions {
        if count >= max {
            let mut message = String::from_str("maximum number of sessions (");
            message.append(u64_to_decimal(max as u64).as_str());
            message.append(") exceeded");
            return Err(Status { code: Code::Unavailable, message });
        }
    }
    let letters = token_letters();
    let mut drawn: Vec<String> = Vec::new();
    while drawn.len() < TOKEN_DRAWS
        invariant
            letters@ == token_alphabet(),
            drawn.len() <= TOKEN_DRAWS,
            forall|i: int| 0 <= i < drawn.len() ==> (#[trigger] drawn@[i])@.len() == TOKEN_SIZE,
            forall|i: int, k: int| 0 <= i < drawn.len() && 0 <= k < drawn@[i]@.len() ==> token_alphabet().contains(
                #[trigger] drawn@[i]@[k],
            ),
        decreases TOKEN_DRAWS - drawn.len(),
    {
        proof {
            reveal_with_fuel(Seq::contains, 1);
            assert forall|i: int| 0 <= i < letters@.len() implies (#[trigger] letters@[i] as u32) < 128 by {
                assert(letters@[i] <= 'z');
            }
        }
        let token = random_id(letters.as_slice(), TOKEN_SIZE);
        drawn.push(token);
    }
    let res = first_free_token(existing, &drawn);
    proof {
        let views = drawn@.map_values(|d: String| d@);
        assert(token_draws(views));
        if res is Ok {
            let t = res->Ok_0;
            let taken = |t: Seq<char>| token_taken(existing@, t);
            let i = choose|i: int| {
                &&& 0 <= i < views.len()
                &&& t.token@ == #[trigger] views[i]
                &&& !taken(views[i])
                &&& forall|j: int| 0 <= j < i ==> taken(#[trigger] views[j])
            };
            assert(t.token@ == views[i]);
            assert forall|k: int| 0 <= k < t.token@.len() implies token_alphabet().contains(#[trigger] t.token@[k]) by {
                assert(views[i][k] == t.token@[k]);
            }
        }
    }
    res
}

/// Open a new session: refused, with the store unchanged, when the server
/// holds `max_sessions` sessions or no drawn token is free (see
/// `new_session_token`); otherwise the store gains `session` under the new
/// token, which no session had.
pub fn new_session<S>(sessions: &mut Registry<SessionToken, S>, max_sessions: Option<usize>, session: S) -> (res: Result<
    SessionToken,
    Status,
>)
    ensures
        (max_sessions is Some && old(sessions)@.dom().len() >= max_sessions->0) ==> (res matches Err(s)
            && s.code == Code::Unavailable && s.message@ == max_sessions_message(max_sessions->0 as nat)),
        !(max_sessions is Some && old(sessions)@.dom().len() >= max_sessions->0) ==> exists|drawn: Seq<Seq<char>>|
            token_draws(drawn) && first_free_outcome(|t: Seq<char>| old(sessions)@.dom().contains(t), drawn, res),
        res is Err ==> final(sessions)@ == old(sessions)@,
        res matches Ok(t) ==> {
            &&& t.token@.len() == TOKEN_SIZE
            &&& forall|i: int| 0 <= i < t.token@.len() ==> token_alphabet().contains(#[trigger] t.token@[i])
            &&& !old(sessions)@.dom().contains(t.token@)
            &&& final(sessions)@ == old(sessions)@.insert(t.token@, session)
        },
{
    let existing = sessions.keys();
    let ghost before = sessions@;
    proof {
        assert forall|t: Seq<char>| token_taken(existing@, t) == before.dom().contains(t) by {
            if token_taken(existing@, t) {
                let i = choose|i: int| 0 <= i < existing.len() && (#[trigger] existing@[i]).token@ == t;
                assert(before.dom().contains(existing@[i].model()));
            }
            if before.dom().contains(t) {
                let i = choose|i: int| 0 <= i < existing.len() && existing@[i].model() == t;
                assert(existing@[i].token@ == t);
            }
        }
        assert((|t: Seq<char>| token_taken(existing@, t)) =~= (|t: Seq<char>| before.dom().contains(t)));
    }
    match new_session_token(&existing, max_sessions) {
        Ok(token) => {
            let key = token.duplicate();
            match sessions.insert_new(key, session) {
                Ok(()) => Ok(token),
                Err(_) => {
                    assert(false);
                    Err(Status { code: Code::Internal, message: String::from_str("failed to generate a new session token") })
                },
            }
        },
        Err(s) => Err(s),
    }
}

/// The message of a request that lacks the metadata entry `key`.
pub open spec fn missing_metadata_message(key: Seq<char>) -> Seq<char> {
    "missing \""@ + key + "\" metadata"@
}

/// The message of a metadata entry `key` that is not visible ASCII text.
pub open spec fn undecodable_metadata_message(key: Seq<char>) -> Seq<char> {
    "failed to decode \""@ + key + "\" metadata"@
}

/// The text of the request metadata entry `key`, given what the request
/// holds under it: nothing, a value that is not visible ASCII text
/// (`Some(None)`), or its text.
pub fn metadata_text(key: &str, value: Option<Option<String>>) -> (res: Result<String, Status>)
    ensures
        match value {
            None => res matches Err(s) && s.code == Code::InvalidArgument
                && s.message@ == missing_metadata_message(key@),
            Some(None) => res matches Err(s) && s.code == Code::InvalidArgument
                && s.message@ == undecodable_metadata_message(key@),
            Some(Some(text)) => res matches Ok(t) && t@ == text@,
        },
{
    match value {
        None => {
            let mut message = String::from_str("missing \"");
            message.append(key);
            message.append("\" metadata");
            Err(Status { code: Code::InvalidArgument, message })
        },
        Some(None) => {
            let mut message = String::from_str("failed to decode \"");
            message.append(key);
            message.append("\" metadata");
            Err(Status { code: Code::InvalidArgument, message })
        },
        Some(Some(text)) => Ok(text),
    }
}

/// The session token and instance id a request names, from its metadata
/// entries under `SESSION_TOKEN_KEY` and `INSTANCE_ID_KEY`; the session
/// token is looked at first.
pub fn session_instance(
    token_value: Option<Option<String>>,
    id_value: Option<Option<String>>,
) -> (res: Result<(SessionToken, InstanceId), Status>)
    ensures
        match token_value {
            Some(Some(t)) => match id_value {
                Some(Some(i)) => res matches Ok(p) && p.0.token@ == t@ && p.1.id@ == i@,
                None => res matches Err(s) && s.code == Code::InvalidArgument
                    && s.message@ == missing_metadata_message(INSTANCE_ID_KEY@),
                Some(None) => res matches Err(s) && s.code == Code::InvalidArgument
                    && s.message@ == undecodable_metadata_message(INSTANCE_ID_KEY@),
            },
            _ => res matches Err(s) && s.code == Code::InvalidArgument
                && (token_value is None ==> s.message@ == missing_metadata_message(SESSION_TOKEN_KEY@))
                && (token_value is Some ==> s.message@ == undecodable_metadata_message(SESSION_TOKEN_KEY@)),
        },
{
    let token = match metadata_text(SESSION_TOKEN_KEY, token_value) {
        Ok(t) => t,
        Err(s) => return Err(s),
    };
    let id = match metadata_text(INSTANCE_ID_KEY, id_value) {
        Ok(i) => i,
        Err(s) => return Err(s),
    };
    Ok((SessionToken { token }, InstanceId { id }))
}

} // verus!
