//! The sessions of the server: each with its viewers, controllers, streams
//! and analyzers, and the requests that change them.
use vstd::prelude::*;
use crate::cli::Config;
use crate::descriptors::{AudioAnalyzerDescriptor, AudioInputDescriptor, AudioOutputDescriptor};
use crate::registry::{Keyed, Registry};
use crate::session::{
    decimal_ids_outcome, lemma_instance_id_of_set, new_instance_id, InstanceId, SessionToken, Status, Timestamp,
};

verus! {

/// A session: its token, the configuration it runs with, when it started,
/// and its stores.
pub struct Session<V, C, A, I, O> {
    pub token: SessionToken,
    pub config: Config,
    pub started: Timestamp,
    pub controllers: Registry<InstanceId, C>,
    pub viewers: Registry<InstanceId, V>,
    pub analyzers: Registry<AudioAnalyzerDescriptor, A>,
    pub input_streams: Registry<AudioInputDescriptor, I>,
    pub output_streams: Registry<AudioOutputDescriptor, O>,
}

impl<V, C, A, I, O> Session<V, C, A, I, O> {
    /// A session with empty stores, started at `started`.
    pub fn new(token: SessionToken, config: Config, started: Timestamp) -> (s: Session<V, C, A, I, O>)
        ensures
            s.token == token,
            s.config == config,
            s.started == started,
            s.controllers@ == Map::<Seq<char>, C>::empty(),
            s.viewers@ == Map::<Seq<char>, V>::empty(),
            s.analyzers@.is_empty(),
            s.input_streams@.is_empty(),
            s.output_streams@.is_empty(),
    {
        Session {
            token,
            config,
            started,
            controllers: Registry::new(),
            viewers: Registry::new(),
            analyzers: Registry::new(),
            input_streams: Registry::new(),
            output_streams: Registry::new(),
        }
    }
}

/// An id for a viewer joining session `token`: the session is opened (with
/// `config`, started at `now`) when the server does not have it; then the
/// request is refused when the session holds `max_viewers` viewers, and
/// otherwise the id is the smallest number from 1 on that no viewer of the
/// session has (see `new_instance_id`). The viewers are not changed.
pub fn new_viewer_instance<V, C, A, I, O>(
    sessions: &mut Registry<SessionToken, Session<V, C, A, I, O>>,
    token: &SessionToken,
    config: Config,
    now: Timestamp,
    max_viewers: Option<usize>,
) -> (res: Result<InstanceId, Status>)
    requires
        old(sessions)@.dom().contains(token.token@) ==> old(sessions)@[token.token@].viewers@.dom().len() + 2
            <= usize::MAX,
    ensures
        old(sessions)@.dom().contains(token.token@) ==> final(sessions)@ == old(sessions)@,
        !old(sessions)@.dom().contains(token.token@) ==> final(sessions)@.dom() == old(sessions)@.dom().insert(
            token.token@,
        ) && final(sessions)@.remove(token.token@) == old(sessions)@ && final(sessions)@[token.token@].viewers@
            == Map::<Seq<char>, V>::empty() && final(sessions)@[token.token@].token.token@ == token.token@,
        decimal_ids_outcome(final(sessions)@[token.token@].viewers@.dom(), max_viewers, res),
{
    let fresh: Session<V, C, A, I, O> = Session::new(token.duplicate(), config, now);
    sessions.insert_if_absent(token.duplicate(), fresh);
    match sessions.get(token) {
        Some(session) => {
            let ids = session.viewers.keys();
            let res = new_instance_id(&ids, max_viewers);
            proof {
                let dom = session.viewers@.dom();
                assert forall|s: Seq<char>| dom.contains(s) <==> exists|i: int|
                    0 <= i < ids.len() && (#[trigger] ids@[i]).id@ == s by {
                    if exists|i: int| 0 <= i < ids.len() && (#[trigger] ids@[i]).id@ == s {
                        let i = choose|i: int| 0 <= i < ids.len() && (#[trigger] ids@[i]).id@ == s;
                        assert(dom.contains(ids@[i].model()));
                    }
                }
                lemma_instance_id_of_set(ids@, dom, max_viewers, res);
            }
            res
        },
        None => {
            assert(false);
            new_instance_id(&Vec::new(), max_viewers)
        },
    }
}

} // verus!
