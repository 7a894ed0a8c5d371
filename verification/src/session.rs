//! Sessions of the mixture-of-agents lifecycle: identifiers derived from the
//! conversation, an in-memory store keyed by identifier, and the state
//! machine Diagnostic → Execution → Verify → (Diagnostic on retry | Done).

use vstd::prelude::*;
use vstd::utf8::encode_utf8;
use crate::json::same_text;
use crate::numfmt::digit_char;
use crate::sniffer::Message;

verus! {

broadcast use vstd::string::group_string_axioms;

/// States a session can be in during the MoA lifecycle.
#[derive(Debug, Clone, Copy, PartialEq, Eq, Structural)]
pub enum SessionState {
    Diagnostic,
    Execution,
    Verify,
    Done,
}

/// A tracked session with its current state and metadata.
#[derive(Debug)]
pub struct Session {
    pub id: String,
    pub state: SessionState,
    pub retry_count: u32,
    pub messages: Vec<Message>,
    /// Creation time, in seconds since the Unix epoch.
    pub created_at: u64,
    /// The models deliberating in the session.
    pub models: Vec<String>,
}

/// A session as it is saved between runs.
#[derive(Debug)]
pub struct SessionSnapshot {
    pub id: String,
    pub state: SessionState,
    pub retry_count: u32,
    pub messages: Vec<Message>,
    pub created_at_secs: u64,
}

/// What a session holds, as plain values.
pub struct SessionView {
    pub id: Seq<char>,
    pub state: SessionState,
    pub retry_count: u32,
    pub messages: Seq<Message>,
    pub created_at: u64,
    pub models: Seq<String>,
}

impl View for Session {
    type V = SessionView;

    open spec fn view(&self) -> SessionView {
        SessionView {
            id: self.id@,
            state: self.state,
            retry_count: self.retry_count,
            messages: self.messages@,
            created_at: self.created_at,
            models: self.models@,
        }
    }
}

impl View for SessionSnapshot {
    type V = SessionView;

    open spec fn view(&self) -> SessionView {
        SessionView {
            id: self.id@,
            state: self.state,
            retry_count: self.retry_count,
            messages: self.messages@,
            created_at: self.created_at_secs,
            models: Seq::empty(),
        }
    }
}

/// A copy of a list of messages.
fn clone_messages(v: &Vec<Message>) -> (r: Vec<Message>)
    ensures
        r@ == v@,
{
    let mut out: Vec<Message> = Vec::new();
    let mut i: usize = 0;
    while i < v.len()
        invariant
            i <= v@.len(),
            out@ == v@.take(i as int),
        decreases v@.len() - i,
    {
        out.push(v[i].clone());
        i = i + 1;
        assert(out@ =~= v@.take(i as int));
    }
    assert(v@.take(v@.len() as int) =~= v@);
    out
}

impl Clone for Session {
    fn clone(&self) -> (r: Self)
        ensures
            r@ == self@,
    {
        Session {
            id: self.id.clone(),
            state: self.state,
            retry_count: self.retry_count,
            messages: clone_messages(&self.messages),
            created_at: self.created_at,
            models: crate::types::clone_strings(self.models.as_slice()),
        }
    }
}

/// Name for SHA-256 (FIPS 180-4) of a byte string, as sha2 computes it.
pub uninterp spec fn sha256(data: Seq<u8>) -> Seq<u8>;

/// sha2's `Sha256::digest`: the SHA-256 digest of `data`, 32 bytes long
/// (the output size of `Sha256`). The digest itself is only named.
#[verifier::external_body]
fn sha256_digest(data: &[u8]) -> (r: Vec<u8>)
    ensures
        r@ == sha256(data@),
        r@.len() == 32,
{
    <sha2::Sha256 as sha2::Digest>::digest(data).to_vec()
}

/// Lower-case hexadecimal text of a byte string: two digits per byte, the
/// high half first.
pub open spec fn hex_text(bytes: Seq<u8>) -> Seq<char> {
    Seq::new(
        2 * bytes.len(),
        |i: int|
            if i % 2 == 0 {
                digit_char((bytes[i / 2] / 16) as int)
            } else {
                digit_char((bytes[i / 2] % 16) as int)
            },
    )
}

/// hex's `encode`: each byte as two lower-case hexadecimal digits.
#[verifier::external_body]
fn hex_encode(data: &[u8]) -> (r: String)
    ensures
        r@ == hex_text(data@),
{
    hex::encode(data)
}

/// The bytes hashed for a conversation: the UTF-8 role and content of each
/// message, in order.
pub open spec fn transcript_bytes(msgs: Seq<Message>) -> Seq<u8>
    decreases msgs.len(),
{
    if msgs.len() == 0 {
        Seq::empty()
    } else {
        transcript_bytes(msgs.drop_last()) + encode_utf8(msgs.last().role@) + encode_utf8(
            msgs.last().content@,
        )
    }
}

/// The session identifier of a conversation: hex of the SHA-256 of its transcript.
pub open spec fn session_id(msgs: Seq<Message>) -> Seq<char> {
    hex_text(sha256(transcript_bytes(msgs)))
}

/// Appends bytes to a buffer.
fn push_bytes(v: &mut Vec<u8>, b: &[u8])
    ensures
        final(v)@ == old(v)@ + b@,
{
    let ghost v0 = v@;
    let mut i: usize = 0;
    while i < b.len()
        invariant
            i <= b@.len(),
            v@ == v0 + b@.take(i as int),
        decreases b@.len() - i,
    {
        v.push(b[i]);
        i = i + 1;
        assert(v@ =~= v0 + b@.take(i as int));
    }
    assert(b@.take(b@.len() as int) =~= b@);
}

/// A session as its snapshot keeps it: without its models.
pub open spec fn without_models(v: SessionView) -> SessionView {
    SessionView { models: Seq::empty(), ..v }
}

/// The sessions that are not Done.
pub open spec fn not_done() -> spec_fn(SessionView) -> bool {
    |s: SessionView| s.state != SessionState::Done
}

/// Filtering a sequence extended by one element.
proof fn lemma_filter_push<A>(s: Seq<A>, x: A, p: spec_fn(A) -> bool)
    ensures
        s.push(x).filter(p) == (if p(x) {
            s.filter(p).push(x)
        } else {
            s.filter(p)
        }),
{
    reveal(Seq::filter);
    assert(s.push(x).drop_last() =~= s);
}

/// A session freshly opened for `msgs` under `id`.
pub open spec fn is_new_session(s: SessionView, id: Seq<char>, msgs: Seq<Message>, models: Seq<String>) -> bool {
    &&& s.id == id
    &&& s.state == SessionState::Diagnostic
    &&& s.retry_count == 0
    &&& s.messages == msgs
    &&& s.models == models
}

impl Session {
    /// Create a new session with the given identifier and models, created now.
    pub fn new(id: String, messages: Vec<Message>, models: Vec<String>) -> (r: Self)
        ensures
            is_new_session(r@, id@, messages@, models@),
    {
        Self {
            id,
            state: SessionState::Diagnostic,
            retry_count: 0,
            messages,
            created_at: crate::clock::now_secs(),
            models,
        }
    }

    /// Generate a session ID from the hash of concatenated messages: the
    /// lower-case hex SHA-256 of every role and content, in order.
    pub fn id_from_messages(messages: &[Message]) -> (r: String)
        ensures
            r@ == session_id(messages@),
            r@.len() == 64,
    {
        let mut data: Vec<u8> = Vec::new();
        let mut i: usize = 0;
        while i < messages.len()
            invariant
                i <= messages@.len(),
                data@ == transcript_bytes(messages@.take(i as int)),
            decreases messages@.len() - i,
        {
            push_bytes(&mut data, messages[i].role.as_str().as_bytes());
            push_bytes(&mut data, messages[i].content.as_str().as_bytes());
            proof {
                let t = messages@.take(i + 1);
                assert(t.drop_last() =~= messages@.take(i as int));
                assert(t.last() == messages@[i as int]);
            }
            i = i + 1;
        }
        assert(messages@.take(messages@.len() as int) =~= messages@);
        let digest = sha256_digest(data.as_slice());
        hex_encode(digest.as_slice())
    }
}

/// The sessions of a list, keyed by identifier (a later entry wins).
pub open spec fn map_of(s: Seq<Session>) -> Map<Seq<char>, SessionView>
    decreases s.len(),
{
    if s.len() == 0 {
        Map::empty()
    } else {
        map_of(s.drop_last()).insert(s.last().id@, s.last()@)
    }
}

/// No two entries share an identifier.
pub open spec fn distinct_ids(s: Seq<Session>) -> bool {
    forall|i: int, j: int| 0 <= i < j < s.len() ==> s[i].id@ != s[j].id@
}

proof fn lemma_map_of_index(s: Seq<Session>, i: int)
    requires
        distinct_ids(s),
        0 <= i < s.len(),
    ensures
        map_of(s).dom().contains(s[i].id@),
        map_of(s)[s[i].id@] == s[i]@,
    decreases s.len(),
{
    if i < s.len() - 1 {
        assert(s.drop_last()[i] == s[i]);
        lemma_map_of_index(s.drop_last(), i);
    }
}

proof fn lemma_map_of_dom(s: Seq<Session>, k: Seq<char>)
    ensures
        map_of(s).dom().contains(k) <==> exists|i: int| 0 <= i < s.len() && #[trigger] s[i].id@ == k,
    decreases s.len(),
{
    if s.len() > 0 {
        lemma_map_of_dom(s.drop_last(), k);
        if map_of(s.drop_last()).dom().contains(k) {
            let i = choose|i: int| 0 <= i < s.drop_last().len() && #[trigger] s.drop_last()[i].id@ == k;
            assert(s[i].id@ == k);
        }
        if exists|i: int| 0 <= i < s.len() && #[trigger] s[i].id@ == k {
            let i = choose|i: int| 0 <= i < s.len() && #[trigger] s[i].id@ == k;
            if i < s.len() - 1 {
                assert(s.drop_last()[i].id@ == k);
            }
        }
    }
}

proof fn lemma_map_of_update(s: Seq<Session>, i: int, x: Session)
    requires
        distinct_ids(s),
        0 <= i < s.len(),
        x.id@ == s[i].id@,
    ensures
        distinct_ids(s.update(i, x)),
        map_of(s.update(i, x)) == map_of(s).insert(x.id@, x@),
    decreases s.len(),
{
    let u = s.update(i, x);
    assert(u.drop_last() =~= if i == s.len() - 1 { s.drop_last() } else { s.drop_last().update(i, x) });
    if i < s.len() - 1 {
        lemma_map_of_update(s.drop_last(), i, x);
        assert(s.last().id@ != x.id@);
    }
    assert(map_of(u) =~= map_of(s).insert(x.id@, x@));
}

proof fn lemma_map_of_remove(s: Seq<Session>, i: int)
    requires
        distinct_ids(s),
        0 <= i < s.len(),
    ensures
        distinct_ids(s.remove(i)),
        map_of(s.remove(i)) == map_of(s).remove(s[i].id@),
    decreases s.len(),
{
    let u = s.remove(i);
    let k = s[i].id@;
    if i == s.len() - 1 {
        assert(u =~= s.drop_last());
        lemma_map_of_dom(s.drop_last(), k);
        assert(!map_of(s.drop_last()).dom().contains(k));
        assert(map_of(u) =~= map_of(s).remove(k));
    } else {
        assert(u.drop_last() =~= s.drop_last().remove(i));
        assert(u.last() == s.last());
        lemma_map_of_remove(s.drop_last(), i);
        assert(s.last().id@ != k);
        assert(map_of(u) =~= map_of(s).remove(k));
    }
}

/// In-memory session store: sessions kept in a list with distinct
/// identifiers, and whether a change has happened since the snapshot was
/// last written.
pub struct SessionManager {
    sessions: Vec<Session>,
    snapshot_due: bool,
}

impl SessionManager {
    #[verifier::type_invariant]
    spec fn wf(self) -> bool {
        distinct_ids(self.sessions@)
    }

    /// A session was created, changed state, transitioned or was removed
    /// since the snapshot was last written: the snapshot should be saved.
    pub closed spec fn snapshot_due(&self) -> bool {
        self.snapshot_due
    }

    /// The stored sessions, in the order they were opened.
    pub closed spec fn entries(&self) -> Seq<SessionView> {
        self.sessions@.map_values(|s: Session| s@)
    }
}

impl View for SessionManager {
    type V = Map<Seq<char>, SessionView>;

    /// The sessions by identifier.
    closed spec fn view(&self) -> Map<Seq<char>, SessionView> {
        map_of(self.sessions@)
    }
}

/// One step of the lifecycle from `state` with `retry` retries used:
/// Diagnostic → Execution → Verify; Verify → Diagnostic while retries
/// remain (using one), else Done; Done has no next step.
pub open spec fn next_step(state: SessionState, retry: u32, max_retries: u32) -> Option<(SessionState, u32)> {
    match state {
        SessionState::Diagnostic => Some((SessionState::Execution, retry)),
        SessionState::Execution => Some((SessionState::Verify, retry)),
        SessionState::Verify => if retry < max_retries {
            Some((SessionState::Diagnostic, (retry + 1) as u32))
        } else {
            Some((SessionState::Done, retry))
        },
        SessionState::Done => None,
    }
}

/// Restoring snapshots in order into `m`: a snapshot whose identifier is
/// already present is skipped. Returns the store and how many were added.
pub open spec fn restore_all(m: Map<Seq<char>, SessionView>, snaps: Seq<SessionView>) -> (Map<Seq<char>, SessionView>, nat)
    decreases snaps.len(),
{
    if snaps.len() == 0 {
        (m, 0)
    } else {
        let (m0, n0) = restore_all(m, snaps.drop_last());
        let s = snaps.last();
        if m0.dom().contains(s.id) {
            (m0, n0)
        } else {
            (m0.insert(s.id, s), n0 + 1)
        }
    }
}

/// What a saved snapshot of the store `m` holds once restored: the sessions
/// that are not Done, without their model lists.
pub open spec fn saved_sessions(m: Map<Seq<char>, SessionView>) -> Map<Seq<char>, SessionView> {
    Map::new(
        |k: Seq<char>| m.dom().contains(k) && m[k].state != SessionState::Done,
        |k: Seq<char>| without_models(m[k]),
    )
}

/// The snapshot records of a list of sessions.
pub open spec fn snapshot_views(s: Seq<Session>) -> Seq<SessionView> {
    s.map_values(|x: Session| x@).filter(not_done()).map_values(|v: SessionView| without_models(v))
}

proof fn lemma_snapshot_round_trip(s: Seq<Session>)
    requires
        distinct_ids(s),
    ensures
        restore_all(Map::empty(), snapshot_views(s)) == (saved_sessions(map_of(s)), snapshot_views(s).len()),
    decreases s.len(),
{
    if s.len() == 0 {
        assert(s.map_values(|x: Session| x@) =~= Seq::<SessionView>::empty());
        assert(Seq::<SessionView>::empty().filter(not_done()) =~= Seq::<SessionView>::empty());
        assert(snapshot_views(s) =~= Seq::<SessionView>::empty());
        assert(saved_sessions(map_of(s)) =~= Map::<Seq<char>, SessionView>::empty());
    } else {
        let t = s.drop_last();
        let x = s.last();
        assert(distinct_ids(t));
        lemma_snapshot_round_trip(t);
        lemma_map_of_dom(t, x.id@);
        assert(!map_of(t).dom().contains(x.id@)) by {
            if map_of(t).dom().contains(x.id@) {
                let i = choose|i: int| 0 <= i < t.len() && #[trigger] t[i].id@ == x.id@;
                assert(s[i].id@ == s[s.len() - 1].id@);
            }
        }
        assert(s.map_values(|y: Session| y@) =~= t.map_values(|y: Session| y@).push(x@));
        lemma_filter_push(t.map_values(|y: Session| y@), x@, not_done());
        let m0 = saved_sessions(map_of(t));
        assert(!m0.dom().contains(x.id@));
        if x.state == SessionState::Done {
            assert(snapshot_views(s) == snapshot_views(t));
            assert(saved_sessions(map_of(s)) =~= m0);
        } else {
            let w = without_models(x@);
            assert(snapshot_views(s) =~= snapshot_views(t).push(w));
            assert(snapshot_views(s).drop_last() =~= snapshot_views(t));
            assert(saved_sessions(map_of(s)) =~= m0.insert(x.id@, w));
        }
    }
}

impl SessionManager {
    /// An empty store.
    pub fn new() -> (r: Self)
        ensures
            r@ == Map::<Seq<char>, SessionView>::empty(),
            !r.snapshot_due(),
    {
        SessionManager { sessions: Vec::new(), snapshot_due: false }
    }

    /// Reports whether the snapshot should be saved, and clears that mark;
    /// the sessions are unchanged.
    pub fn take_snapshot_due(&mut self) -> (r: bool)
        ensures
            r == old(self).snapshot_due(),
            final(self)@ == old(self)@,
            final(self).entries() == old(self).entries(),
            !final(self).snapshot_due(),
    {
        proof {
            use_type_invariant(&*self);
        }
        let r = self.snapshot_due;
        self.snapshot_due = false;
        r
    }

    /// Position of the session with the identifier, if any.
    fn position(&self, id: &str) -> (r: Option<usize>)
        ensures
            match r {
                Some(i) => i < self.sessions@.len() && self.sessions@[i as int].id@ == id@,
                None => forall|i: int| 0 <= i < self.sessions@.len() ==> #[trigger] self.sessions@[i].id@ != id@,
            },
    {
        let mut i: usize = 0;
        while i < self.sessions.len()
            invariant
                i <= self.sessions@.len(),
                forall|j: int| 0 <= j < i ==> #[trigger] self.sessions@[j].id@ != id@,
            decreases self.sessions@.len() - i,
        {
            if same_text(self.sessions[i].id.as_str(), id) {
                return Some(i);
            }
            i = i + 1;
        }
        None
    }

    proof fn lemma_lookup(&self, id: Seq<char>, r: Option<usize>)
        requires
            distinct_ids(self.sessions@),
            match r {
                Some(i) => i < self.sessions@.len() && self.sessions@[i as int].id@ == id,
                None => forall|i: int| 0 <= i < self.sessions@.len() ==> #[trigger] self.sessions@[i].id@ != id,
            },
        ensures
            self@.dom().contains(id) == (r is Some),
            r matches Some(i) ==> self@[id] == self.sessions@[i as int]@,
    {
        lemma_map_of_dom(self.sessions@, id);
        if let Some(i) = r {
            lemma_map_of_index(self.sessions@, i as int);
        }
    }

    /// Replaces the session at `i` by `x`, which has the same identifier.
    fn replace_at(&mut self, i: usize, x: Session)
        requires
            i < old(self).sessions@.len(),
            x.id@ == old(self).sessions@[i as int].id@,
        ensures
            final(self)@ == old(self)@.insert(x.id@, x@),
            final(self).sessions@ == old(self).sessions@.update(i as int, x),
            final(self).snapshot_due == old(self).snapshot_due,
    {
        proof {
            use_type_invariant(&*self);
            lemma_map_of_update(self.sessions@, i as int, x);
        }
        let mut v: Vec<Session> = Vec::new();
        std::mem::swap(&mut v, &mut self.sessions);
        let mut y = x;
        std::mem::swap(&mut v[i], &mut y);
        self.sessions = v;
    }

    /// Adds a session under an identifier not yet present.
    fn push_session(&mut self, x: Session)
        requires
            forall|i: int| 0 <= i < old(self).sessions@.len() ==> #[trigger] old(self).sessions@[i].id@ != x.id@,
        ensures
            final(self).sessions@ == old(self).sessions@.push(x),
            final(self)@ == old(self)@.insert(x.id@, x@),
            final(self).snapshot_due == old(self).snapshot_due,
    {
        proof {
            use_type_invariant(&*self);
        }
        let ghost s0 = self.sessions@;
        let mut v: Vec<Session> = Vec::new();
        std::mem::swap(&mut v, &mut self.sessions);
        v.push(x);
        proof {
            assert(v@.drop_last() =~= s0);
            assert(distinct_ids(v@));
        }
        self.sessions = v;
    }

    /// Create or retrieve a session by identifier. Returns the identifier
    /// and whether a collision was detected: a session exists under it whose
    /// messages hash differently from `messages`.
    pub fn get_or_create(&mut self, identifier: String, messages: Vec<Message>, models: Vec<String>) -> (r: (
        String,
        bool,
    ))
        ensures
            r.0@ == identifier@,
            old(self)@.dom().contains(identifier@) ==> final(self)@ == old(self)@ && r.1 == (
            session_id(old(self)@[identifier@].messages) != session_id(messages@)),
            !old(self)@.dom().contains(identifier@) ==> !r.1 && final(self)@ == old(self)@.insert(
                identifier@,
                final(self)@[identifier@],
            ) && is_new_session(final(self)@[identifier@], identifier@, messages@, models@),
            final(self).snapshot_due() == (old(self).snapshot_due() || !old(self)@.dom().contains(
                identifier@,
            )),
    {
        proof {
            use_type_invariant(&*self);
        }
        let pos = self.position(identifier.as_str());
        proof {
            self.lemma_lookup(identifier@, pos);
        }
        match pos {
            Some(i) => {
                let existing_hash = Session::id_from_messages(self.sessions[i].messages.as_slice());
                let new_hash = Session::id_from_messages(messages.as_slice());
                let collision = !same_text(existing_hash.as_str(), new_hash.as_str());
                (identifier, collision)
            },
            None => {
                let session = Session::new(identifier.clone(), messages, models);
                self.push_session(session);
                self.snapshot_due = true;
                (identifier, false)
            },
        }
    }

    /// Look up a session by identifier.
    pub fn lookup(&self, id: &str) -> (r: Option<Session>)
        ensures
            self@.dom().contains(id@) ==> (r matches Some(s) && s@ == self@[id@]),
            !self@.dom().contains(id@) ==> r is None,
    {
        proof {
            use_type_invariant(self);
        }
        let pos = self.position(id);
        proof {
            self.lemma_lookup(id@, pos);
        }
        match pos {
            Some(i) => Some(self.sessions[i].clone()),
            None => None,
        }
    }

    /// Update session state; an unknown identifier changes nothing.
    pub fn set_state(&mut self, id: &str, state: SessionState)
        ensures
            final(self)@ == if old(self)@.dom().contains(id@) {
                old(self)@.insert(id@, (SessionView { state: state, ..old(self)@[id@] }))
            } else {
                old(self)@
            },
            final(self).snapshot_due() == (old(self).snapshot_due() || old(self)@.dom().contains(id@)),
    {
        proof {
            use_type_invariant(&*self);
        }
        let pos = self.position(id);
        proof {
            self.lemma_lookup(id@, pos);
        }
        if let Some(i) = pos {
            let mut s = self.sessions[i].clone();
            s.state = state;
            self.replace_at(i, s);
            self.snapshot_due = true;
        }
    }

    /// Increment retry counter; an unknown identifier changes nothing.
    pub fn increment_retry(&mut self, id: &str)
        requires
            old(self)@.dom().contains(id@) ==> old(self)@[id@].retry_count < u32::MAX,
        ensures
            final(self)@ == if old(self)@.dom().contains(id@) {
                old(self)@.insert(
                    id@,
                    (SessionView { retry_count: (old(self)@[id@].retry_count + 1) as u32, ..old(self)@[id@] }),
                )
            } else {
                old(self)@
            },
            final(self).snapshot_due() == old(self).snapshot_due(),
    {
        proof {
            use_type_invariant(&*self);
        }
        let pos = self.position(id);
        proof {
            self.lemma_lookup(id@, pos);
        }
        if let Some(i) = pos {
            let mut s = self.sessions[i].clone();
            s.retry_count = s.retry_count + 1;
            self.replace_at(i, s);
        }
    }

    /// Append messages to a session; an unknown identifier changes nothing.
    pub fn append_messages(&mut self, id: &str, new_messages: Vec<Message>)
        ensures
            final(self)@.dom() == old(self)@.dom(),
            old(self)@.dom().contains(id@) ==> final(self)@ == old(self)@.insert(
                id@,
                final(self)@[id@],
            ) && final(self)@[id@] == (SessionView {
                messages: old(self)@[id@].messages + new_messages@,
                ..old(self)@[id@]
            }),
            !old(self)@.dom().contains(id@) ==> final(self)@ == old(self)@,
            final(self).snapshot_due() == old(self).snapshot_due(),
    {
        proof {
            use_type_invariant(&*self);
        }
        let pos = self.position(id);
        proof {
            self.lemma_lookup(id@, pos);
        }
        if let Some(i) = pos {
            let mut s = self.sessions[i].clone();
            let mut extra = new_messages;
            s.messages.append(&mut extra);
            self.replace_at(i, s);
            proof {
                assert(old(self)@.insert(id@, s@).dom() =~= old(self)@.dom());
            }
        }
    }

    /// Transition a session one step along its lifecycle; returns the new
    /// state, or `None` (changing nothing) for an unknown identifier or a
    /// session that is Done.
    pub fn transition(&mut self, id: &str, max_retries: u32) -> (r: Option<SessionState>)
        ensures
            !old(self)@.dom().contains(id@) ==> r is None && final(self)@ == old(self)@,
            old(self)@.dom().contains(id@) ==> match next_step(
                old(self)@[id@].state,
                old(self)@[id@].retry_count,
                max_retries,
            ) {
                None => r is None && final(self)@ == old(self)@,
                Some((st, retry)) => r == Some(st) && final(self)@ == old(self)@.insert(
                    id@,
                    (SessionView { state: st, retry_count: retry, ..old(self)@[id@] }),
                ),
            },
            final(self).snapshot_due() == (old(self).snapshot_due() || r is Some),
    {
        proof {
            use_type_invariant(&*self);
        }
        let pos = self.position(id);
        proof {
            self.lemma_lookup(id@, pos);
        }
        let i = match pos {
            Some(i) => i,
            None => return None,
        };
        let mut s = self.sessions[i].clone();
        let new_state = match s.state {
            SessionState::Diagnostic => SessionState::Execution,
            SessionState::Execution => SessionState::Verify,
            SessionState::Verify => {
                if s.retry_count < max_retries {
                    s.retry_count = s.retry_count + 1;
                    SessionState::Diagnostic
                } else {
                    SessionState::Done
                }
            },
            SessionState::Done => return None,
        };
        s.state = new_state;
        self.replace_at(i, s);
        self.snapshot_due = true;
        Some(new_state)
    }

    /// Every stored session, in the order they were opened.
    pub fn list(&self) -> (r: Vec<Session>)
        ensures
            r@.map_values(|s: Session| s@) == self.entries(),
    {
        let mut out: Vec<Session> = Vec::new();
        let mut i: usize = 0;
        while i < self.sessions.len()
            invariant
                i <= self.sessions@.len(),
                out@.map_values(|s: Session| s@) == self.sessions@.take(i as int).map_values(
                    |s: Session| s@,
                ),
            decreases self.sessions@.len() - i,
        {
            let ghost before = out@;
            let c = self.sessions[i].clone();
            out.push(c);
            assert(self.sessions@.take(i + 1) =~= self.sessions@.take(i as int).push(self.sessions@[i as int]));
            assert(out@.map_values(|s: Session| s@) =~= before.map_values(|s: Session| s@).push(c@));
            assert(out@.map_values(|s: Session| s@) =~= self.sessions@.take(i + 1).map_values(
                |s: Session| s@,
            ));
            i = i + 1;
        }
        assert(self.sessions@.take(self.sessions@.len() as int) =~= self.sessions@);
        out
    }

    /// Removes the session with the identifier, returning it.
    pub fn remove(&mut self, id: &str) -> (r: Option<Session>)
        ensures
            final(self)@ == old(self)@.remove(id@),
            old(self)@.dom().contains(id@) ==> (r matches Some(s) && s@ == old(self)@[id@]),
            !old(self)@.dom().contains(id@) ==> r is None,
            final(self).snapshot_due() == (old(self).snapshot_due() || r is Some),
    {
        proof {
            use_type_invariant(&*self);
        }
        let pos = self.position(id);
        proof {
            self.lemma_lookup(id@, pos);
        }
        match pos {
            Some(i) => {
                proof {
                    lemma_map_of_remove(self.sessions@, i as int);
                }
                let mut v: Vec<Session> = Vec::new();
                std::mem::swap(&mut v, &mut self.sessions);
                let s = v.remove(i);
                self.sessions = v;
                self.snapshot_due = true;
                Some(s)
            },
            None => {
                assert(old(self)@.remove(id@) =~= old(self)@);
                None
            },
        }
    }

    /// Snapshots of the sessions that are not Done, in the order they were
    /// opened. Restoring them into an empty store gives back exactly those
    /// sessions (without their model lists), one added per snapshot.
    pub fn snapshots(&self) -> (r: Vec<SessionSnapshot>)
        ensures
            r@.map_values(|x: SessionSnapshot| x@) == self.entries().filter(not_done()).map_values(
                |v: SessionView| without_models(v),
            ),
            restore_all(Map::empty(), r@.map_values(|x: SessionSnapshot| x@)) == (
            saved_sessions(self@),
            r@.len() as nat,
            ),
    {
        proof {
            use_type_invariant(self);
            lemma_snapshot_round_trip(self.sessions@);
        }
        let ghost p = not_done();
        let ghost views = self.sessions@.map_values(|s: Session| s@);
        let mut out: Vec<SessionSnapshot> = Vec::new();
        let mut i: usize = 0;
        while i < self.sessions.len()
            invariant
                i <= self.sessions@.len(),
                p == not_done(),
                views == self.sessions@.map_values(|s: Session| s@),
                out@.map_values(|x: SessionSnapshot| x@) == views.take(i as int).filter(p).map_values(
                    |v: SessionView| without_models(v),
                ),
            decreases self.sessions@.len() - i,
        {
            proof {
                assert(views.take(i + 1) =~= views.take(i as int).push(self.sessions@[i as int]@));
                lemma_filter_push(views.take(i as int), self.sessions@[i as int]@, p);
            }
            if self.sessions[i].state != SessionState::Done {
                let s = self.sessions[i].clone();
                let ghost before = out@;
                out.push(SessionSnapshot {
                    id: s.id,
                    state: s.state,
                    retry_count: s.retry_count,
                    messages: s.messages,
                    created_at_secs: s.created_at,
                });
                assert(out@.map_values(|x: SessionSnapshot| x@) =~= before.map_values(
                    |x: SessionSnapshot| x@,
                ).push(without_models(self.sessions@[i as int]@)));
            }
            i = i + 1;
        }
        assert(views.take(self.sessions@.len() as int) =~= views);
        out
    }

    /// Restores saved sessions: each snapshot whose identifier is not yet
    /// present is added. Returns how many were added.
    pub fn restore(&mut self, snapshots: Vec<SessionSnapshot>) -> (r: usize)
        ensures
            (final(self)@, r as nat) == restore_all(
                old(self)@,
                snapshots@.map_values(|x: SessionSnapshot| x@),
            ),
            final(self).snapshot_due() == old(self).snapshot_due(),
    {
        proof {
            use_type_invariant(&*self);
        }
        let mut loaded: usize = 0;
        let ghost m0 = self@;
        let mut snaps = snapshots;
        let ghost all = snaps@.map_values(|x: SessionSnapshot| x@);
        let ghost mut k: int = 0;
        assert(all.len() == snaps.len());
        assert(all.take(0) =~= Seq::<SessionView>::empty());
        while snaps.len() > 0
            invariant
                0 <= k <= all.len(),
                all.len() <= usize::MAX,
                snaps@.map_values(|x: SessionSnapshot| x@) == all.skip(k),
                (self@, loaded as nat) == restore_all(m0, all.take(k)),
                loaded <= k,
                self.snapshot_due == old(self).snapshot_due,
            decreases snaps@.len(),
        {
            let ghost before = snaps@;
            let snap = snaps.remove(0);
            proof {
                assert(before.map_values(|x: SessionSnapshot| x@).len() == before.len());
                assert(k < all.len());
                assert(before.map_values(|x: SessionSnapshot| x@)[0] == all.skip(k)[0]);
                assert(all.skip(k)[0] == all[k]);
                assert(snap@ == all[k]);
                assert(all.take(k + 1).drop_last() =~= all.take(k));
                assert forall|j: int| 0 <= j < snaps@.len() implies #[trigger] snaps@[j]@ == all.skip(k + 1)[j] by {
                    assert(snaps@[j] == before[j + 1]);
                    assert(before.map_values(|x: SessionSnapshot| x@)[j + 1] == all.skip(k)[j + 1]);
                }
                assert(snaps@.map_values(|x: SessionSnapshot| x@) =~= all.skip(k + 1));
                use_type_invariant(&*self);
            }
            let pos = self.position(snap.id.as_str());
            proof {
                self.lemma_lookup(snap.id@, pos);
            }
            if pos.is_none() {
                self.push_session(Session {
                    id: snap.id,
                    state: snap.state,
                    retry_count: snap.retry_count,
                    messages: snap.messages,
                    created_at: snap.created_at_secs,
                    models: Vec::new(),
                });
                loaded = loaded + 1;
            }
            proof {
                k = k + 1;
            }
        }
        assert(all.take(k) =~= all);
        loaded
    }
}

impl Default for SessionManager {
    fn default() -> (r: Self)
        ensures
            r@ == Map::<Seq<char>, SessionView>::empty(),
            !r.snapshot_due(),
    {
        SessionManager::new()
    }
}

/// A session that is Done stays Done: it has no next step.
pub proof fn law_done_is_terminal(retry: u32, max_retries: u32)
    ensures
        next_step(SessionState::Done, retry, max_retries) is None,
{
}

/// Retries never exceed their maximum: a step from a session within its
/// retry budget stays within it, and only the Verify → Diagnostic step
/// uses a retry.
pub proof fn law_retries_bounded(state: SessionState, retry: u32, max_retries: u32)
    requires
        retry <= max_retries,
    ensures
        next_step(state, retry, max_retries) matches Some((st, r)) ==> r <= max_retries && (r
            == retry || (state == SessionState::Verify && st == SessionState::Diagnostic && r == retry
            + 1)),
{
}

/// From Verify, a session goes back to Diagnostic exactly while retries
/// remain, and is Done once they are used up.
pub proof fn law_verify_outcome(retry: u32, max_retries: u32)
    ensures
        next_step(SessionState::Verify, retry, max_retries) == if retry < max_retries {
            Some((SessionState::Diagnostic, (retry + 1) as u32))
        } else {
            Some((SessionState::Done, retry))
        },
{
}

/// Where `n` transitions lead a session in `state` with `retry` retries
/// used: `None` once a transition has nothing to do (the session is Done).
pub open spec fn after_steps(state: SessionState, retry: u32, max_retries: u32, n: nat) -> Option<
    (SessionState, u32),
>
    decreases n,
{
    if n == 0 {
        Some((state, retry))
    } else {
        match next_step(state, retry, max_retries) {
            None => None,
            Some((st, r)) => after_steps(st, r, max_retries, (n - 1) as nat),
        }
    }
}

/// Number of transitions a fresh run makes from Diagnostic with `retry`
/// retries used: three per remaining retry, and three more to reach Done.
pub open spec fn run_length(retry: u32, max_retries: u32) -> nat {
    if retry <= max_retries {
        (3 * (max_retries - retry) + 3) as nat
    } else {
        3
    }
}

/// A session in Diagnostic with `retry` retries used answers exactly
/// `run_length` transitions with a new state, the last of them Done with
/// the retries used up to the maximum, and every later transition with
/// nothing.
pub proof fn law_transition_run(retry: u32, max_retries: u32)
    ensures
        forall|n: nat| 1 <= n <= run_length(retry, max_retries) ==> #[trigger] after_steps(
            SessionState::Diagnostic,
            retry,
            max_retries,
            n,
        ) is Some,
        after_steps(SessionState::Diagnostic, retry, max_retries, run_length(retry, max_retries))
            == Some((SessionState::Done, if retry <= max_retries { max_retries } else { retry })),
        forall|n: nat| n > run_length(retry, max_retries) ==> #[trigger] after_steps(
            SessionState::Diagnostic,
            retry,
            max_retries,
            n,
        ) is None,
    decreases max_retries - retry,
{
    let d = SessionState::Diagnostic;
    assert forall|n: nat| n >= 3 implies #[trigger] after_steps(d, retry, max_retries, n)
        == after_steps(
        if retry < max_retries { d } else { SessionState::Done },
        if retry < max_retries { (retry + 1) as u32 } else { retry },
        max_retries,
        (n - 3) as nat,
    ) by {
        assert(after_steps(d, retry, max_retries, n) == after_steps(
            SessionState::Execution,
            retry,
            max_retries,
            (n - 1) as nat,
        ));
        assert(after_steps(SessionState::Execution, retry, max_retries, (n - 1) as nat) == after_steps(
            SessionState::Verify,
            retry,
            max_retries,
            (n - 2) as nat,
        ));
    }
    assert(after_steps(SessionState::Execution, retry, max_retries, 0) is Some);
    assert(after_steps(d, retry, max_retries, 1) is Some);
    assert(after_steps(SessionState::Verify, retry, max_retries, 0) is Some);
    assert(after_steps(SessionState::Execution, retry, max_retries, 1) is Some);
    assert(after_steps(d, retry, max_retries, 2) is Some);
    if retry < max_retries {
        law_transition_run((retry + 1) as u32, max_retries);
        assert(run_length(retry, max_retries) == run_length((retry + 1) as u32, max_retries) + 3);
        assert(after_steps(d, (retry + 1) as u32, max_retries, 0) is Some);
    } else {
        assert(after_steps(SessionState::Done, retry, max_retries, 0) is Some);
        assert forall|n: nat| n > run_length(retry, max_retries) implies #[trigger] after_steps(
            d,
            retry,
            max_retries,
            n,
        ) is None by {
            assert(after_steps(SessionState::Done, retry, max_retries, (n - 3) as nat) is None);
        }
    }
}

} // verus!
