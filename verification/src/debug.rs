//! Debug sessions and the breakpoints set in each file, with the protocol's
//! data types.
use vstd::prelude::*;
use crate::store::{
    Duplicate, Store, views, duplicate_all, lookup, store_insert, store_remove, distinct_keys, values_of,
    key_index, lemma_key_index_bounds, lemma_lookup_contains,
};
use crate::text::{clone_opt, concat, owned};

verus! {

/// A source file as the debug protocol names it.
pub struct Source {
    pub name: Option<String>,
    pub path: Option<String>,
    pub source_reference: Option<i64>,
}

/// A breakpoint as the debugger reports it.
pub struct Breakpoint {
    pub id: Option<i64>,
    pub verified: bool,
    pub message: Option<String>,
    pub source: Option<Source>,
    pub line: Option<i64>,
    pub column: Option<i64>,
}

/// A breakpoint as the user sets it in a source file.
pub struct SourceBreakpoint {
    pub line: i64,
    pub column: Option<i64>,
    pub condition: Option<String>,
    pub hit_condition: Option<String>,
    pub log_message: Option<String>,
}

pub struct StackFrame {
    pub id: i64,
    pub name: String,
    pub source: Option<Source>,
    pub line: i64,
    pub column: i64,
    pub end_line: Option<i64>,
    pub end_column: Option<i64>,
}

pub struct Thread {
    pub id: i64,
    pub name: String,
}

pub struct Variable {
    pub name: String,
    pub value: String,
    pub var_type: Option<String>,
    pub variables_reference: i64,
    pub named_variables: Option<i64>,
    pub indexed_variables: Option<i64>,
}

pub struct Scope {
    pub name: String,
    pub variables_reference: i64,
    pub expensive: bool,
}

/// What a launch request asks the debugger to run.
pub struct LaunchRequestArguments {
    pub program: String,
    pub args: Option<Vec<String>>,
    pub cwd: Option<String>,
    /// Environment variables, each name with its value.
    pub env: Option<Vec<(String, String)>>,
    pub stop_on_entry: Option<bool>,
}

#[derive(Clone, Copy, Debug, PartialEq, Eq, Hash, Structural)]
pub enum DebugState {
    Stopped,
    Initialized,
    Running,
    Paused,
    Terminated,
}

pub struct DebugSession {
    pub id: String,
    pub name: String,
    pub state: DebugState,
    pub adapter_type: String,
}

fn clone_source(s: &Option<Source>) -> (r: Option<Source>)
    ensures
        r == *s,
{
    match s {
        Some(src) => Some(
            Source {
                name: clone_opt(&src.name),
                path: clone_opt(&src.path),
                source_reference: src.source_reference,
            },
        ),
        None => None,
    }
}

impl View for Breakpoint {
    type V = Breakpoint;

    open spec fn view(&self) -> Breakpoint {
        *self
    }
}

impl Duplicate for Breakpoint {
    fn duplicate(&self) -> (r: Self) {
        Breakpoint {
            id: self.id,
            verified: self.verified,
            message: clone_opt(&self.message),
            source: clone_source(&self.source),
            line: self.line,
            column: self.column,
        }
    }
}

impl View for DebugSession {
    type V = DebugSession;

    open spec fn view(&self) -> DebugSession {
        *self
    }
}

impl Duplicate for DebugSession {
    fn duplicate(&self) -> (r: Self) {
        DebugSession {
            id: self.id.clone(),
            name: self.name.clone(),
            state: self.state,
            adapter_type: self.adapter_type.clone(),
        }
    }
}

/// The breakpoints of one file.
pub struct BreakpointList {
    pub items: Vec<Breakpoint>,
}

impl View for BreakpointList {
    type V = Seq<Breakpoint>;

    open spec fn view(&self) -> Seq<Breakpoint> {
        self.items@
    }
}

impl Duplicate for BreakpointList {
    fn duplicate(&self) -> (r: Self) {
        let c = duplicate_all(&self.items);
        assert(c@ =~= self.items@);
        BreakpointList { items: c }
    }
}

/// The breakpoint a source breakpoint becomes: unverified, at its line and column.
pub open spec fn as_breakpoint(b: SourceBreakpoint) -> Breakpoint {
    Breakpoint { id: None, verified: false, message: None, source: None, line: Some(b.line), column: b.column }
}

pub open spec fn session_missing_message(id: Seq<char>) -> Seq<char> {
    "Session "@ + id + " not found"@
}

fn session_missing(id: &str) -> (r: String)
    ensures
        r@ == session_missing_message(id@),
{
    let a = concat("Session ", id);
    concat(a.as_str(), " not found")
}

/// A lowercase hexadecimal digit.
pub open spec fn is_lower_hex(c: char) -> bool {
    ('0' <= c && c <= '9') || ('a' <= c && c <= 'f')
}

/// The text of a version 4 UUID in its hyphenated lowercase form: 36 chars,
/// hyphens at 8, 13, 18 and 23, hex digits elsewhere, the version digit `4`
/// at 14 and one of `8`, `9`, `a`, `b` at 19.
pub open spec fn is_v4_uuid_text(s: Seq<char>) -> bool {
    &&& s.len() == 36
    &&& forall|i: int|
        0 <= i < 36 ==> if i == 8 || i == 13 || i == 18 || i == 23 {
            #[trigger] s[i] == '-'
        } else {
            is_lower_hex(s[i])
        }
    &&& s[14] == '4'
    &&& (s[19] == '8' || s[19] == '9' || s[19] == 'a' || s[19] == 'b')
}

/// A fresh random session id, as `uuid::Uuid::new_v4().to_string()` writes
/// it: which id comes from the random source; its form is the hyphenated
/// lowercase one that `Display` writes (`format_hyphenated`), with the
/// version and variant bits `new_v4` sets.
#[verifier::external_body]
fn new_session_id() -> (r: String)
    ensures
        is_v4_uuid_text(r@),
{
    uuid::Uuid::new_v4().to_string()
}

/// A new session: stopped.
pub open spec fn new_session(id: Seq<char>, name: Seq<char>, adapter_type: Seq<char>) -> (Seq<char>, Seq<char>, DebugState, Seq<char>) {
    (id, name, DebugState::Stopped, adapter_type)
}

/// A session's fields.
pub open spec fn session_fields(s: DebugSession) -> (Seq<char>, Seq<char>, DebugState, Seq<char>) {
    (s.id@, s.name@, s.state, s.adapter_type@)
}

/// Each session is stored under its own id.
pub open spec fn keyed_by_id(sessions: Seq<(Seq<char>, DebugSession)>) -> bool {
    forall|i: int| 0 <= i < sessions.len() ==> (#[trigger] sessions[i]).0 == sessions[i].1.id@
}

proof fn lemma_keyed_insert(sessions: Seq<(Seq<char>, DebugSession)>, key: Seq<char>, s: DebugSession)
    requires
        keyed_by_id(sessions),
        s.id@ == key,
    ensures
        keyed_by_id(store_insert(sessions, key, s)),
{
    lemma_key_index_bounds(sessions, key);
    let after = store_insert(sessions, key, s);
    assert forall|i: int| 0 <= i < after.len() implies (#[trigger] after[i]).0 == after[i].1.id@ by {
        if i < sessions.len() && i != key_index(sessions, key) {
            assert(after[i] == sessions[i]);
        }
    }
}

proof fn lemma_keyed_remove(sessions: Seq<(Seq<char>, DebugSession)>, key: Seq<char>)
    requires
        keyed_by_id(sessions),
    ensures
        keyed_by_id(store_remove(sessions, key)),
{
    lemma_key_index_bounds(sessions, key);
    let k = key_index(sessions, key);
    let after = store_remove(sessions, key);
    assert forall|i: int| 0 <= i < after.len() implies (#[trigger] after[i]).0 == after[i].1.id@ by {
        if k < sessions.len() {
            if i < k {
                assert(after[i] == sessions[i]);
            } else {
                assert(after[i] == sessions[i + 1]);
            }
        }
    }
}

proof fn lemma_lookup_keyed(sessions: Seq<(Seq<char>, DebugSession)>, key: Seq<char>)
    requires
        keyed_by_id(sessions),
    ensures
        lookup(sessions, key) matches Some(s) ==> s.id@ == key,
{
    lemma_key_index_bounds(sessions, key);
}

/// Debug sessions by id and breakpoints by file.
pub struct DebugManager {
    sessions: Store<DebugSession>,
    breakpoints: Store<BreakpointList>,
}

impl DebugManager {
    pub closed spec fn sessions(&self) -> Seq<(Seq<char>, DebugSession)> {
        self.sessions.entries()
    }

    pub closed spec fn breakpoints(&self) -> Seq<(Seq<char>, Seq<Breakpoint>)> {
        self.breakpoints.entries()
    }

    pub open spec fn wf(&self) -> bool {
        &&& distinct_keys(self.sessions())
        &&& keyed_by_id(self.sessions())
        &&& distinct_keys(self.breakpoints())
    }

    pub fn new() -> (r: Self)
        ensures
            r.wf(),
            r.sessions().len() == 0,
            r.breakpoints().len() == 0,
    {
        DebugManager { sessions: Store::new(), breakpoints: Store::new() }
    }

    /// Records a stopped session under `session_id`; gives back the id.
    pub fn create_session_with_id(&mut self, session_id: String, name: String, adapter_type: String) -> (r:
        Result<String, String>)
        requires
            old(self).wf(),
        ensures
            final(self).wf(),
            final(self).breakpoints() == old(self).breakpoints(),
            lookup(final(self).sessions(), session_id@) matches Some(s)
                && session_fields(s) == new_session(session_id@, name@, adapter_type@),
            exists|s: DebugSession|
                session_fields(s) == new_session(session_id@, name@, adapter_type@)
                && final(self).sessions() == store_insert(old(self).sessions(), session_id@, s),
            r matches Ok(id) && id@ == session_id@,
    {
        let session = DebugSession {
            id: session_id.clone(),
            name,
            state: DebugState::Stopped,
            adapter_type,
        };
        let ghost sv = session;
        let key = session_id.clone();
        self.sessions.insert(key, session);
        proof {
            crate::store::lemma_lookup_insert(old(self).sessions(), session_id@, sv, session_id@);
            lemma_keyed_insert(old(self).sessions(), session_id@, sv);
            assert(session_fields(sv) == new_session(session_id@, sv.name@, sv.adapter_type@));
            assert(self.sessions() == store_insert(old(self).sessions(), session_id@, sv));
        }
        Ok(session_id)
    }

    /// Records a stopped session under a fresh random id; gives back the id.
    pub fn create_session(&mut self, name: String, adapter_type: String) -> (r: Result<String, String>)
        requires
            old(self).wf(),
        ensures
            final(self).wf(),
            final(self).breakpoints() == old(self).breakpoints(),
            r matches Ok(id) && lookup(final(self).sessions(), id@) matches Some(s)
                && session_fields(s) == new_session(id@, name@, adapter_type@),
            r matches Ok(id) && is_v4_uuid_text(id@),
            r matches Ok(id) && exists|s: DebugSession|
                session_fields(s) == new_session(id@, name@, adapter_type@)
                && final(self).sessions() == store_insert(old(self).sessions(), id@, s),
    {
        let id = new_session_id();
        self.create_session_with_id(id, name, adapter_type)
    }

    /// A copy of the session with `session_id`.
    pub fn get_session(&self, session_id: &str) -> (r: Result<DebugSession, String>)
        ensures
            match lookup(self.sessions(), session_id@) {
                Some(s) => r == Ok::<DebugSession, String>(s),
                None => r matches Err(m) && m@ == session_missing_message(session_id@),
            },
    {
        match self.sessions.get(session_id) {
            Some(s) => Ok(s),
            None => Err(session_missing(session_id)),
        }
    }

    /// Copies of all sessions.
    pub fn list_sessions(&self) -> (r: Result<Vec<DebugSession>, String>)
        ensures
            r matches Ok(v) && v@ == values_of(self.sessions()),
    {
        let v = self.sessions.values();
        assert(v@ =~= views(v@));
        Ok(v)
    }

    /// Sets a session's state.
    pub fn update_session_state(&mut self, session_id: &str, state: DebugState) -> (r: Result<(), String>)
        requires
            old(self).wf(),
        ensures
            final(self).wf(),
            final(self).breakpoints() == old(self).breakpoints(),
            match lookup(old(self).sessions(), session_id@) {
                Some(s) => r is Ok && final(self).sessions() == store_insert(
                    old(self).sessions(),
                    session_id@,
                    DebugSession { state, ..s },
                ),
                None => final(self).sessions() == old(self).sessions() && (r matches Err(m)
                    && m@ == session_missing_message(session_id@)),
            },
    {
        match self.sessions.get(session_id) {
            Some(s) => {
                proof {
                    lemma_lookup_keyed(self.sessions(), session_id@);
                }
                let mut s = s;
                s.state = state;
                let key = owned(session_id);
                let ghost sv = s;
                self.sessions.insert(key, s);
                proof {
                    lemma_keyed_insert(old(self).sessions(), session_id@, sv);
                }
                Ok(())
            },
            None => Err(session_missing(session_id)),
        }
    }

    /// Forgets a session; a missing one is no error.
    pub fn terminate_session(&mut self, session_id: &str) -> (r: Result<(), String>)
        requires
            old(self).wf(),
        ensures
            final(self).wf(),
            final(self).breakpoints() == old(self).breakpoints(),
            final(self).sessions() == store_remove(old(self).sessions(), session_id@),
            r is Ok,
    {
        let _ = self.sessions.remove(session_id);
        proof {
            lemma_keyed_remove(old(self).sessions(), session_id@);
        }
        Ok(())
    }

    /// Replaces a file's breakpoints with the given source breakpoints, each
    /// unverified at its line and column.
    pub fn set_breakpoints(&mut self, file_path: String, breakpoints: Vec<SourceBreakpoint>) -> (r:
        Result<(), String>)
        requires
            old(self).wf(),
        ensures
            final(self).wf(),
            final(self).sessions() == old(self).sessions(),
            final(self).breakpoints() == store_insert(
                old(self).breakpoints(),
                file_path@,
                breakpoints@.map_values(|b: SourceBreakpoint| as_breakpoint(b)),
            ),
            r is Ok,
    {
        let mut converted: Vec<Breakpoint> = Vec::new();
        let mut i: usize = 0;
        while i < breakpoints.len()
            invariant
                i <= breakpoints@.len(),
                converted@ == breakpoints@.take(i as int).map_values(|b: SourceBreakpoint| as_breakpoint(b)),
            decreases breakpoints@.len() - i,
        {
            let b = &breakpoints[i];
            converted.push(
                Breakpoint { id: None, verified: false, message: None, source: None, line: Some(b.line), column: b.column },
            );
            assert(converted@ =~= breakpoints@.take(i + 1).map_values(|b: SourceBreakpoint| as_breakpoint(b)));
            i = i + 1;
        }
        assert(breakpoints@.take(i as int) =~= breakpoints@);
        self.breakpoints.insert(file_path, BreakpointList { items: converted });
        Ok(())
    }

    /// Copies of a file's breakpoints; none when the file has no entry.
    pub fn get_breakpoints(&self, file_path: &str) -> (r: Result<Vec<Breakpoint>, String>)
        ensures
            r matches Ok(v) && v@ == match lookup(self.breakpoints(), file_path@) {
                Some(l) => l,
                None => Seq::empty(),
            },
    {
        match self.breakpoints.get(file_path) {
            Some(l) => Ok(l.items),
            None => {
                let v: Vec<Breakpoint> = Vec::new();
                assert(v@ =~= Seq::<Breakpoint>::empty());
                Ok(v)
            },
        }
    }

    /// Forgets a file's breakpoints.
    pub fn clear_breakpoints(&mut self, file_path: &str) -> (r: Result<(), String>)
        requires
            old(self).wf(),
        ensures
            final(self).wf(),
            final(self).sessions() == old(self).sessions(),
            final(self).breakpoints() == store_remove(old(self).breakpoints(), file_path@),
            r is Ok,
    {
        let _ = self.breakpoints.remove(file_path);
        Ok(())
    }

    /// Every file with breakpoints, with copies of them.
    pub fn get_all_breakpoints(&self) -> (r: Result<Vec<(String, Vec<Breakpoint>)>, String>)
        ensures
            r matches Ok(v) && v@.map_values(|e: (String, Vec<Breakpoint>)| (e.0@, e.1@)) == self.breakpoints(),
    {
        let ghost d = self.breakpoints.entries();
        let mut out: Vec<(String, Vec<Breakpoint>)> = Vec::new();
        let mut i: usize = 0;
        while i < self.breakpoints.len()
            invariant
                i <= d.len(),
                d == self.breakpoints.entries(),
                out@.len() == i,
                forall|j: int| 0 <= j < i ==> (#[trigger] out@[j]).0@ == d[j].0 && out@[j].1@ == d[j].1,
            decreases d.len() - i,
        {
            let (k, l) = self.breakpoints.entry_at(i);
            let c = duplicate_all(&l.items);
            assert(c@ =~= l@);
            out.push((k.clone(), c));
            i = i + 1;
        }
        assert(out@.map_values(|e: (String, Vec<Breakpoint>)| (e.0@, e.1@)) =~= d);
        Ok(out)
    }
}

/// Every session that `list_sessions` gives back is found under its own id.
pub proof fn lemma_listed_sessions_found(m: DebugManager)
    requires
        m.wf(),
    ensures
        forall|i: int|
            0 <= i < values_of(m.sessions()).len() ==> lookup(
                m.sessions(),
                (#[trigger] values_of(m.sessions())[i]).id@,
            ) == Some(values_of(m.sessions())[i]),
{
    let e = m.sessions();
    assert forall|i: int| 0 <= i < values_of(e).len() implies lookup(
        e,
        (#[trigger] values_of(e)[i]).id@,
    ) == Some(values_of(e)[i]) by {
        let v = values_of(e)[i];
        assert(e[i] == (v.id@, v));
        assert(e.contains((v.id@, v)));
        lemma_lookup_contains(e, v.id@, v);
    }
}

} // verus!
