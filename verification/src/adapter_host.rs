//! The decisions of the adapter process host: its errors, the outcome of
//! the initialize handshake, and the table of requests awaiting a response.
//!
//! Requests carry an id; the adapter's response carries the same id and is
//! handed to the request waiting for it. A response whose id no request
//! awaits is dropped. When the adapter exits, or the host shuts down, every
//! waiting request fails.
use vstd::prelude::*;

use crate::adapter_protocol::{AdapterProcessMessageKind, kind_tag};
use crate::text::{chars_of, decimal, decimal_chars, extend_chars, extend_str, str_eq, string_of};

verus! {

// ---------------------------------------------------------------------------
// Errors
// ---------------------------------------------------------------------------

/// What `format!("{:?}", Duration::from_millis(ms))` writes.
pub uninterp spec fn millis_debug(ms: u64) -> Seq<char>;

/// A duration of `ms` milliseconds as `Duration`'s `Debug` writes it (such
/// as `5s` or `1.5s`); the contract names the result.
#[verifier::external_body]
fn duration_text(ms: u64) -> (r: String)
    ensures
        r@ == millis_debug(ms),
{
    format!("{:?}", std::time::Duration::from_millis(ms))
}

/// Errors of the adapter host. Timeouts are in milliseconds.
#[derive(Debug)]
pub enum AdapterHostError {
    /// The adapter process could not be started.
    SpawnFailed { package: String, reason: String },
    /// The initialize handshake did not complete in time.
    InitializeTimeout { timeout_ms: u64 },
    /// A request got no response in time.
    RequestTimeout { id: String, timeout_ms: u64 },
    /// The adapter exited during the handshake.
    AdapterExited { package: String, exit_code: Option<i32> },
    /// The adapter crashed or was shut down.
    AdapterUnavailable { package: String },
    /// Talking to the adapter failed.
    Io(String),
}

/// An integer in decimal, with a minus sign when negative.
pub open spec fn signed_decimal(i: int) -> Seq<char> {
    if i < 0 {
        "-"@ + decimal((-i) as nat)
    } else {
        decimal(i as nat)
    }
}

/// An optional exit code as `Option<i32>`'s `Debug` writes it.
pub open spec fn exit_code_debug(c: Option<i32>) -> Seq<char> {
    match c {
        Some(x) => "Some("@ + signed_decimal(x as int) + ")"@,
        None => "None"@,
    }
}

/// The message of an adapter host error.
pub open spec fn host_error_message(e: AdapterHostError) -> Seq<char> {
    match e {
        AdapterHostError::SpawnFailed { package, reason } => "adapter spawn failed for '"@
            + package@ + "': "@ + reason@,
        AdapterHostError::InitializeTimeout { timeout_ms } =>
            "initialize handshake timed out after "@ + millis_debug(timeout_ms),
        AdapterHostError::RequestTimeout { id, timeout_ms } => "request '"@ + id@
            + "' timed out after "@ + millis_debug(timeout_ms),
        AdapterHostError::AdapterExited { package, exit_code } => "adapter '"@ + package@
            + "' exited unexpectedly (exit code: "@ + exit_code_debug(exit_code) + ")"@,
        AdapterHostError::AdapterUnavailable { package } => "adapter '"@ + package@
            + "' is unavailable"@,
        AdapterHostError::Io(m) => "IO error: "@ + m@,
    }
}

/// An `i32` in decimal.
fn signed_decimal_chars(x: i32) -> (r: Vec<char>)
    ensures
        r@ == signed_decimal(x as int),
{
    if x < 0 {
        let mut v = chars_of("-");
        let a: i64 = -(x as i64);
        extend_chars(&mut v, &decimal_chars(a as u128));
        v
    } else {
        decimal_chars(x as u128)
    }
}

impl AdapterHostError {
    /// The message of this error.
    pub fn message(&self) -> (r: String)
        ensures
            r@ == host_error_message(*self),
    {
        let mut v: Vec<char> = Vec::new();
        match self {
            AdapterHostError::SpawnFailed { package, reason } => {
                extend_str(&mut v, "adapter spawn failed for '");
                extend_str(&mut v, package.as_str());
                extend_str(&mut v, "': ");
                extend_str(&mut v, reason.as_str());
            },
            AdapterHostError::InitializeTimeout { timeout_ms } => {
                extend_str(&mut v, "initialize handshake timed out after ");
                extend_str(&mut v, duration_text(*timeout_ms).as_str());
            },
            AdapterHostError::RequestTimeout { id, timeout_ms } => {
                extend_str(&mut v, "request '");
                extend_str(&mut v, id.as_str());
                extend_str(&mut v, "' timed out after ");
                extend_str(&mut v, duration_text(*timeout_ms).as_str());
            },
            AdapterHostError::AdapterExited { package, exit_code } => {
                extend_str(&mut v, "adapter '");
                extend_str(&mut v, package.as_str());
                extend_str(&mut v, "' exited unexpectedly (exit code: ");
                match exit_code {
                    Some(c) => {
                        extend_str(&mut v, "Some(");
                        extend_chars(&mut v, &signed_decimal_chars(*c));
                        extend_str(&mut v, ")");
                    },
                    None => {
                        extend_str(&mut v, "None");
                    },
                }
                extend_str(&mut v, ")");
            },
            AdapterHostError::AdapterUnavailable { package } => {
                extend_str(&mut v, "adapter '");
                extend_str(&mut v, package.as_str());
                extend_str(&mut v, "' is unavailable");
            },
            AdapterHostError::Io(m) => {
                extend_str(&mut v, "IO error: ");
                extend_str(&mut v, m.as_str());
            },
        }
        string_of(&v)
    }
}

/// How to start an adapter process.
#[derive(Debug, Clone)]
pub struct AdapterProcessConfig {
    /// The adapter executable.
    pub command: String,
    pub args: Vec<String>,
    /// The working directory of the process.
    pub working_dir: String,
    /// Environment variables added for the process.
    pub env: Vec<(String, String)>,
}

// ---------------------------------------------------------------------------
// Handshake
// ---------------------------------------------------------------------------

/// How the initialize request ended.
#[derive(Debug)]
pub enum HandshakeResult {
    /// The adapter answered with its capabilities.
    Capabilities,
    /// The adapter answered with an error.
    AdapterError { message: String },
    /// The adapter answered with another kind of message.
    Unexpected { kind: AdapterProcessMessageKind },
    /// The request failed; `exit_code` is the adapter's exit code when it
    /// had exited by then.
    Failed { error: AdapterHostError, exit_code: Option<i32> },
    /// No answer came within the timeout.
    TimedOut,
}

/// `e` reports that the adapter of `package` could not be started, for
/// `reason`.
pub open spec fn spawn_failed_with(e: AdapterHostError, package: Seq<char>, reason: Seq<char>) -> bool {
    e matches AdapterHostError::SpawnFailed { package: p, reason: m } && p@ == package && m@ == reason
}

/// `r` shuts the adapter down with `reason`.
pub open spec fn stops_with(r: Result<(), (String, AdapterHostError)>, reason: Seq<char>) -> bool {
    r matches Err((x, _)) && x@ == reason
}

/// The error of a failed handshake.
pub open spec fn failure_of(r: Result<(), (String, AdapterHostError)>) -> AdapterHostError
    recommends
        r is Err,
{
    r->Err_0.1
}

/// What the host does after the handshake: keep the adapter, or shut it
/// down with the given reason and fail with the given error.
pub open spec fn handshake_spec(
    package: Seq<char>,
    result: HandshakeResult,
    timeout_ms: u64,
    r: Result<(), (String, AdapterHostError)>,
) -> bool {
    match result {
        HandshakeResult::Capabilities => r is Ok,
        HandshakeResult::AdapterError { message } => stops_with(r, "handshake_error"@)
            && spawn_failed_with(
            failure_of(r),
            package,
            "adapter error during handshake: "@ + message@,
        ),
        HandshakeResult::Unexpected { kind } => stops_with(r, "unexpected_response"@)
            && spawn_failed_with(
            failure_of(r),
            package,
            "expected capabilities response, got: \""@ + kind_tag(kind) + "\""@,
        ),
        HandshakeResult::Failed { error, exit_code } => stops_with(r, "handshake_failure"@)
            && match exit_code {
            Some(c) => exited_with(failure_of(r), package, c),
            None => failure_of(r) == error,
        },
        HandshakeResult::TimedOut => stops_with(r, "initialize_timeout"@) && failure_of(r)
            == (AdapterHostError::InitializeTimeout { timeout_ms }),
    }
}

/// `e` reports that the adapter of `package` exited with code `c`.
pub open spec fn exited_with(e: AdapterHostError, package: Seq<char>, c: i32) -> bool {
    e matches AdapterHostError::AdapterExited { package: p, exit_code: x } && p@ == package && x
        == Some(c)
}

/// Decide what follows the initialize handshake of the adapter of
/// `package`, started with a timeout of `timeout_ms` milliseconds.
pub fn handshake_decision(package: &str, result: HandshakeResult, timeout_ms: u64) -> (r: Result<
    (),
    (String, AdapterHostError),
>)
    ensures
        handshake_spec(package@, result, timeout_ms, r),
{
    match result {
        HandshakeResult::Capabilities => Ok(()),
        HandshakeResult::AdapterError { message } => {
            let mut m = chars_of("adapter error during handshake: ");
            extend_str(&mut m, message.as_str());
            Err(
                (
                    string_of(&chars_of("handshake_error")),
                    AdapterHostError::SpawnFailed {
                        package: string_of(&chars_of(package)),
                        reason: string_of(&m),
                    },
                ),
            )
        },
        HandshakeResult::Unexpected { kind } => {
            let mut m = chars_of("expected capabilities response, got: \"");
            extend_str(&mut m, kind.tag());
            extend_str(&mut m, "\"");
            Err(
                (
                    string_of(&chars_of("unexpected_response")),
                    AdapterHostError::SpawnFailed {
                        package: string_of(&chars_of(package)),
                        reason: string_of(&m),
                    },
                ),
            )
        },
        HandshakeResult::Failed { error, exit_code } => {
            let reason = string_of(&chars_of("handshake_failure"));
            match exit_code {
                Some(c) => Err(
                    (
                        reason,
                        AdapterHostError::AdapterExited {
                            package: string_of(&chars_of(package)),
                            exit_code: Some(c),
                        },
                    ),
                ),
                None => Err((reason, error)),
            }
        },
        HandshakeResult::TimedOut => Err(
            (
                string_of(&chars_of("initialize_timeout")),
                AdapterHostError::InitializeTimeout { timeout_ms },
            ),
        ),
    }
}

/// The id of the `n`-th request: `n` in decimal.
pub fn request_id(n: u64) -> (r: String)
    ensures
        r@ == decimal(n as nat),
{
    string_of(&decimal_chars(n as u128))
}

// ---------------------------------------------------------------------------
// Requests awaiting a response
// ---------------------------------------------------------------------------

/// Some entry of `s` has id `k`.
pub open spec fn has_id<T>(s: Seq<(String, T)>, k: Seq<char>) -> bool {
    exists|i: int| 0 <= i < s.len() && #[trigger] s[i].0@ == k
}

/// The value of the entry with id `k`.
pub open spec fn value_of<T>(s: Seq<(String, T)>, k: Seq<char>) -> T {
    s[choose|i: int| 0 <= i < s.len() && #[trigger] s[i].0@ == k].1
}

/// No two entries share an id.
pub open spec fn unique_ids<T>(s: Seq<(String, T)>) -> bool {
    forall|i: int, j: int| 0 <= i < j < s.len() ==> (#[trigger] s[i]).0@ != (#[trigger] s[j]).0@
}

/// The entries as a map from id to value.
pub open spec fn entries_map<T>(s: Seq<(String, T)>) -> Map<Seq<char>, T> {
    Map::new(|k: Seq<char>| has_id(s, k), |k: Seq<char>| value_of(s, k))
}

/// With unique ids, the entry at `i` is the one its id maps to.
proof fn lemma_value_at<T>(s: Seq<(String, T)>, i: int)
    requires
        unique_ids(s),
        0 <= i < s.len(),
    ensures
        has_id(s, s[i].0@),
        value_of(s, s[i].0@) == s[i].1,
{
    let k = s[i].0@;
    assert(s[i].0@ == k);
    let j = choose|j: int| 0 <= j < s.len() && #[trigger] s[j].0@ == k;
    if j != i {
        if j < i {
            assert(s[j].0@ != s[i].0@);
        } else {
            assert(s[i].0@ != s[j].0@);
        }
    }
}

/// The requests awaiting a response: a value (the waiter) for each request
/// id, each id at most once.
#[derive(Debug)]
pub struct PendingRequests<T> {
    entries: Vec<(String, T)>,
}

impl<T> PendingRequests<T> {
    /// The waiters by request id.
    pub closed spec fn view(&self) -> Map<Seq<char>, T> {
        entries_map(self.entries@)
    }

    #[verifier::type_invariant]
    closed spec fn ids_unique(&self) -> bool {
        unique_ids(self.entries@)
    }

    /// No request awaits a response.
    pub fn new() -> (r: Self)
        ensures
            r@ == Map::<Seq<char>, T>::empty(),
    {
        let r = PendingRequests { entries: Vec::new() };
        assert(r@ =~= Map::<Seq<char>, T>::empty());
        r
    }

    fn index_of(&self, id: &str) -> (r: Option<usize>)
        ensures
            r is None <==> !has_id(self.entries@, id@),
            r matches Some(i) ==> i < self.entries@.len() && self.entries@[i as int].0@ == id@,
    {
        let mut i: usize = 0;
        while i < self.entries.len()
            invariant
                i <= self.entries@.len(),
                forall|j: int| 0 <= j < i ==> (#[trigger] self.entries@[j]).0@ != id@,
            decreases self.entries.len() - i,
        {
            if str_eq(self.entries[i].0.as_str(), id) {
                return Some(i);
            }
            i += 1;
        }
        None
    }


    /// Register the waiter of request `id`; a waiter already registered
    /// under that id is replaced and returned.
    pub fn insert(&mut self, id: String, waiter: T) -> (r: Option<T>)
        ensures
            final(self)@ == old(self)@.insert(id@, waiter),
            old(self)@.dom().contains(id@) ==> r == Some(old(self)@[id@]),
            !old(self)@.dom().contains(id@) ==> r is None,
    {
        proof {
            use_type_invariant(&*self);
        }
        let ghost s = self.entries@;
        let ghost key = id@;
        match self.index_of(id.as_str()) {
            Some(i) => {
                proof {
                    lemma_value_at(s, i as int);
                }
                let mut v: Vec<(String, T)> = Vec::new();
                std::mem::swap(&mut v, &mut self.entries);
                let mut w = waiter;
                std::mem::swap(&mut v[i].1, &mut w);
                proof {
                    let t = v@;
                    assert(t == s.update(i as int, (s[i as int].0, waiter)));
                    assert forall|a: int, b: int| 0 <= a < b < t.len() implies (#[trigger] t[a]).0@
                        != (#[trigger] t[b]).0@ by {
                        assert(t[a].0 == s[a].0 && t[b].0 == s[b].0);
                    }
                    assert forall|k: Seq<char>| #[trigger] has_id(t, k) == has_id(s, k) by {
                        if has_id(t, k) {
                            let x = choose|x: int| 0 <= x < t.len() && #[trigger] t[x].0@ == k;
                            assert(s[x].0@ == k);
                        }
                        if has_id(s, k) {
                            let x = choose|x: int| 0 <= x < s.len() && #[trigger] s[x].0@ == k;
                            assert(t[x].0@ == k);
                        }
                    }
                    assert forall|k: Seq<char>| has_id(t, k) implies #[trigger] value_of(t, k)
                        == (if k == key { waiter } else { value_of(s, k) }) by {
                        let x = choose|x: int| 0 <= x < t.len() && #[trigger] t[x].0@ == k;
                        lemma_value_at(t, x);
                        lemma_value_at(s, x);
                    }
                    assert(entries_map(t) =~= entries_map(s).insert(key, waiter));
                }
                self.entries = v;
                Some(w)
            },
            None => {
                let mut v: Vec<(String, T)> = Vec::new();
                std::mem::swap(&mut v, &mut self.entries);
                v.push((id, waiter));
                proof {
                    let t = v@;
                    let n = s.len() as int;
                    assert(t[n].0@ == key);
                    assert forall|a: int, b: int| 0 <= a < b < t.len() implies (#[trigger] t[a]).0@
                        != (#[trigger] t[b]).0@ by {
                        if b == n {
                            assert(t[a] == s[a]);
                        } else {
                            assert(t[a] == s[a] && t[b] == s[b]);
                        }
                    }
                    assert forall|k: Seq<char>| #[trigger] has_id(t, k) == (has_id(s, k) || k
                        == key) by {
                        if has_id(t, k) && k != key {
                            let x = choose|x: int| 0 <= x < t.len() && #[trigger] t[x].0@ == k;
                            assert(x < n);
                            assert(s[x].0@ == k);
                        }
                        if has_id(s, k) {
                            let x = choose|x: int| 0 <= x < s.len() && #[trigger] s[x].0@ == k;
                            assert(t[x].0@ == k);
                        }
                    }
                    assert forall|k: Seq<char>| has_id(t, k) implies #[trigger] value_of(t, k)
                        == (if k == key { waiter } else { value_of(s, k) }) by {
                        let x = choose|x: int| 0 <= x < t.len() && #[trigger] t[x].0@ == k;
                        lemma_value_at(t, x);
                        if x < n {
                            assert(t[x] == s[x]);
                            lemma_value_at(s, x);
                        }
                    }
                    assert(entries_map(t) =~= entries_map(s).insert(key, waiter));
                }
                self.entries = v;
                None
            },
        }
    }

    /// Take the waiter of request `id`, if one is registered.
    pub fn remove(&mut self, id: &str) -> (r: Option<T>)
        ensures
            final(self)@ == old(self)@.remove(id@),
            old(self)@.dom().contains(id@) ==> r == Some(old(self)@[id@]),
            !old(self)@.dom().contains(id@) ==> r is None,
    {
        proof {
            use_type_invariant(&*self);
        }
        let ghost s = self.entries@;
        let ghost key = id@;
        match self.index_of(id) {
            Some(i) => {
                proof {
                    lemma_value_at(s, i as int);
                }
                let mut v: Vec<(String, T)> = Vec::new();
                std::mem::swap(&mut v, &mut self.entries);
                let (_, w) = v.remove(i);
                proof {
                    let t = v@;
                    let ii = i as int;
                    assert(t == s.remove(ii));
                    assert forall|a: int| 0 <= a < t.len() implies #[trigger] t[a] == (if a < ii {
                        s[a]
                    } else {
                        s[a + 1]
                    }) by {}
                    assert forall|a: int, b: int| 0 <= a < b < t.len() implies (#[trigger] t[a]).0@
                        != (#[trigger] t[b]).0@ by {
                        let a2 = if a < ii { a } else { a + 1 };
                        let b2 = if b < ii { b } else { b + 1 };
                        assert(t[a] == s[a2] && t[b] == s[b2]);
                        assert(s[a2].0@ != s[b2].0@);
                    }
                    assert forall|k: Seq<char>| #[trigger] has_id(t, k) == (has_id(s, k) && k
                        != key) by {
                        if has_id(t, k) {
                            let x = choose|x: int| 0 <= x < t.len() && #[trigger] t[x].0@ == k;
                            let x2 = if x < ii { x } else { x + 1 };
                            assert(t[x] == s[x2]);
                            assert(s[x2].0@ == k);
                            if k == key {
                                if x2 < ii {
                                    assert(s[x2].0@ != s[ii].0@);
                                } else {
                                    assert(s[ii].0@ != s[x2].0@);
                                }
                            }
                        }
                        if has_id(s, k) && k != key {
                            let x = choose|x: int| 0 <= x < s.len() && #[trigger] s[x].0@ == k;
                            assert(x != ii);
                            let x1 = if x < ii { x } else { x - 1 };
                            assert(t[x1] == s[x]);
                            assert(t[x1].0@ == k);
                        }
                    }
                    assert forall|k: Seq<char>| has_id(t, k) implies #[trigger] value_of(t, k)
                        == value_of(s, k) by {
                        let x = choose|x: int| 0 <= x < t.len() && #[trigger] t[x].0@ == k;
                        let x2 = if x < ii { x } else { x + 1 };
                        assert(t[x] == s[x2]);
                        lemma_value_at(t, x);
                        lemma_value_at(s, x2);
                    }
                    assert(entries_map(t) =~= entries_map(s).remove(key));
                }
                self.entries = v;
                Some(w)
            },
            None => {
                proof {
                    assert(entries_map(s) =~= entries_map(s).remove(key));
                }
                None
            },
        }
    }

    /// Hand a response to the request it answers: the waiter of its id,
    /// taken out of the table. A response without an id, or whose id no
    /// request awaits, reaches no one.
    pub fn route(&mut self, response_id: Option<&str>) -> (r: Option<T>)
        ensures
            match response_id {
                Some(id) => final(self)@ == old(self)@.remove(id@) && (old(self)@.dom().contains(
                    id@,
                ) ==> r == Some(old(self)@[id@])) && (!old(self)@.dom().contains(id@) ==> r is None),
                None => final(self)@ == old(self)@ && r is None,
            },
    {
        match response_id {
            Some(id) => self.remove(id),
            None => None,
        }
    }

    /// Take every waiter, leaving none: each gets a failure when the adapter
    /// is gone.
    pub fn drain(&mut self) -> (r: Vec<(String, T)>)
        ensures
            final(self)@ == Map::<Seq<char>, T>::empty(),
            entries_map(r@) == old(self)@,
            unique_ids(r@),
    {
        proof {
            use_type_invariant(&*self);
        }
        let mut out: Vec<(String, T)> = Vec::new();
        std::mem::swap(&mut out, &mut self.entries);
        assert(self@ =~= Map::<Seq<char>, T>::empty());
        out
    }
}

/// A response reaches the request with its id, once: after a waiter is
/// registered under an id, routing a response with that id hands over that
/// waiter and leaves none for the id, so a second response with the same id
/// reaches no one.
pub proof fn lemma_response_reaches_its_request<T>(pending: Map<Seq<char>, T>, id: Seq<char>, waiter: T)
    ensures
        pending.insert(id, waiter).dom().contains(id),
        pending.insert(id, waiter)[id] == waiter,
        !pending.insert(id, waiter).remove(id).dom().contains(id),
{
}

} // verus!
