//! The circuit breaker of a group-server-model triple.
//!
//! The state of a circuit lives in a shared key-value store. Each operation is a
//! dialogue with that store: a flow asks one command at a time and is told the reply,
//! until it comes to a result.

use vstd::prelude::*;
use vstd::string::*;

use crate::ids;
use crate::ids::write_uuid;
use crate::json;
use crate::text;

verus! {

/// Consecutive probe successes required to close a half-open circuit.
pub const SUCCESS_THRESHOLD: i64 = 2;

/// Seconds for which the in-flight probe permit is held at most. It is released early
/// on probe completion; this bounds how long a permit can stay stuck if an instance
/// dies mid-probe.
pub const PROBE_TTL_SECONDS: i64 = 120;

/// How long the half-open marker outlives the cooldown. If no traffic arrives to probe
/// within this grace period, the marker expires and the circuit silently closes.
pub const HALF_OPEN_GRACE_SECONDS: i32 = 3600;

/// Circuit state derived from the keys of the store.
#[derive(Debug, Clone, Copy, PartialEq, Eq, Structural)]
pub enum CbState {
    Closed,
    Open,
    HalfOpen,
}

/// Routing decision for a request against a circuit-breaker-enabled server.
#[derive(Debug, Clone, Copy, PartialEq, Eq, Structural)]
pub enum Access {
    /// Circuit closed: normal request.
    Allow,
    /// Half-open: this request is the probe.
    Probe,
    /// Open, or half-open with a probe already in flight: skip this server.
    Skip,
}

/// Outcome of a successful request.
#[derive(Debug, Clone, Copy, PartialEq, Eq, Structural)]
pub enum SuccessOutcome {
    /// Nothing to do (circuit closed).
    Noop,
    /// Probe succeeded but more successes needed: stay half-open.
    StayHalfOpen,
    /// Enough consecutive probe successes: close the circuit.
    Close,
}

/// Outcome of a failed request.
#[derive(Debug, Clone, Copy, PartialEq, Eq, Structural)]
pub enum FailureOutcome {
    /// Below threshold: just count the error.
    Count,
    /// Threshold reached: trip the circuit open.
    Trip,
    /// Failure during half-open probe: reopen immediately.
    Reopen,
}

/// The state that the presence of two keys stands for. The open key takes precedence:
/// during cooldown the half-open marker is already set.
pub open spec fn state_of(open_exists: bool, half_exists: bool) -> CbState {
    if open_exists {
        CbState::Open
    } else if half_exists {
        CbState::HalfOpen
    } else {
        CbState::Closed
    }
}

/// Derives the circuit state from key existence.
pub fn derive_state(open_exists: bool, half_exists: bool) -> (r: CbState)
    ensures
        r == state_of(open_exists, half_exists),
{
    if open_exists {
        CbState::Open
    } else if half_exists {
        CbState::HalfOpen
    } else {
        CbState::Closed
    }
}

/// The access that a state gives, with or without the probe permit.
pub open spec fn access_of(state: CbState, permit: bool) -> Access {
    match state {
        CbState::Closed => Access::Allow,
        CbState::Open => Access::Skip,
        CbState::HalfOpen => if permit {
            Access::Probe
        } else {
            Access::Skip
        },
    }
}

/// Decides request access from the circuit state and probe permit acquisition.
pub fn decide_access(state: CbState, probe_permit_acquired: bool) -> (r: Access)
    ensures
        r == access_of(state, probe_permit_acquired),
{
    match state {
        CbState::Closed => Access::Allow,
        CbState::Open => Access::Skip,
        CbState::HalfOpen => {
            if probe_permit_acquired {
                Access::Probe
            } else {
                Access::Skip
            }
        },
    }
}

/// Decides what a successful request does to the circuit.
pub fn on_success(state: CbState, consecutive_successes: i64, success_threshold: i64) -> (r:
    SuccessOutcome)
    ensures
        r == (if state != CbState::HalfOpen {
            SuccessOutcome::Noop
        } else if consecutive_successes >= success_threshold {
            SuccessOutcome::Close
        } else {
            SuccessOutcome::StayHalfOpen
        }),
{
    match state {
        CbState::HalfOpen => {
            if consecutive_successes >= success_threshold {
                SuccessOutcome::Close
            } else {
                SuccessOutcome::StayHalfOpen
            }
        },
        _ => SuccessOutcome::Noop,
    }
}

/// Decides what a failed request does to the circuit.
pub fn on_failure(state: CbState, error_count: i64, max_failures: i64) -> (r: FailureOutcome)
    ensures
        r == (if state == CbState::HalfOpen {
            FailureOutcome::Reopen
        } else if error_count >= max_failures {
            FailureOutcome::Trip
        } else {
            FailureOutcome::Count
        }),
{
    match state {
        CbState::HalfOpen => FailureOutcome::Reopen,
        _ => {
            if error_count >= max_failures {
                FailureOutcome::Trip
            } else {
                FailureOutcome::Count
            }
        },
    }
}

/// The slot of a model among the keys; requests without a model share one.
pub open spec fn slot_of(model: Option<Seq<char>>) -> Seq<char> {
    match model {
        Some(model) => model,
        None => "_any"@,
    }
}

/// The slot of a model among the keys.
pub fn model_slot<'a>(model: Option<&'a str>) -> (r: &'a str)
    ensures
        r@ == slot_of(json::str_opt(model)),
{
    match model {
        Some(model) => model,
        None => "_any",
    }
}

/// The keys of one circuit, as texts.
pub struct Keys {
    pub err: Seq<char>,
    pub open: Seq<char>,
    pub half: Seq<char>,
    pub probe: Seq<char>,
    pub succ: Seq<char>,
}

/// One key of a circuit.
pub open spec fn key_of(prefix: Seq<char>, group_id: u128, server_id: u128, slot: Seq<char>) -> Seq<
    char,
> {
    prefix + ids::uuid_text(group_id) + ":"@ + ids::uuid_text(server_id) + ":"@ + slot
}

/// The keys of the circuit of a group-server-model triple.
pub open spec fn keys_of(group_id: u128, server_id: u128, model: Option<Seq<char>>) -> Keys {
    let slot = slot_of(model);
    Keys {
        err: key_of("cb:err:"@, group_id, server_id, slot),
        open: key_of("cb:open:"@, group_id, server_id, slot),
        half: key_of("cb:half:"@, group_id, server_id, slot),
        probe: key_of("cb:probe:"@, group_id, server_id, slot),
        succ: key_of("cb:succ:"@, group_id, server_id, slot),
    }
}

/// The keys of one circuit.
pub struct CbKeys {
    err: String,
    open: String,
    half: String,
    probe: String,
    succ: String,
}

impl CbKeys {
    /// The keys as texts.
    pub closed spec fn view(&self) -> Keys {
        Keys {
            err: self.err@,
            open: self.open@,
            half: self.half@,
            probe: self.probe@,
            succ: self.succ@,
        }
    }
}

fn make_key(prefix: &str, group_id: u128, server_id: u128, slot: &str) -> (r: String)
    ensures
        r@ == key_of(prefix@, group_id, server_id, slot@),
{
    let mut out = prefix.to_owned();
    out.append(write_uuid(group_id).as_str());
    out.append(":");
    out.append(write_uuid(server_id).as_str());
    out.append(":");
    out.append(slot);
    out
}

/// The keys of the circuit of a group-server-model triple.
pub fn keys(group_id: u128, server_id: u128, model: Option<&str>) -> (r: CbKeys)
    ensures
        r@ == keys_of(group_id, server_id, json::str_opt(model)),
{
    let slot = model_slot(model);
    CbKeys {
        err: make_key("cb:err:", group_id, server_id, slot),
        open: make_key("cb:open:", group_id, server_id, slot),
        half: make_key("cb:half:", group_id, server_id, slot),
        probe: make_key("cb:probe:", group_id, server_id, slot),
        succ: make_key("cb:succ:", group_id, server_id, slot),
    }
}

/// A command to the store.
#[derive(Debug)]
pub enum Command {
    /// `EXISTS key`.
    Exists { key: String },
    /// `SET key 1 NX EX ttl`.
    PutIfAbsent { key: String, ttl: i64 },
    /// `SET key 1 EX ttl`.
    Put { key: String, ttl: i64 },
    /// `INCR key`.
    Increment { key: String },
    /// `EXPIRE key ttl`.
    Expire { key: String, ttl: i64 },
    /// `DEL key ...`.
    Delete { keys: Vec<String> },
}

/// The model of a command.
pub enum Ask {
    Exists(Seq<char>),
    PutIfAbsent(Seq<char>, int),
    Put(Seq<char>, int),
    Increment(Seq<char>),
    Expire(Seq<char>, int),
    Delete(Seq<Seq<char>>),
}

impl Command {
    /// The model of this command.
    pub open spec fn view(&self) -> Ask {
        match self {
            Command::Exists { key } => Ask::Exists(key@),
            Command::PutIfAbsent { key, ttl } => Ask::PutIfAbsent(key@, *ttl as int),
            Command::Put { key, ttl } => Ask::Put(key@, *ttl as int),
            Command::Increment { key } => Ask::Increment(key@),
            Command::Expire { key, ttl } => Ask::Expire(key@, *ttl as int),
            Command::Delete { keys } => Ask::Delete(text::texts(keys@)),
        }
    }
}

/// What the store replied.
#[derive(Debug, Clone, Copy, PartialEq, Eq, Structural)]
pub enum Reply {
    /// The command failed.
    Failed,
    /// The key exists, or was set.
    Flag(bool),
    /// The counter's value, or the number of keys deleted.
    Number(i64),
}

/// What a flow does next.
pub enum Then<S, R> {
    /// It asks this command, and waits at this stage.
    Asks(Ask, S),
    /// It is done, with this result.
    Done(R),
}

/// What a flow does next.
pub enum Next<F, R> {
    /// Run the command and hand its reply to the flow.
    Run(Command, F),
    /// The flow is done.
    Done(R),
}

/// The reply is that the key exists, or was set.
pub open spec fn affirms(reply: Reply) -> bool {
    reply == Reply::Flag(true)
}

fn is_affirmed(reply: Reply) -> (r: bool)
    ensures
        r == affirms(reply),
{
    match reply {
        Reply::Flag(b) => b,
        _ => false,
    }
}

fn delete(keys: Vec<String>) -> (r: Command)
    ensures
        r@ == Ask::Delete(text::texts(keys@)),
{
    Command::Delete { keys }
}

fn delete_one(key: &String) -> (r: Command)
    ensures
        r@ == Ask::Delete(seq![key@]),
{
    let mut keys: Vec<String> = Vec::new();
    keys.push(key.clone());
    assert(text::texts(keys@) =~= seq![key@]);
    delete(keys)
}

/// Where the question of access stands.
#[derive(Debug, Clone, Copy, PartialEq, Eq, Structural)]
pub enum CheckStage {
    /// Is there an open key?
    Open,
    /// Is there a half-open marker?
    Half { open_exists: bool },
    /// Is the probe permit free?
    Permit,
}

/// The question of access after a reply. A command that failed is answered by allowing the
/// request.
pub open spec fn check_step(k: Keys, stage: CheckStage, reply: Reply) -> Then<CheckStage, Access> {
    if reply == Reply::Failed {
        Then::Done(Access::Allow)
    } else {
        match stage {
            CheckStage::Open => Then::Asks(
                Ask::Exists(k.half),
                CheckStage::Half { open_exists: affirms(reply) },
            ),
            CheckStage::Half { open_exists } => {
                let state = state_of(open_exists, affirms(reply));
                if state == CbState::HalfOpen {
                    Then::Asks(
                        Ask::PutIfAbsent(k.probe, PROBE_TTL_SECONDS as int),
                        CheckStage::Permit,
                    )
                } else {
                    Then::Done(access_of(state, false))
                }
            },
            CheckStage::Permit => Then::Done(access_of(CbState::HalfOpen, affirms(reply))),
        }
    }
}

/// Determines access for a request to a group-server-model triple.
///
/// In half-open state, at most one in-flight request acquires the probe permit;
/// everyone else is to skip the server. Fails open (`Access::Allow`) on errors of the store.
pub struct CheckAccess {
    keys: CbKeys,
    stage: CheckStage,
}

impl CheckAccess {
    pub closed spec fn keys(&self) -> Keys {
        self.keys@
    }

    pub closed spec fn stage(&self) -> CheckStage {
        self.stage
    }

    /// Starts the dialogue. Without a connection to the store access is allowed.
    pub fn start(connected: bool, group_id: u128, server_id: u128, model: Option<&str>) -> (r: Next<
        CheckAccess,
        Access,
    >)
        ensures
            match r {
                Next::Done(access) => !connected && access == Access::Allow,
                Next::Run(command, flow) => {
                    let k = keys_of(group_id, server_id, json::str_opt(model));
                    connected && flow.keys() == k && flow.stage() == CheckStage::Open && command@
                        == Ask::Exists(k.open)
                },
            },
    {
        if !connected {
            return Next::Done(Access::Allow);
        }
        let keys = keys(group_id, server_id, model);
        let command = Command::Exists { key: keys.open.clone() };
        Next::Run(command, CheckAccess { keys, stage: CheckStage::Open })
    }

    /// Goes on after a reply.
    pub fn next(self, reply: Reply) -> (r: Next<CheckAccess, Access>)
        ensures
            match (r, check_step(self.keys(), self.stage(), reply)) {
                (Next::Run(command, flow), Then::Asks(ask, stage)) => command@ == ask
                    && flow.stage() == stage && flow.keys() == self.keys(),
                (Next::Done(access), Then::Done(result)) => access == result,
                _ => false,
            },
    {
        if reply == Reply::Failed {
            return Next::Done(Access::Allow);
        }
        match self.stage {
            CheckStage::Open => {
                let command = Command::Exists { key: self.keys.half.clone() };
                let stage = CheckStage::Half { open_exists: is_affirmed(reply) };
                Next::Run(command, CheckAccess { keys: self.keys, stage })
            },
            CheckStage::Half { open_exists } => {
                let state = derive_state(open_exists, is_affirmed(reply));
                if state == CbState::HalfOpen {
                    let command = Command::PutIfAbsent {
                        key: self.keys.probe.clone(),
                        ttl: PROBE_TTL_SECONDS,
                    };
                    Next::Run(command, CheckAccess { keys: self.keys, stage: CheckStage::Permit })
                } else {
                    Next::Done(decide_access(state, false))
                }
            },
            CheckStage::Permit => Next::Done(decide_access(CbState::HalfOpen, is_affirmed(reply))),
        }
    }
}

/// Where the recording of a probe success stands.
#[derive(Debug, Clone, Copy, PartialEq, Eq, Structural)]
pub enum SuccessStage {
    /// The success is being counted.
    Count,
    /// The counter's lifetime is being bounded to the grace period.
    Bound { successes: i64 },
    /// The half-open marker is being deleted. Only the instance that actually deletes
    /// it closes the circuit, which keeps the alert from being sent twice.
    Close,
    /// The rest of the bookkeeping is being deleted.
    Clear { closed: bool },
    /// The probe permit is being released so the next request can probe.
    Release,
}

/// The recording of a probe success once the number of successes is known.
pub open spec fn success_counted(k: Keys, successes: i64) -> Then<SuccessStage, bool> {
    if successes >= SUCCESS_THRESHOLD {
        Then::Asks(Ask::Delete(seq![k.half]), SuccessStage::Close)
    } else {
        Then::Asks(Ask::Delete(seq![k.probe]), SuccessStage::Release)
    }
}

/// The recording of a probe success after a reply.
pub open spec fn success_step(k: Keys, stage: SuccessStage, reply: Reply) -> Then<
    SuccessStage,
    bool,
> {
    match stage {
        SuccessStage::Count => match reply {
            Reply::Number(n) => if n == 1 {
                Then::Asks(
                    Ask::Expire(k.succ, HALF_OPEN_GRACE_SECONDS as int),
                    SuccessStage::Bound { successes: n },
                )
            } else {
                success_counted(k, n)
            },
            _ => Then::Done(false),
        },
        SuccessStage::Bound { successes } => success_counted(k, successes),
        SuccessStage::Close => Then::Asks(
            Ask::Delete(seq![k.succ, k.probe, k.err]),
            SuccessStage::Clear {
                closed: match reply {
                    Reply::Number(n) => n > 0,
                    _ => false,
                },
            },
        ),
        SuccessStage::Clear { closed } => Then::Done(closed),
        SuccessStage::Release => Then::Done(false),
    }
}

/// Records a successful probe request. The result is whether the circuit was newly
/// closed (enough consecutive probe successes), so that the caller should send a
/// re-enable alert.
pub struct RecordProbeSuccess {
    keys: CbKeys,
    stage: SuccessStage,
}

impl RecordProbeSuccess {
    pub closed spec fn keys(&self) -> Keys {
        self.keys@
    }

    pub closed spec fn stage(&self) -> SuccessStage {
        self.stage
    }

    /// Starts the dialogue. Without a connection to the store nothing is recorded.
    pub fn start(connected: bool, group_id: u128, server_id: u128, model: Option<&str>) -> (r: Next<
        RecordProbeSuccess,
        bool,
    >)
        ensures
            match r {
                Next::Done(closed) => !connected && !closed,
                Next::Run(command, flow) => {
                    let k = keys_of(group_id, server_id, json::str_opt(model));
                    connected && flow.keys() == k && flow.stage() == SuccessStage::Count && command@
                        == Ask::Increment(k.succ)
                },
            },
    {
        if !connected {
            return Next::Done(false);
        }
        let keys = keys(group_id, server_id, model);
        let command = Command::Increment { key: keys.succ.clone() };
        Next::Run(command, RecordProbeSuccess { keys, stage: SuccessStage::Count })
    }

    fn counted(self, successes: i64) -> (r: Next<RecordProbeSuccess, bool>)
        ensures
            match (r, success_counted(self.keys(), successes)) {
                (Next::Run(command, flow), Then::Asks(ask, stage)) => command@ == ask
                    && flow.stage() == stage && flow.keys() == self.keys(),
                _ => false,
            },
    {
        match on_success(CbState::HalfOpen, successes, SUCCESS_THRESHOLD) {
            SuccessOutcome::Close => {
                let command = delete_one(&self.keys.half);
                Next::Run(command, RecordProbeSuccess { keys: self.keys, stage: SuccessStage::Close })
            },
            _ => {
                let command = delete_one(&self.keys.probe);
                Next::Run(
                    command,
                    RecordProbeSuccess { keys: self.keys, stage: SuccessStage::Release },
                )
            },
        }
    }

    /// Goes on after a reply.
    pub fn next(self, reply: Reply) -> (r: Next<RecordProbeSuccess, bool>)
        ensures
            match (r, success_step(self.keys(), self.stage(), reply)) {
                (Next::Run(command, flow), Then::Asks(ask, stage)) => command@ == ask
                    && flow.stage() == stage && flow.keys() == self.keys(),
                (Next::Done(closed), Then::Done(result)) => closed == result,
                _ => false,
            },
    {
        match self.stage {
            SuccessStage::Count => match reply {
                Reply::Number(n) => {
                    if n == 1 {
                        let command = Command::Expire {
                            key: self.keys.succ.clone(),
                            ttl: HALF_OPEN_GRACE_SECONDS as i64,
                        };
                        let stage = SuccessStage::Bound { successes: n };
                        Next::Run(command, RecordProbeSuccess { keys: self.keys, stage })
                    } else {
                        self.counted(n)
                    }
                },
                _ => Next::Done(false),
            },
            SuccessStage::Bound { successes } => self.counted(successes),
            SuccessStage::Close => {
                let closed = match reply {
                    Reply::Number(n) => n > 0,
                    _ => false,
                };
                let mut gone: Vec<String> = Vec::new();
                gone.push(self.keys.succ.clone());
                gone.push(self.keys.probe.clone());
                gone.push(self.keys.err.clone());
                assert(text::texts(gone@) =~= seq![
                    self.keys().succ,
                    self.keys().probe,
                    self.keys().err,
                ]);
                let command = delete(gone);
                let stage = SuccessStage::Clear { closed };
                Next::Run(command, RecordProbeSuccess { keys: self.keys, stage })
            },
            SuccessStage::Clear { closed } => Next::Done(closed),
            SuccessStage::Release => Next::Done(false),
        }
    }
}

/// The command that releases the probe permit without recording success or failure.
///
/// Used when a probe request ends in an outcome that says nothing about server health
/// (e.g. a non-failover client error returned to the caller).
pub fn release_probe(group_id: u128, server_id: u128, model: Option<&str>) -> (r: Command)
    ensures
        r@ == Ask::Delete(seq![keys_of(group_id, server_id, json::str_opt(model)).probe]),
{
    delete_one(&keys(group_id, server_id, model).probe)
}

/// When a circuit trips, and for how long.
#[derive(Debug, Clone, Copy, PartialEq, Eq, Structural)]
pub struct TripRule {
    /// Errors within the window that trip the circuit.
    pub max_failures: i32,
    /// Seconds for which errors are counted together.
    pub window_seconds: i32,
    /// Seconds for which a tripped circuit stays open.
    pub cooldown_seconds: i32,
    /// The error is that of a half-open probe, which reopens the circuit at once.
    pub was_probe: bool,
}

/// Where the recording of an error stands.
#[derive(Debug, Clone, Copy, PartialEq, Eq, Structural)]
pub enum ErrorStage {
    /// The error is being counted.
    Count,
    /// The counter's lifetime is being bounded to the window.
    Bound { count: i64 },
    /// The open key is being set, unless it is there: that would reset its lifetime.
    Trip,
    /// The half-open marker is being armed. It outlives the open key, so when the
    /// cooldown expires the circuit lands in half-open instead of closed.
    Arm,
    /// The bookkeeping is being deleted.
    Clear { opened: bool },
}

/// The recording of an error once the open key has been tried.
pub open spec fn error_cleared(k: Keys, rule: TripRule, opened: bool) -> Then<ErrorStage, bool> {
    Then::Asks(
        Ask::Delete(
            if rule.was_probe {
                seq![k.succ, k.probe]
            } else {
                seq![k.err]
            },
        ),
        ErrorStage::Clear { opened },
    )
}

/// The recording of an error once the number of errors is known.
pub open spec fn error_counted(k: Keys, rule: TripRule, count: i64) -> Then<ErrorStage, bool> {
    if count >= rule.max_failures {
        Then::Asks(Ask::PutIfAbsent(k.open, rule.cooldown_seconds as int), ErrorStage::Trip)
    } else {
        Then::Done(false)
    }
}

/// The first command of the recording of an error.
pub open spec fn error_start(k: Keys, rule: TripRule) -> (Ask, ErrorStage) {
    if rule.was_probe {
        (Ask::PutIfAbsent(k.open, rule.cooldown_seconds as int), ErrorStage::Trip)
    } else {
        (Ask::Increment(k.err), ErrorStage::Count)
    }
}

/// The recording of an error after a reply.
pub open spec fn error_step(k: Keys, rule: TripRule, stage: ErrorStage, reply: Reply) -> Then<
    ErrorStage,
    bool,
> {
    match stage {
        ErrorStage::Count => match reply {
            Reply::Number(n) => if n == 1 {
                Then::Asks(
                    Ask::Expire(k.err, rule.window_seconds as int),
                    ErrorStage::Bound { count: n },
                )
            } else {
                error_counted(k, rule, n)
            },
            _ => Then::Done(false),
        },
        ErrorStage::Bound { count } => error_counted(k, rule, count),
        ErrorStage::Trip => if affirms(reply) {
            Then::Asks(
                Ask::Put(k.half, rule.cooldown_seconds + HALF_OPEN_GRACE_SECONDS),
                ErrorStage::Arm,
            )
        } else {
            error_cleared(k, rule, false)
        },
        ErrorStage::Arm => error_cleared(k, rule, true),
        ErrorStage::Clear { opened } => Then::Done(opened),
    }
}

/// Records an error for a group-server-model triple. The result is whether the circuit
/// was newly tripped or reopened, so that an alert should be sent.
pub struct RecordError {
    keys: CbKeys,
    rule: TripRule,
    stage: ErrorStage,
}

impl RecordError {
    pub closed spec fn keys(&self) -> Keys {
        self.keys@
    }

    pub closed spec fn rule(&self) -> TripRule {
        self.rule
    }

    pub closed spec fn stage(&self) -> ErrorStage {
        self.stage
    }

    /// Where the reply makes this flow arm the half-open marker, the marker's lifetime fits
    /// in an `i32`.
    pub open spec fn can_take(&self, reply: Reply) -> bool {
        self.stage() == ErrorStage::Trip && affirms(reply) ==> self.rule().cooldown_seconds
            <= i32::MAX - HALF_OPEN_GRACE_SECONDS
    }

    /// Starts the dialogue. Without a connection to the store nothing is recorded.
    pub fn start(
        connected: bool,
        group_id: u128,
        server_id: u128,
        model: Option<&str>,
        rule: TripRule,
    ) -> (r: Next<RecordError, bool>)
        ensures
            match r {
                Next::Done(opened) => !connected && !opened,
                Next::Run(command, flow) => {
                    let k = keys_of(group_id, server_id, json::str_opt(model));
                    &&& connected
                    &&& flow.keys() == k
                    &&& flow.rule() == rule
                    &&& (command@, flow.stage()) == error_start(k, rule)
                },
            },
    {
        if !connected {
            return Next::Done(false);
        }
        let keys = keys(group_id, server_id, model);
        if rule.was_probe {
            let command = Command::PutIfAbsent {
                key: keys.open.clone(),
                ttl: rule.cooldown_seconds as i64,
            };
            Next::Run(command, RecordError { keys, rule, stage: ErrorStage::Trip })
        } else {
            let command = Command::Increment { key: keys.err.clone() };
            Next::Run(command, RecordError { keys, rule, stage: ErrorStage::Count })
        }
    }

    fn counted(self, count: i64) -> (r: Next<RecordError, bool>)
        ensures
            match (r, error_counted(self.keys(), self.rule(), count)) {
                (Next::Run(command, flow), Then::Asks(ask, stage)) => command@ == ask
                    && flow.stage() == stage && flow.keys() == self.keys() && flow.rule()
                    == self.rule(),
                (Next::Done(opened), Then::Done(result)) => opened == result,
                _ => false,
            },
    {
        match on_failure(CbState::Closed, count, self.rule.max_failures as i64) {
            FailureOutcome::Trip => {
                let command = Command::PutIfAbsent {
                    key: self.keys.open.clone(),
                    ttl: self.rule.cooldown_seconds as i64,
                };
                Next::Run(
                    command,
                    RecordError { keys: self.keys, rule: self.rule, stage: ErrorStage::Trip },
                )
            },
            _ => Next::Done(false),
        }
    }

    fn cleared(self, opened: bool) -> (r: Next<RecordError, bool>)
        ensures
            match (r, error_cleared(self.keys(), self.rule(), opened)) {
                (Next::Run(command, flow), Then::Asks(ask, stage)) => command@ == ask
                    && flow.stage() == stage && flow.keys() == self.keys() && flow.rule()
                    == self.rule(),
                _ => false,
            },
    {
        let command = if self.rule.was_probe {
            let mut gone: Vec<String> = Vec::new();
            gone.push(self.keys.succ.clone());
            gone.push(self.keys.probe.clone());
            assert(text::texts(gone@) =~= seq![self.keys().succ, self.keys().probe]);
            delete(gone)
        } else {
            delete_one(&self.keys.err)
        };
        let stage = ErrorStage::Clear { opened };
        Next::Run(command, RecordError { keys: self.keys, rule: self.rule, stage })
    }

    /// Whether the flow can go on after this reply: the lifetime of the half-open marker is
    /// computed only where the circuit opens, and has to fit there.
    pub fn takes(&self, reply: Reply) -> (r: bool)
        ensures
            r == self.can_take(reply),
    {
        self.stage != ErrorStage::Trip || !is_affirmed(reply) || self.rule.cooldown_seconds
            <= i32::MAX - HALF_OPEN_GRACE_SECONDS
    }

    /// Goes on after a reply.
    pub fn next(self, reply: Reply) -> (r: Next<RecordError, bool>)
        requires
            self.can_take(reply),
        ensures
            match (r, error_step(self.keys(), self.rule(), self.stage(), reply)) {
                (Next::Run(command, flow), Then::Asks(ask, stage)) => command@ == ask
                    && flow.stage() == stage && flow.keys() == self.keys() && flow.rule()
                    == self.rule(),
                (Next::Done(opened), Then::Done(result)) => opened == result,
                _ => false,
            },
    {
        match self.stage {
            ErrorStage::Count => match reply {
                Reply::Number(n) => {
                    if n == 1 {
                        let command = Command::Expire {
                            key: self.keys.err.clone(),
                            ttl: self.rule.window_seconds as i64,
                        };
                        let stage = ErrorStage::Bound { count: n };
                        Next::Run(command, RecordError { keys: self.keys, rule: self.rule, stage })
                    } else {
                        self.counted(n)
                    }
                },
                _ => Next::Done(false),
            },
            ErrorStage::Bound { count } => self.counted(count),
            ErrorStage::Trip => {
                if is_affirmed(reply) {
                    let ttl: i32 = self.rule.cooldown_seconds + HALF_OPEN_GRACE_SECONDS;
                    let command = Command::Put { key: self.keys.half.clone(), ttl: ttl as i64 };
                    Next::Run(
                        command,
                        RecordError { keys: self.keys, rule: self.rule, stage: ErrorStage::Arm },
                    )
                } else {
                    self.cleared(false)
                }
            },
            ErrorStage::Arm => self.cleared(true),
            ErrorStage::Clear { opened } => Next::Done(opened),
        }
    }
}

} // verus!
