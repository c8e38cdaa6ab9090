//! The orchestrator, as a deterministic state machine. Each step consumes
//! the outcome of the previous outside action (file read, metadata call,
//! ledger query, clock read) and decides the next action; the transport
//! performs actions and feeds outcomes back. The whole control flow of one
//! invocation — load cache, validate or refresh the credential, fetch the
//! song state, resolve the duration, decide, trigger — is verified here
//! against the transition function `next`.

use vstd::prelude::*;
use crate::cache::Cache;
use crate::cache::CacheModel;
use crate::decision::resolve_due;
use crate::decision::should_resolve;
use crate::errors::ErrorKind;
use crate::resource::current_song_spec;
use crate::resource::CurrentSongInfo;
use crate::resource::JsonValue;
use crate::spotify::access_token_spec;
use crate::spotify::duration_ms_spec;
use crate::spotify::extract_access_token;
use crate::spotify::extract_duration_ms;

verus! {

/// Where one invocation stands: which action is outstanding.
#[derive(Clone, Copy, PartialEq, Eq, Structural, Debug)]
pub enum Phase {
    /// A cache load is outstanding.
    AwaitCacheLoad,
    /// A save of the fresh, empty cache is outstanding (first run).
    AwaitFreshSave,
    /// A canary lookup with the cached credential is outstanding.
    AwaitProbe,
    /// A token-endpoint request is outstanding.
    AwaitToken,
    /// A save of the cache with the refreshed credential is outstanding.
    AwaitTokenSave,
    /// The ledger query for the current song is outstanding.
    AwaitSongInfo,
    /// A metadata lookup of the current track's duration is outstanding.
    AwaitDuration,
    /// A save of the cache with the new duration entry is outstanding.
    AwaitDurationSave,
    /// A clock read is outstanding.
    AwaitClock,
    /// The resolution action on the ledger is outstanding.
    AwaitTrigger,
    /// The invocation finished; `triggered` says whether it resolved.
    Done,
    /// The invocation failed; `error` says where.
    Failed,
}

/// What the machine asks the transport to do next.
#[derive(Clone, Copy, PartialEq, Eq, Structural, Debug)]
pub enum Action {
    /// Read the durable cache record.
    LoadCache,
    /// Persist the machine's cache as it now stands.
    SaveCache,
    /// Look the canary track up with the machine's current token.
    ProbeCredential,
    /// Request a fresh token from the token endpoint.
    RequestCredential,
    /// Query the ledger for the jukebox resource document.
    QueryLedger,
    /// Look the current song's duration up with the current token.
    FetchDuration,
    /// Read the wall clock, in milliseconds since the epoch.
    ReadClock,
    /// Submit the resolution action to the ledger.
    TriggerResolution,
    /// Nothing more to do: the machine is in `Done` or `Failed`.
    Stop,
}

/// What the transport reports back for the outstanding action. Remote
/// payloads come as documents; `None` stands for a transport failure.
pub enum Event {
    /// No cache record exists (first run) or it could not be opened.
    CacheAbsent,
    /// The cache record was read and parsed.
    CacheRead(Cache),
    /// The cache record exists but could not be parsed.
    CacheCorrupt,
    /// The save succeeded.
    SaveOk,
    /// The save failed.
    SaveFailed,
    /// The canary lookup's response, if any.
    ProbeResponse(Option<JsonValue>),
    /// The token endpoint's response, if any.
    TokenResponse(Option<JsonValue>),
    /// The ledger query's response, if any.
    LedgerResponse(Option<JsonValue>),
    /// The duration lookup's response, if any.
    DurationResponse(Option<JsonValue>),
    /// The wall clock, in milliseconds since the epoch.
    ClockNow(u64),
    /// The resolution action was confirmed.
    TriggerOk,
    /// The resolution action failed.
    TriggerFailed,
}

/// A probe outcome counts as healthy exactly when a response arrived and
/// carries a usable duration field: any transport error, expiry or
/// malformed payload means "stale, not fatal".
pub open spec fn probe_ok(resp: Option<JsonValue>) -> bool {
    match resp {
        Some(doc) => duration_ms_spec(doc) is Some,
        None => false,
    }
}

/// Abstract state of the machine.
#[verifier::ext_equal]
pub ghost struct DriverModel {
    pub threshold_ms: u64,
    pub phase: Phase,
    pub cache: CacheModel,
    pub token: Option<Seq<char>>,
    pub song: Option<(Seq<char>, u64)>,
    pub duration_ms: Option<u64>,
    pub triggered: bool,
    pub error: Option<ErrorKind>,
}

/// One invocation of the decision agent.
pub struct Driver {
    /// Lead time before the round's natural end at which resolution is due.
    pub threshold_ms: u64,
    pub phase: Phase,
    /// The cache as this invocation sees it; `SaveCache` persists it.
    pub cache: Cache,
    /// The credential the remaining metadata calls must use.
    pub token: Option<String>,
    /// The song at the head of the on-chain queue, once fetched.
    pub song: Option<CurrentSongInfo>,
    /// The current song's duration, once resolved.
    pub duration_ms: Option<u64>,
    /// Whether this invocation triggered the resolution action.
    pub triggered: bool,
    /// Where the invocation failed, if it did.
    pub error: Option<ErrorKind>,
}

impl View for Driver {
    type V = DriverModel;

    open spec fn view(&self) -> DriverModel {
        DriverModel {
            threshold_ms: self.threshold_ms,
            phase: self.phase,
            cache: self.cache@,
            token: match self.token {
                Some(t) => Some(t@),
                None => None,
            },
            song: match self.song {
                Some(s) => Some((s.track_id@, s.time_to_start_playing)),
                None => None,
            },
            duration_ms: self.duration_ms,
            triggered: self.triggered,
            error: self.error,
        }
    }
}

/// Failure transition: remember the error, stop.
pub open spec fn fail(m: DriverModel, e: ErrorKind) -> (DriverModel, Action) {
    (DriverModel { phase: Phase::Failed, error: Some(e), ..m }, Action::Stop)
}

/// The transition function: from a state and the outcome of the
/// outstanding action to the successor state and the next action. An event
/// that does not answer the outstanding action changes nothing and yields
/// `Stop`.
pub open spec fn next(m: DriverModel, ev: Event) -> (DriverModel, Action) {
    match m.phase {
        Phase::AwaitCacheLoad => match ev {
            Event::CacheAbsent => (
                DriverModel {
                    phase: Phase::AwaitFreshSave,
                    cache: CacheModel { credential: None, durations: Seq::empty() },
                    ..m
                },
                Action::SaveCache,
            ),
            Event::CacheRead(c) => match c@.credential {
                Some(t) => (
                    DriverModel { phase: Phase::AwaitProbe, cache: c@, token: Some(t), ..m },
                    Action::ProbeCredential,
                ),
                None => (
                    DriverModel { phase: Phase::AwaitToken, cache: c@, ..m },
                    Action::RequestCredential,
                ),
            },
            Event::CacheCorrupt => fail(m, ErrorKind::CacheCorrupt),
            _ => (m, Action::Stop),
        },
        Phase::AwaitFreshSave => match ev {
            Event::SaveOk => (
                DriverModel { phase: Phase::AwaitToken, ..m },
                Action::RequestCredential,
            ),
            Event::SaveFailed => fail(m, ErrorKind::CacheWriteFailed),
            _ => (m, Action::Stop),
        },
        Phase::AwaitProbe => match ev {
            Event::ProbeResponse(resp) => if probe_ok(resp) {
                (DriverModel { phase: Phase::AwaitSongInfo, ..m }, Action::QueryLedger)
            } else {
                (DriverModel { phase: Phase::AwaitToken, ..m }, Action::RequestCredential)
            },
            _ => (m, Action::Stop),
        },
        Phase::AwaitToken => match ev {
            Event::TokenResponse(resp) => match resp {
                Some(doc) => match access_token_spec(doc) {
                    Some(t) => (
                        DriverModel {
                            phase: Phase::AwaitTokenSave,
                            cache: CacheModel { credential: Some(t), ..m.cache },
                            token: Some(t),
                            ..m
                        },
                        Action::SaveCache,
                    ),
                    None => fail(m, ErrorKind::CredentialUnobtainable),
                },
                None => fail(m, ErrorKind::CredentialUnobtainable),
            },
            _ => (m, Action::Stop),
        },
        Phase::AwaitTokenSave => match ev {
            Event::SaveOk => (DriverModel { phase: Phase::AwaitSongInfo, ..m }, Action::QueryLedger),
            Event::SaveFailed => fail(m, ErrorKind::CacheWriteFailed),
            _ => (m, Action::Stop),
        },
        Phase::AwaitSongInfo => match ev {
            Event::LedgerResponse(resp) => match resp {
                Some(doc) => match current_song_spec(doc) {
                    Ok(song) => match CacheModel::seq_lookup(m.cache.durations, song.0) {
                        Some(d) => (
                            DriverModel {
                                phase: Phase::AwaitClock,
                                song: Some(song),
                                duration_ms: Some(d),
                                ..m
                            },
                            Action::ReadClock,
                        ),
                        None => (
                            DriverModel { phase: Phase::AwaitDuration, song: Some(song), ..m },
                            Action::FetchDuration,
                        ),
                    },
                    Err(e) => fail(m, e),
                },
                None => fail(m, ErrorKind::LedgerQueryFailed),
            },
            _ => (m, Action::Stop),
        },
        Phase::AwaitDuration => match ev {
            Event::DurationResponse(resp) => match resp {
                Some(doc) => match duration_ms_spec(doc) {
                    Some(d) => match m.song {
                        Some(song) => (
                            DriverModel {
                                phase: Phase::AwaitDurationSave,
                                cache: CacheModel {
                                    durations: m.cache.durations.push((song.0, d)),
                                    ..m.cache
                                },
                                duration_ms: Some(d),
                                ..m
                            },
                            Action::SaveCache,
                        ),
                        None => (m, Action::Stop),
                    },
                    None => fail(m, ErrorKind::RemoteMetadataMalformed),
                },
                None => fail(m, ErrorKind::RemoteMetadataMalformed),
            },
            _ => (m, Action::Stop),
        },
        Phase::AwaitDurationSave => match ev {
            Event::SaveOk => (DriverModel { phase: Phase::AwaitClock, ..m }, Action::ReadClock),
            Event::SaveFailed => fail(m, ErrorKind::CacheWriteFailed),
            _ => (m, Action::Stop),
        },
        Phase::AwaitClock => match ev {
            Event::ClockNow(now) => match (m.song, m.duration_ms) {
                (Some(song), Some(d)) => if resolve_due(
                    (song.1 / 1000) as u64,
                    d,
                    m.threshold_ms,
                    now,
                ) {
                    (DriverModel { phase: Phase::AwaitTrigger, ..m }, Action::TriggerResolution)
                } else {
                    (DriverModel { phase: Phase::Done, ..m }, Action::Stop)
                },
                _ => (m, Action::Stop),
            },
            _ => (m, Action::Stop),
        },
        Phase::AwaitTrigger => match ev {
            Event::TriggerOk => (
                DriverModel { phase: Phase::Done, triggered: true, ..m },
                Action::Stop,
            ),
            Event::TriggerFailed => fail(m, ErrorKind::LedgerMutationFailed),
            _ => (m, Action::Stop),
        },
        Phase::Done => (m, Action::Stop),
        Phase::Failed => (m, Action::Stop),
    }
}

/// The machine's invariant along every run.
pub open spec fn minv(m: DriverModel) -> bool {
    &&& m.cache.wf()
    &&& (m.phase == Phase::AwaitDuration ==> (m.song matches Some(song)
        && CacheModel::seq_lookup(m.cache.durations, song.0) is None))
    &&& ((m.phase == Phase::AwaitDurationSave || m.phase == Phase::AwaitClock || m.phase
        == Phase::AwaitTrigger) ==> (m.song is Some && m.duration_ms is Some))
    &&& ((m.phase == Phase::AwaitProbe || m.phase == Phase::AwaitTokenSave || m.phase
        == Phase::AwaitSongInfo || m.phase == Phase::AwaitDuration) ==> m.token is Some)
    &&& (m.phase == Phase::Failed ==> m.error is Some)
}

/// Only a cache that keeps the key-uniqueness invariant may be handed in.
pub open spec fn event_wf(ev: Event) -> bool {
    match ev {
        Event::CacheRead(c) => c.wf(),
        _ => true,
    }
}

/// A run of the machine over a sequence of events: the final state and the
/// actions issued, in order.
pub open spec fn run(m: DriverModel, evs: Seq<Event>) -> (DriverModel, Seq<Action>)
    decreases evs.len(),
{
    if evs.len() == 0 {
        (m, Seq::empty())
    } else {
        let first = next(m, evs[0]);
        let rest = run(first.0, evs.drop_first());
        (rest.0, seq![first.1] + rest.1)
    }
}

/// Credential manager, stale path: a cached credential that fails the
/// probe causes exactly one refresh request and exactly one cache save;
/// the refreshed token is stored and the recorded durations are untouched.
pub proof fn lemma_stale_credential_single_refresh(
    m: DriverModel,
    probe_resp: Option<JsonValue>,
    token_doc: JsonValue,
    tok: Seq<char>,
)
    requires
        m.phase == Phase::AwaitProbe,
        !probe_ok(probe_resp),
        access_token_spec(token_doc) == Some(tok),
    ensures
        ({
            let evs = seq![
                Event::ProbeResponse(probe_resp),
                Event::TokenResponse(Some(token_doc)),
                Event::SaveOk,
            ];
            &&& run(m, evs).1 =~= seq![
                Action::RequestCredential,
                Action::SaveCache,
                Action::QueryLedger,
            ]
            &&& run(m, evs).0.phase == Phase::AwaitSongInfo
            &&& run(m, evs).0.cache.credential == Some(tok)
            &&& run(m, evs).0.cache.durations == m.cache.durations
            &&& run(m, evs).0.token == Some(tok)
        }),
{
    reveal_with_fuel(run, 5);
    let evs = seq![
        Event::ProbeResponse(probe_resp),
        Event::TokenResponse(Some(token_doc)),
        Event::SaveOk,
    ];
    let s1 = next(m, evs[0]);
    let s2 = next(s1.0, Event::TokenResponse(Some(token_doc)));
    let s3 = next(s2.0, Event::SaveOk);
    assert(evs.drop_first() =~= seq![Event::TokenResponse(Some(token_doc)), Event::SaveOk]);
    assert(evs.drop_first().drop_first() =~= seq![Event::SaveOk]);
    assert(seq![Event::SaveOk].drop_first() =~= Seq::<Event>::empty());
    assert(s1.0.phase == Phase::AwaitToken && s1.1 == Action::RequestCredential);
    assert(s2.0.phase == Phase::AwaitTokenSave && s2.1 == Action::SaveCache);
    assert(s3.0.phase == Phase::AwaitSongInfo && s3.1 == Action::QueryLedger);
    assert(run(m, evs).0 == s3.0);
}

/// Credential manager, fast path: a cached credential that passes the
/// probe is used unchanged — no refresh request and no cache write occur.
pub proof fn lemma_valid_credential_no_refresh(m: DriverModel, probe_resp: Option<JsonValue>)
    requires
        m.phase == Phase::AwaitProbe,
        probe_ok(probe_resp),
    ensures
        next(m, Event::ProbeResponse(probe_resp)).1 == Action::QueryLedger,
        next(m, Event::ProbeResponse(probe_resp)).0 == (DriverModel {
            phase: Phase::AwaitSongInfo,
            ..m
        }),
{
}

/// Track metadata resolver: an unrecorded track id causes exactly one
/// duration fetch and one save, after which the duration is recorded; an
/// invocation that reaches the same ledger answer with the resulting cache
/// serves it as a pure cache hit — it reads the clock, fetching nothing.
pub proof fn lemma_resolver_fetches_once(
    m: DriverModel,
    doc: JsonValue,
    dur_doc: JsonValue,
    tid: Seq<char>,
    start_us: u64,
    d: u64,
    m2: DriverModel,
)
    requires
        m.phase == Phase::AwaitSongInfo,
        current_song_spec(doc) == Ok::<(Seq<char>, u64), ErrorKind>((tid, start_us)),
        CacheModel::seq_lookup(m.cache.durations, tid) is None,
        duration_ms_spec(dur_doc) == Some(d),
        m2.phase == Phase::AwaitSongInfo,
        m2.cache == run(
            m,
            seq![
                Event::LedgerResponse(Some(doc)),
                Event::DurationResponse(Some(dur_doc)),
                Event::SaveOk,
            ],
        ).0.cache,
    ensures
        ({
            let evs = seq![
                Event::LedgerResponse(Some(doc)),
                Event::DurationResponse(Some(dur_doc)),
                Event::SaveOk,
            ];
            &&& run(m, evs).1 =~= seq![Action::FetchDuration, Action::SaveCache, Action::ReadClock]
            &&& run(m, evs).0.phase == Phase::AwaitClock
            &&& CacheModel::seq_lookup(run(m, evs).0.cache.durations, tid) == Some(d)
        }),
        next(m2, Event::LedgerResponse(Some(doc))).1 == Action::ReadClock,
        next(m2, Event::LedgerResponse(Some(doc))).0.cache == m2.cache,
        next(m2, Event::LedgerResponse(Some(doc))).0.duration_ms == Some(d),
{
    reveal_with_fuel(run, 5);
    let evs = seq![
        Event::LedgerResponse(Some(doc)),
        Event::DurationResponse(Some(dur_doc)),
        Event::SaveOk,
    ];
    let s1 = next(m, evs[0]);
    let s2 = next(s1.0, Event::DurationResponse(Some(dur_doc)));
    let s3 = next(s2.0, Event::SaveOk);
    assert(evs.drop_first() =~= seq![Event::DurationResponse(Some(dur_doc)), Event::SaveOk]);
    assert(evs.drop_first().drop_first() =~= seq![Event::SaveOk]);
    assert(seq![Event::SaveOk].drop_first() =~= Seq::<Event>::empty());
    assert(s1.0.phase == Phase::AwaitDuration && s1.1 == Action::FetchDuration);
    assert(s2.0.phase == Phase::AwaitDurationSave && s2.1 == Action::SaveCache);
    assert(s2.0.cache.durations == m.cache.durations.push((tid, d)));
    assert(s3.0.phase == Phase::AwaitClock && s3.1 == Action::ReadClock);
    assert(run(m, evs).0 == s3.0);
    assert(CacheModel::seq_lookup(s3.0.cache.durations, tid) == Some(d)) by {
        assert(s3.0.cache.durations.last() == (tid, d));
    }
}

impl Driver {
    pub open spec fn inv(&self) -> bool {
        minv(self@)
    }

    /// Begins one invocation: the first action is always to load the cache.
    pub fn start(threshold_ms: u64) -> (r: (Driver, Action))
        ensures
            r.0@ == (DriverModel {
                threshold_ms,
                phase: Phase::AwaitCacheLoad,
                cache: CacheModel { credential: None, durations: Seq::empty() },
                token: None,
                song: None,
                duration_ms: None,
                triggered: false,
                error: None,
            }),
            r.0.inv(),
            r.1 == Action::LoadCache,
    {
        let d = Driver {
            threshold_ms,
            phase: Phase::AwaitCacheLoad,
            cache: Cache::new(),
            token: None,
            song: None,
            duration_ms: None,
            triggered: false,
            error: None,
        };
        proof {
            assert(d@ =~~= (DriverModel {
                threshold_ms,
                phase: Phase::AwaitCacheLoad,
                cache: CacheModel { credential: None, durations: Seq::empty() },
                token: None,
                song: None,
                duration_ms: None,
                triggered: false,
                error: None,
            }));
        }
        (d, Action::LoadCache)
    }

    /// One step of the orchestrator: consumes the outcome of the
    /// outstanding action, moves to the successor state of `next`, and
    /// returns the next action to perform.
    pub fn step(&mut self, ev: Event) -> (a: Action)
        requires
            old(self).inv(),
            event_wf(ev),
        ensures
            final(self)@ == next(old(self)@, ev).0,
            a == next(old(self)@, ev).1,
            final(self).inv(),
    {
        let ghost pre = self@;
        let ghost gev = ev;
        let action: Action;
        match self.phase {
            Phase::AwaitCacheLoad => match ev {
                Event::CacheAbsent => {
                    self.cache = Cache::new();
                    self.phase = Phase::AwaitFreshSave;
                    action = Action::SaveCache;
                },
                Event::CacheRead(c) => {
                    self.cache = c;
                    match &self.cache.spotify_access_token {
                        Some(t) => {
                            self.token = Some(t.clone());
                            self.phase = Phase::AwaitProbe;
                            action = Action::ProbeCredential;
                        },
                        None => {
                            self.phase = Phase::AwaitToken;
                            action = Action::RequestCredential;
                        },
                    }
                },
                Event::CacheCorrupt => {
                    self.error = Some(ErrorKind::CacheCorrupt);
                    self.phase = Phase::Failed;
                    action = Action::Stop;
                },
                _ => {
                    action = Action::Stop;
                },
            },
            Phase::AwaitFreshSave => match ev {
                Event::SaveOk => {
                    self.phase = Phase::AwaitToken;
                    action = Action::RequestCredential;
                },
                Event::SaveFailed => {
                    self.error = Some(ErrorKind::CacheWriteFailed);
                    self.phase = Phase::Failed;
                    action = Action::Stop;
                },
                _ => {
                    action = Action::Stop;
                },
            },
            Phase::AwaitProbe => match ev {
                Event::ProbeResponse(resp) => {
                    let ok = match &resp {
                        Some(doc) => extract_duration_ms(doc).is_some(),
                        None => false,
                    };
                    if ok {
                        self.phase = Phase::AwaitSongInfo;
                        action = Action::QueryLedger;
                    } else {
                        self.phase = Phase::AwaitToken;
                        action = Action::RequestCredential;
                    }
                },
                _ => {
                    action = Action::Stop;
                },
            },
            Phase::AwaitToken => match ev {
                Event::TokenResponse(resp) => match resp {
                    Some(doc) => match extract_access_token(&doc) {
                        Some(tok) => {
                            self.cache.set_credential(tok.clone());
                            self.token = Some(tok);
                            self.phase = Phase::AwaitTokenSave;
                            action = Action::SaveCache;
                        },
                        None => {
                            self.error = Some(ErrorKind::CredentialUnobtainable);
                            self.phase = Phase::Failed;
                            action = Action::Stop;
                        },
                    },
                    None => {
                        self.error = Some(ErrorKind::CredentialUnobtainable);
                        self.phase = Phase::Failed;
                        action = Action::Stop;
                    },
                },
                _ => {
                    action = Action::Stop;
                },
            },
            Phase::AwaitTokenSave => match ev {
                Event::SaveOk => {
                    self.phase = Phase::AwaitSongInfo;
                    action = Action::QueryLedger;
                },
                Event::SaveFailed => {
                    self.error = Some(ErrorKind::CacheWriteFailed);
                    self.phase = Phase::Failed;
                    action = Action::Stop;
                },
                _ => {
                    action = Action::Stop;
                },
            },
            Phase::AwaitSongInfo => match ev {
                Event::LedgerResponse(resp) => match resp {
                    Some(doc) => match crate::resource::extract_current_song(&doc) {
                        Ok(info) => {
                            let cached = self.cache.lookup_duration(info.track_id.as_str());
                            self.song = Some(info);
                            match cached {
                                Some(d) => {
                                    self.duration_ms = Some(d);
                                    self.phase = Phase::AwaitClock;
                                    action = Action::ReadClock;
                                },
                                None => {
                                    self.phase = Phase::AwaitDuration;
                                    action = Action::FetchDuration;
                                },
                            }
                        },
                        Err(e) => {
                            self.error = Some(e);
                            self.phase = Phase::Failed;
                            action = Action::Stop;
                        },
                    },
                    None => {
                        self.error = Some(ErrorKind::LedgerQueryFailed);
                        self.phase = Phase::Failed;
                        action = Action::Stop;
                    },
                },
                _ => {
                    action = Action::Stop;
                },
            },
            Phase::AwaitDuration => match ev {
                Event::DurationResponse(resp) => match resp {
                    Some(doc) => match extract_duration_ms(&doc) {
                        Some(d) => {
                            let tid = match &self.song {
                                Some(song) => song.track_id.clone(),
                                None => unreached(),
                            };
                            self.cache.record_duration(tid, d);
                            self.duration_ms = Some(d);
                            self.phase = Phase::AwaitDurationSave;
                            action = Action::SaveCache;
                        },
                        None => {
                            self.error = Some(ErrorKind::RemoteMetadataMalformed);
                            self.phase = Phase::Failed;
                            action = Action::Stop;
                        },
                    },
                    None => {
                        self.error = Some(ErrorKind::RemoteMetadataMalformed);
                        self.phase = Phase::Failed;
                        action = Action::Stop;
                    },
                },
                _ => {
                    action = Action::Stop;
                },
            },
            Phase::AwaitDurationSave => match ev {
                Event::SaveOk => {
                    self.phase = Phase::AwaitClock;
                    action = Action::ReadClock;
                },
                Event::SaveFailed => {
                    self.error = Some(ErrorKind::CacheWriteFailed);
                    self.phase = Phase::Failed;
                    action = Action::Stop;
                },
                _ => {
                    action = Action::Stop;
                },
            },
            Phase::AwaitClock => match ev {
                Event::ClockNow(now) => {
                    let start_us = match &self.song {
                        Some(song) => song.time_to_start_playing,
                        None => unreached(),
                    };
                    let dur = match self.duration_ms {
                        Some(d) => d,
                        None => unreached(),
                    };
                    if should_resolve(start_us / 1000, dur, self.threshold_ms, now) {
                        self.phase = Phase::AwaitTrigger;
                        action = Action::TriggerResolution;
                    } else {
                        self.phase = Phase::Done;
                        action = Action::Stop;
                    }
                },
                _ => {
                    action = Action::Stop;
                },
            },
            Phase::AwaitTrigger => match ev {
                Event::TriggerOk => {
                    self.triggered = true;
                    self.phase = Phase::Done;
                    action = Action::Stop;
                },
                Event::TriggerFailed => {
                    self.error = Some(ErrorKind::LedgerMutationFailed);
                    self.phase = Phase::Failed;
                    action = Action::Stop;
                },
                _ => {
                    action = Action::Stop;
                },
            },
            Phase::Done => {
                action = Action::Stop;
            },
            Phase::Failed => {
                action = Action::Stop;
            },
        }
        proof {
            assert(self@ =~~= next(pre, gev).0);
        }
        action
    }
}

} // verus!
