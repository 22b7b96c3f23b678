use layer::client::config::{i64_from_bytes, parse_invite_hash, random_i64_pub, Config};
use layer::client::connection::{
    after_failure, classify_failure, migration_target, on_sign_in_failure, step, AfterFailure,
    LoopAction, LoopEvent, LoopState, SignInStep,
};
use layer::client::dc_pool::{default_dc_addresses, ConnectPlan, DcPool};
use layer::client::errors::{InvocationError, RpcError, SignInError};
use layer::client::pts::{GapAction, PtsCheckResult, PtsState, State};
use layer::client::retry::{
    AutoSleep, Decision, Delay, NoRetries, RetryContext, RetryPolicy, RetryState, RetryStep,
};
use layer::client::router::{Delivery, Router};
use layer::client::session::{DcEntry, PersistedSession};
use layer::client::session_backend::{BinaryFileBackend, InMemoryBackend, SessionBackend};
use layer::client::startup::{after_init, startup_plan, AfterInit, StartPlan};
use layer::client::transport_kind::TransportKind;
use layer::client::two_factor_auth::{calculate_2fa, pad256, xor32};

const SRP_M1: &str = "7012c4d0551eaa1183d8eb89335f72c9fad92c0cc7544f2905d0867a41e8b767";
const SRP_GA: &str = "0fc5ad1c1e09e6d1939959b5c1e103c309c3a7c356745d0f10b2465a9aa5dc69161ecaea9f39f9c3d3692a17f025b21a068be6bfbd33eed2982711a884fe925f8c446a2174354b4bb8913eb61fabfb8671c92f02add9f7eb84922ec7c1cf93a5efd479c1dd4f970d7c41683116d567028bcd6e2c8888946946eb1d4c0945e4da69f14461fa42aa8d666759cae115488e685c623c16e9e542f2a51d0b2c53283dd73b063b6e2a255b704b961604d3931a8ca77a031dbb86eab642f5fcf913440c9258b044c5ccc864597d131a540fbc75ac46af2ec02eb142e84ab4f6a76693c6d8c8e35159ba9df6662ff245979798ab886b597a0f1ab230113222eecec0f723";

fn hex(s: &str) -> Vec<u8> {
    (0..s.len() / 2).map(|i| u8::from_str_radix(&s[2 * i..2 * i + 2], 16).unwrap()).collect()
}

// ── errors ───────────────────────────────────────────────────────────────────

#[test]
fn rpc_error_takes_the_number_off_the_name() {
    let e = RpcError::from_telegram(420, "FLOOD_WAIT_30");
    assert_eq!(e, RpcError { code: 420, name: "FLOOD_WAIT".to_owned(), value: Some(30) });
    let e = RpcError::from_telegram(303, "PHONE_MIGRATE_5");
    assert_eq!((e.name.as_str(), e.value), ("PHONE_MIGRATE", Some(5)));
    let e = RpcError::from_telegram(400, "PHONE_CODE_INVALID");
    assert_eq!((e.name.as_str(), e.value), ("PHONE_CODE_INVALID", None));
    let e = RpcError::from_telegram(400, "NOUNDERSCORE");
    assert_eq!((e.name.as_str(), e.value), ("NOUNDERSCORE", None));
    let e = RpcError::from_telegram(400, "TRAILING_");
    assert_eq!((e.name.as_str(), e.value), ("TRAILING_", None));
    let e = RpcError::from_telegram(400, "X_4294967295");
    assert_eq!((e.name.as_str(), e.value), ("X", Some(u32::MAX)));
    let e = RpcError::from_telegram(400, "X_4294967296");
    assert_eq!((e.name.as_str(), e.value), ("X_4294967296", None));
    let e = RpcError::from_telegram(400, "X_007");
    assert_eq!((e.name.as_str(), e.value), ("X", Some(7)));
    let e = RpcError::from_telegram(400, "X_1a");
    assert_eq!((e.name.as_str(), e.value), ("X_1a", None));
    let e = RpcError::from_telegram(400, "");
    assert_eq!((e.name.as_str(), e.value), ("", None));
    let e = RpcError::from_telegram(400, "_12");
    assert_eq!((e.name.as_str(), e.value), ("", Some(12)));
    let e = RpcError::from_telegram(400, "ŻÓŁW_12");
    assert_eq!((e.name.as_str(), e.value), ("ŻÓŁW", Some(12)));
}

#[test]
fn rpc_error_matches_patterns() {
    let e = RpcError::from_telegram(400, "PHONE_CODE_INVALID");
    assert!(e.is("PHONE_CODE_INVALID"));
    assert!(e.is("PHONE_CODE_*"));
    assert!(e.is("*_INVALID"));
    assert!(e.is("*"));
    assert!(!e.is("PHONE_CODE"));
    assert!(!e.is("SESSION_*"));
    assert!(!e.is("*_EXPIRED"));
    assert!(!e.is(""));
    let inv = InvocationError::Rpc(e);
    assert!(inv.is("PHONE_*"));
    assert!(!InvocationError::Dropped.is("*"));
    assert!(!InvocationError::Io("reset".to_owned()).is("*"));
}

#[test]
fn flood_wait_seconds() {
    assert_eq!(RpcError::from_telegram(420, "FLOOD_WAIT_3").flood_wait_seconds(), Some(3));
    assert_eq!(RpcError::from_telegram(400, "FLOOD_WAIT_3").flood_wait_seconds(), None);
    assert_eq!(RpcError::from_telegram(420, "FLOOD_WAIT").flood_wait_seconds(), None);
    assert_eq!(RpcError::from_telegram(420, "SLOWMODE_WAIT_3").flood_wait_seconds(), None);
    let e = InvocationError::Rpc(RpcError::from_telegram(420, "FLOOD_WAIT_30"));
    assert_eq!(e.flood_wait_seconds(), Some(30));
    assert_eq!(InvocationError::Migrate(2).flood_wait_seconds(), None);
}

#[test]
fn errors_in_words() {
    assert_eq!(RpcError::from_telegram(420, "FLOOD_WAIT_30").to_string(), "RPC 420: FLOOD_WAIT (value: 30)");
    assert_eq!(RpcError::from_telegram(-1, "X").to_string(), "RPC -1: X");
    assert_eq!(InvocationError::Dropped.to_string(), "request dropped");
    assert_eq!(InvocationError::Migrate(4).to_string(), "DC migration to 4");
    assert_eq!(InvocationError::Io("reset".to_owned()).to_string(), "I/O error: reset");
    assert_eq!(SignInError::InvalidCode.to_string(), "invalid or expired code");
    assert!(matches!(
        InvocationError::from_codec(layer::tl::deserialize::Error::UnexpectedEof),
        InvocationError::Deserialize(_)
    ));
}

#[test]
fn sign_in_failures() {
    let rpc = |m: &str| InvocationError::Rpc(RpcError::from_telegram(400, m));
    assert_eq!(on_sign_in_failure(rpc("SESSION_PASSWORD_NEEDED")), SignInStep::FetchPassword);
    assert_eq!(on_sign_in_failure(rpc("PHONE_CODE_INVALID")), SignInStep::InvalidCode);
    assert_eq!(on_sign_in_failure(rpc("PHONE_CODE_EXPIRED")), SignInStep::InvalidCode);
    assert_eq!(
        on_sign_in_failure(rpc("PHONE_NUMBER_BANNED")),
        SignInStep::Report(rpc("PHONE_NUMBER_BANNED"))
    );
    assert_eq!(on_sign_in_failure(InvocationError::Dropped), SignInStep::Report(InvocationError::Dropped));
    assert!(matches!(SignInError::from_invocation(rpc("PHONE_CODE_EMPTY")), SignInError::InvalidCode));
    assert!(matches!(SignInError::from_invocation(InvocationError::Dropped), SignInError::Other(_)));
}

// ── migration ────────────────────────────────────────────────────────────────

#[test]
fn migration_errors_name_the_datacenter() {
    assert_eq!(migration_target(&RpcError::from_telegram(303, "PHONE_MIGRATE_5")), Some(5));
    assert_eq!(migration_target(&RpcError::from_telegram(303, "USER_MIGRATE_1")), Some(1));
    assert_eq!(migration_target(&RpcError::from_telegram(303, "NETWORK_MIGRATE_3")), Some(3));
    assert_eq!(migration_target(&RpcError::from_telegram(400, "PHONE_MIGRATE_5")), None);
    assert_eq!(migration_target(&RpcError::from_telegram(303, "PHONE_MIGRATE")), None);
    assert_eq!(migration_target(&RpcError::from_telegram(303, "FLOOD_WAIT_5")), None);
    assert_eq!(migration_target(&RpcError::from_telegram(303, "X_MIGRATE_4294967295")), None);
    let e = InvocationError::Rpc(RpcError::from_telegram(303, "PHONE_MIGRATE_5"));
    assert_eq!(classify_failure(e.clone()), InvocationError::Migrate(5));
    assert_eq!(after_failure(e.clone(), 0), AfterFailure::MigrateAndRetry(5));
    assert_eq!(after_failure(e, 1), AfterFailure::Report(InvocationError::Migrate(5)));
    assert_eq!(
        after_failure(InvocationError::Dropped, 0),
        AfterFailure::Report(InvocationError::Dropped)
    );
}

// ── retry ────────────────────────────────────────────────────────────────────

fn flood(secs: u32) -> InvocationError {
    InvocationError::Rpc(RpcError { code: 420, name: "FLOOD_WAIT".to_owned(), value: Some(secs) })
}

#[test]
fn flood_wait_is_slept_through_up_to_the_threshold() {
    let policy = AutoSleep::default();
    let mut state = RetryState::new();
    assert_eq!(
        state.on_failure(&policy, flood(3)),
        RetryStep::SleepThenRetry(Delay { millis: 3000 })
    );
    assert_eq!(state.fail_count, 1);
    assert_eq!(state.slept_so_far, Delay { millis: 3000 });
    // a second failure is reported
    assert_eq!(state.on_failure(&policy, flood(3)), RetryStep::Fail(flood(3)));
    assert_eq!(state.fail_count, 2);

    let strict = AutoSleep { threshold: Delay::from_secs(1), io_errors_as_flood_of: None };
    let mut state = RetryState::new();
    assert_eq!(state.on_failure(&strict, flood(3)), RetryStep::Fail(flood(3)));
    assert_eq!(state.slept_so_far, Delay { millis: 0 });
    let mut state = RetryState::new();
    assert_eq!(
        state.on_failure(&strict, flood(1)),
        RetryStep::SleepThenRetry(Delay { millis: 1000 })
    );
    let mut state = RetryState::new();
    assert_eq!(
        state.on_failure(&AutoSleep::default(), flood(60)),
        RetryStep::SleepThenRetry(Delay { millis: 60_000 })
    );
    let mut state = RetryState::new();
    assert_eq!(state.on_failure(&AutoSleep::default(), flood(61)), RetryStep::Fail(flood(61)));
}

#[test]
fn network_failure_is_retried_once() {
    let policy = AutoSleep::default();
    let io = || InvocationError::Io("connection reset".to_owned());
    let mut state = RetryState::new();
    assert_eq!(state.on_failure(&policy, io()), RetryStep::SleepThenRetry(Delay { millis: 1000 }));
    assert_eq!(state.on_failure(&policy, io()), RetryStep::Fail(io()));
    let ctx = RetryContext { fail_count: 1, slept_so_far: Delay { millis: 0 }, error: io() };
    assert_eq!(NoRetries.should_retry(&ctx), Decision::GiveUp);
    assert_eq!(policy.should_retry(&ctx), Decision::RetryAfter(Delay { millis: 1000 }));
    let none = AutoSleep { threshold: Delay::from_secs(60), io_errors_as_flood_of: None };
    assert_eq!(none.should_retry(&ctx), Decision::GiveUp);
    let ctx = RetryContext {
        fail_count: 1,
        slept_so_far: Delay { millis: 0 },
        error: InvocationError::Dropped,
    };
    assert_eq!(policy.should_retry(&ctx), Decision::GiveUp);
}

#[test]
fn delays() {
    assert_eq!(Delay::from_secs(2).millis, 2000);
    assert_eq!(Delay::from_secs(u64::MAX).millis, u64::MAX);
    assert_eq!(Delay { millis: 2999 }.as_secs(), 2);
    let p = AutoSleep::default();
    assert_eq!(p.threshold.as_secs(), 60);
}

// ── update counters ──────────────────────────────────────────────────────────

#[test]
fn pts_in_order_gap_and_duplicate() {
    let s = PtsState { pts: 10, qts: 1, date: 2, seq: 3 };
    assert_eq!(s.check_pts(11, 1), PtsCheckResult::InOrder);
    assert_eq!(s.check_pts(13, 2), PtsCheckResult::Gap { expected: 12, got: 13 });
    assert_eq!(s.check_pts(10, 1), PtsCheckResult::Duplicate);
    assert_eq!(s.check_pts(i32::MIN, 1), PtsCheckResult::Duplicate);
    let top = PtsState { pts: i32::MAX, qts: 0, date: 0, seq: 0 };
    assert_eq!(top.check_pts(5, 1), PtsCheckResult::Duplicate);
    let bottom = PtsState { pts: i32::MIN, qts: 0, date: 0, seq: 0 };
    assert_eq!(bottom.check_pts(0, -1), PtsCheckResult::Gap { expected: i32::MIN, got: 0 });
}

#[test]
fn pts_gap_recovery() {
    // two updates: cached + 1 and cached + 3
    let mut s = PtsState { pts: 100, qts: 7, date: 9, seq: 0 };
    assert_eq!(s.on_update(101, 1), GapAction::Apply);
    assert_eq!(s.pts, 101);
    assert_eq!(s.on_update(103, 1), GapAction::FetchDifference { pts: 101, qts: 7, date: 9 });
    assert_eq!(s.pts, 101);
    // the difference brings the missed update; then the second one is due
    assert_eq!(s.on_update(102, 1), GapAction::Apply);
    assert_eq!(s.on_update(103, 1), GapAction::Apply);
    assert_eq!(s.pts, 103);
    assert_eq!(s.on_update(103, 1), GapAction::Discard);
}

#[test]
fn pts_state_transitions() {
    let mut s = PtsState::default();
    assert_eq!(s, PtsState { pts: 0, qts: 0, date: 0, seq: 0 });
    assert_eq!(s.plan_difference(), GapAction::SyncState);
    assert_eq!(s.on_update(5, 1), GapAction::SyncState);
    s = PtsState::from_server_state(&State { pts: 4, qts: 3, date: 2, seq: 1, unread_count: 9 });
    assert_eq!(s, PtsState { pts: 4, qts: 3, date: 2, seq: 1 });
    s.advance(3);
    assert_eq!(s.pts, 4);
    s.advance(9);
    assert_eq!(s.pts, 9);
    s.on_difference_empty(50, 6);
    assert_eq!(s, PtsState { pts: 9, qts: 3, date: 50, seq: 6 });
    assert_eq!(s.on_difference_too_long(1000), GapAction::SyncState);
    assert_eq!(s.pts, 1000);
}

// ── stored sessions ──────────────────────────────────────────────────────────

fn sample_session() -> PersistedSession {
    PersistedSession {
        home_dc_id: 2,
        dcs: vec![
            DcEntry {
                dc_id: 2,
                addr: "149.154.167.51:443".to_owned(),
                auth_key: Some(core::array::from_fn(|i| i as u8)),
                first_salt: -77,
                time_offset: 12,
            },
            DcEntry {
                dc_id: 4,
                addr: "149.154.167.91:443".to_owned(),
                auth_key: None,
                first_salt: 0,
                time_offset: -3,
            },
        ],
    }
}

fn same(a: &PersistedSession, b: &PersistedSession) -> bool {
    a.home_dc_id == b.home_dc_id
        && a.dcs.len() == b.dcs.len()
        && a.dcs.iter().zip(&b.dcs).all(|(x, y)| {
            x.dc_id == y.dc_id
                && x.addr == y.addr
                && x.auth_key.map(|k| k.to_vec()) == y.auth_key.map(|k| k.to_vec())
                && x.first_salt == y.first_salt
                && x.time_offset == y.time_offset
        })
}

#[test]
fn stored_session_layout() {
    let s = PersistedSession {
        home_dc_id: 2,
        dcs: vec![DcEntry {
            dc_id: 5,
            addr: "a:1".to_owned(),
            auth_key: None,
            first_salt: 1,
            time_offset: -1,
        }],
    };
    assert_eq!(
        s.to_bytes(),
        vec![
            2, 0, 0, 0, 1, 5, 0, 0, 0, 0, 1, 0, 0, 0, 0, 0, 0, 0, 0xff, 0xff, 0xff, 0xff, 3, b'a',
            b':', b'1'
        ]
    );
}

#[test]
fn stored_session_roundtrip() {
    let s = sample_session();
    let bytes = s.to_bytes();
    assert_eq!(bytes.len(), 5 + (4 + 1 + 256 + 12 + 1 + 18) + (4 + 1 + 12 + 1 + 18));
    let back = PersistedSession::from_bytes(&bytes).unwrap();
    assert!(same(&s, &back));
    let empty = PersistedSession { home_dc_id: -1, dcs: vec![] };
    assert!(same(&empty, &PersistedSession::from_bytes(&empty.to_bytes()).unwrap()));
}

#[test]
fn truncated_session_is_refused() {
    let bytes = sample_session().to_bytes();
    for cut in 0..bytes.len() {
        assert!(PersistedSession::from_bytes(&bytes[..cut]).is_none(), "cut at {cut}");
    }
    let mut more = bytes.clone();
    more.push(0);
    assert!(PersistedSession::from_bytes(&more).is_some());
}

#[test]
fn session_backends() {
    let s = sample_session();
    let mut mem = InMemoryBackend::new();
    assert!(mem.load().unwrap().is_none());
    mem.save(&s).unwrap();
    assert!(same(&mem.load().unwrap().unwrap(), &s));
    assert!(same(&mem.fetch().unwrap(), &s));
    mem.delete().unwrap();
    assert!(mem.load().unwrap().is_none());
    assert_eq!(mem.name(), "in-memory");
    assert!(InMemoryBackend::default().fetch().is_none());
    let file = BinaryFileBackend::new("layer.session");
    assert_eq!(file.path(), "layer.session");
    assert_eq!(file.name(), "binary-file");
    assert!(same(&file.decode(&file.encode(&s)).unwrap(), &s));
    assert!(file.decode(&[1, 2]).is_none());
}

// ── router ───────────────────────────────────────────────────────────────────

#[test]
fn answers_go_to_their_callers_only() {
    let mut r = Router::new();
    assert!(r.register(10));
    assert!(r.register(20));
    assert!(!r.register(10));
    assert_eq!(r.len(), 2);
    assert!(r.is_waiting(10));
    assert_eq!(r.route(30, vec![1]), Delivery::Discard);
    assert_eq!(r.len(), 2);
    assert_eq!(r.route(10, vec![1, 2]), Delivery::Deliver { msg_id: 10, body: vec![1, 2] });
    assert!(!r.is_waiting(10));
    assert!(r.is_waiting(20));
    assert_eq!(r.route(10, vec![1, 2]), Delivery::Discard);
    assert!(r.cancel(20));
    assert!(!r.cancel(20));
    assert_eq!(r.len(), 0);
}

// ── datacenters ──────────────────────────────────────────────────────────────

#[test]
fn default_addresses() {
    let m = default_dc_addresses();
    assert_eq!(m.len(), 5);
    assert_eq!(m[&1], "149.154.175.53:443");
    assert_eq!(m[&2], "149.154.167.51:443");
    assert_eq!(m[&3], "149.154.175.100:443");
    assert_eq!(m[&4], "149.154.167.91:443");
    assert_eq!(m[&5], "91.108.56.130:443");
}

#[test]
fn cross_dc_call_plan() {
    let s = sample_session();
    let mut pool = DcPool::new(2, &s.dcs);
    assert_eq!(pool.home_dc_id(), 2);
    assert!(!pool.has_connection(4));
    // DC 4 has no key: connect afresh and bring the authorization over
    assert_eq!(
        pool.plan_connection(4),
        ConnectPlan::Fresh { addr: "149.154.167.91:443".to_owned(), import_auth: true }
    );
    assert_eq!(pool.plan_connection(9), ConnectPlan::UnknownDc);
    pool.insert(4, [5u8; 256], 11, 22);
    assert!(pool.has_connection(4));
    // the second call finds the connection
    assert_eq!(pool.plan_connection(4), ConnectPlan::Reuse);
    match pool.plan_connection(2) {
        ConnectPlan::WithKey { addr, first_salt, time_offset, .. } => {
            assert_eq!((addr.as_str(), first_salt, time_offset), ("149.154.167.51:443", -77, 12));
        }
        other => panic!("{other:?}"),
    }
    let mut entries = sample_session().dcs;
    pool.collect_keys(&mut entries);
    assert_eq!(entries[1].auth_key.map(|k| k.to_vec()), Some(vec![5u8; 256]));
    assert_eq!((entries[1].first_salt, entries[1].time_offset), (11, 22));
    assert_eq!(entries[0].first_salt, -77);
    let stored = pool.to_session();
    assert_eq!(stored.home_dc_id, 2);
    assert_eq!(stored.dcs[1].first_salt, 11);
}

#[test]
fn home_migration() {
    let mut pool = DcPool::new(2, &[]);
    pool.set_address(5, "91.108.56.130:443".to_owned());
    assert_eq!(
        pool.plan_connection(5),
        ConnectPlan::Fresh { addr: "91.108.56.130:443".to_owned(), import_auth: true }
    );
    pool.set_home(5);
    assert_eq!(pool.home_dc_id(), 5);
    assert_eq!(
        pool.plan_connection(5),
        ConnectPlan::Fresh { addr: "91.108.56.130:443".to_owned(), import_auth: false }
    );
    pool.update_addrs(&sample_session().dcs);
    assert_eq!(
        pool.plan_connection(2),
        ConnectPlan::Fresh { addr: "149.154.167.51:443".to_owned(), import_auth: true }
    );
}

#[test]
fn config_filters_the_addresses() {
    let opt = |id: i32, ip: &str, ipv6: bool, media_only: bool, tcpo_only: bool, cdn: bool| {
        layer::client::api::enums::DcOption::DcOption(layer::client::api::types::DcOption {
            ipv6,
            media_only,
            tcpo_only,
            cdn,
            id,
            ip_address: ip.to_owned(),
            port: 443,
        })
    };
    let options = vec![
        opt(1, "1.1.1.1", false, false, false, false),
        opt(2, "2.2.2.2", false, true, false, false),
        opt(3, "3.3.3.3", false, false, true, false),
        opt(4, "4.4.4.4", false, false, false, true),
        opt(5, "::5", true, false, false, false),
        opt(1, "1.1.1.2", false, false, false, false),
    ];
    let mut pool = DcPool::new(1, &[]);
    pool.apply_config(&options, false);
    let s = pool.to_session();
    assert_eq!(s.dcs.len(), 1);
    assert_eq!((s.dcs[0].dc_id, s.dcs[0].addr.as_str()), (1, "1.1.1.2:443"));
    let mut pool = DcPool::new(1, &[]);
    pool.apply_config(&options, true);
    let s = pool.to_session();
    assert_eq!(s.dcs.len(), 2);
    assert_eq!((s.dcs[1].dc_id, s.dcs[1].addr.as_str()), (5, "::5:443"));
}

// ── starting and the update loop ─────────────────────────────────────────────

#[test]
fn start_with_and_without_a_session() {
    let fresh = StartPlan::Fresh { dc_id: 2, addr: "149.154.167.51:443".to_owned() };
    assert_eq!(startup_plan(None), fresh);
    let s = sample_session();
    match startup_plan(Some(&s)) {
        StartPlan::Resume { dc_id, addr, first_salt, time_offset, auth_key } => {
            assert_eq!((dc_id, addr.as_str(), first_salt, time_offset), (2, "149.154.167.51:443", -77, 12));
            assert_eq!(auth_key[255], 255);
        }
        other => panic!("{other:?}"),
    }
    let mut no_key = sample_session();
    no_key.home_dc_id = 4;
    assert_eq!(startup_plan(Some(&no_key)), fresh);
    no_key.home_dc_id = 9;
    assert_eq!(startup_plan(Some(&no_key)), fresh);
    assert_eq!(after_init(true, false), AfterInit::SyncState);
    assert_eq!(after_init(false, false), AfterInit::FreshAndRetry);
    assert_eq!(after_init(false, true), AfterInit::Fail);
}

#[test]
fn reconnect_preserves_authorization() {
    let mut state = LoopState::Receiving;
    let mut actions = vec![];
    for event in [
        LoopEvent::FrameHandled,
        LoopEvent::ReadFailed,
        LoopEvent::BackoffOver,
        LoopEvent::Connected,
        LoopEvent::Initialized,
        LoopEvent::CaughtUp,
    ] {
        let (next, action) = step(state, event, true);
        state = next;
        actions.push(action);
    }
    assert_eq!(
        actions,
        vec![
            LoopAction::Read,
            LoopAction::Sleep,
            LoopAction::ConnectWithKey,
            LoopAction::InitConnection,
            LoopAction::GetDifference,
            LoopAction::Read,
        ]
    );
    assert_eq!(state, LoopState::Receiving);
}

#[test]
fn update_loop_transitions() {
    assert_eq!(
        step(LoopState::Receiving, LoopEvent::IdleTimeout, true),
        (LoopState::Receiving, LoopAction::Ping)
    );
    assert_eq!(
        step(LoopState::BackingOff, LoopEvent::BackoffOver, false),
        (LoopState::ConnectingFresh, LoopAction::ConnectFresh)
    );
    assert_eq!(
        step(LoopState::ConnectingWithKey, LoopEvent::ConnectFailed, true),
        (LoopState::ConnectingFresh, LoopAction::ConnectFresh)
    );
    assert_eq!(
        step(LoopState::ConnectingFresh, LoopEvent::ConnectFailed, true),
        (LoopState::Stopped, LoopAction::Stop)
    );
    assert_eq!(
        step(LoopState::Stopped, LoopEvent::Connected, true),
        (LoopState::Stopped, LoopAction::Stop)
    );
    // an event that the state does not wait for changes nothing
    assert_eq!(
        step(LoopState::Initializing, LoopEvent::IdleTimeout, true),
        (LoopState::Initializing, LoopAction::InitConnection)
    );
    assert_eq!(
        step(LoopState::CatchingUp, LoopEvent::ReadFailed, true),
        (LoopState::CatchingUp, LoopAction::GetDifference)
    );
}

// ── settings ─────────────────────────────────────────────────────────────────

#[test]
fn default_settings() {
    let c = Config::default();
    assert_eq!(c.api_id, 0);
    assert_eq!(c.api_hash, "");
    assert!(c.dc_addr.is_none());
    assert!(c.socks5.is_none());
    assert!(!c.allow_ipv6);
    assert_eq!(c.transport, TransportKind::Abridged);
    assert_eq!(c.session_path, "layer.session");
    assert_eq!(c.retry_policy.threshold, Delay { millis: 60_000 });
}

#[test]
fn random_numbers_differ() {
    let a = random_i64_pub().unwrap();
    let b = random_i64_pub().unwrap();
    let c = random_i64_pub().unwrap();
    assert!(a != b || b != c);
    assert_eq!(i64_from_bytes(&[1, 0, 0, 0, 0, 0, 0, 0x80]), i64::MIN + 1);
}

#[test]
fn invite_links() {
    assert_eq!(parse_invite_hash("https://t.me/+AbCd"), Some("AbCd".to_owned()));
    assert_eq!(parse_invite_hash("https://t.me/joinchat/XyZ"), Some("XyZ".to_owned()));
    assert_eq!(parse_invite_hash("https://t.me/somechannel"), None);
    assert_eq!(parse_invite_hash("/+"), Some(String::new()));
    assert_eq!(parse_invite_hash(""), None);
}

// ── password check ───────────────────────────────────────────────────────────

#[test]
fn srp_known_answer() {
    let mut p = vec![0xffu8; 255];
    p.push(0x61);
    let g_b: Vec<u8> = (0..256).map(|i| ((i * 3 + 9) % 256) as u8).collect();
    let a: Vec<u8> = (0..256).map(|i| ((i * 5 + 2) % 256) as u8).collect();
    let (m1, g_a) = calculate_2fa(
        b"salt-one",
        b"salt-two-longer",
        &p,
        3,
        &g_b,
        &a,
        b"correct horse battery staple",
    )
    .unwrap();
    assert_eq!(m1.to_vec(), hex(SRP_M1));
    assert_eq!(g_a.to_vec(), hex(SRP_GA));
    assert!(calculate_2fa(b"a", b"b", &[0], 3, &g_b, &a, b"pw").is_none());
    assert!(calculate_2fa(b"a", b"b", &[1], 3, &g_b, &a, b"pw").is_none());
    assert!(calculate_2fa(b"a", b"b", &[], 3, &g_b, &a, b"pw").is_none());
}

#[test]
fn srp_helpers() {
    assert_eq!(pad256(&[1, 2])[254..], [1, 2]);
    assert_eq!(pad256(&[1, 2])[..254], [0u8; 254]);
    let long: Vec<u8> = (0..300).map(|i| (i % 256) as u8).collect();
    assert_eq!(pad256(&long)[..], long[44..]);
    assert_eq!(xor32(&[0xf0; 32], &[0x3c; 32]), [0xcc; 32]);
}

fn password_settings() -> layer::client::api::types::Password {
    layer::client::api::types::Password {
        has_password: true,
        current_algo: Some(
            layer::client::api::enums::PasswordKdfAlgo::Sha256Sha256Pbkdf2Hmacsha512iter100000Sha256ModPow(
                layer::client::api::types::PasswordKdfAlgoModPow {
                    salt1: b"salt-one".to_vec(),
                    salt2: b"salt-two".to_vec(),
                    g: 3,
                    p: vec![0xc7, 0x1c, 0xae, 0xb9],
                },
            ),
        ),
        srp_b: Some(vec![5; 256]),
        srp_id: Some(77),
        hint: Some("pet".to_owned()),
        secure_random: vec![9; 256],
    }
}

#[test]
fn password_challenge_from_complete_settings() {
    let token = layer::client::errors::PasswordToken::from_password(password_settings()).unwrap();
    assert_eq!(token.hint(), Some("pet"));
    assert_eq!(token.srp_id(), 77);
    let direct = calculate_2fa(
        b"salt-one",
        b"salt-two",
        &[0xc7, 0x1c, 0xae, 0xb9],
        3,
        &[5; 256],
        &[9; 256],
        b"secret",
    );
    assert!(direct.is_some());
    assert_eq!(token.answer(b"secret"), direct);
    assert_ne!(token.answer(b"other"), direct);
}

#[test]
fn password_challenge_names_what_is_missing() {
    let refused = |pw: layer::client::api::types::Password| {
        match layer::client::errors::PasswordToken::from_password(pw) {
            Err(InvocationError::Deserialize(what)) => what,
            other => panic!("{:?}", other),
        }
    };
    let mut pw = password_settings();
    pw.current_algo = None;
    pw.srp_b = None;
    assert_eq!(refused(pw), "no current_algo");
    let mut pw = password_settings();
    pw.current_algo = Some(layer::client::api::enums::PasswordKdfAlgo::Unknown);
    assert_eq!(refused(pw), "unsupported password KDF algo");
    let mut pw = password_settings();
    pw.srp_b = None;
    pw.srp_id = None;
    assert_eq!(refused(pw), "no srp_b");
    let mut pw = password_settings();
    pw.srp_id = None;
    assert_eq!(refused(pw), "no srp_id");
}
