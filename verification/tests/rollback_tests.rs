use tunnel_tanks::checksum::DesyncDetector;
use tunnel_tanks::rollback::{InputError, RollbackSession};
use tunnel_tanks::session::{
    assets_loaded, matchmaking_step, ConfigError, PlayerRegistry, SessionConfig, SessionError,
    SessionMode, SessionPhase,
};

/// A deterministic, varied input pattern over the five control bits.
fn pattern(player: usize, tick: usize) -> u8 {
    (((tick * 13 + player * 7) % 32) & 0x1F) as u8
}

#[test]
fn synchronized_streams_agree_on_every_checksum() {
    // Scenario: two independently constructed sessions fed identical input
    // streams for 300 ticks, checksums compared at every tick.
    let mut a = RollbackSession::new(32, 32, 2, 2, 99);
    let mut b = RollbackSession::new(32, 32, 2, 2, 99);
    for t in 0..300 {
        for p in 0..2 {
            a.confirm_input(p, t, pattern(p, t)).unwrap();
            b.confirm_input(p, t, pattern(p, t)).unwrap();
        }
        a.advance();
        b.advance();
        assert_eq!(
            a.state().checksum(),
            b.state().checksum(),
            "checksums diverged at tick {}",
            t
        );
        assert!(a.state().state_eq(b.state()));
    }
    assert_eq!(a.current_tick(), 300);
}

#[test]
fn late_confirmations_roll_back_to_the_timely_run() {
    // Reference run: every input confirmed before its tick is simulated.
    let mut timely = RollbackSession::new(32, 32, 2, 2, 7);
    // Lagging run: player 1's inputs arrive in bursts, several ticks late,
    // so the session simulates on predictions and must roll back.
    let mut lagging = RollbackSession::new(32, 32, 2, 2, 7);
    let total = 120;
    for t in 0..total {
        timely.confirm_input(0, t, pattern(0, t)).unwrap();
        timely.confirm_input(1, t, pattern(1, t)).unwrap();
        timely.advance();

        lagging.confirm_input(0, t, pattern(0, t)).unwrap();
        lagging.advance();
        if t % 5 == 4 {
            // Deliver player 1's last five inputs, oldest first.
            for late in (t - 4)..=t {
                lagging.confirm_input(1, late, pattern(1, late)).unwrap();
            }
        }
    }
    // Deliver whatever is still outstanding.
    for t in (total - total % 5)..total {
        lagging.confirm_input(1, t, pattern(1, t)).unwrap();
    }
    assert_eq!(timely.current_tick(), lagging.current_tick());
    assert!(
        timely.state().state_eq(lagging.state()),
        "after all confirmations arrive, the lagging run must equal the timely run"
    );
    assert_eq!(timely.state().checksum(), lagging.state().checksum());
}

#[test]
fn prediction_repeats_last_confirmed_input() {
    // Player 1 confirms only tick 0; the session then predicts that value
    // for every later tick, which a matching fully-confirmed run shows.
    let mut predicted = RollbackSession::new(32, 32, 2, 2, 5);
    let mut confirmed = RollbackSession::new(32, 32, 2, 2, 5);
    let held: u8 = 0b01001; // up + right... a held control state
    for t in 0..40 {
        predicted.confirm_input(0, t, 0).unwrap();
        confirmed.confirm_input(0, t, 0).unwrap();
        if t == 0 {
            predicted.confirm_input(1, 0, held).unwrap();
        }
        confirmed.confirm_input(1, t, held).unwrap();
        predicted.advance();
        confirmed.advance();
    }
    assert!(predicted.state().state_eq(confirmed.state()));
}

#[test]
fn local_input_applies_after_the_delay() {
    // Input delay 2: an input submitted now is scheduled two ticks ahead,
    // so it takes effect on the third simulated tick.
    let mut s = RollbackSession::new(32, 32, 2, 2, 1);
    let start_x = s.state().players[0].pos_x;
    assert_eq!(s.submit_local(0, 0b01000), Ok(2)); // right, scheduled for tick 2
    s.advance(); // tick 0: nothing confirmed, all-zero prediction
    assert_eq!(s.state().players[0].pos_x, start_x);
    s.advance(); // tick 1
    assert_eq!(s.state().players[0].pos_x, start_x);
    s.advance(); // tick 2: the buffered input applies
    assert_eq!(s.state().players[0].pos_x, start_x + 30);
    // The schedule tracks the current tick.
    assert_eq!(s.submit_local(0, 0), Ok(5));
}

#[test]
fn local_input_with_zero_delay_applies_at_once() {
    let mut s = RollbackSession::new(32, 32, 2, 0, 1);
    let start_x = s.state().players[0].pos_x;
    assert_eq!(s.submit_local(0, 0b01000), Ok(0));
    // The scheduled tick is already confirmed, so it is immutable.
    assert_eq!(s.submit_local(0, 0b00100), Err(InputError::AlreadyConfirmed));
    s.advance();
    assert_eq!(s.state().players[0].pos_x, start_x + 30);
}

#[test]
fn confirmed_inputs_are_immutable() {
    let mut s = RollbackSession::new(32, 32, 2, 2, 1);
    s.confirm_input(0, 3, 9).unwrap();
    // Re-confirming the same value is idempotent.
    assert_eq!(s.confirm_input(0, 3, 9), Ok(()));
    // A different value for a confirmed tick is refused.
    assert_eq!(s.confirm_input(0, 3, 10), Err(InputError::AlreadyConfirmed));
    // Other ticks are unaffected.
    assert_eq!(s.confirm_input(0, 4, 10), Ok(()));
}

#[test]
fn desync_detector_reports_mismatch_with_both_values() {
    let mut d = DesyncDetector::new(1);
    assert!(d.record_local(10, 0xAAAA).is_none());
    assert!(d.record_remote(11, 0xBBBB).is_none());
    // Matching checksums for the same tick: no report.
    assert!(d.record_remote(10, 0xAAAA).is_none());
    // A differing checksum for a recorded tick: the report carries the tick
    // and both fingerprints.
    let report = d.record_local(11, 0xCCCC).expect("divergence must be reported");
    assert_eq!(report.tick, 11);
    assert_eq!(report.local, 0xCCCC);
    assert_eq!(report.remote, 0xBBBB);
}

#[test]
fn desync_detector_cadence() {
    let d = DesyncDetector::new(10);
    assert!(d.due(0));
    assert!(!d.due(7));
    assert!(d.due(20));
    let every = DesyncDetector::new(1);
    assert!(every.due(0) && every.due(1) && every.due(2));
}

#[test]
fn session_seed_is_xor_of_peer_ids() {
    let mut r = PlayerRegistry::new(2);
    assert_eq!(r.session_seed(), Err(SessionError::NotReady));
    r.add_player(0, 0x1234_5678_9ABC_DEF0).unwrap();
    assert_eq!(r.session_seed(), Err(SessionError::NotReady));
    r.add_player(1, 0x0FF0_0FF0_0FF0_0FF0).unwrap();
    assert_eq!(
        r.session_seed(),
        Ok(0x1234_5678_9ABC_DEF0 ^ 0x0FF0_0FF0_0FF0_0FF0)
    );
    // Registration order does not change the seed.
    let mut swapped = PlayerRegistry::new(2);
    swapped.add_player(1, 0x0FF0_0FF0_0FF0_0FF0).unwrap();
    swapped.add_player(0, 0x1234_5678_9ABC_DEF0).unwrap();
    assert_eq!(r.session_seed(), swapped.session_seed());
}

#[test]
fn registry_refuses_bad_registrations() {
    let mut r = PlayerRegistry::new(2);
    assert_eq!(r.add_player(2, 1), Err(SessionError::HandleOutOfRange));
    r.add_player(0, 1).unwrap();
    assert_eq!(r.add_player(0, 2), Err(SessionError::SlotTaken));
}

#[test]
fn config_validation_errors() {
    assert_eq!(
        SessionConfig::new(SessionMode::P2p, 0, 2, 10),
        Err(ConfigError::BadPlayerCount)
    );
    assert_eq!(
        SessionConfig::new(SessionMode::P2p, 2, 2, 0),
        Err(ConfigError::BadCheckInterval)
    );
    let ok = SessionConfig::new(SessionMode::P2p, 2, 2, 10).unwrap();
    assert_eq!(ok.num_players, 2);
    assert_eq!(ok.input_delay, 2);
    // Any input delay is accepted, as on the command line.
    let slow = SessionConfig::new(SessionMode::P2p, 2, 600, 10).unwrap();
    assert_eq!(slow.input_delay, 600);
    // Local two-pad play needs no input buffering.
    let local = SessionConfig::new(SessionMode::Local, 2, 2, 10).unwrap();
    assert_eq!(local.input_delay, 0);
    // Synctest keeps the requested delay for deterministic self-validation.
    let synctest = SessionConfig::new(SessionMode::SyncTest, 2, 2, 10).unwrap();
    assert_eq!(synctest.input_delay, 2);
}

#[test]
fn session_phases_gate_on_peer_count() {
    let p = SessionPhase::AssetLoading;
    let p = assets_loaded(p);
    assert_eq!(p, SessionPhase::Matchmaking);
    // Short of the expected count the manager keeps waiting.
    assert_eq!(matchmaking_step(p, 1, 2), (SessionPhase::Matchmaking, false));
    // Reaching it is the sole gating condition.
    assert_eq!(matchmaking_step(p, 2, 2), (SessionPhase::InGame, true));
    // Other phases ignore both events.
    assert_eq!(assets_loaded(SessionPhase::InGame), SessionPhase::InGame);
    assert_eq!(matchmaking_step(SessionPhase::InGame, 5, 2), (SessionPhase::InGame, false));
}
