use registrar::primitives::{AccountType, ChallengeStatus, ADDRESS_COUNT};
use registrar::retry::RetryPolicy;
use registrar::startup::{
    watcher_policy, Setup, SetupAction, KEEPALIVE_SECS, WATCHER_ATTEMPTS, WATCHER_INTERVAL_SECS,
};
use registrar::Config;

fn config(enable_watcher: bool) -> Config {
    Config {
        registrar_db_path: String::from("/tmp/registrar.db"),
        matrix_db_path: String::from("/tmp/matrix.db"),
        log_level: log::LevelFilter::Info,
        watcher_url: String::from("ws://localhost:5000"),
        enable_watcher,
        matrix_homeserver: String::from("https://matrix.org"),
        matrix_username: String::from("@registrar:matrix.org"),
        matrix_password: String::from("secret"),
    }
}

fn run(setup: &mut Setup, outcomes: &[bool]) -> Vec<SetupAction> {
    let mut actions = vec![setup.pending()];
    for outcome in outcomes {
        actions.push(setup.advance(*outcome));
    }
    actions
}

#[test]
fn verify_matrix() {
    let config = config(true);
    assert_eq!(config.matrix_username, "@registrar:matrix.org");
    let mut setup = config.setup();
    let actions = run(&mut setup, &[true; 11]);
    assert_eq!(
        actions,
        vec![
            SetupAction::OpenDatabase,
            SetupAction::StartManager,
            SetupAction::RegisterComms(AccountType::ReservedConnector),
            SetupAction::RegisterComms(AccountType::ReservedEmitter),
            SetupAction::RegisterComms(AccountType::Matrix),
            SetupAction::RegisterComms(AccountType::ReservedFeeder),
            SetupAction::ConnectWatcher { after_secs: 0 },
            SetupAction::SpawnManager,
            SetupAction::StartMatrix,
            SetupAction::SpawnMatrix,
            SetupAction::SpawnConnector,
            SetupAction::Serve,
        ]
    );
    assert_eq!(setup.advance(true), SetupAction::Serve);
    assert_eq!(setup.advance(false), SetupAction::Serve);
}

#[test]
fn startup_without_watcher_skips_the_connector() {
    let mut setup = config(false).setup();
    let actions = run(&mut setup, &[true; 9]);
    assert_eq!(
        actions,
        vec![
            SetupAction::OpenDatabase,
            SetupAction::StartManager,
            SetupAction::RegisterComms(AccountType::ReservedConnector),
            SetupAction::RegisterComms(AccountType::ReservedEmitter),
            SetupAction::RegisterComms(AccountType::Matrix),
            SetupAction::RegisterComms(AccountType::ReservedFeeder),
            SetupAction::SpawnManager,
            SetupAction::StartMatrix,
            SetupAction::SpawnMatrix,
            SetupAction::Serve,
        ]
    );
}

#[test]
fn watcher_is_tried_three_times_five_seconds_apart() {
    let mut setup = Setup::new(true);
    run(&mut setup, &[true; 6]);
    assert_eq!(setup.pending(), SetupAction::ConnectWatcher { after_secs: 0 });
    assert_eq!(setup.advance(false), SetupAction::ConnectWatcher { after_secs: 5 });
    assert_eq!(setup.advance(false), SetupAction::ConnectWatcher { after_secs: 5 });
    assert_eq!(setup.advance(false), SetupAction::Exit);
    assert_eq!(setup.advance(true), SetupAction::Exit);
}

#[test]
fn watcher_reached_on_the_third_attempt_lets_startup_go_on() {
    let mut setup = Setup::new(true);
    run(&mut setup, &[true; 6]);
    assert_eq!(setup.advance(false), SetupAction::ConnectWatcher { after_secs: 5 });
    assert_eq!(setup.advance(false), SetupAction::ConnectWatcher { after_secs: 5 });
    assert_eq!(setup.advance(true), SetupAction::SpawnManager);
}

#[test]
fn a_failed_step_aborts_startup() {
    for steps_before in 0..6 {
        let mut setup = Setup::new(true);
        for _ in 0..steps_before {
            setup.advance(true);
        }
        assert_eq!(setup.advance(false), SetupAction::Abort);
        assert_eq!(setup.advance(true), SetupAction::Abort);
    }
    let mut setup = Setup::new(false);
    run(&mut setup, &[true; 7]);
    assert_eq!(setup.pending(), SetupAction::StartMatrix);
    assert_eq!(setup.advance(false), SetupAction::Abort);
}

#[test]
fn watcher_policy_comes_from_the_configuration() {
    let expected = RetryPolicy { max_attempts: 3, interval_secs: 5, fatal_on_exhaustion: true };
    assert_eq!(watcher_policy(), expected);
    assert_eq!(WATCHER_ATTEMPTS, 3);
    assert_eq!(WATCHER_INTERVAL_SECS, 5);
    assert_eq!(KEEPALIVE_SECS, 60);
    assert_eq!(config(true).watcher_retry(), Some(expected));
    assert_eq!(config(false).watcher_retry(), None);
}

#[test]
fn every_endpoint_kind_has_its_own_address() {
    let kinds = [
        AccountType::Matrix,
        AccountType::Email,
        AccountType::Twitter,
        AccountType::DisplayName,
        AccountType::ReservedConnector,
        AccountType::ReservedEmitter,
        AccountType::ReservedFeeder,
    ];
    assert_eq!(kinds.len(), ADDRESS_COUNT);
    for (expected, kind) in kinds.iter().enumerate() {
        assert_eq!(kind.address(), expected);
        assert_eq!(AccountType::from_address(expected), Some(*kind));
        assert_eq!(kind.is_channel(), expected < 4);
    }
    assert_eq!(AccountType::from_address(7), None);
    assert_eq!(AccountType::from_address(usize::MAX), None);
}

#[test]
fn only_unconfirmed_is_live() {
    assert!(!ChallengeStatus::Unconfirmed.is_terminal());
    assert!(ChallengeStatus::Confirmed.is_terminal());
    assert!(ChallengeStatus::Invalid.is_terminal());
}
