use simulation::clock::RealClock;
use simulation::faults::FaultType;
use simulation::faults::FileFaultType;
use simulation::tui::App;
use simulation::tui::AppState;
use simulation::tui::GameState;
use simulation::tui::u64_to_string;

#[test]
fn fault_symbols_and_log_messages() {
    assert_eq!(FaultType::KafkaConnectionFailure.to_symbol(), "⚔️");
    assert_eq!(FaultType::RedisConnectionFailure.to_symbol(), "🛡️");
    assert_eq!(FaultType::KafkaReadFailure.to_symbol(), "🔥");
    assert_eq!(FaultType::RedisReadFailure.to_symbol(), "❄️");
    assert_eq!(FaultType::FileOpenFailure.to_symbol(), "💥");
    assert_eq!(FaultType::FileFaultType(FileFaultType::FileReadFailure).to_symbol(), "⚡");
    assert_eq!(FaultType::KafkaConnectionFailure.to_log_message(), "Kafka connection failed");
    assert_eq!(FaultType::RedisReadFailure.to_log_message(), "Redis read failed");
    assert_eq!(
        FaultType::FileFaultType(FileFaultType::FileSizeExceededFailure).to_log_message(),
        "File size exceeded"
    );
    assert_eq!(
        FaultType::FileFaultType(FileFaultType::FileMetadataSyncFailure).to_log_message(),
        "File metadata sync failed"
    );
}

#[test]
fn decimal_rendering_is_exact() {
    assert_eq!(u64_to_string(0), "0");
    assert_eq!(u64_to_string(9), "9");
    assert_eq!(u64_to_string(10), "10");
    assert_eq!(u64_to_string(12345), "12345");
    assert_eq!(u64_to_string(u64::MAX), "18446744073709551615");
}

#[test]
fn game_state_logs_and_caps_faults() {
    let mut game = GameState::new();
    assert_eq!(game.tick_count, 0);
    for _ in 0..25 {
        game.add_fault(FaultType::KafkaReadFailure);
    }
    assert_eq!(game.active_faults.len(), 25);
    assert_eq!(game.fault_log.len(), 20);
    assert_eq!(game.fault_log[0], "Kafka read failed");
}

#[test]
fn game_state_tick_ages_and_retires() {
    let mut game = GameState::new();
    game.add_fault(FaultType::KafkaReadFailure);
    for _ in 0..4 {
        game.tick();
    }
    game.add_fault(FaultType::RedisReadFailure);
    for _ in 0..6 {
        game.tick();
    }
    // the first marker reached age 10 and retired; the second is at age 6
    assert_eq!(game.active_faults.len(), 1);
    assert_eq!(game.active_faults[0].0, FaultType::RedisReadFailure);
    assert_eq!(game.active_faults[0].1, 6);
    assert_eq!(game.tick_count, 10);
}

#[test]
fn app_starts_on_the_start_screen() {
    let app = App::new();
    assert_eq!(app.state, AppState::StartScreen);
    assert!(app.death_reason.is_none());
    assert_eq!(app.status_log_counter, 0);
}

#[test]
fn app_status_messages_are_numbered() {
    let mut app = App::new();
    app.add_connection_status_messages();
    app.add_status_messages();
    assert_eq!(app.status_log_counter, 6);
    assert_eq!(
        app.status_log,
        vec![
            "[0] Connected to Kafka".to_string(),
            "[1] Connected to Redis".to_string(),
            "[2] Opened file descriptor".to_string(),
            "[3] Read messages from Kafka".to_string(),
            "[4] Read messages from Redis".to_string(),
            "[5] Wrote output to file".to_string(),
        ]
    );
}

#[test]
fn app_status_log_is_capped() {
    let mut app = App::new();
    for _ in 0..20 {
        app.add_status_messages();
    }
    assert_eq!(app.status_log.len(), 50);
    assert_eq!(app.status_log_counter, 60);
    assert_eq!(app.status_log[49], "[59] Wrote output to file");
    assert_eq!(app.status_log[0], "[10] Read messages from Redis");
}

#[test]
fn app_tracks_faults_like_the_game_state() {
    let mut app = App::new();
    app.add_fault(FaultType::FileOpenFailure);
    app.add_fault(FaultType::KafkaConnectionFailure);
    assert_eq!(app.active_faults.len(), 2);
    assert_eq!(app.fault_log, vec![
        "File open failed".to_string(),
        "Kafka connection failed".to_string(),
    ]);
    app.tick();
    assert_eq!(app.active_faults[0].1, 1);
    assert_eq!(app.tick_count, 1);
}

#[test]
fn real_clock_constructs() {
    let _clock = RealClock::new();
}
