use alerter::{Args, ArgsError, DEFAULT_PORT};

fn telegram_args() -> Args {
    Args {
        tg: true,
        tg_token: Some("SECRET-REDACTED".to_string()),
        tg_chat_id: Some(-100123),
        ..Args::default()
    }
}

fn matrix_args() -> Args {
    Args {
        matrix: true,
        matrix_user: Some("@alerter:example.org".to_string()),
        matrix_pass: Some("hunter2".to_string()),
        matrix_room_id: Some("!room:example.org".to_string()),
        ..Args::default()
    }
}

#[test]
fn default_args() {
    let args = Args::default();
    assert_eq!(args.port, 3030);
    assert_eq!(DEFAULT_PORT, 3030);
    assert_eq!(args.tg_template_path, "templates/default.tg.hbs");
    assert_eq!(args.matrix_template_path, "templates/default.matrix.hbs");
    assert!(!args.tg && !args.matrix);
}

#[test]
fn no_receiver_is_refused() {
    assert_eq!(Args::default().check(), Err(ArgsError::NoReceiver));
    assert!(matches!(Args::default().into_config(), Err(ArgsError::NoReceiver)));
}

#[test]
fn telegram_needs_token_then_chat_id() {
    let mut args = telegram_args();
    args.tg_token = None;
    args.tg_chat_id = None;
    assert_eq!(args.check(), Err(ArgsError::MissingTelegramToken));
    let mut args = telegram_args();
    args.tg_chat_id = None;
    assert_eq!(args.check(), Err(ArgsError::MissingTelegramChatId));
}

#[test]
fn matrix_needs_user_password_room() {
    let mut args = matrix_args();
    args.matrix_user = None;
    args.matrix_pass = None;
    assert_eq!(args.check(), Err(ArgsError::MissingMatrixUser));
    let mut args = matrix_args();
    args.matrix_pass = None;
    assert_eq!(args.check(), Err(ArgsError::MissingMatrixPassword));
    let mut args = matrix_args();
    args.matrix_room_id = None;
    assert_eq!(args.check(), Err(ArgsError::MissingMatrixRoomId));
}

#[test]
fn telegram_config() {
    let config = telegram_args().into_config().ok().unwrap();
    assert_eq!(config.port, 3030);
    let tg = config.telegram.as_ref().unwrap();
    assert_eq!(tg.token, "SECRET-REDACTED");
    assert_eq!(tg.chat_id, -100123);
    assert!(config.matrix.is_none());
    assert_eq!(config.chat_id(), -100123);
    assert_eq!(config.room_id(), "");
}

#[test]
fn both_receivers_config() {
    let mut args = matrix_args();
    args.tg = true;
    args.tg_token = Some("t".to_string());
    args.tg_chat_id = Some(7);
    args.port = 8080;
    let config = args.into_config().ok().unwrap();
    assert_eq!(config.port, 8080);
    let m = config.matrix.as_ref().unwrap();
    assert_eq!(m.user, "@alerter:example.org");
    assert_eq!(m.password, "hunter2");
    assert_eq!(m.room_id, "!room:example.org");
    assert_eq!(config.room_id(), "!room:example.org");
    assert_eq!(config.chat_id(), 7);
}

#[test]
fn unused_receiver_options_are_ignored() {
    let mut args = matrix_args();
    args.tg_token = Some("ignored".to_string());
    let config = args.into_config().ok().unwrap();
    assert!(config.telegram.is_none());
    assert_eq!(config.chat_id(), 0);
}
