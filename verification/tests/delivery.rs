use alerter::{next_step, route, status_is, template_name, Channel, Event, Step, MAX_BODY_BYTES};

fn drive(channel: Channel, ready: bool, rendered: bool, built: bool, sent: bool) -> (u16, usize) {
    let mut event = Event::Received { ready };
    let mut steps = 0;
    loop {
        steps += 1;
        match next_step(channel, event) {
            Step::Render => event = Event::Rendered { ok: rendered },
            Step::BuildRequest => event = Event::RequestBuilt { ok: built },
            Step::Send => event = Event::Sent { ok: sent },
            Step::Reply(code) => return (code, steps),
        }
    }
}

#[test]
fn receiver_not_set_up_is_unavailable() {
    assert_eq!(drive(Channel::Telegram, false, true, true, true), (503, 1));
    assert_eq!(drive(Channel::Matrix, false, true, true, true), (503, 1));
}

#[test]
fn telegram_success() {
    assert_eq!(drive(Channel::Telegram, true, true, false, true), (200, 3));
}

#[test]
fn matrix_success() {
    assert_eq!(drive(Channel::Matrix, true, true, true, true), (200, 4));
}

#[test]
fn failures_are_internal_errors() {
    assert_eq!(drive(Channel::Telegram, true, false, true, true), (500, 2));
    assert_eq!(drive(Channel::Telegram, true, true, true, false), (500, 3));
    assert_eq!(drive(Channel::Matrix, true, true, false, true), (500, 3));
    assert_eq!(drive(Channel::Matrix, true, true, true, false), (500, 4));
}

#[test]
fn next_step_after_render() {
    assert_eq!(next_step(Channel::Matrix, Event::Rendered { ok: true }), Step::BuildRequest);
    assert_eq!(next_step(Channel::Telegram, Event::Rendered { ok: true }), Step::Send);
}

#[test]
fn routes() {
    assert_eq!(route("tg"), Some(Channel::Telegram));
    assert_eq!(route("matrix"), Some(Channel::Matrix));
    assert_eq!(route("t"), None);
    assert_eq!(route("matrixx"), None);
    assert_eq!(route(""), None);
}

#[test]
fn templates() {
    assert_eq!(template_name(Channel::Telegram), "default_tg");
    assert_eq!(template_name(Channel::Matrix), "default_matrix");
    assert_eq!(MAX_BODY_BYTES, 16 * 1024);
}

#[test]
fn status_comparison() {
    assert!(status_is("firing", "firing"));
    assert!(!status_is("resolved", "firing"));
    assert!(!status_is("firin", "firing"));
}
