use vps_monitor::delivery::{outcome_of, send_alert, Delivery, Outcome, Reply, SendAction, SendError, SendEvent};
use vps_monitor::http::{security_headers, HttpStatus};
use vps_monitor::notify::{AlertPayload, NotifySettings};
use vps_monitor::quantity::Quantity;

fn alert() -> AlertPayload {
    AlertPayload {
        title: "CPU 告警".to_string(),
        message: "a_b *c*".to_string(),
        server_id: "a".to_string(),
        server_name: "a_b".to_string(),
        alert_type: "cpu".to_string(),
        level: "warning".to_string(),
        value: Quantity::ninety(),
        limit: Quantity::ninety(),
        timestamp: "t".to_string(),
    }
}

fn settings(telegram: bool, webhook: bool) -> NotifySettings {
    let mut s = NotifySettings::default();
    s.telegram_enabled = telegram;
    s.telegram_bot_token = "SECRET-REDACTED".to_string();
    s.telegram_chat_id = "42".to_string();
    s.webhook_enabled = webhook;
    s.webhook_url = "https://abc.com/alert".to_string();
    s
}

fn status(code: u16) -> Reply {
    Reply::Status(HttpStatus::new(code).unwrap())
}

fn run(s: &NotifySettings, telegram: Reply, webhook: Reply) -> (Vec<&'static str>, Result<(), SendError>) {
    let alert = alert();
    let mut d = Delivery::new();
    let mut calls: Vec<&'static str> = Vec::new();
    let mut event = SendEvent::Begin;
    loop {
        match send_alert(&mut d, s, &alert, event) {
            SendAction::PostTelegram(_) => {
                calls.push("telegram");
                event = SendEvent::Telegram(outcome_of(telegram));
            }
            SendAction::PostWebhook(_) => {
                calls.push("webhook");
                event = SendEvent::Webhook(outcome_of(webhook));
            }
            SendAction::Done(end) => return (calls, end),
        }
    }
}

#[test]
fn telegram_request_is_plain_text() {
    let mut d = Delivery::new();
    match send_alert(&mut d, &settings(true, false), &alert(), SendEvent::Begin) {
        SendAction::PostTelegram(r) => {
            assert_eq!(r.url, "https://api.telegram.org/botSECRET-REDACTED/sendMessage");
            assert_eq!(r.chat_id, "42");
            assert_eq!(r.text, "CPU 告警\na_b *c*");
        }
        other => panic!("{:?}", other),
    }
}

#[test]
fn webhook_address_is_that_of_the_settings() {
    let mut d = Delivery::new();
    match send_alert(&mut d, &settings(false, true), &alert(), SendEvent::Begin) {
        SendAction::PostWebhook(url) => assert_eq!(url, "https://abc.com/alert"),
        other => panic!("{:?}", other),
    }
}

#[test]
fn nothing_enabled_is_an_error() {
    let (calls, end) = run(&settings(false, false), status(200), status(200));
    assert!(calls.is_empty());
    let error = end.unwrap_err();
    assert!(matches!(error, SendError::NoChannel));
    assert_eq!(error.message(), "沒有任何通知管道啟用");
}

#[test]
fn channels_without_setup_are_off() {
    let mut s = settings(true, true);
    s.telegram_bot_token = String::new();
    s.webhook_url = String::new();
    assert!(run(&s, status(200), status(200)).1.is_err());
    let mut s = settings(true, false);
    s.telegram_chat_id = String::new();
    assert!(run(&s, status(200), status(200)).1.is_err());
}

#[test]
fn both_channels_are_called_in_order() {
    let (calls, end) = run(&settings(true, true), status(200), status(204));
    assert_eq!(calls, vec!["telegram", "webhook"]);
    assert!(end.is_ok());
}

#[test]
fn failures_are_reported_together() {
    let (calls, end) = run(&settings(true, true), status(404), Reply::NoAnswer);
    assert_eq!(calls, vec!["telegram", "webhook"]);
    assert_eq!(
        end.unwrap_err().message(),
        "Telegram HTTP 404 Not Found; Webhook request failed"
    );
    let (_, end) = run(&settings(true, true), Reply::NoAnswer, status(200));
    assert_eq!(end.unwrap_err().message(), "Telegram request failed");
    let (_, end) = run(&settings(false, true), Reply::NoAnswer, status(500));
    assert_eq!(end.unwrap_err().message(), "Webhook HTTP 500 Internal Server Error");
}

#[test]
fn outcomes_of_replies() {
    assert!(matches!(outcome_of(status(200)), Outcome::Delivered));
    assert!(matches!(outcome_of(status(299)), Outcome::Delivered));
    assert!(matches!(outcome_of(Reply::NoAnswer), Outcome::Unanswered));
    match outcome_of(status(301)) {
        Outcome::Refused(text) => assert_eq!(text, "301 Moved Permanently"),
        other => panic!("{:?}", other),
    }
}

#[test]
fn statuses_have_three_digits() {
    assert!(HttpStatus::new(99).is_none());
    assert!(HttpStatus::new(1000).is_none());
    assert_eq!(HttpStatus::new(999).unwrap().text(), "999 <unknown status code>");
    assert_eq!(HttpStatus::new(100).unwrap().text(), "100 Continue");
    for code in 100..=999u16 {
        let ours = HttpStatus::new(code).unwrap();
        let theirs = reqwest::StatusCode::from_u16(code).unwrap();
        assert_eq!(ours.is_success(), theirs.is_success());
        assert_eq!(ours.text(), format!("{}", theirs));
    }
}

#[test]
fn headers_of_every_answer() {
    let h = security_headers();
    assert_eq!(h.len(), 3);
    assert_eq!(h[0], ("x-content-type-options", "nosniff"));
    assert_eq!(h[1], ("x-frame-options", "DENY"));
    assert_eq!(h[2].0, "content-security-policy");
    assert!(h[2].1.starts_with("default-src 'self'; script-src 'self' "));
    assert!(h[2].1.ends_with("img-src 'self' data:; connect-src 'self'"));
}
