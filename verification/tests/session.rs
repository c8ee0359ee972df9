use oxi::config::Config;
use oxi::session::{Action, Event, Failure, Session, Stage};

fn config_for(texts: &[&str]) -> Config {
    let list: Vec<String> = texts.iter().map(|text| text.to_string()).collect();
    let mut out = String::new();
    Config::new(&list, &mut out).unwrap()
}

fn done() -> Event {
    Event::Completed(String::new())
}

#[test]
fn an_exchange_prints_the_trimmed_response() {
    let config = config_for(&["oxi", "-H", "127.0.0.1", "-P", "4422", "test"]);
    let (session, action) = Session::begin(&config);
    assert_eq!(action, Action::Connect("127.0.0.1:4422".to_string()));
    assert_eq!(session.stage(), Stage::Connecting);

    let (session, action) = session.step(done());
    assert_eq!(action, Action::Send("{\"command\": \"test\"}\n".to_string()));
    assert_eq!(session.stage(), Stage::Sending);

    let (session, action) = session.step(done());
    assert_eq!(action, Action::Flush);
    assert_eq!(session.stage(), Stage::Flushing);

    let (session, action) = session.step(done());
    assert_eq!(action, Action::Receive);
    assert_eq!(session.stage(), Stage::Receiving);

    let (session, action) = session.step(Event::Completed("OK\n".to_string()));
    assert_eq!(action, Action::Print("OK".to_string()));
    assert_eq!(session.stage(), Stage::Closed);

    let (session, action) = session.step(done());
    assert_eq!(action, Action::Stop);
    assert_eq!(session.stage(), Stage::Closed);
}

#[test]
fn the_address_joins_hostname_and_port() {
    assert_eq!(Session::address(&config_for(&["oxi", "test"])), "127.0.0.1:4422");
    assert_eq!(
        Session::address(&config_for(&["oxi", "-H", "example.org", "-P", "80", "test"])),
        "example.org:80"
    );
    assert_eq!(
        Session::address(&config_for(&["oxi", "-H", "::1", "-P", "x y", "test"])),
        "::1:x y"
    );
}

#[test]
fn the_request_is_the_line_of_the_command() {
    let config = config_for(&["oxi", "add", "40", "2"]);
    let (session, _) = Session::begin(&config);
    let (_, action) = session.step(done());
    assert_eq!(action, Action::Send("{\"command\": \"add\", \"a\": 40, \"b\": 2}\n".to_string()));

    let config = config_for(&["oxi", "echo", "hello", "world"]);
    let (session, _) = Session::begin(&config);
    let (_, action) = session.step(done());
    assert_eq!(
        action,
        Action::Send("{\"command\": \"echo\", \"echoed\": \"hello world\"}\n".to_string())
    );
}

#[test]
fn help_suppresses_the_connection() {
    for list in [
        vec!["oxi"],
        vec!["oxi", "--help"],
        vec!["oxi", "-h", "test"],
        vec!["oxi", "-?", "-H", "example.org", "health"],
        vec!["oxi", "-H", "127.0.0.1", "-P", "4422", "status"],
    ] {
        let config = config_for(&list);
        let (session, action) = Session::begin(&config);
        assert_eq!(action, Action::Stop);
        assert_eq!(session.stage(), Stage::Closed);
        let (session, action) = session.step(done());
        assert_eq!(action, Action::Stop);
        assert_eq!(session.stage(), Stage::Closed);
    }
}

#[test]
fn a_refused_connection_is_a_connect_failure() {
    let config = config_for(&["oxi", "-P", "1", "test"]);
    let (session, action) = Session::begin(&config);
    assert_eq!(action, Action::Connect("127.0.0.1:1".to_string()));
    let (session, action) = session.step(Event::Failed);
    assert_eq!(action, Action::Fail(Failure::Connect));
    assert_eq!(Failure::Connect.message(), "unable to connect to server");
    assert_eq!(session.stage(), Stage::Closed);
    let (_, action) = session.step(Event::Completed("late\n".to_string()));
    assert_eq!(action, Action::Stop);
}

#[test]
fn a_failed_write_is_a_send_failure() {
    let (session, _) = Session::begin(&config_for(&["oxi", "test"]));
    let (session, _) = session.step(done());
    let (session, action) = session.step(Event::Failed);
    assert_eq!(action, Action::Fail(Failure::Send));
    assert_eq!(session.stage(), Stage::Closed);
}

#[test]
fn a_failed_flush_is_a_flush_failure() {
    let (session, _) = Session::begin(&config_for(&["oxi", "test"]));
    let (session, _) = session.step(done());
    let (session, _) = session.step(done());
    let (session, action) = session.step(Event::Failed);
    assert_eq!(action, Action::Fail(Failure::Flush));
    assert_eq!(session.stage(), Stage::Closed);
}

#[test]
fn a_failed_read_is_a_receive_failure() {
    let (session, _) = Session::begin(&config_for(&["oxi", "test"]));
    let (session, _) = session.step(done());
    let (session, _) = session.step(done());
    let (session, _) = session.step(done());
    let (session, action) = session.step(Event::Failed);
    assert_eq!(action, Action::Fail(Failure::Receive));
    assert_eq!(session.stage(), Stage::Closed);
}

#[test]
fn each_failure_has_its_message() {
    assert_eq!(Failure::Connect.message(), "unable to connect to server");
    assert_eq!(Failure::Send.message(), "problem sending command");
    assert_eq!(Failure::Flush.message(), "problem flushing stream");
    assert_eq!(Failure::Receive.message(), "problem reading line from server");
}

#[test]
fn a_closed_connection_prints_an_empty_line() {
    let (session, _) = Session::open("h:1".to_string(), "request\n".to_string());
    let (session, _) = session.step(done());
    let (session, _) = session.step(done());
    let (session, _) = session.step(done());
    let (_, action) = session.step(Event::Completed(String::new()));
    assert_eq!(action, Action::Print(String::new()));
}

#[test]
fn the_response_is_trimmed_on_both_sides_only() {
    let (session, _) = Session::open("h:1".to_string(), "request\n".to_string());
    let (session, _) = session.step(done());
    let (session, _) = session.step(done());
    let (session, _) = session.step(done());
    let (_, action) = session.step(Event::Completed("  two  words \r\n".to_string()));
    assert_eq!(action, Action::Print("two  words".to_string()));
}

#[test]
fn open_asks_for_the_connection_and_keeps_the_request() {
    let (session, action) = Session::open("example.org:80".to_string(), "ping\n".to_string());
    assert_eq!(action, Action::Connect("example.org:80".to_string()));
    assert_eq!(session.stage(), Stage::Connecting);
    let (_, action) = session.step(Event::Completed("ignored".to_string()));
    assert_eq!(action, Action::Send("ping\n".to_string()));
}

#[test]
fn finished_is_closed_and_stops() {
    let (session, action) = Session::finished();
    assert_eq!(action, Action::Stop);
    assert_eq!(session.stage(), Stage::Closed);
}
