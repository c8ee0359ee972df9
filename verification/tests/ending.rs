use oxi::config::Config;
use oxi::ending::Ending;
use oxi::session::{Action, Event, Failure, Session};

#[test]
fn success_exits_with_zero_and_says_nothing() {
    assert_eq!(Ending::Success.status(), 0);
    assert_eq!(Ending::Success.complaint(), None);
}

#[test]
fn rejected_arguments_exit_with_one() {
    let ending = Ending::Rejected("argument ended prematurely");
    assert_eq!(ending.status(), 1);
    assert_eq!(
        ending.complaint(),
        Some("Bad argument listing: argument ended prematurely".to_string())
    );
}

#[test]
fn every_failure_exits_with_one_and_names_itself() {
    let expected = [
        (Failure::Connect, "Something bad happaned: unable to connect to server"),
        (Failure::Send, "Something bad happaned: problem sending command"),
        (Failure::Flush, "Something bad happaned: problem flushing stream"),
        (Failure::Receive, "Something bad happaned: problem reading line from server"),
    ];
    for (failure, line) in expected {
        let ending = Ending::Failed(failure);
        assert_eq!(ending.status(), 1);
        assert_eq!(ending.complaint(), Some(line.to_string()));
    }
}

#[test]
fn a_closed_port_ends_with_one_and_prints_nothing() {
    let list: Vec<String> =
        ["oxi", "-H", "127.0.0.1", "-P", "1", "test"].iter().map(|text| text.to_string()).collect();
    let mut out = String::new();
    let config = Config::new(&list, &mut out).unwrap();
    assert_eq!(out, "");
    let (session, action) = Session::begin(&config);
    assert_eq!(action, Action::Connect("127.0.0.1:1".to_string()));
    let (_, action) = session.step(Event::Failed);
    let ending = match action {
        Action::Fail(failure) => Ending::Failed(failure),
        other => panic!("a failed connection asked for {:?}", other),
    };
    assert_eq!(ending.status(), 1);
    assert_eq!(
        ending.complaint(),
        Some("Something bad happaned: unable to connect to server".to_string())
    );
}

#[test]
fn a_missing_value_ends_with_one() {
    let list: Vec<String> = ["oxi", "test", "--port"].iter().map(|text| text.to_string()).collect();
    let mut out = String::new();
    let ending = match Config::new(&list, &mut out) {
        Ok(_) => Ending::Success,
        Err(message) => Ending::Rejected(message),
    };
    assert_eq!(ending.status(), 1);
    assert_eq!(
        ending.complaint(),
        Some("Bad argument listing: argument ended prematurely".to_string())
    );
    assert_eq!(out, "");
}
