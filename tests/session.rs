use cserver::list::List;
use cserver::session::{Action, Event, ServerState, Session};

/// Steps the session until it needs input or acts outside, returning the text
/// of every `Send` on the way and the first other action.
fn run_until_input(s: &mut Session, store: &mut List, sent: &mut Vec<String>) -> Option<Action> {
    for _ in 0..64 {
        if s.awaits_input() || s.is_finished() {
            return None;
        }
        match s.step(store, Event::Ready) {
            Action::Continue => {}
            Action::Send(t) => sent.push(t),
            other => return Some(other),
        }
    }
    panic!("session did not settle");
}

fn type_line(s: &mut Session, store: &mut List, line: &str, sent: &mut Vec<String>) -> Option<Action> {
    match s.step(store, Event::Received(String::from(line))) {
        Action::Continue => {}
        Action::Send(t) => sent.push(t),
        other => return Some(other),
    }
    run_until_input(s, store, sent)
}

fn logged_in(store: &mut List, user: &str, pass: &str) -> Session {
    let mut s = Session::new();
    let mut sent = Vec::new();
    assert!(run_until_input(&mut s, store, &mut sent).is_none());
    assert!(type_line(&mut s, store, user, &mut sent).is_none());
    assert!(type_line(&mut s, store, pass, &mut sent).is_none());
    assert_eq!(s.state(), ServerState::Connected);
    s
}

#[test]
fn register_new_user() {
    let mut store = List::new();
    let mut s = Session::new();
    let mut sent = Vec::new();
    assert!(run_until_input(&mut s, &mut store, &mut sent).is_none());
    assert_eq!(s.state(), ServerState::UserReceive);
    assert!(type_line(&mut s, &mut store, "alice\r\n", &mut sent).is_none());
    assert!(type_line(&mut s, &mut store, "y", &mut sent).is_none());
    assert!(type_line(&mut s, &mut store, "secret", &mut sent).is_none());
    let saved = type_line(&mut s, &mut store, "secret\n", &mut sent);
    match saved {
        Some(Action::Save(text)) => assert_eq!(text, "alice\tsecret\n"),
        _ => panic!("expected the store to be saved"),
    }
    assert!(run_until_input(&mut s, &mut store, &mut sent).is_none());
    assert_eq!(s.state(), ServerState::Connected);
    assert_eq!(s.user(), "alice");
    assert!(store.check("alice", "secret"));
    assert_eq!(
        sent,
        vec![
            "Username: ",
            "User not found - create new account? (y/n): ",
            "Enter new password: ",
            "Re-enter password : ",
            "Logged in",
        ]
    );
}

#[test]
fn known_user_wrong_password() {
    let mut store = List::new();
    store.add("alice", "secret");
    let mut s = Session::new();
    let mut sent = Vec::new();
    run_until_input(&mut s, &mut store, &mut sent);
    type_line(&mut s, &mut store, "alice", &mut sent);
    type_line(&mut s, &mut store, "wrong", &mut sent);
    assert_eq!(sent, vec!["Username: ", "Password: ", "Invalid password"]);
    assert!(s.is_finished());
    assert!(matches!(s.step(&mut store, Event::Ready), Action::Close));
}

#[test]
fn known_user_right_password() {
    let mut store = List::new();
    store.add("alice", "secret");
    let mut s = Session::new();
    let mut sent = Vec::new();
    run_until_input(&mut s, &mut store, &mut sent);
    type_line(&mut s, &mut store, "alice", &mut sent);
    type_line(&mut s, &mut store, "secret", &mut sent);
    assert_eq!(sent, vec!["Username: ", "Password: ", "Logged in"]);
    assert_eq!(s.state(), ServerState::Connected);
}

#[test]
fn registration_mismatched_passwords() {
    let mut store = List::new();
    let mut s = Session::new();
    let mut sent = Vec::new();
    run_until_input(&mut s, &mut store, &mut sent);
    type_line(&mut s, &mut store, "alice", &mut sent);
    type_line(&mut s, &mut store, "Y", &mut sent);
    type_line(&mut s, &mut store, "secret1", &mut sent);
    type_line(&mut s, &mut store, "secret2", &mut sent);
    assert_eq!(sent.last().map(|t| t.as_str()), Some("Invalid (passwords don't match)"));
    assert!(s.is_finished());
    assert!(store.get().is_none());
    assert!(!store.check_key("alice"));
}

#[test]
fn registration_declined() {
    let mut store = List::new();
    let mut s = Session::new();
    let mut sent = Vec::new();
    run_until_input(&mut s, &mut store, &mut sent);
    type_line(&mut s, &mut store, "alice", &mut sent);
    type_line(&mut s, &mut store, "n", &mut sent);
    assert_eq!(sent.last().map(|t| t.as_str()), Some("Invalid username"));
    assert!(s.is_finished());
}

#[test]
fn unusable_read_keeps_waiting() {
    let mut store = List::new();
    let mut s = Session::new();
    let mut sent = Vec::new();
    run_until_input(&mut s, &mut store, &mut sent);
    assert!(matches!(s.step(&mut store, Event::Nothing), Action::Continue));
    assert_eq!(s.state(), ServerState::UserReceive);
    assert!(matches!(s.step(&mut store, Event::Closed), Action::Close));
    assert!(s.is_finished());
}

#[test]
fn party_command_and_chat() {
    let mut store = List::new();
    store.add("alice", "secret");
    store.add("bob", "pw");
    let mut a = logged_in(&mut store, "alice", "secret");
    let mut b = logged_in(&mut store, "bob", "pw");
    let party = match a.step(&mut store, Event::Received(String::from("!party\r\n"))) {
        Action::Publish(m) => m,
        _ => panic!("expected a publish"),
    };
    assert_eq!(party, "*** alice is having a party! ***");
    for s in [&mut a, &mut b] {
        match s.step(&mut store, Event::Delivered(party.clone())) {
            Action::Send(t) => assert_eq!(t, party),
            _ => panic!("expected the delivery to be written"),
        }
    }
    match b.step(&mut store, Event::Received(String::from("hello all\n"))) {
        Action::Publish(m) => assert_eq!(m, "bob: hello all"),
        _ => panic!("expected a publish"),
    }
    assert!(matches!(b.step(&mut store, Event::Received(String::from("\r\n"))), Action::Continue));
    assert_eq!(b.state(), ServerState::Connected);
}

#[test]
fn exit_command_shuts_down() {
    let mut store = List::new();
    store.add("alice", "secret");
    let mut a = logged_in(&mut store, "alice", "secret");
    match a.step(&mut store, Event::Received(String::from("!exit"))) {
        Action::Shutdown(m) => assert_eq!(m, "*** server shutting down ***"),
        _ => panic!("expected a shutdown"),
    }
    assert!(a.is_finished());
}

#[test]
fn racing_registrations() {
    let mut store = List::new();
    let mut a = Session::new();
    let mut b = Session::new();
    let mut sa = Vec::new();
    let mut sb = Vec::new();
    for (s, sent, pw) in [(&mut a, &mut sa, "first"), (&mut b, &mut sb, "second")] {
        run_until_input(s, &mut store, sent);
        type_line(s, &mut store, "carol", sent);
        type_line(s, &mut store, "y", sent);
        type_line(s, &mut store, pw, sent);
        assert!(matches!(s.step(&mut store, Event::Received(String::from(pw))), Action::Continue));
        assert!(matches!(s.step(&mut store, Event::Ready), Action::Continue));
        assert_eq!(s.state(), ServerState::NewUserAdd);
    }
    assert!(matches!(a.step(&mut store, Event::Ready), Action::Save(_)));
    match b.step(&mut store, Event::Ready) {
        Action::Send(t) => assert_eq!(t, "Invalid username"),
        _ => panic!("expected a refusal"),
    }
    assert!(b.is_finished());
    assert!(store.check("carol", "first"));
    assert!(!store.check("carol", "second"));
}
