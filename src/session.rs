use vstd::prelude::*;
use crate::command::{CommandType, command, command_of};
use crate::list::{List, Record, has_user, verify_spec, lemma_add_then_verify};
use crate::persist::{get_user_list_as_string, serialize_spec};
use crate::text::{clean_input, input_text};

verus! {

pub const PROMPT_USERNAME: &'static str = "Username: ";
pub const PROMPT_PASSWORD: &'static str = "Password: ";
pub const PROMPT_NEW_USER: &'static str = "User not found - create new account? (y/n): ";
pub const PROMPT_NEW_PASSWORD: &'static str = "Enter new password: ";
pub const PROMPT_REPEAT_PASSWORD: &'static str = "Re-enter password : ";
pub const MESSAGE_LOGGED_IN: &'static str = "Logged in";
pub const MESSAGE_INVALID_PASSWORD: &'static str = "Invalid password";
pub const MESSAGE_INVALID_USERNAME: &'static str = "Invalid username";
pub const MESSAGE_PASSWORDS_DIFFER: &'static str = "Invalid (passwords don't match)";
pub const SHUTDOWN_NOTICE: &'static str = "*** server shutting down ***";
pub const PARTY_OPEN: &'static str = "*** ";
pub const PARTY_CLOSE: &'static str = " is having a party! ***";
pub const CHAT_SEPARATOR: &'static str = ": ";
pub const ANSWER_YES: &'static str = "y";
pub const ANSWER_YES_UPPER: &'static str = "Y";

/// The protocol states of one connection.
#[derive(Clone, Copy, PartialEq, Eq, Structural, Debug)]
pub enum ServerState {
    UserPrompt,
    UserReceive,
    UserCheck,
    PasswordPrompt,
    PasswordReceive,
    PasswordCheck,
    MessageLogIn,
    MessageInvalidPassword,
    NewUserPrompt,
    NewUserReceive,
    NewPassword1Prompt,
    NewPassword1Receive,
    NewPassword2Prompt,
    NewPassword2Receive,
    NewPasswordCheck,
    NewUserAdd,
    NewUserMessage,
    Connected,
    Disconnect,
}

/// What happened since the last step.
pub enum Event {
    /// Nothing to report: the state needs no input.
    Ready,
    /// One read from the client socket, as raw text.
    Received(String),
    /// A read that gave no usable text.
    Nothing,
    /// A message delivered by the broadcast hub.
    Delivered(String),
    /// The socket failed or was closed by the peer.
    Closed,
}

/// What the connection must do next.
pub enum Action {
    /// Nothing to do outside; step again.
    Continue,
    /// Write this text to the client.
    Send(String),
    /// Publish this text to every connection through the hub.
    Publish(String),
    /// Overwrite the credential file with this text, then step again.
    Save(String),
    /// Publish this text, then terminate the whole service.
    Shutdown(String),
    /// Close the connection and release the session.
    Close,
}

pub enum EventView {
    Ready,
    Received(Seq<char>),
    Nothing,
    Delivered(Seq<char>),
    Closed,
}

pub enum ActionView {
    Continue,
    Send(Seq<char>),
    Publish(Seq<char>),
    Save(Seq<char>),
    Shutdown(Seq<char>),
    Close,
}

pub struct SessionView {
    pub state: ServerState,
    pub user: Seq<char>,
    pub password: Seq<char>,
    pub password1: Seq<char>,
    pub password2: Seq<char>,
}

impl View for Event {
    type V = EventView;

    open spec fn view(&self) -> EventView {
        match self {
            Event::Ready => EventView::Ready,
            Event::Received(s) => EventView::Received(s@),
            Event::Nothing => EventView::Nothing,
            Event::Delivered(s) => EventView::Delivered(s@),
            Event::Closed => EventView::Closed,
        }
    }
}

impl View for Action {
    type V = ActionView;

    open spec fn view(&self) -> ActionView {
        match self {
            Action::Continue => ActionView::Continue,
            Action::Send(s) => ActionView::Send(s@),
            Action::Publish(s) => ActionView::Publish(s@),
            Action::Save(s) => ActionView::Save(s@),
            Action::Shutdown(s) => ActionView::Shutdown(s@),
            Action::Close => ActionView::Close,
        }
    }
}

/// The announcement that `user` is having a party.
pub open spec fn party_text(user: Seq<char>) -> Seq<char> {
    PARTY_OPEN@ + user + PARTY_CLOSE@
}

/// A chat line as it is broadcast: `{user}: {text}`.
pub open spec fn chat_text(user: Seq<char>, text: Seq<char>) -> Seq<char> {
    user + CHAT_SEPARATOR@ + text
}

pub open spec fn with_state(s: SessionView, st: ServerState) -> SessionView {
    SessionView { state: st, ..s }
}

/// The states that wait for a read from the client.
pub open spec fn awaits_spec(st: ServerState) -> bool {
    st == ServerState::UserReceive || st == ServerState::PasswordReceive || st
        == ServerState::NewUserReceive || st == ServerState::NewPassword1Receive || st
        == ServerState::NewPassword2Receive || st == ServerState::Connected
}

/// What a logged-in connection does with one event.
pub open spec fn connected_next(s: SessionView, store: Seq<Record>, ev: EventView) -> (
    SessionView,
    Seq<Record>,
    ActionView,
) {
    match ev {
        EventView::Received(raw) => {
            let t = input_text(raw);
            if t.len() == 0 {
                (s, store, ActionView::Continue)
            } else {
                match command_of(t) {
                    CommandType::Party => (s, store, ActionView::Publish(party_text(s.user))),
                    CommandType::Exit => (
                        with_state(s, ServerState::Disconnect),
                        store,
                        ActionView::Shutdown(SHUTDOWN_NOTICE@),
                    ),
                    CommandType::Chat => (s, store, ActionView::Publish(chat_text(s.user, t))),
                }
            }
        },
        EventView::Delivered(m) => (s, store, ActionView::Send(m)),
        _ => (s, store, ActionView::Continue),
    }
}

/// One step of the protocol: the session and the store after it, and the
/// action for the connection to perform. A closed socket ends the session in
/// any state; a read state without a usable read stays where it is.
pub open spec fn next(s: SessionView, store: Seq<Record>, ev: EventView) -> (
    SessionView,
    Seq<Record>,
    ActionView,
) {
    if ev is Closed {
        (with_state(s, ServerState::Disconnect), store, ActionView::Close)
    } else {
        match s.state {
            ServerState::UserPrompt => (
                with_state(s, ServerState::UserReceive),
                store,
                ActionView::Send(PROMPT_USERNAME@),
            ),
            ServerState::UserReceive => match ev {
                EventView::Received(raw) => (
                    SessionView { state: ServerState::UserCheck, user: input_text(raw), ..s },
                    store,
                    ActionView::Continue,
                ),
                _ => (s, store, ActionView::Continue),
            },
            ServerState::UserCheck => (
                with_state(
                    s,
                    if has_user(store, s.user) {
                        ServerState::PasswordPrompt
                    } else {
                        ServerState::NewUserPrompt
                    },
                ),
                store,
                ActionView::Continue,
            ),
            ServerState::PasswordPrompt => (
                with_state(s, ServerState::PasswordReceive),
                store,
                ActionView::Send(PROMPT_PASSWORD@),
            ),
            ServerState::PasswordReceive => match ev {
                EventView::Received(raw) => (
                    SessionView {
                        state: ServerState::PasswordCheck,
                        password: input_text(raw),
                        ..s
                    },
                    store,
                    ActionView::Continue,
                ),
                _ => (s, store, ActionView::Continue),
            },
            ServerState::PasswordCheck => (
                with_state(
                    s,
                    if verify_spec(store, s.user, s.password) {
                        ServerState::MessageLogIn
                    } else {
                        ServerState::MessageInvalidPassword
                    },
                ),
                store,
                ActionView::Continue,
            ),
            ServerState::MessageLogIn => (
                with_state(s, ServerState::Connected),
                store,
                ActionView::Send(MESSAGE_LOGGED_IN@),
            ),
            ServerState::MessageInvalidPassword => (
                with_state(s, ServerState::Disconnect),
                store,
                ActionView::Send(MESSAGE_INVALID_PASSWORD@),
            ),
            ServerState::NewUserPrompt => (
                with_state(s, ServerState::NewUserReceive),
                store,
                ActionView::Send(PROMPT_NEW_USER@),
            ),
            ServerState::NewUserReceive => match ev {
                EventView::Received(raw) => {
                    let t = input_text(raw);
                    if t == ANSWER_YES@ || t == ANSWER_YES_UPPER@ {
                        (with_state(s, ServerState::NewPassword1Prompt), store, ActionView::Continue)
                    } else {
                        (
                            with_state(s, ServerState::Disconnect),
                            store,
                            ActionView::Send(MESSAGE_INVALID_USERNAME@),
                        )
                    }
                },
                _ => (s, store, ActionView::Continue),
            },
            ServerState::NewPassword1Prompt => (
                with_state(s, ServerState::NewPassword1Receive),
                store,
                ActionView::Send(PROMPT_NEW_PASSWORD@),
            ),
            ServerState::NewPassword1Receive => match ev {
                EventView::Received(raw) => (
                    SessionView {
                        state: ServerState::NewPassword2Prompt,
                        password1: input_text(raw),
                        ..s
                    },
                    store,
                    ActionView::Continue,
                ),
                _ => (s, store, ActionView::Continue),
            },
            ServerState::NewPassword2Prompt => (
                with_state(s, ServerState::NewPassword2Receive),
                store,
                ActionView::Send(PROMPT_REPEAT_PASSWORD@),
            ),
            ServerState::NewPassword2Receive => match ev {
                EventView::Received(raw) => (
                    SessionView {
                        state: ServerState::NewPasswordCheck,
                        password2: input_text(raw),
                        ..s
                    },
                    store,
                    ActionView::Continue,
                ),
                _ => (s, store, ActionView::Continue),
            },
            ServerState::NewPasswordCheck => if s.password1 == s.password2 {
                (with_state(s, ServerState::NewUserAdd), store, ActionView::Continue)
            } else {
                (
                    with_state(s, ServerState::Disconnect),
                    store,
                    ActionView::Send(MESSAGE_PASSWORDS_DIFFER@),
                )
            },
            ServerState::NewUserAdd => if has_user(store, s.user) {
                (
                    with_state(s, ServerState::Disconnect),
                    store,
                    ActionView::Send(MESSAGE_INVALID_USERNAME@),
                )
            } else {
                let added = store.push((s.user, s.password1));
                (
                    with_state(s, ServerState::NewUserMessage),
                    added,
                    ActionView::Save(serialize_spec(added)),
                )
            },
            ServerState::NewUserMessage => (
                with_state(s, ServerState::Connected),
                store,
                ActionView::Send(MESSAGE_LOGGED_IN@),
            ),
            ServerState::Connected => connected_next(s, store, ev),
            ServerState::Disconnect => (s, store, ActionView::Close),
        }
    }
}

/// A chat line that a logged-in connection publishes comes back, verbatim,
/// to every logged-in connection that the hub delivers it to, the publisher
/// included.
pub proof fn lemma_broadcast_echo(
    a: SessionView,
    b: SessionView,
    store: Seq<Record>,
    raw: Seq<char>,
)
    requires
        a.state == ServerState::Connected,
        b.state == ServerState::Connected,
        input_text(raw).len() > 0,
        command_of(input_text(raw)) == CommandType::Chat,
    ensures
        ({
            let (a1, store1, act) = next(a, store, EventView::Received(raw));
            let m = chat_text(a.user, input_text(raw));
            &&& act == ActionView::Publish(m)
            &&& a1 == a
            &&& store1 == store
            &&& next(a1, store1, EventView::Delivered(m)) == (a, store, ActionView::Send(m))
            &&& next(b, store1, EventView::Delivered(m)) == (b, store, ActionView::Send(m))
        }),
{
}

/// Two connections that race to register the same new username: whichever
/// takes the store first registers it and is logged in; the other finds the
/// name taken, is refused and closed, and the first password stays.
pub proof fn lemma_racing_registrations(a: SessionView, b: SessionView, store: Seq<Record>)
    requires
        a.state == ServerState::NewUserAdd,
        b.state == ServerState::NewUserAdd,
        a.user == b.user,
        !has_user(store, a.user),
    ensures
        ({
            let (a1, store1, act_a) = next(a, store, EventView::Ready);
            let (b1, store2, act_b) = next(b, store1, EventView::Ready);
            &&& a1.state == ServerState::NewUserMessage
            &&& act_a == ActionView::Save(serialize_spec(store1))
            &&& verify_spec(store1, a.user, a.password1)
            &&& b1.state == ServerState::Disconnect
            &&& act_b == ActionView::Send(MESSAGE_INVALID_USERNAME@)
            &&& store2 == store1
        }),
{
    lemma_add_then_verify(store, a.user, a.password1, b.password1);
}

/// Builds the party announcement for `user`.
pub fn party_line(user: &String) -> (r: String)
    ensures
        r@ == party_text(user@),
{
    let mut r = String::from_str(PARTY_OPEN);
    r.append(user.as_str());
    r.append(PARTY_CLOSE);
    r
}

/// Builds the broadcast form of a chat line.
pub fn chat_line(user: &String, text: &String) -> (r: String)
    ensures
        r@ == chat_text(user@, text@),
{
    let mut r = String::from_str(user.as_str());
    r.append(CHAT_SEPARATOR);
    r.append(text.as_str());
    r
}

/// The per-connection state of the protocol and the credentials typed so far.
pub struct Session {
    state: ServerState,
    user: String,
    password: String,
    password1: String,
    password2: String,
}

impl View for Session {
    type V = SessionView;

    closed spec fn view(&self) -> SessionView {
        SessionView {
            state: self.state,
            user: self.user@,
            password: self.password@,
            password1: self.password1@,
            password2: self.password2@,
        }
    }
}

impl Session {
    /// A fresh session, about to ask for a username.
    pub fn new() -> (r: Self)
        ensures
            r@.state == ServerState::UserPrompt,
            r@.user.len() == 0,
            r@.password.len() == 0,
            r@.password1.len() == 0,
            r@.password2.len() == 0,
    {
        Session {
            state: ServerState::UserPrompt,
            user: String::new(),
            password: String::new(),
            password1: String::new(),
            password2: String::new(),
        }
    }

    /// The current protocol state.
    pub fn state(&self) -> (r: ServerState)
        ensures
            r == self@.state,
    {
        self.state
    }

    /// The username given on this connection.
    pub fn user(&self) -> (r: &String)
        ensures
            r@ == self@.user,
    {
        &self.user
    }

    /// True iff the next step waits for a read from the client (or, once
    /// logged in, for a read or a hub delivery).
    pub fn awaits_input(&self) -> (r: bool)
        ensures
            r == awaits_spec(self@.state),
    {
        match self.state {
            ServerState::UserReceive | ServerState::PasswordReceive | ServerState::NewUserReceive
            | ServerState::NewPassword1Receive | ServerState::NewPassword2Receive
            | ServerState::Connected => true,
            _ => false,
        }
    }

    /// True iff the session has ended.
    pub fn is_finished(&self) -> (r: bool)
        ensures
            r == (self@.state == ServerState::Disconnect),
    {
        self.state == ServerState::Disconnect
    }

    fn connected_step(&mut self, event: Event) -> (r: Action)
        requires
            old(self)@.state == ServerState::Connected,
        ensures
            forall|store: Seq<Record>|
                (#[trigger] connected_next(old(self)@, store, event@)) == (
                    final(self)@,
                    store,
                    r@,
                ),
    {
        match event {
            Event::Received(raw) => {
                let t = clean_input(&raw);
                if t.as_str().unicode_len() == 0 {
                    Action::Continue
                } else {
                    match command(t.as_str()) {
                        CommandType::Party => Action::Publish(party_line(&self.user)),
                        CommandType::Exit => {
                            self.state = ServerState::Disconnect;
                            Action::Shutdown(String::from_str(SHUTDOWN_NOTICE))
                        },
                        CommandType::Chat => Action::Publish(chat_line(&self.user, &t)),
                    }
                }
            },
            Event::Delivered(m) => Action::Send(m),
            _ => Action::Continue,
        }
    }

    /// Advances the protocol by one step. The store is read to log in and
    /// written to register; the caller holds it exclusively for the step, so
    /// a check and the insertion that follows it are one critical section.
    pub fn step(&mut self, store: &mut List, event: Event) -> (r: Action)
        requires
            old(store).wf(),
        ensures
            next(old(self)@, old(store)@, event@) == (final(self)@, final(store)@, r@),
            final(store).wf(),
    {
        if let Event::Closed = event {
            self.state = ServerState::Disconnect;
            return Action::Close;
        }
        match self.state {
            ServerState::UserPrompt => {
                self.state = ServerState::UserReceive;
                Action::Send(String::from_str(PROMPT_USERNAME))
            },
            ServerState::UserReceive => {
                if let Event::Received(raw) = event {
                    self.user = clean_input(&raw);
                    self.state = ServerState::UserCheck;
                }
                Action::Continue
            },
            ServerState::UserCheck => {
                if store.check_key(self.user.as_str()) {
                    self.state = ServerState::PasswordPrompt;
                } else {
                    self.state = ServerState::NewUserPrompt;
                }
                Action::Continue
            },
            ServerState::PasswordPrompt => {
                self.state = ServerState::PasswordReceive;
                Action::Send(String::from_str(PROMPT_PASSWORD))
            },
            ServerState::PasswordReceive => {
                if let Event::Received(raw) = event {
                    self.password = clean_input(&raw);
                    self.state = ServerState::PasswordCheck;
                }
                Action::Continue
            },
            ServerState::PasswordCheck => {
                if store.check(self.user.as_str(), self.password.as_str()) {
                    self.state = ServerState::MessageLogIn;
                } else {
                    self.state = ServerState::MessageInvalidPassword;
                }
                Action::Continue
            },
            ServerState::MessageLogIn => {
                self.state = ServerState::Connected;
                Action::Send(String::from_str(MESSAGE_LOGGED_IN))
            },
            ServerState::MessageInvalidPassword => {
                self.state = ServerState::Disconnect;
                Action::Send(String::from_str(MESSAGE_INVALID_PASSWORD))
            },
            ServerState::NewUserPrompt => {
                self.state = ServerState::NewUserReceive;
                Action::Send(String::from_str(PROMPT_NEW_USER))
            },
            ServerState::NewUserReceive => {
                if let Event::Received(raw) = event {
                    let t = clean_input(&raw);
                    let yes = String::from_str(ANSWER_YES);
                    let yes_upper = String::from_str(ANSWER_YES_UPPER);
                    if t == yes || t == yes_upper {
                        self.state = ServerState::NewPassword1Prompt;
                        Action::Continue
                    } else {
                        self.state = ServerState::Disconnect;
                        Action::Send(String::from_str(MESSAGE_INVALID_USERNAME))
                    }
                } else {
                    Action::Continue
                }
            },
            ServerState::NewPassword1Prompt => {
                self.state = ServerState::NewPassword1Receive;
                Action::Send(String::from_str(PROMPT_NEW_PASSWORD))
            },
            ServerState::NewPassword1Receive => {
                if let Event::Received(raw) = event {
                    self.password1 = clean_input(&raw);
                    self.state = ServerState::NewPassword2Prompt;
                }
                Action::Continue
            },
            ServerState::NewPassword2Prompt => {
                self.state = ServerState::NewPassword2Receive;
                Action::Send(String::from_str(PROMPT_REPEAT_PASSWORD))
            },
            ServerState::NewPassword2Receive => {
                if let Event::Received(raw) = event {
                    self.password2 = clean_input(&raw);
                    self.state = ServerState::NewPasswordCheck;
                }
                Action::Continue
            },
            ServerState::NewPasswordCheck => {
                if self.password1 == self.password2 {
                    self.state = ServerState::NewUserAdd;
                    Action::Continue
                } else {
                    self.state = ServerState::Disconnect;
                    Action::Send(String::from_str(MESSAGE_PASSWORDS_DIFFER))
                }
            },
            ServerState::NewUserAdd => {
                if store.add(self.user.as_str(), self.password1.as_str()) {
                    self.state = ServerState::NewUserMessage;
                    Action::Save(get_user_list_as_string(store))
                } else {
                    self.state = ServerState::Disconnect;
                    Action::Send(String::from_str(MESSAGE_INVALID_USERNAME))
                }
            },
            ServerState::NewUserMessage => {
                self.state = ServerState::Connected;
                Action::Send(String::from_str(MESSAGE_LOGGED_IN))
            },
            ServerState::Connected => self.connected_step(event),
            ServerState::Disconnect => Action::Close,
        }
    }
}

} // verus!
