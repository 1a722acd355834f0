//! What the server's terminal interface shows and how it reacts.

use crate::models::ClientId;
use crate::tui::{Event, KeyCode, TermMsg};
use std::collections::VecDeque;
use vstd::multiset::Multiset;
use vstd::prelude::*;
use vstd::string::{StrSliceExecFns, StringExecFns};
use vstd::utf8::is_ascii_chars;

verus! {

/// How many log lines are kept.
pub const LOG_SCROLLBACK: usize = 1000;

/// The state of the interface: the log, the clients that wait for an answer, and which of them is
/// selected.
pub struct ServerTui<R> {
    logs: VecDeque<String>,
    clients: VecDeque<(ClientId, R)>,
    selected: Option<usize>,
    name: String,
    file_name: String,
}

/// What a [`ServerTui`] shows, and the names of the server and of what is served.
#[verifier::reject_recursive_types(R)]
pub ghost struct TuiView<R> {
    pub logs: Seq<Seq<char>>,
    pub clients: Seq<(ClientId, R)>,
    pub selected: Option<usize>,
    pub name: Seq<char>,
    pub file_name: Seq<char>,
}

/// What is to be done about a message, once the state is up to date.
pub enum Action<R> {
    /// Nothing but to draw.
    Draw,
    /// The client is approved or denied: tell it so, then draw.
    Answer { client: ClientId, reply: R, approved: bool },
    /// The program is to shut down.
    Quit,
}

/// What a message means to the interface.
#[verifier::reject_recursive_types(R)]
pub ghost enum Meaning<R> {
    Log(Seq<char>),
    Request(ClientId, R),
    Approve,
    Deny,
    Up,
    Down,
    Quit,
    Nothing,
}

/// Enter approves and `n` denies, `k` and `j` select, and control-c, escape and `q` quit.
pub open spec fn meaning<R>(msg: TermMsg<R>) -> Meaning<R> {
    match msg {
        TermMsg::Log(s) => Meaning::Log(s@),
        TermMsg::ClientRequest(client, reply) => Meaning::Request(client, reply),
        TermMsg::Input(Event::Key { code, control }) => match code {
            KeyCode::Enter => Meaning::Approve,
            KeyCode::Esc => Meaning::Quit,
            KeyCode::Char(c) => if c == 'n' {
                Meaning::Deny
            } else if c == 'k' {
                Meaning::Up
            } else if c == 'j' {
                Meaning::Down
            } else if c == 'q' || (c == 'c' && control) {
                Meaning::Quit
            } else {
                Meaning::Nothing
            },
            KeyCode::Other => Meaning::Nothing,
        },
        TermMsg::Input(Event::Other) => Meaning::Nothing,
    }
}

/// The log with one more line; the oldest goes when there are too many.
pub open spec fn logged(logs: Seq<Seq<char>>, line: Seq<char>) -> Seq<Seq<char>> {
    let more = logs.push(line);
    if more.len() > LOG_SCROLLBACK {
        more.drop_first()
    } else {
        more
    }
}

/// The selection after a step up: it stops at the top, and the first step selects the first client.
pub open spec fn above(selected: Option<usize>) -> Option<usize> {
    match selected {
        Some(x) if x > 0 => Some((x - 1) as usize),
        _ => Some(0),
    }
}

/// The selection after a step down among `len` clients: it stops at the last, and the first step
/// selects the first client.
pub open spec fn below(selected: Option<usize>, len: nat) -> Option<usize> {
    match selected {
        Some(x) if x + 1 < len => Some((x + 1) as usize),
        Some(_) if len > 0 => Some((len - 1) as usize),
        _ => Some(0),
    }
}

/// The client that an answer goes to, if one is selected.
pub open spec fn answered<R>(state: TuiView<R>) -> Option<(ClientId, R)> {
    match state.selected {
        Some(i) if i < state.clients.len() => Some(state.clients[i as int]),
        _ => None,
    }
}

/// The state after a message.
pub open spec fn after<R>(state: TuiView<R>, msg: TermMsg<R>) -> TuiView<R> {
    match meaning(msg) {
        Meaning::Log(line) => TuiView { logs: logged(state.logs, line), ..state },
        Meaning::Request(client, reply) => TuiView {
            clients: state.clients.push((client, reply)),
            ..state
        },
        Meaning::Approve | Meaning::Deny => match answered(state) {
            Some(_) => TuiView {
                clients: state.clients.remove(state.selected->0 as int),
                ..state
            },
            None => state,
        },
        Meaning::Up => TuiView { selected: above(state.selected), ..state },
        Meaning::Down => TuiView {
            selected: below(state.selected, state.clients.len()),
            ..state
        },
        Meaning::Quit | Meaning::Nothing => state,
    }
}

/// What is done about a message.
pub open spec fn action<R>(state: TuiView<R>, msg: TermMsg<R>) -> Action<R> {
    match (meaning(msg), answered(state)) {
        (Meaning::Approve, Some((client, reply))) => Action::Answer {
            client,
            reply,
            approved: true,
        },
        (Meaning::Deny, Some((client, reply))) => Action::Answer { client, reply, approved: false },
        (Meaning::Quit, _) => Action::Quit,
        _ => Action::Draw,
    }
}

impl<R> View for ServerTui<R> {
    type V = TuiView<R>;

    closed spec fn view(&self) -> TuiView<R> {
        TuiView {
            logs: self.logs@.map_values(|s: String| s@),
            clients: self.clients@,
            selected: self.selected,
            name: self.name@,
            file_name: self.file_name@,
        }
    }
}

/// The title of the log.
pub open spec fn title_text(name: Seq<char>, file_name: Seq<char>) -> Seq<char> {
    " Server name: "@ + name + " - Serving: "@ + file_name + " "@
}

/// The line of a client with the name `name` in a list that is `width` columns wide. The name is
/// cut to what fits, unless next to nothing would be left of it.
pub open spec fn client_line_text(name: Seq<char>, width: u16) -> Seq<char> {
    if width > 10 && name.len() > width - 5 {
        name.take(width - 5)
    } else {
        name
    }
}

/// Whether `line` is the line of `client`.
pub open spec fn is_client_line(client: ClientId, line: Seq<char>, width: u16) -> bool {
    exists|name: Seq<char>| #[trigger]
        client.is_shown_as(name) && line == client_line_text(name, width)
}

impl<R> ServerTui<R> {
    /// No more than the latest lines are kept, and a selection leaves room for a step down.
    #[verifier::type_invariant]
    spec fn inv(&self) -> bool {
        &&& self.logs@.len() <= LOG_SCROLLBACK
        &&& self.selected matches Some(x) ==> x < usize::MAX
    }

    /// An interface with nothing to show yet.
    pub fn new(name: String, file_name: String) -> (r: Self)
        ensures
            r@ == (TuiView::<R> {
                logs: Seq::empty(),
                clients: Seq::empty(),
                selected: None,
                name: name@,
                file_name: file_name@,
            }),
    {
        let r = ServerTui {
            logs: VecDeque::with_capacity(LOG_SCROLLBACK),
            clients: VecDeque::new(),
            selected: None,
            name,
            file_name,
        };
        assert(r@.logs =~= Seq::empty());
        r
    }

    /// Takes a message.
    pub fn handle(&mut self, msg: TermMsg<R>) -> (r: Action<R>)
        ensures
            final(self)@ == after(old(self)@, msg),
            r == action(old(self)@, msg),
    {
        match msg {
            TermMsg::Input(Event::Key { code, control }) => match code {
                KeyCode::Enter => self.answer(true),
                KeyCode::Esc => Action::Quit,
                KeyCode::Char(c) => if c == 'n' {
                    self.answer(false)
                } else if c == 'k' {
                    self.select_above();
                    Action::Draw
                } else if c == 'j' {
                    self.select_below();
                    Action::Draw
                } else if c == 'q' || (c == 'c' && control) {
                    Action::Quit
                } else {
                    Action::Draw
                },
                KeyCode::Other => Action::Draw,
            },
            TermMsg::Input(Event::Other) => Action::Draw,
            TermMsg::Log(s) => {
                self.log(s);
                Action::Draw
            },
            TermMsg::ClientRequest(client, reply) => {
                self.request(client, reply);
                Action::Draw
            },
        }
    }

    /// Removes the selected client and answers it.
    fn answer(&mut self, approved: bool) -> (r: Action<R>)
        ensures
            match answered(old(self)@) {
                Some((client, reply)) => {
                    &&& r == (Action::Answer { client, reply, approved })
                    &&& final(self)@ == (TuiView {
                        clients: old(self)@.clients.remove(old(self)@.selected->0 as int),
                        ..old(self)@
                    })
                },
                None => r == Action::<R>::Draw && final(self)@ == old(self)@,
            },
    {
        proof {
            use_type_invariant(&*self);
        }
        match self.selected {
            Some(i) => {
                let mut clients: VecDeque<(ClientId, R)> = VecDeque::new();
                std::mem::swap(&mut clients, &mut self.clients);
                let removed = clients.remove(i);
                self.clients = clients;
                match removed {
                    Some((client, reply)) => Action::Answer { client, reply, approved },
                    None => Action::Draw,
                }
            },
            None => Action::Draw,
        }
    }

    /// Moves the selection up.
    fn select_above(&mut self)
        ensures
            final(self)@ == (TuiView { selected: above(old(self)@.selected), ..old(self)@ }),
    {
        proof {
            use_type_invariant(&*self);
        }
        self.selected = match self.selected {
            Some(x) => if x > 0 {
                Some(x - 1)
            } else {
                Some(0)
            },
            None => Some(0),
        };
    }

    /// Moves the selection down.
    fn select_below(&mut self)
        ensures
            final(self)@ == (TuiView {
                selected: below(old(self)@.selected, old(self)@.clients.len()),
                ..old(self)@
            }),
    {
        proof {
            use_type_invariant(&*self);
        }
        let len: usize = self.clients.len();
        self.selected = match self.selected {
            Some(x) => if x + 1 < len {
                Some(x + 1)
            } else if len > 0 {
                Some(len - 1)
            } else {
                Some(0)
            },
            None => Some(0),
        };
    }

    /// Adds a line to the log.
    fn log(&mut self, line: String)
        ensures
            final(self)@ == (TuiView { logs: logged(old(self)@.logs, line@), ..old(self)@ }),
    {
        proof {
            use_type_invariant(&*self);
        }
        let ghost before = self@.logs;
        let mut logs: VecDeque<String> = VecDeque::new();
        std::mem::swap(&mut logs, &mut self.logs);
        logs.push_back(line);
        if logs.len() > LOG_SCROLLBACK {
            logs.pop_front();
        }
        self.logs = logs;
        assert(self@.logs =~= logged(before, line@));
    }

    /// Adds a client to those that wait.
    fn request(&mut self, client: ClientId, reply: R)
        ensures
            final(self)@ == (TuiView {
                clients: old(self)@.clients.push((client, reply)),
                ..old(self)@
            }),
    {
        proof {
            use_type_invariant(&*self);
        }
        let mut clients: VecDeque<(ClientId, R)> = VecDeque::new();
        std::mem::swap(&mut clients, &mut self.clients);
        clients.push_back((client, reply));
        self.clients = clients;
    }

    /// The title of the log.
    pub fn title(&self) -> (r: String)
        ensures
            r@ == title_text(self@.name, self@.file_name),
    {
        let mut title = String::from_str(" Server name: ");
        title.append(self.name.as_str());
        title.append(" - Serving: ");
        title.append(self.file_name.as_str());
        title.append(" ");
        title
    }

    /// The selected position in the list of clients.
    pub fn selected(&self) -> (r: Option<usize>)
        ensures
            r == self@.selected,
    {
        self.selected
    }

    /// The lines of the log, oldest first.
    pub fn log_lines(&self) -> (r: Vec<String>)
        ensures
            r@.map_values(|s: String| s@) == self@.logs,
    {
        let mut lines: Vec<String> = Vec::new();
        let mut i: usize = 0;
        while i < self.logs.len()
            invariant
                i <= self.logs@.len(),
                lines@.len() == i,
                forall|j: int| 0 <= j < i ==> (#[trigger] lines@[j])@ == self.logs@[j]@,
            decreases self.logs@.len() - i,
        {
            lines.push(String::from_str(self.logs[i].as_str()));
            i = i + 1;
        }
        assert(lines@.map_values(|s: String| s@) =~= self@.logs);
        lines
    }

    /// The lines of the waiting clients, first come first, in a list that is `width` columns wide.
    pub fn client_lines(&self, width: u16) -> (r: Vec<String>)
        requires
            width >= 5,
        ensures
            r@.len() == self@.clients.len(),
            forall|i: int|
                0 <= i < r@.len() ==> is_client_line(
                    self@.clients[i].0,
                    (#[trigger] r@[i])@,
                    width,
                ),
    {
        let mut lines: Vec<String> = Vec::new();
        let mut i: usize = 0;
        while i < self.clients.len()
            invariant
                i <= self.clients@.len(),
                lines@.len() == i,
                width >= 5,
                forall|j: int|
                    0 <= j < i ==> is_client_line(
                        self.clients@[j].0,
                        (#[trigger] lines@[j])@,
                        width,
                    ),
            decreases self.clients@.len() - i,
        {
            let name = self.clients[i].0.to_string();
            let line = client_line(&name, width);
            assert(is_client_line(self.clients@[i as int].0, line@, width));
            lines.push(line);
            i = i + 1;
        }
        lines
    }
}

/// The line of a client with the name `name` in a list that is `width` columns wide.
pub fn client_line(name: &String, width: u16) -> (r: String)
    requires
        is_ascii_chars(name@),
        width >= 5,
    ensures
        r@ == client_line_text(name@, width),
{
    let chop_id_at: u16 = width - 5;
    let len: usize = name.as_str().unicode_len();
    if chop_id_at > 5 && len > chop_id_at as usize {
        String::from_str(name.as_str().substring_ascii(0, chop_id_at as usize))
    } else {
        String::from_str(name.as_str())
    }
}

/// The log line about a client with the name `name` that has been approved.
pub open spec fn downloading_text(name: Seq<char>) -> Seq<char> {
    "Client downloading: "@ + name
}

/// The log line about a client that has been approved.
pub fn downloading(client: &ClientId) -> (r: String)
    ensures
        exists|name: Seq<char>| #[trigger]
            client.is_shown_as(name) && r@ == downloading_text(name),
{
    let name = client.to_string();
    let mut line = String::from_str("Client downloading: ");
    line.append(name.as_str());
    line
}

/// The state after the messages `msgs`.
pub open spec fn after_all<R>(state: TuiView<R>, msgs: Seq<TermMsg<R>>) -> TuiView<R>
    decreases msgs.len(),
{
    if msgs.len() == 0 {
        state
    } else {
        after(after_all(state, msgs.drop_last()), msgs.last())
    }
}

/// The lines that `msgs` bring for the log.
pub open spec fn log_messages<R>(msgs: Seq<TermMsg<R>>) -> Seq<Seq<char>>
    decreases msgs.len(),
{
    if msgs.len() == 0 {
        Seq::empty()
    } else {
        match msgs.last() {
            TermMsg::Log(s) => log_messages(msgs.drop_last()).push(s@),
            _ => log_messages(msgs.drop_last()),
        }
    }
}

/// The clients that `msgs` bring.
pub open spec fn requests<R>(msgs: Seq<TermMsg<R>>) -> Multiset<(ClientId, R)>
    decreases msgs.len(),
{
    if msgs.len() == 0 {
        Multiset::empty()
    } else {
        match msgs.last() {
            TermMsg::ClientRequest(client, reply) => requests(msgs.drop_last()).insert(
                (client, reply),
            ),
            _ => requests(msgs.drop_last()),
        }
    }
}

/// The clients that are answered in the course of `msgs`.
pub open spec fn answers<R>(state: TuiView<R>, msgs: Seq<TermMsg<R>>) -> Multiset<(ClientId, R)>
    decreases msgs.len(),
{
    if msgs.len() == 0 {
        Multiset::empty()
    } else {
        let before = answers(state, msgs.drop_last());
        match action(after_all(state, msgs.drop_last()), msgs.last()) {
            Action::Answer { client, reply, .. } => before.insert((client, reply)),
            _ => before,
        }
    }
}

/// The log shows the latest lines that were logged, in order: all of them as long as there are at
/// most [`LOG_SCROLLBACK`], and so many afterwards.
pub proof fn law_log_keeps_latest<R>(state: TuiView<R>, msgs: Seq<TermMsg<R>>)
    requires
        state.logs.len() == 0,
    ensures
        after_all(state, msgs).logs == {
            let lines = log_messages(msgs);
            if lines.len() > LOG_SCROLLBACK {
                lines.skip(lines.len() - LOG_SCROLLBACK)
            } else {
                lines
            }
        },
    decreases msgs.len(),
{
    if msgs.len() > 0 {
        law_log_keeps_latest(state, msgs.drop_last());
        let lines = log_messages(msgs);
        let shown = after_all(state, msgs).logs;
        if lines.len() > LOG_SCROLLBACK {
            assert(shown =~= lines.skip(lines.len() - LOG_SCROLLBACK));
        } else {
            assert(shown =~= lines);
        }
    } else {
        assert(state.logs =~= Seq::empty());
    }
}

/// No client is lost and none is answered twice: those that wait and those that were answered are
/// exactly those that waited at first and those that asked since.
pub proof fn law_every_client_answered_once<R>(state: TuiView<R>, msgs: Seq<TermMsg<R>>)
    ensures
        after_all(state, msgs).clients.to_multiset().add(answers(state, msgs))
            == state.clients.to_multiset().add(requests(msgs)),
    decreases msgs.len(),
{
    broadcast use vstd::seq_lib::group_to_multiset_ensures;

    let waiting = after_all(state, msgs).clients.to_multiset();
    let gone = answers(state, msgs);
    let all = state.clients.to_multiset().add(requests(msgs));
    if msgs.len() > 0 {
        let earlier = msgs.drop_last();
        law_every_client_answered_once(state, earlier);
        let mid = after_all(state, earlier);
        let before = mid.clients.to_multiset();
        match meaning(msgs.last()) {
            Meaning::Request(client, reply) => {
                assert(waiting =~= before.insert((client, reply)));
                assert(requests(msgs) == requests(earlier).insert((client, reply)));
                assert(gone == answers(state, earlier));
                assert(waiting.add(gone) =~= before.add(gone).insert((client, reply)));
                assert(all =~= state.clients.to_multiset().add(requests(earlier)).insert(
                    (client, reply),
                ));
            },
            Meaning::Approve | Meaning::Deny => {
                if answered(mid) is Some {
                    let client = mid.clients[mid.selected->0 as int];
                    assert(mid.clients.contains(client));
                    assert(waiting =~= before.remove(client));
                    assert(gone == answers(state, earlier).insert(client));
                    assert(waiting.add(gone) =~= before.add(answers(state, earlier)));
                }
            },
            _ => {
                assert(waiting == before && gone == answers(state, earlier));
            },
        }
    } else {
        assert(waiting.add(gone) =~= all);
    }
}

/// A client is answered exactly when it is the selected one and the user approves or denies, and
/// with what the user chose.
pub proof fn law_only_the_selected_is_answered<R>(state: TuiView<R>, msg: TermMsg<R>)
    ensures
        match action(state, msg) {
            Action::Answer { client, reply, approved } => {
                &&& state.selected matches Some(i)
                &&& i < state.clients.len()
                &&& state.clients[i as int] == (client, reply)
                &&& approved <==> meaning(msg) is Approve
                &&& !approved <==> meaning(msg) is Deny
                &&& after(state, msg).clients == state.clients.remove(i as int)
            },
            _ => after(state, msg).clients.len() >= state.clients.len(),
        },
{
}

/// The message about a key with a character.
pub open spec fn pressed<R>(c: char, control: bool) -> TermMsg<R> {
    TermMsg::Input(Event::Key { code: KeyCode::Char(c), control })
}

/// `k` moves the selection up by one and `j` moves it down by one, as far as there are clients; the first
/// of either selects the first client. Nothing else changes and nobody is answered.
pub proof fn law_selection_moves_by_one<R>(state: TuiView<R>, control: bool)
    ensures
        ({
            let up = after(state, pressed('k', control));
            let down = after(state, pressed('j', control));
            let len = state.clients.len();
            &&& match state.selected {
                Some(x) => {
                    &&& x > 0 ==> up.selected == Some((x - 1) as usize)
                    &&& x == 0 ==> up.selected == Some(0usize)
                    &&& x + 1 < len ==> down.selected == Some((x + 1) as usize)
                    &&& 0 < len <= x + 1 ==> down.selected == Some((len - 1) as usize)
                    &&& len == 0 ==> down.selected == Some(0usize)
                },
                None => up.selected == Some(0usize) && down.selected == Some(0usize),
            }
            &&& up == (TuiView { selected: up.selected, ..state })
            &&& down == (TuiView { selected: down.selected, ..state })
            &&& action(state, pressed('k', control)) is Draw
            &&& action(state, pressed('j', control)) is Draw
        }),
{
}

/// A step up undoes a step down, and a step down undoes a step up, wherever there is room for both.
pub proof fn law_steps_undo_each_other<R>(state: TuiView<R>, x: usize, control: bool)
    requires
        state.selected == Some(x),
        state.clients.len() <= usize::MAX,
    ensures
        x + 1 < state.clients.len() ==> after(
            after(state, pressed('j', control)),
            pressed('k', control),
        ) == state,
        0 < x < state.clients.len() ==> after(
            after(state, pressed('k', control)),
            pressed('j', control),
        ) == state,
{
}

/// As many steps down from the first client as there are clients before it lead to each client.
pub proof fn law_every_client_can_be_selected<R>(
    state: TuiView<R>,
    steps: Seq<TermMsg<R>>,
    control: bool,
)
    requires
        state.selected == Some(0usize),
        steps.len() < state.clients.len() <= usize::MAX,
        forall|i: int| 0 <= i < steps.len() ==> #[trigger] steps[i] == pressed::<R>('j', control),
    ensures
        after_all(state, steps) == (TuiView { selected: Some(steps.len() as usize), ..state }),
    decreases steps.len(),
{
    if steps.len() > 0 {
        let fewer = steps.drop_last();
        assert forall|i: int| 0 <= i < fewer.len() implies #[trigger] fewer[i] == pressed::<R>(
            'j',
            control,
        ) by {
            assert(fewer[i] == steps[i]);
        }
        law_every_client_can_be_selected(state, fewer, control);
        assert(steps.last() == steps[steps.len() - 1]);
    }
}

/// A selection that is on a client, or is not made yet, is on a client after any step, if there is one.
pub proof fn law_selection_stays_on_a_client<R>(state: TuiView<R>, c: char, control: bool)
    requires
        c == 'j' || c == 'k',
        0 < state.clients.len(),
        state.selected matches Some(x) ==> x < state.clients.len(),
    ensures
        after(state, pressed(c, control)).selected matches Some(x) && x < state.clients.len(),
        answered(after(state, pressed(c, control))) is Some,
{
}

/// Enter approves the selected client and `n` denies it. The client leaves the list, and the others keep
/// their order; nothing else changes. Without a selected client nothing happens.
pub proof fn law_selected_client_is_answered<R>(state: TuiView<R>, control: bool)
    ensures
        ({
            let enter = TermMsg::<R>::Input(Event::Key { code: KeyCode::Enter, control });
            let deny = pressed::<R>('n', control);
            let left = after(state, enter);
            match state.selected {
                Some(x) if x < state.clients.len() => {
                    &&& action(state, enter) == (Action::Answer {
                        client: state.clients[x as int].0,
                        reply: state.clients[x as int].1,
                        approved: true,
                    })
                    &&& action(state, deny) == (Action::Answer {
                        client: state.clients[x as int].0,
                        reply: state.clients[x as int].1,
                        approved: false,
                    })
                    &&& after(state, deny) == left
                    &&& left.clients == state.clients.take(x as int) + state.clients.skip(x + 1)
                    &&& left == (TuiView { clients: left.clients, ..state })
                },
                _ => {
                    &&& action(state, enter) is Draw
                    &&& action(state, deny) is Draw
                    &&& left == state
                    &&& after(state, deny) == state
                },
            }
        }),
{
    if let Some(x) = state.selected {
        if x < state.clients.len() {
            assert(state.clients.remove(x as int) =~= state.clients.take(x as int)
                + state.clients.skip(x + 1));
        }
    }
}

/// The program ends on escape, `q` and control-c, and on nothing else. What the user does otherwise, but
/// for the keys that select and answer, changes nothing.
pub proof fn law_what_ends_the_program<R>(state: TuiView<R>, msg: TermMsg<R>)
    ensures
        action(state, msg) is Quit <==> match msg {
            TermMsg::Input(Event::Key { code: KeyCode::Esc, .. }) => true,
            TermMsg::Input(Event::Key { code: KeyCode::Char(c), control }) => c == 'q' || (c == 'c'
                && control),
            _ => false,
        },
        action(state, msg) is Quit ==> after(state, msg) == state,
        match msg {
            TermMsg::Input(Event::Key { code: KeyCode::Enter, .. }) => true,
            TermMsg::Input(Event::Key { code: KeyCode::Char(c), .. }) => c != 'n' && c != 'j' && c
                != 'k' ==> after(state, msg) == state && !(action(state, msg) is Answer),
            TermMsg::Input(_) => after(state, msg) == state && !(action(state, msg) is Answer),
            _ => action(state, msg) is Draw,
        },
{
}

/// A line that is logged is the last of the log, behind the lines that were there, of which the oldest
/// goes if there are a thousand. A client that asks is the last in the list. Nothing else changes.
pub proof fn law_news_come_last<R>(state: TuiView<R>, line: String, client: ClientId, reply: R)
    requires
        state.logs.len() <= 1000,
    ensures
        ({
            let now = after(state, TermMsg::<R>::Log(line)).logs;
            &&& now.len() == if state.logs.len() < 1000 {
                state.logs.len() + 1
            } else {
                1000
            }
            &&& now.last() == line@
            &&& now.drop_last() == if state.logs.len() < 1000 {
                state.logs
            } else {
                state.logs.skip(1)
            }
            &&& after(state, TermMsg::<R>::Log(line)) == (TuiView { logs: now, ..state })
        }),
        ({
            let now = after(state, TermMsg::ClientRequest(client, reply));
            &&& now.clients.len() == state.clients.len() + 1
            &&& now.clients.last() == (client, reply)
            &&& now.clients.drop_last() == state.clients
            &&& now == (TuiView { clients: now.clients, ..state })
        }),
{
    let now = after(state, TermMsg::<R>::Log(line)).logs;
    if state.logs.len() < 1000 {
        assert(now.drop_last() =~= state.logs);
    } else {
        assert(now.drop_last() =~= state.logs.skip(1));
    }
    assert(after(state, TermMsg::ClientRequest(client, reply)).clients.drop_last()
        =~= state.clients);
}

/// The line of a client is as much of its name as there are columns for, five of which stay free: the
/// whole name if it fits, or if the list is so narrow that next to nothing would be left.
pub proof fn law_client_line_fits(name: Seq<char>, width: u16)
    requires
        width >= 5,
    ensures
        ({
            let line = client_line_text(name, width);
            &&& line.is_prefix_of(name)
            &&& name.len() <= width - 5 || width <= 10 ==> line == name
            &&& name.len() > width - 5 && width > 10 ==> line.len() == width - 5
        }),
{
}

/// The title of the log has the name of the server and the name of the file in it, as they are.
pub proof fn law_title_names_server_and_file(name: Seq<char>, file_name: Seq<char>)
    ensures
        ({
            let title = title_text(name, file_name);
            let n = name.len() as int;
            let f = file_name.len() as int;
            &&& title.len() == 14 + n + 12 + f + 1
            &&& title.take(14) == " Server name: "@
            &&& title.subrange(14, 14 + n) == name
            &&& title.subrange(14 + n, 26 + n) == " - Serving: "@
            &&& title.subrange(26 + n, 26 + n + f) == file_name
            &&& title.last() == ' '
        }),
{
    reveal_strlit(" Server name: ");
    reveal_strlit(" - Serving: ");
    reveal_strlit(" ");
    let title = title_text(name, file_name);
    let n = name.len() as int;
    let f = file_name.len() as int;
    assert(title.take(14) =~= " Server name: "@);
    assert(title.subrange(14, 14 + n) =~= name);
    assert(title.subrange(14 + n, 26 + n) =~= " - Serving: "@);
    assert(title.subrange(26 + n, 26 + n + f) =~= file_name);
}

/// The log line about an approved client ends in its name.
pub proof fn law_download_line_names_the_client(name: Seq<char>)
    ensures
        downloading_text(name).len() == 20 + name.len(),
        downloading_text(name).take(20) == "Client downloading: "@,
        downloading_text(name).skip(20) == name,
{
    reveal_strlit("Client downloading: ");
    assert(downloading_text(name).take(20) =~= "Client downloading: "@);
    assert(downloading_text(name).skip(20) =~= name);
}

} // verus!
