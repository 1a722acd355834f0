use hubtain::models::ClientId;
use hubtain::server::tui::{client_line, downloading, Action, ServerTui};
use hubtain::tui::{Event, KeyCode, TermMsg};

type Tui = ServerTui<u32>;

fn key(code: KeyCode) -> TermMsg<u32> {
    TermMsg::Input(Event::Key { code, control: false })
}

fn ask(tui: &mut Tui, n: u8) {
    let msg = TermMsg::ClientRequest(ClientId::new(vec![n]), n as u32);
    assert!(matches!(tui.handle(msg), Action::Draw));
}

fn new_tui() -> Tui {
    ServerTui::new("otter".to_string(), "f.txt".to_string())
}

#[test]
fn clients_are_answered_once() {
    let mut tui = new_tui();
    for n in 1..4 {
        ask(&mut tui, n);
    }
    // Nothing is selected yet
    assert!(matches!(tui.handle(key(KeyCode::Enter)), Action::Draw));
    assert!(matches!(tui.handle(key(KeyCode::Char('j'))), Action::Draw));
    assert_eq!(tui.selected(), Some(0));
    tui.handle(key(KeyCode::Char('j')));
    match tui.handle(key(KeyCode::Enter)) {
        Action::Answer { client, reply, approved } => {
            assert_eq!((reply, approved), (2, true));
            assert_eq!(client, ClientId::new(vec![2]));
            assert_eq!(downloading(&client), format!("Client downloading: {}", client.to_string()));
        }
        _ => panic!("answered"),
    }
    assert!(matches!(
        tui.handle(key(KeyCode::Char('n'))),
        Action::Answer { reply: 3, approved: false, .. }
    ));
    // The selection is now behind the last client
    assert_eq!(tui.selected(), Some(1));
    assert!(matches!(tui.handle(key(KeyCode::Enter)), Action::Draw));
    tui.handle(key(KeyCode::Char('k')));
    assert!(matches!(
        tui.handle(key(KeyCode::Enter)),
        Action::Answer { reply: 1, approved: true, .. }
    ));
    assert!(tui.client_lines(80).is_empty());
}

#[test]
fn selection_stays_in_the_list() {
    let mut tui = new_tui();
    tui.handle(key(KeyCode::Char('k')));
    assert_eq!(tui.selected(), Some(0));
    tui.handle(key(KeyCode::Char('k')));
    assert_eq!(tui.selected(), Some(0));
    tui.handle(key(KeyCode::Char('j')));
    assert_eq!(tui.selected(), Some(0));
    ask(&mut tui, 1);
    ask(&mut tui, 2);
    for _ in 0..5 {
        tui.handle(key(KeyCode::Char('j')));
    }
    assert_eq!(tui.selected(), Some(1));
}

#[test]
fn log_keeps_the_latest() {
    let mut tui = new_tui();
    for n in 0..1005 {
        tui.handle(TermMsg::Log(format!("line {}", n)));
    }
    let lines = tui.log_lines();
    assert_eq!(lines.len(), 1000);
    assert_eq!(lines[0], "line 5");
    assert_eq!(lines[999], "line 1004");
}

#[test]
fn quitting() {
    for code in [KeyCode::Esc, KeyCode::Char('q')] {
        assert!(matches!(new_tui().handle(key(code)), Action::Quit));
    }
    let ctrl = |c| TermMsg::Input(Event::Key { code: KeyCode::Char(c), control: true });
    assert!(matches!(new_tui().handle(ctrl('c')), Action::Quit));
    assert!(matches!(new_tui().handle(key(KeyCode::Char('c'))), Action::Draw));
    assert!(matches!(new_tui().handle(key(KeyCode::Other)), Action::Draw));
    assert!(matches!(new_tui().handle(TermMsg::Input(Event::Other)), Action::Draw));
}

#[test]
fn what_is_shown() {
    let mut tui = new_tui();
    assert_eq!(tui.title(), " Server name: otter - Serving: f.txt ");
    ask(&mut tui, 1);
    let name = ClientId::new(vec![1]).to_string();
    assert_eq!(tui.client_lines(200), [name.clone()]);
    assert_eq!(tui.client_lines(11), [name[..6].to_string()]);
    assert_eq!(tui.client_lines(10), [name.clone()]);
    ask(&mut tui, 2);
    assert_eq!(tui.client_lines(200), [name, ClientId::new(vec![2]).to_string()]);
    assert_eq!(client_line(&"0123456789".to_string(), 12), "0123456");
    assert_eq!(client_line(&"0123456".to_string(), 12), "0123456");
}
