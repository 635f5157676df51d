use font_prompt::ansi::encode;
use font_prompt::{Action, ClearKind, Command, Font, Key, Prompt};

const PLAIN: Font = Font { id: 0 };
const SHOUT: Font = Font { id: 1 };

fn convert(input: &[char], font: Font) -> String {
    if font == SHOUT {
        input.iter().map(|c| c.to_ascii_uppercase()).collect()
    } else {
        input.iter().collect()
    }
}

fn previews(prompt: &Prompt) -> Vec<String> {
    let mut all = Vec::new();
    for font in prompt.fonts() {
        all.push(convert(prompt.input().as_text(), *font));
    }
    all
}

/// Runs a session as a caller would: handle each key, repaint on every
/// update, stop at the first confirm. Returns what was sent to the terminal
/// during the loop, and whether the session was confirmed.
fn play(prompt: &mut Prompt, keys: &[Key]) -> (Vec<Command>, bool) {
    let mut sent = Vec::new();
    for key in keys {
        match prompt.handle_key_event(*key, &mut sent) {
            Action::Confirm => return (sent, true),
            Action::Update => {
                let all = previews(prompt);
                prompt.repaint(&all, &mut sent);
            }
            Action::Nothing => {}
        }
    }
    (sent, false)
}

fn finish(prompt: &Prompt) -> Vec<Command> {
    let chosen = convert(prompt.input().as_text(), prompt.selected_font());
    let mut sent = Vec::new();
    prompt.confirm(&chosen, &mut sent);
    sent
}

#[test]
fn new_prompt_starts_empty_on_first_font() {
    let prompt = Prompt::new(vec![PLAIN, SHOUT]);
    assert!(prompt.input().is_empty());
    assert_eq!(prompt.input().len(), 0);
    assert_eq!(prompt.current_font(), 0);
    assert_eq!(prompt.selected_font(), PLAIN);
    assert_eq!(prompt.fonts(), &vec![PLAIN, SHOUT]);
    assert_eq!(prompt.num_whole_lines(), 3);
}

#[test]
fn type_select_second_font_and_confirm() {
    let mut prompt = Prompt::new(vec![PLAIN, SHOUT]);
    let keys = [Key::Char('h'), Key::Char('i'), Key::Down, Key::Enter];
    let (_, confirmed) = play(&mut prompt, &keys);
    assert!(confirmed);
    assert_eq!(prompt.input().to_text(), "hi");
    assert_eq!(prompt.current_font(), 1);
    let last = finish(&prompt);
    assert_eq!(
        last,
        vec![
            Command::MoveLeft(2),
            Command::Clear(ClearKind::CurrentLine),
            Command::Print(String::from("HI\r\n")),
            Command::Clear(ClearKind::FromCursorDown),
        ]
    );
    assert_eq!(encode(&last), "\u{1b}[2D\u{1b}[2KHI\r\n\u{1b}[J");
}

#[test]
fn backspace_on_empty_input_then_type_and_confirm() {
    let mut prompt = Prompt::new(vec![PLAIN]);
    let mut sent = Vec::new();
    assert_eq!(prompt.handle_key_event(Key::Backspace, &mut sent), Action::Update);
    assert!(sent.is_empty());
    assert!(prompt.input().is_empty());
    assert_eq!(prompt.handle_key_event(Key::Char('x'), &mut sent), Action::Update);
    assert_eq!(prompt.handle_key_event(Key::Enter, &mut sent), Action::Confirm);
    assert!(sent.is_empty());
    assert_eq!(prompt.input().to_text(), "x");
    let last = finish(&prompt);
    assert_eq!(
        last,
        vec![
            Command::MoveLeft(1),
            Command::Clear(ClearKind::CurrentLine),
            Command::Print(String::from("x\r\n")),
            Command::Clear(ClearKind::FromCursorDown),
        ]
    );
}

#[test]
fn more_backspaces_than_characters() {
    let mut prompt = Prompt::new(vec![PLAIN, SHOUT]);
    let keys = [Key::Char('a'), Key::Char('b'), Key::Backspace, Key::Backspace, Key::Backspace];
    let mut moves_left = 0;
    for key in keys {
        let mut sent = Vec::new();
        assert_eq!(prompt.handle_key_event(key, &mut sent), Action::Update);
        moves_left += sent.len();
    }
    assert!(prompt.input().is_empty());
    assert_eq!(moves_left, 2);
}

#[test]
fn typed_characters_arrive_in_order() {
    let mut prompt = Prompt::new(vec![PLAIN]);
    let word = "prompt: ok";
    for c in word.chars() {
        let mut sent = Vec::new();
        assert_eq!(prompt.handle_key_event(Key::Char(c), &mut sent), Action::Update);
        assert!(sent.is_empty());
    }
    assert_eq!(prompt.input().to_text(), word);
    assert_eq!(prompt.input().as_text(), &word.chars().collect::<Vec<char>>());
    assert_eq!(prompt.input().len(), 10);
}

#[test]
fn backspace_steps_left_once_and_removes_last() {
    let mut prompt = Prompt::new(vec![PLAIN]);
    let mut sent = Vec::new();
    prompt.handle_key_event(Key::Char('a'), &mut sent);
    prompt.handle_key_event(Key::Char('b'), &mut sent);
    assert_eq!(prompt.handle_key_event(Key::Backspace, &mut sent), Action::Update);
    assert_eq!(sent, vec![Command::MoveLeft(1)]);
    assert_eq!(prompt.input().to_text(), "a");
}

#[test]
fn selection_is_clamped_at_both_ends() {
    let mut prompt = Prompt::new(vec![PLAIN, SHOUT, PLAIN]);
    let mut sent = Vec::new();
    assert_eq!(prompt.handle_key_event(Key::Up, &mut sent), Action::Nothing);
    assert_eq!(prompt.current_font(), 0);
    assert_eq!(prompt.handle_key_event(Key::Down, &mut sent), Action::Update);
    assert_eq!(prompt.current_font(), 1);
    assert_eq!(prompt.handle_key_event(Key::Down, &mut sent), Action::Update);
    assert_eq!(prompt.current_font(), 2);
    assert_eq!(prompt.handle_key_event(Key::Down, &mut sent), Action::Nothing);
    assert_eq!(prompt.current_font(), 2);
    assert_eq!(prompt.handle_key_event(Key::Up, &mut sent), Action::Update);
    assert_eq!(prompt.current_font(), 1);
    assert_eq!(prompt.selected_font(), SHOUT);
    assert!(sent.is_empty());
}

#[test]
fn single_font_cannot_move() {
    let mut prompt = Prompt::new(vec![SHOUT]);
    let mut sent = Vec::new();
    assert_eq!(prompt.handle_key_event(Key::Down, &mut sent), Action::Nothing);
    assert_eq!(prompt.handle_key_event(Key::Up, &mut sent), Action::Nothing);
    assert_eq!(prompt.current_font(), 0);
}

#[test]
fn other_keys_are_ignored() {
    let mut prompt = Prompt::new(vec![PLAIN, SHOUT]);
    let mut sent = Vec::new();
    prompt.handle_key_event(Key::Char('q'), &mut sent);
    assert_eq!(prompt.handle_key_event(Key::Other, &mut sent), Action::Nothing);
    assert_eq!(prompt.input().to_text(), "q");
    assert_eq!(prompt.current_font(), 0);
    assert!(sent.is_empty());
}

#[test]
fn enter_changes_nothing() {
    let mut prompt = Prompt::new(vec![PLAIN, SHOUT]);
    let mut sent = Vec::new();
    prompt.handle_key_event(Key::Char('q'), &mut sent);
    prompt.handle_key_event(Key::Down, &mut sent);
    assert_eq!(prompt.handle_key_event(Key::Enter, &mut sent), Action::Confirm);
    assert_eq!(prompt.input().to_text(), "q");
    assert_eq!(prompt.current_font(), 1);
    assert!(sent.is_empty());
}

#[test]
fn confirmed_session_ignores_keys() {
    let mut prompt = Prompt::new(vec![PLAIN, SHOUT]);
    let mut sent = Vec::new();
    assert!(!prompt.is_confirmed());
    prompt.handle_key_event(Key::Char('a'), &mut sent);
    assert!(!prompt.is_confirmed());
    assert_eq!(prompt.handle_key_event(Key::Enter, &mut sent), Action::Confirm);
    assert!(prompt.is_confirmed());
    for key in [Key::Char('b'), Key::Backspace, Key::Down, Key::Enter, Key::Other] {
        assert_eq!(prompt.handle_key_event(key, &mut sent), Action::Nothing);
    }
    assert!(prompt.is_confirmed());
    assert_eq!(prompt.input().to_text(), "a");
    assert_eq!(prompt.current_font(), 0);
    assert!(sent.is_empty());
}

#[test]
fn initialize_reserves_one_line_per_font_and_one_more() {
    let prompt = Prompt::new(vec![PLAIN, SHOUT]);
    let mut sent = Vec::new();
    prompt.initialize_prompt(&mut sent);
    assert_eq!(
        sent,
        vec![
            Command::Print(String::from("\r\n")),
            Command::Print(String::from("\r\n")),
            Command::Print(String::from("\r\n")),
            Command::MoveToPreviousLine(3),
        ]
    );
    assert_eq!(encode(&sent), "\r\n\r\n\r\n\u{1b}[3F");
}

#[test]
fn render_input_redraws_the_input_line() {
    let mut prompt = Prompt::new(vec![PLAIN]);
    let mut sent = Vec::new();
    prompt.handle_key_event(Key::Char('o'), &mut sent);
    prompt.handle_key_event(Key::Char('k'), &mut sent);
    prompt.render_input(&mut sent);
    assert_eq!(
        sent,
        vec![
            Command::MoveLeft(2),
            Command::Clear(ClearKind::CurrentLine),
            Command::Print(String::from("ok")),
        ]
    );
}

#[test]
fn render_candidates_marks_only_the_selected_font() {
    let mut prompt = Prompt::new(vec![PLAIN, SHOUT, PLAIN]);
    let mut sent = Vec::new();
    prompt.handle_key_event(Key::Char('a'), &mut sent);
    prompt.handle_key_event(Key::Down, &mut sent);
    let all = previews(&prompt);
    prompt.render_candidates(&all, &mut sent);
    assert_eq!(
        sent,
        vec![
            Command::MoveToNextLine(1),
            Command::Clear(ClearKind::CurrentLine),
            Command::Print(String::from("[ ]a")),
            Command::MoveToNextLine(1),
            Command::Clear(ClearKind::CurrentLine),
            Command::Print(String::from("[x]A")),
            Command::MoveToNextLine(1),
            Command::Clear(ClearKind::CurrentLine),
            Command::Print(String::from("[ ]a")),
        ]
    );
    let marked = sent
        .iter()
        .filter(|c| matches!(c, Command::Print(text) if text.starts_with("[x]")))
        .count();
    assert_eq!(marked, 1);
}

#[test]
fn repaint_returns_to_the_end_of_the_input() {
    let mut prompt = Prompt::new(vec![PLAIN, SHOUT]);
    let (sent, confirmed) = play(&mut prompt, &[Key::Char('h')]);
    assert!(!confirmed);
    assert_eq!(
        sent,
        vec![
            Command::MoveLeft(1),
            Command::Clear(ClearKind::CurrentLine),
            Command::Print(String::from("h")),
            Command::MoveToNextLine(1),
            Command::Clear(ClearKind::CurrentLine),
            Command::Print(String::from("[x]h")),
            Command::MoveToNextLine(1),
            Command::Clear(ClearKind::CurrentLine),
            Command::Print(String::from("[ ]H")),
            Command::MoveToPreviousLine(2),
            Command::MoveRight(1),
        ]
    );
    assert_eq!(
        encode(&sent),
        "\u{1b}[1D\u{1b}[2Kh\u{1b}[1E\u{1b}[2K[x]h\u{1b}[1E\u{1b}[2K[ ]H\u{1b}[2F\u{1b}[1C"
    );
}

#[test]
fn repaint_twice_sends_the_same_bytes() {
    let mut prompt = Prompt::new(vec![PLAIN, SHOUT]);
    play(&mut prompt, &[Key::Char('h'), Key::Char('i'), Key::Down]);
    let all = previews(&prompt);
    let mut first = Vec::new();
    prompt.repaint(&all, &mut first);
    let mut second = Vec::new();
    prompt.repaint(&all, &mut second);
    assert_eq!(first, second);
    assert_eq!(encode(&first), encode(&second));
    assert_eq!(encode(&first).as_bytes(), encode(&second).as_bytes());
}

#[test]
fn repaint_of_empty_input_moves_by_nothing() {
    let mut prompt = Prompt::new(vec![SHOUT]);
    let (sent, _) = play(&mut prompt, &[Key::Backspace]);
    assert_eq!(
        sent,
        vec![
            Command::MoveLeft(0),
            Command::Clear(ClearKind::CurrentLine),
            Command::Print(String::new()),
            Command::MoveToNextLine(1),
            Command::Clear(ClearKind::CurrentLine),
            Command::Print(String::from("[x]")),
            Command::MoveToPreviousLine(1),
            Command::MoveRight(0),
        ]
    );
    assert_eq!(encode(&sent), "\u{1b}[2K\u{1b}[1E\u{1b}[2K[x]\u{1b}[1F");
}
