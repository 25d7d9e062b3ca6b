use glyph::{
    in_memory_inputs, Input, Inputs, Key, Line, Options, Params, PromptOptions, Step,
};

fn type_text(s: &mut Inputs, text: &str) {
    for c in text.chars() {
        assert!(matches!(s.handle_key(Key::Char(c)), Step::Redraw));
    }
}

fn submit(s: &mut Inputs, text: &str) -> Step {
    type_text(s, text);
    s.handle_key(Key::Enter)
}

#[test]
fn typing_inserts_at_cursor() {
    let mut s = in_memory_inputs(Options::default());
    type_text(&mut s, "ac");
    s.handle_key(Key::Left);
    type_text(&mut s, "b");
    assert_eq!(s.line(), "abc");
    assert_eq!(s.cursor(), 2);
}

#[test]
fn cursor_counts_characters_not_bytes() {
    let mut s = in_memory_inputs(Options::default());
    type_text(&mut s, "λμ");
    assert_eq!(s.cursor(), 2);
    s.handle_key(Key::Left);
    s.handle_key(Key::Backspace);
    assert_eq!(s.line(), "μ");
    assert_eq!(s.cursor(), 0);
}

#[test]
fn cursor_is_clamped() {
    let mut s = in_memory_inputs(Options::default());
    assert!(matches!(s.handle_key(Key::Left), Step::Ignored));
    assert!(matches!(s.handle_key(Key::Backspace), Step::Ignored));
    type_text(&mut s, "ab");
    assert!(matches!(s.handle_key(Key::Right), Step::Ignored));
    assert_eq!(s.cursor(), 2);
    s.handle_key(Key::Home);
    assert_eq!(s.cursor(), 0);
    s.handle_key(Key::End);
    assert_eq!(s.cursor(), 2);
}

#[test]
fn up_then_down_restores_draft() {
    let mut s = in_memory_inputs(Options::default());
    submit(&mut s, "first");
    type_text(&mut s, "draft");
    s.handle_key(Key::Up);
    assert_eq!(s.line(), "first");
    assert_eq!(s.cursor(), 5);
    s.handle_key(Key::Down);
    assert_eq!(s.line(), "draft");
    assert_eq!(s.cursor(), 5);
}

#[test]
fn down_past_newest_without_draft_is_empty() {
    let mut s = in_memory_inputs(Options::default());
    submit(&mut s, "one");
    s.handle_key(Key::Up);
    s.handle_key(Key::Down);
    assert_eq!(s.line(), "");
    assert_eq!(s.cursor(), 0);
}

#[test]
fn down_at_live_line_keeps_line() {
    let mut s = in_memory_inputs(Options::default());
    submit(&mut s, "one");
    type_text(&mut s, "typing");
    assert!(matches!(s.handle_key(Key::Down), Step::Ignored));
    assert_eq!(s.line(), "typing");
}

#[test]
fn up_walks_history_in_order() {
    let mut s = in_memory_inputs(Options::default());
    submit(&mut s, "a");
    submit(&mut s, "b");
    submit(&mut s, "c");
    let mut seen = Vec::new();
    for _ in 0..4 {
        s.handle_key(Key::Up);
        seen.push(s.line());
    }
    assert_eq!(seen, vec!["c", "b", "a", "a"]);
}

#[test]
fn plain_line_is_text() {
    let mut s = in_memory_inputs(Options::default());
    match submit(&mut s, "  add 1 2  ") {
        Step::Submitted { appended, line: Line::Text(t) } => {
            assert!(appended);
            assert_eq!(t, "add 1 2");
        }
        other => panic!("unexpected {:?}", other),
    }
    assert_eq!(s.history().entries(), &vec!["add 1 2".to_string()]);
    assert_eq!(s.line(), "");
    assert_eq!(s.cursor(), 0);
}

#[test]
fn prefixed_line_is_command() {
    let mut s = in_memory_inputs(Options::default());
    match submit(&mut s, ":add 1 2") {
        Step::Submitted { line: Line::Command(ws), .. } => {
            assert_eq!(ws, vec!["add", "1", "2"]);
            let args = glyph::parser_invocation(s.options(), ws);
            assert_eq!(args, vec![" ", "add", "1", "2"]);
        }
        other => panic!("unexpected {:?}", other),
    }
}

#[test]
fn disabled_free_text_routes_everything_to_parser() {
    let opts = Options::default().command_prompt("app").disable_free_expression();
    let mut s = in_memory_inputs(opts);
    match submit(&mut s, "add 1 2") {
        Step::Submitted { line: Line::Command(ws), .. } => {
            let args = glyph::parser_invocation(s.options(), ws);
            assert_eq!(args, vec!["app", "add", "1", "2"]);
        }
        other => panic!("unexpected {:?}", other),
    }
}

#[test]
fn custom_prefix_is_stripped() {
    let mut s = in_memory_inputs(Options::default().command_prompt("run"));
    match submit(&mut s, "run connect  node") {
        Step::Submitted { line: Line::Command(ws), .. } => {
            assert_eq!(ws, vec!["connect", "node"]);
        }
        other => panic!("unexpected {:?}", other),
    }
    match submit(&mut s, ":x") {
        Step::Submitted { line: Line::Text(t), .. } => assert_eq!(t, ":x"),
        other => panic!("unexpected {:?}", other),
    }
}

#[test]
fn prefix_alone_is_blank_but_recorded() {
    let mut s = in_memory_inputs(Options::default());
    assert!(matches!(
        submit(&mut s, ":"),
        Step::Submitted { appended: true, line: Line::EmptyCommand }
    ));
    assert_eq!(s.history().entries(), &vec![":".to_string()]);
}

#[test]
fn blank_lines_complete_nothing() {
    let mut s = in_memory_inputs(Options::default());
    assert!(matches!(s.handle_key(Key::Enter), Step::Blank));
    assert!(matches!(submit(&mut s, " \t  "), Step::Blank));
    assert!(s.history().entries().is_empty());
    assert_eq!(s.line(), "");
    assert_eq!(s.cursor(), 0);
}

#[test]
fn repeated_line_is_not_appended() {
    let mut s = in_memory_inputs(Options::default());
    submit(&mut s, "same");
    match submit(&mut s, "same") {
        Step::Submitted { appended, .. } => assert!(!appended),
        other => panic!("unexpected {:?}", other),
    }
    assert_eq!(s.history().entries().len(), 1);
}

#[test]
fn interrupt_exits_once() {
    let mut s = in_memory_inputs(Options::default());
    type_text(&mut s, "abc");
    assert!(matches!(s.handle_key(Key::Interrupt), Step::Exit));
    assert!(s.is_terminated());
    for k in [Key::Interrupt, Key::Enter, Key::Char('x'), Key::Up] {
        assert!(matches!(s.handle_key(k), Step::Ignored));
    }
    assert_eq!(s.line(), "abc");
}

#[test]
fn other_keys_are_ignored() {
    let mut s = in_memory_inputs(Options::default());
    assert!(matches!(s.handle_key(Key::Other), Step::Ignored));
    assert!(matches!(s.handle_key(Key::Up), Step::Ignored));
}

#[test]
fn banner_lists_present_fields() {
    let opts = Options::default().author("Yo Eight").version("1.2.3");
    assert_eq!(opts.banner(), vec!["Author: Yo Eight", "Version: 1.2.3", ""]);
    let full = Options::default().header("Hi").date("June");
    assert_eq!(full.banner(), vec!["Hi", "Date: June", ""]);
    assert!(Options::default().banner().is_empty());
}

#[test]
fn prompt_text_and_override() {
    let opts = Options::default();
    assert_eq!(opts.prompt_text(), "λ>");
    assert_eq!(opts.prompt_for(&PromptOptions::default()), "λ>");
    assert_eq!(opts.prompt_for(&PromptOptions::default().prompt("ping")), "ping λ>");
    let other = Options::default().prompt("$");
    assert_eq!(other.prompt_text(), "$");
}

#[test]
fn builders_set_fields() {
    let o = Options::default().header("h").author("a").version("v").date("d").command_prompt("c");
    assert_eq!(o.header_text(), "h");
    assert_eq!(o.author_text(), "a");
    assert_eq!(o.version_text(), "v");
    assert_eq!(o.date_text(), "d");
    assert_eq!(o.command_prefix(), &Some("c".to_string()));
    assert!(!o.free_expression_disabled());
    assert!(o.disable_free_expression().free_expression_disabled());
}

#[test]
fn input_map_and_flat_map() {
    let i: Input<u32> = Input::Command(2);
    assert!(matches!(i.map(|x| x * 10), Input::Command(20)));
    let s: Input<u32> = Input::String("t".to_string());
    assert!(matches!(s.map(|x| x + 1), Input::String(ref t) if t == "t"));
    let e: Input<u32> = Input::Exit;
    assert!(matches!(e.flat_map(|x| Input::Command(x + 1)), Input::Exit));
    let c: Input<u32> = Input::Command(1);
    assert!(matches!(c.flat_map(|_| Input::<u32>::Exit), Input::Exit));
}

#[test]
fn params_keep_values() {
    let p = Params::new(vec!["a".to_string(), "b".to_string()]);
    assert_eq!(p.values(), vec!["a", "b"]);
}
