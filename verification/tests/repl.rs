use jakescript::lexer::Lexer;
use jakescript::repl::{BufferState, InputBuffer};
use jakescript::token::element::Element;
use jakescript::token::location::SourceLocation;

fn lex(source: &str) -> Vec<Element> {
    let mut lexer = Lexer::for_str(source, SourceLocation::at_start_of("test"));
    let mut elements = Vec::new();
    while let Some(element) = lexer.next().unwrap() {
        elements.push(element);
    }
    elements
}

fn read_all(buffer: &mut InputBuffer, source: &str) -> Vec<BufferState> {
    lex(source)
        .into_iter()
        .map(|element| buffer.read_element(element))
        .collect()
}

#[test]
fn repl_line_at_depth_zero_executes() {
    let mut buffer = InputBuffer::new();
    let states = read_all(&mut buffer, "1 + 2\n");
    assert_eq!(
        states,
        vec![
            BufferState::ReadMore,
            BufferState::ReadMore,
            BufferState::ReadMore,
            BufferState::ReadMore,
            BufferState::ReadMore,
            BufferState::Execute,
        ]
    );
    assert_eq!(buffer.brace_depth(), 0);
    assert_eq!(buffer.len(), 6);
    assert_eq!(buffer.take().len(), 6);
    assert_eq!(buffer.len(), 0);
}

#[test]
fn repl_open_brace_keeps_buffering_until_closed() {
    let mut buffer = InputBuffer::new();
    let states = read_all(&mut buffer, "if (x) {\n");
    assert_eq!(states.last(), Some(&BufferState::KeepBuffering));
    assert_eq!(buffer.brace_depth(), 1);
    let states = read_all(&mut buffer, "{ y; }\n");
    assert_eq!(states.last(), Some(&BufferState::KeepBuffering));
    assert_eq!(buffer.brace_depth(), 1);
    let states = read_all(&mut buffer, "}\n");
    assert_eq!(states, vec![BufferState::ReadMore, BufferState::Execute]);
    assert_eq!(buffer.brace_depth(), 0);
}

#[test]
fn repl_unmatched_close_brace_stays_at_zero() {
    let mut buffer = InputBuffer::new();
    let states = read_all(&mut buffer, "}\n");
    assert_eq!(states, vec![BufferState::ReadMore, BufferState::Execute]);
    assert_eq!(buffer.brace_depth(), 0);
    assert_eq!(buffer.len(), 2);
}

#[test]
fn repl_clear_drops_elements_and_keeps_depth() {
    let mut buffer = InputBuffer::new();
    read_all(&mut buffer, "{ {");
    assert_eq!(buffer.brace_depth(), 2);
    buffer.clear();
    assert_eq!(buffer.len(), 0);
    assert_eq!(buffer.brace_depth(), 2);
}
