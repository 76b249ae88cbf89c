use jakescript::iter::IntoPeekableNth;
use std::convert::Infallible;

#[test]
fn iter_peek() {
    let mut iter = "Hello, world!".chars().collect::<Vec<char>>().peekable_nth();

    assert_eq!(iter.peek_nth(4), Some(&'o'));
    assert_eq!(iter.peek_nth(3), Some(&'l'));
    assert_eq!(iter.peek_nth(2), Some(&'l'));
    assert_eq!(iter.peek_nth(1), Some(&'e'));
    assert_eq!(iter.peek_nth(0), Some(&'H'));
    assert_eq!(iter.peek_nth(7), Some(&'w'));
    assert_eq!(iter.next(), Some('H'));
    assert_eq!(iter.next(), Some('e'));
    assert_eq!(iter.peek(), Some(&'l'));
    assert_eq!(iter.peek_nth(10), Some(&'!'));
    assert_eq!(iter.peek_nth(11), None);
    assert_eq!(iter.peek_nth(usize::MAX), None);
    let mut rest = String::new();
    while let Some(ch) = iter.next() {
        rest.push(ch);
    }
    assert_eq!(rest, "llo, world!");
}

#[test]
fn try_collect_while() {
    let mut iter = "Hello, world!"
        .chars()
        .map(Ok as fn(char) -> Result<char, Infallible>)
        .collect::<Vec<_>>()
        .peekable_nth();

    let hello: Vec<_> = iter.try_collect_while(char::is_ascii_alphabetic).unwrap();
    assert_eq!(hello, ['H', 'e', 'l', 'l', 'o']);
    assert_eq!(iter.next(), Some(Ok(',')));

    let empty: Vec<_> = iter.try_collect_while(|_| false).unwrap();
    assert_eq!(empty, []);
    assert_eq!(iter.peek(), Some(&Ok(' ')));

    let space: Vec<_> = iter.try_collect_until(char::is_ascii_alphabetic).unwrap();
    assert_eq!(space, [' ']);
    assert_eq!(iter.peek(), Some(&Ok('w')));

    let world: String = iter.try_collect_while(|_| true).unwrap().into_iter().collect();
    assert_eq!(world, "world!");
    assert_eq!(iter.peek(), None);

    let empty: String = iter.try_collect_while(|_| true).unwrap().into_iter().collect();
    assert_eq!(empty, "");
    assert_eq!(iter.peek(), None);
}

#[test]
fn iter_next_back_takes_from_the_end() {
    let mut iter = vec![1, 2, 3].peekable_nth();
    assert_eq!(iter.peek_nth(1), Some(&2));
    assert_eq!(iter.next_back(), Some(3));
    assert_eq!(iter.next_back(), Some(2));
    assert_eq!(iter.next(), Some(1));
    assert_eq!(iter.next_back(), None);
    assert_eq!(iter.size_hint(), (0, Some(0)));
}

#[test]
fn iter_try_next_and_consume_str() {
    let mut iter = "let x"
        .chars()
        .map(Ok as fn(char) -> Result<char, Infallible>)
        .collect::<Vec<_>>()
        .peekable_nth();
    assert_eq!(iter.try_consume_str("lex"), Ok(false));
    assert_eq!(iter.try_consume_str("let"), Ok(true));
    assert_eq!(iter.try_next_if_eq(&' '), Ok(Some(' ')));
    assert_eq!(iter.try_next_if(|c| *c == 'y'), Ok(None));
    assert_eq!(iter.try_next(), Ok(Some('x')));
    assert_eq!(iter.try_next(), Ok(None));
}

#[test]
fn iter_errors_are_passed_on() {
    let mut iter = vec![Ok('a'), Err("broken"), Ok('b')].peekable_nth();
    assert_eq!(iter.try_peek_nth(0), Ok(Some(&'a')));
    // An error found ahead is taken out, together with every item before it.
    assert_eq!(iter.try_peek_nth(1), Err("broken"));
    assert_eq!(iter.try_next(), Ok(Some('b')));
    assert_eq!(iter.try_next(), Ok(None));

    let mut iter = vec![Ok('a'), Err("broken"), Ok('b')].peekable_nth();
    assert_eq!(iter.try_collect_while(|_| true), Err("broken"));
    assert_eq!(iter.try_next(), Ok(Some('b')));
}
