use rox::ast::span::Span;

#[test]
fn span_new_keeps_both_ends() {
    let span = Span::new(2, 5);
    assert_eq!(span.from, 2);
    assert_eq!(span.to, 5);
}

#[test]
fn span_start_and_end_move_one_end_each() {
    let span = Span::default().start(4).end(9);
    assert_eq!(span, Span::new(4, 9));
    assert_eq!(Span::new(1, 8).start(3), Span::new(3, 8));
    assert_eq!(Span::new(1, 8).end(1), Span::new(1, 1));
    assert_eq!(Span::default(), Span::new(0, 0));
}
