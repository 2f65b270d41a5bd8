use mini_compiler::general::{FreeMonoid, Monoid, SemiGroup, TryReader};
use mini_compiler::sourcecode::{Code, Position, Span};

fn span(first_line: usize, first_column: usize, last_line: usize, last_column: usize) -> Span {
    Span {
        start: Position { line: first_line, pos: first_column },
        end: Position { line: last_line, pos: last_column },
    }
}

#[test]
fn span_new_covers_length_columns() {
    assert_eq!(Span::new(3, 4, 5), span(3, 4, 3, 9));
    assert_eq!(Span::new(0, 0, 0), span(0, 0, 0, 0));
}

#[test]
fn merging_a_span_with_itself_changes_nothing() {
    let a = span(1, 2, 3, 4);
    assert_eq!(a.plus(&a), a);
}

#[test]
fn merge_takes_earliest_start_and_latest_end() {
    let a = span(1, 5, 2, 1);
    let b = span(0, 9, 1, 7);
    assert_eq!(a.plus(&b), span(0, 9, 2, 1));
    assert_eq!(b.plus(&a), span(0, 9, 2, 1));
    let c = span(1, 6, 1, 8);
    assert_eq!(a.plus(&c), a);
    assert_eq!(a.plus(&b).plus(&c), a.plus(&b.plus(&c)));
}

#[test]
fn positions_order_by_line_then_column() {
    let a = Position { line: 1, pos: 9 };
    let b = Position { line: 2, pos: 0 };
    assert!(a.is_before_or_at(&b));
    assert!(!b.is_before_or_at(&a));
    assert!(a.is_before_or_at(&a));
    assert_eq!(a.first_of(&b), a);
    assert_eq!(a.last_of(&b), b);
    assert!(a < b);
    assert_eq!(Position { line: 1, pos: 3 }.first_of(&Position { line: 1, pos: 2 }), Position { line: 1, pos: 2 });
}

#[test]
fn free_monoid_adds_a_neutral_element() {
    let a = span(0, 1, 0, 2);
    let b = span(0, 5, 0, 6);
    let zero: FreeMonoid<Span> = FreeMonoid::zero();
    assert!(zero.get().is_none());
    assert_eq!(zero.plus(&FreeMonoid::Value(a)).get(), Some(&a));
    assert_eq!(FreeMonoid::Value(a).plus(&FreeMonoid::zero()).get(), Some(&a));
    assert_eq!(FreeMonoid::Value(a).plus(&FreeMonoid::Value(b)).get(), Some(&span(0, 1, 0, 6)));
    assert!(zero.plus(&FreeMonoid::zero()).get().is_none());
}

#[test]
fn code_map_keeps_the_span() {
    let code = Code { value: 20, span: Span::new(1, 2, 3) };
    let doubled = code.map(|n| n * 2);
    assert_eq!(doubled.value, 40);
    assert_eq!(doubled.span, Span::new(1, 2, 3));
    let named = code.map_const("x".to_string());
    assert_eq!(named.value, "x");
    assert_eq!(named.span, Span::new(1, 2, 3));
}

#[test]
fn reader_next_and_peek() {
    let items = vec![10, 20];
    let mut reader = TryReader::new(&items);
    assert!(reader.has_next());
    assert_eq!(reader.peek(), Some(&10));
    assert_eq!(reader.offset(), 0);
    assert_eq!(reader.next(), Some(&10));
    assert_eq!(reader.next(), Some(&20));
    assert!(!reader.has_next());
    assert_eq!(reader.next(), None);
    assert_eq!(reader.peek(), None);
    assert_eq!(reader.offset(), 2);
    reader.rewind(1);
    assert_eq!(reader.next(), Some(&20));
}

#[test]
fn reader_try_commits_only_on_success() {
    let items = vec![1, 2, 3];
    let mut reader = TryReader::new(&items);
    let failed: Result<(usize, ()), i32> = reader.try_(|r| {
        r.next();
        r.next();
        Err(7)
    });
    assert_eq!(failed, Err(7));
    assert_eq!(reader.offset(), 0);
    let done: Result<(usize, i32), ()> = reader.try_(|r| {
        let a = *r.next().unwrap();
        let b = *r.next().unwrap();
        Ok(a + b)
    });
    assert_eq!(done, Ok((2, 3)));
    assert_eq!(reader.offset(), 2);
}

#[test]
fn reader_try_next_moves_only_on_success() {
    let items = vec![1, 2];
    let mut reader = TryReader::new(&items);
    let rejected: Result<i32, Option<&str>> = reader.try_next(|_| Err("no"));
    assert_eq!(rejected, Err(Some("no")));
    assert_eq!(reader.offset(), 0);
    let taken: Result<i32, Option<&str>> = reader.try_next(|n| Ok(*n * 10));
    assert_eq!(taken, Ok(10));
    assert_eq!(reader.offset(), 1);
    reader.next();
    let exhausted: Result<i32, Option<&str>> = reader.try_next(|n| Ok(*n));
    assert_eq!(exhausted, Err(None));
}

#[test]
fn reader_drop_while_stops_at_the_first_rejected() {
    let items = vec![0, 0, 5, 0];
    let mut reader = TryReader::new(&items);
    reader.drop_while(|n| *n == 0);
    assert_eq!(reader.offset(), 2);
    reader.drop_while(|n| *n == 0);
    assert_eq!(reader.offset(), 2);
    reader.drop_while(|n| *n < 10);
    assert_eq!(reader.offset(), 4);
}

#[test]
fn span_part_on_each_of_its_lines() {
    let one = Span::new(2, 3, 4);
    assert_eq!(one.on_line_of_length(2, 20), Some((3, 4)));
    assert_eq!(one.on_line_of_length(1, 20), None);
    assert_eq!(one.on_line_of_length(3, 20), None);
    assert_eq!(one.on_line_of_length(2, 5), Some((3, 2)));
    assert_eq!(one.on_line_of_length(2, 2), Some((2, 0)));
    let many = span(1, 4, 3, 2);
    assert_eq!(many.on_line_of_length(1, 10), Some((4, 6)));
    assert_eq!(many.on_line_of_length(2, 7), Some((0, 7)));
    assert_eq!(many.on_line_of_length(3, 9), Some((0, 2)));
    assert_eq!(many.on_line_of_length(0, 9), None);
    let backwards = span(1, 6, 1, 2);
    assert_eq!(backwards.on_line_of_length(1, 10), Some((6, 0)));
}
