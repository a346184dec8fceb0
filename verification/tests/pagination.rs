use starwars::{
    paginate, query_characters, Connection, PageArguments, QueryError, QueryRoot, StarWarsChar,
};

fn letters() -> Vec<char> {
    vec!['a', 'b', 'c', 'd', 'e']
}

fn page(
    after: Option<&str>,
    before: Option<&str>,
    first: Option<i32>,
    last: Option<i32>,
) -> Result<Connection<char>, QueryError> {
    query_characters(
        after.map(String::from),
        before.map(String::from),
        first,
        last,
        &letters(),
        |c: &char| *c,
    )
}

fn cursors(page: &Connection<char>) -> Vec<usize> {
    page.edges.iter().map(|edge| edge.cursor).collect()
}

fn nodes(page: &Connection<char>) -> Vec<char> {
    page.edges.iter().map(|edge| edge.node).collect()
}

fn human(id: &str, name: &str) -> StarWarsChar {
    StarWarsChar {
        id: id.to_string(),
        name: name.to_string(),
        is_human: true,
        friends: vec![],
        appears_in: vec![],
        home_planet: None,
        primary_function: None,
    }
}

fn droid(id: &str, name: &str) -> StarWarsChar {
    StarWarsChar {
        id: id.to_string(),
        name: name.to_string(),
        is_human: false,
        friends: vec![],
        appears_in: vec![],
        home_planet: None,
        primary_function: Some("Astromech".to_string()),
    }
}

#[test]
fn no_arguments_show_everything() {
    let page = page(None, None, None, None).unwrap();
    assert_eq!(cursors(&page), vec![0, 1, 2, 3, 4]);
    assert_eq!(nodes(&page), vec!['a', 'b', 'c', 'd', 'e']);
    assert!(!page.has_previous_page);
    assert!(!page.has_next_page);
}

#[test]
fn after_starts_behind_the_cursor() {
    let page = page(Some("1"), None, None, None).unwrap();
    assert_eq!(cursors(&page), vec![2, 3, 4]);
    assert_eq!(nodes(&page), vec!['c', 'd', 'e']);
    assert!(page.has_previous_page);
    assert!(!page.has_next_page);
}

#[test]
fn before_ends_ahead_of_the_cursor() {
    let page = page(None, Some("3"), None, None).unwrap();
    assert_eq!(cursors(&page), vec![0, 1, 2]);
    assert!(!page.has_previous_page);
    assert!(page.has_next_page);
}

#[test]
fn after_and_before_bound_both_sides() {
    let page = page(Some("0"), Some("4"), None, None).unwrap();
    assert_eq!(cursors(&page), vec![1, 2, 3]);
    assert!(page.has_previous_page);
    assert!(page.has_next_page);
}

#[test]
fn first_keeps_the_leading_elements() {
    let page = page(Some("0"), None, Some(2), None).unwrap();
    assert_eq!(cursors(&page), vec![1, 2]);
    assert_eq!(nodes(&page), vec!['b', 'c']);
    assert!(page.has_previous_page);
    assert!(page.has_next_page);
}

#[test]
fn first_larger_than_the_window_keeps_it_all() {
    let page = page(Some("2"), None, Some(10), None).unwrap();
    assert_eq!(cursors(&page), vec![3, 4]);
    assert!(page.has_previous_page);
    assert!(!page.has_next_page);
}

#[test]
fn last_keeps_the_trailing_elements() {
    let page = page(None, Some("4"), None, Some(2)).unwrap();
    assert_eq!(cursors(&page), vec![2, 3]);
    assert_eq!(nodes(&page), vec!['c', 'd']);
    assert!(page.has_previous_page);
    assert!(page.has_next_page);
}

#[test]
fn last_larger_than_the_window_keeps_it_all() {
    let page = page(None, Some("2"), None, Some(7)).unwrap();
    assert_eq!(cursors(&page), vec![0, 1]);
    assert!(!page.has_previous_page);
    assert!(page.has_next_page);
}

#[test]
fn first_wins_over_last() {
    let page = page(None, None, Some(2), Some(1)).unwrap();
    assert_eq!(cursors(&page), vec![0, 1]);
    assert!(!page.has_previous_page);
    assert!(page.has_next_page);
}

#[test]
fn first_zero_shows_nothing_and_keeps_the_flags() {
    let at_start = page(None, None, Some(0), None).unwrap();
    assert!(at_start.edges.is_empty());
    assert!(!at_start.has_previous_page);
    assert!(at_start.has_next_page);

    let inside = page(Some("1"), None, Some(0), None).unwrap();
    assert!(inside.edges.is_empty());
    assert!(inside.has_previous_page);
    assert!(inside.has_next_page);

    let at_end = page(Some("4"), None, Some(0), None).unwrap();
    assert!(at_end.edges.is_empty());
    assert!(at_end.has_previous_page);
    assert!(!at_end.has_next_page);
}

#[test]
fn last_zero_shows_nothing_at_the_upper_bound() {
    let page = page(None, Some("3"), None, Some(0)).unwrap();
    assert!(page.edges.is_empty());
    assert!(page.has_previous_page);
    assert!(page.has_next_page);
}

#[test]
fn adjacent_cursors_show_nothing() {
    for k in 0..5usize {
        let page = page(Some(&k.to_string()), Some(&(k + 1).to_string()), None, None).unwrap();
        assert!(page.edges.is_empty());
        assert!(page.has_previous_page);
        assert_eq!(page.has_next_page, k + 1 < 5);
    }
}

#[test]
fn adjacent_cursors_beyond_the_end_clear_the_flags() {
    for k in 5..8usize {
        let page = page(Some(&k.to_string()), Some(&(k + 1).to_string()), None, None).unwrap();
        assert!(page.edges.is_empty());
        assert!(!page.has_previous_page);
        assert!(!page.has_next_page);
    }
}

#[test]
fn after_at_or_beyond_the_end_shows_nothing() {
    for after in ["5", "6", "1000"] {
        let page = page(Some(after), None, Some(2), None).unwrap();
        assert!(page.edges.is_empty());
        assert!(!page.has_previous_page);
        assert!(!page.has_next_page);
    }
}

#[test]
fn before_zero_shows_nothing() {
    let page = page(None, Some("0"), None, None).unwrap();
    assert!(page.edges.is_empty());
    assert!(!page.has_previous_page);
    assert!(!page.has_next_page);
}

#[test]
fn before_beyond_the_end_shows_nothing() {
    let page = page(None, Some("6"), None, None).unwrap();
    assert!(page.edges.is_empty());
    assert!(!page.has_previous_page);
    assert!(!page.has_next_page);
}

#[test]
fn before_at_the_end_bounds_nothing() {
    let page = page(None, Some("5"), None, None).unwrap();
    assert_eq!(cursors(&page), vec![0, 1, 2, 3, 4]);
    assert!(!page.has_previous_page);
    assert!(!page.has_next_page);
}

#[test]
fn crossing_cursors_show_nothing() {
    let plain = page(Some("3"), Some("1"), None, None).unwrap();
    assert!(plain.edges.is_empty());
    assert!(plain.has_previous_page);
    assert!(plain.has_next_page);

    let with_first = page(Some("4"), Some("1"), Some(1), None).unwrap();
    assert!(with_first.edges.is_empty());
    assert!(with_first.has_previous_page);
    assert!(!with_first.has_next_page);

    let with_last = page(Some("4"), Some("1"), None, Some(1)).unwrap();
    assert!(with_last.edges.is_empty());
    assert!(with_last.has_previous_page);
    assert!(with_last.has_next_page);
}

#[test]
fn negative_first_is_refused() {
    assert_eq!(page(None, None, Some(-1), None), Err(QueryError::InvalidArgument));
    assert_eq!(page(None, None, Some(i32::MIN), Some(3)), Err(QueryError::InvalidArgument));
}

#[test]
fn negative_last_is_refused() {
    assert_eq!(page(None, None, None, Some(-1)), Err(QueryError::InvalidArgument));
    assert_eq!(page(None, None, Some(2), Some(-5)), Err(QueryError::InvalidArgument));
}

#[test]
fn cursor_that_is_no_index_is_refused() {
    for text in ["", "+", "-", "-1", "abc", "1a", " 1", "1 ", "1_0", "0x10", "１"] {
        assert_eq!(page(Some(text), None, None, None), Err(QueryError::InvalidArgument));
        assert_eq!(page(None, Some(text), None, None), Err(QueryError::InvalidArgument));
    }
}

#[test]
fn cursor_too_large_for_an_index_is_refused() {
    let beyond = format!("{}0", usize::MAX);
    assert_eq!(page(Some(&beyond), None, None, None), Err(QueryError::InvalidArgument));
    let largest = usize::MAX.to_string();
    let page = page(Some(&largest), None, None, None).unwrap();
    assert!(page.edges.is_empty());
}

#[test]
fn cursor_may_carry_a_plus_sign_and_leading_zeros() {
    let signed = page(Some("+1"), None, None, None).unwrap();
    assert_eq!(cursors(&signed), vec![2, 3, 4]);
    let padded = page(Some("001"), Some("+004"), None, None).unwrap();
    assert_eq!(cursors(&padded), vec![2, 3]);
}

#[test]
fn empty_sequence_shows_nothing() {
    let none: Vec<char> = Vec::new();
    let page = query_characters(None, None, Some(3), None, &none, |c: &char| *c).unwrap();
    assert!(page.edges.is_empty());
    assert!(!page.has_previous_page);
    assert!(!page.has_next_page);
}

#[test]
fn paginate_takes_arguments_already_read() {
    let arguments = PageArguments { after: Some(0), before: Some(4), first: None, last: Some(2) };
    let page = paginate(arguments, &letters(), |c: &char| c.to_ascii_uppercase());
    assert_eq!(cursors(&page), vec![2, 3]);
    assert_eq!(nodes(&page), vec!['C', 'D']);
    assert!(page.has_previous_page);
    assert!(page.has_next_page);
}

#[test]
fn every_window_parts_the_sequence() {
    let all = letters();
    let cursor_choices: Vec<Option<usize>> =
        vec![None, Some(0), Some(1), Some(2), Some(3), Some(4), Some(5), Some(6)];
    let count_choices: Vec<Option<usize>> = vec![None, Some(0), Some(1), Some(2), Some(5), Some(9)];
    for after in &cursor_choices {
        for before in &cursor_choices {
            for first in &count_choices {
                for last in &count_choices {
                    let arguments =
                        PageArguments { after: *after, before: *before, first: *first, last: *last };
                    let page = paginate(arguments, &all, |c: &char| *c);
                    let shown = cursors(&page);
                    for pair in shown.windows(2) {
                        assert_eq!(pair[0] + 1, pair[1]);
                    }
                    for edge in &page.edges {
                        assert_eq!(edge.node, all[edge.cursor]);
                    }
                    let in_range = after.map_or(true, |a| a < all.len())
                        && before.map_or(true, |b| 0 < b && b <= all.len());
                    if !in_range {
                        assert!(shown.is_empty());
                        assert!(!page.has_previous_page);
                        assert!(!page.has_next_page);
                    } else if let (Some(start), Some(last_shown)) = (shown.first(), shown.last()) {
                        assert_eq!(page.has_previous_page, *start > 0);
                        assert_eq!(page.has_next_page, last_shown + 1 < all.len());
                    }
                }
            }
        }
    }
}

fn stepwise(
    len: usize,
    after: Option<usize>,
    before: Option<usize>,
    first: Option<usize>,
    last: Option<usize>,
) -> (Vec<usize>, bool, bool) {
    let mut start = 0usize;
    let mut end = len;
    if let Some(after) = after {
        if after >= len {
            return (vec![], false, false);
        }
        start = after + 1;
    }
    if let Some(before) = before {
        if before == 0 || before > len {
            return (vec![], false, false);
        }
        end = before;
    }
    let mut window: Vec<usize> = if start <= end { (start..end).collect() } else { vec![] };
    if let Some(first) = first {
        window.truncate(first.min(window.len()));
        end = start + window.len();
    } else if let Some(last) = last {
        let kept = last.min(window.len());
        window = window.split_off(window.len() - kept);
        start = end - window.len();
    }
    (window, start > 0, end < len)
}

#[test]
fn windows_follow_the_steps() {
    let choices: Vec<Option<usize>> = std::iter::once(None).chain((0..8).map(Some)).collect();
    for len in 0..7usize {
        let all: Vec<usize> = (0..len).collect();
        for after in &choices {
            for before in &choices {
                for first in &choices {
                    for last in &choices {
                        let arguments = PageArguments {
                            after: *after,
                            before: *before,
                            first: *first,
                            last: *last,
                        };
                        let page = paginate(arguments, &all, |index: &usize| *index);
                        let shown: Vec<usize> = page.edges.iter().map(|edge| edge.node).collect();
                        let cursors: Vec<usize> =
                            page.edges.iter().map(|edge| edge.cursor).collect();
                        let (window, previous, next) =
                            stepwise(len, *after, *before, *first, *last);
                        assert_eq!(shown, window);
                        assert_eq!(cursors, window);
                        assert_eq!(page.has_previous_page, previous);
                        assert_eq!(page.has_next_page, next);
                    }
                }
            }
        }
    }
}

#[test]
fn listing_twice_gives_the_same_page() {
    let characters = vec![
        human("1000", "Luke Skywalker"),
        droid("2000", "C-3PO"),
        human("1002", "Han Solo"),
        human("1003", "Leia Organa"),
    ];
    let root = QueryRoot;
    let one = root.humans(&characters, Some("0".to_string()), None, Some(2), None);
    let other = root.humans(&characters, Some("0".to_string()), None, Some(2), None);
    assert_eq!(one, other);
    let page = one.unwrap();
    assert_eq!(page.edges.len(), 2);
    assert_eq!(page.edges[0].cursor, 1);
    assert_eq!(page.edges[0].node.name(), "Han Solo");
    assert_eq!(page.edges[1].cursor, 2);
    assert_eq!(page.edges[1].node.name(), "Leia Organa");
}

#[test]
fn first_one_of_five_humans() {
    let characters = vec![
        human("1000", "Luke Skywalker"),
        human("1001", "Anakin Skywalker"),
        human("1002", "Han Solo"),
        human("1003", "Leia Organa"),
        human("1004", "Wilhuff Tarkin"),
    ];
    let page = QueryRoot.humans(&characters, None, None, Some(1), None).unwrap();
    assert_eq!(page.edges.len(), 1);
    assert_eq!(page.edges[0].cursor, 0);
    assert_eq!(page.edges[0].node.id(), "1000");
    assert!(page.has_next_page);
    assert!(!page.has_previous_page);
}

#[test]
fn humans_and_droids_are_listed_apart() {
    let characters = vec![
        human("1000", "Luke Skywalker"),
        droid("2000", "C-3PO"),
        human("1002", "Han Solo"),
        droid("2001", "R2-D2"),
    ];
    let humans = QueryRoot.humans(&characters, None, None, None, None).unwrap();
    let names: Vec<String> = humans.edges.iter().map(|edge| edge.node.name()).collect();
    assert_eq!(names, vec!["Luke Skywalker", "Han Solo"]);
    let cursors: Vec<usize> = humans.edges.iter().map(|edge| edge.cursor).collect();
    assert_eq!(cursors, vec![0, 1]);

    let droids = QueryRoot.droids(&characters, None, None, None, Some(1)).unwrap();
    assert_eq!(droids.edges.len(), 1);
    assert_eq!(droids.edges[0].cursor, 1);
    assert_eq!(droids.edges[0].node.name(), "R2-D2");
    assert_eq!(droids.edges[0].node.primary_function(), Some("Astromech".to_string()));
    assert!(droids.has_previous_page);
    assert!(!droids.has_next_page);
}

#[test]
fn listing_refuses_what_paging_refuses() {
    let characters = vec![human("1000", "Luke Skywalker")];
    assert_eq!(
        QueryRoot.humans(&characters, None, None, Some(-1), None),
        Err(QueryError::InvalidArgument)
    );
    assert_eq!(
        QueryRoot.droids(&characters, Some("x".to_string()), None, None, None),
        Err(QueryError::InvalidArgument)
    );
}
