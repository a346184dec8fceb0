//! Cursor-based windows over an ordered sequence.
//!
//! A cursor is the zero-based index of an element in the sequence that one
//! request sees. It is written in decimal wherever it travels as text.

use crate::decimal::{decimal_text, decimal_text_reads_back, digits_value};
use crate::error::QueryError;
use vstd::prelude::*;

verus! {

/// One element of a page together with its position in the whole sequence.
#[derive(Debug, PartialEq, Eq)]
pub struct Edge<T> {
    pub cursor: usize,
    pub node: T,
}

/// A page: the visible elements in sequence order, and whether elements lie
/// before the first and after the last of them.
#[derive(Debug, PartialEq, Eq)]
pub struct Connection<T> {
    pub edges: Vec<Edge<T>>,
    pub has_previous_page: bool,
    pub has_next_page: bool,
}

/// The four pagination arguments after their text has been read.
#[derive(Clone, Copy, Debug, PartialEq, Eq, Structural)]
pub struct PageArguments {
    pub after: Option<usize>,
    pub before: Option<usize>,
    pub first: Option<usize>,
    pub last: Option<usize>,
}

/// The part of a sequence that a page shows: the half-open index range
/// `start..end` and the two flags.
pub ghost struct Window {
    pub start: int,
    pub end: int,
    pub has_previous_page: bool,
    pub has_next_page: bool,
}

/// Both cursors, where given, point into a sequence of `len` elements:
/// `after` at an element, `before` behind at least one element and at most
/// at the end.
pub open spec fn cursors_in_range(len: nat, arguments: PageArguments) -> bool {
    &&& arguments.after matches Some(after) ==> after < len
    &&& arguments.before matches Some(before) ==> 0 < before <= len
}

/// The index of the first element behind `after`.
pub open spec fn lower_bound(arguments: PageArguments) -> int {
    match arguments.after {
        Some(after) => after + 1,
        None => 0,
    }
}

/// The index at which `before` ends the window.
pub open spec fn upper_bound(len: nat, arguments: PageArguments) -> int {
    match arguments.before {
        Some(before) => before as int,
        None => len as int,
    }
}

/// How many elements lie between the two bounds; none where they cross.
pub open spec fn available(len: nat, arguments: PageArguments) -> int {
    let span = upper_bound(len, arguments) - lower_bound(arguments);
    if span < 0 {
        0
    } else {
        span
    }
}

/// The smaller of a wanted count and the count at hand.
pub open spec fn at_most(wanted: Option<usize>, at_hand: int) -> int {
    match wanted {
        Some(count) if count < at_hand => count as int,
        _ => at_hand,
    }
}

/// The window that the arguments select from a sequence of `len` elements.
///
/// A cursor out of range selects nothing and clears both flags. Otherwise
/// `first` keeps the leading elements between the bounds; without `first`,
/// `last` keeps the trailing ones; `first` wins where both are given. Where
/// the bounds cross, the empty window lies at the bound that was kept.
pub open spec fn window(len: nat, arguments: PageArguments) -> Window {
    if !cursors_in_range(len, arguments) {
        Window { start: 0, end: 0, has_previous_page: false, has_next_page: false }
    } else {
        let (start, end) = if arguments.first is Some {
            let lower = lower_bound(arguments);
            (lower, lower + at_most(arguments.first, available(len, arguments)))
        } else {
            let upper = upper_bound(len, arguments);
            (upper - at_most(arguments.last, available(len, arguments)), upper)
        };
        Window { start, end, has_previous_page: start > 0, has_next_page: end < len }
    }
}

/// A page as plain values: each edge is its cursor and its node.
pub ghost struct Page<V> {
    pub edges: Seq<(usize, V)>,
    pub has_previous_page: bool,
    pub has_next_page: bool,
}

impl<T: DeepView> DeepView for Connection<T> {
    type V = Page<T::V>;

    open spec fn deep_view(&self) -> Page<T::V> {
        Page {
            edges: Seq::new(
                self.edges@.len(),
                |i: int| (self.edges@[i].cursor, self.edges@[i].node.deep_view()),
            ),
            has_previous_page: self.has_previous_page,
            has_next_page: self.has_next_page,
        }
    }
}

/// The page that shows the window `shown` of `items`: one edge for each index
/// of the window, in order, with that index as its cursor and the item there
/// as its node; and the window's flags.
pub open spec fn page_of<V>(items: Seq<V>, shown: Window) -> Page<V> {
    Page {
        edges: Seq::new(
            (shown.end - shown.start) as nat,
            |i: int| ((shown.start + i) as usize, items[shown.start + i]),
        ),
        has_previous_page: shown.has_previous_page,
        has_next_page: shown.has_next_page,
    }
}

/// A window lies within its sequence, whatever the arguments.
pub proof fn window_lies_within(len: nat, arguments: PageArguments)
    ensures
        0 <= window(len, arguments).start <= window(len, arguments).end <= len,
{
}

/// A window parts its sequence in three: what lies before it, what it shows
/// and what lies behind it; and the flags say whether the first and the last
/// part hold anything.
///
/// This holds where the cursors are in range, and of the empty sequence. A
/// cursor out of range of a sequence that holds something clears both flags
/// and shows nothing, though something lies before or behind.
pub proof fn window_parts_the_sequence<X>(characters: Seq<X>, arguments: PageArguments)
    requires
        cursors_in_range(characters.len(), arguments) || characters.len() == 0,
    ensures
        ({
            let shown = window(characters.len(), arguments);
            let len = characters.len() as int;
            &&& 0 <= shown.start <= shown.end <= len
            &&& characters == characters.subrange(0, shown.start) + characters.subrange(
                shown.start,
                shown.end,
            ) + characters.subrange(shown.end, len)
            &&& shown.has_previous_page == (shown.start > 0)
            &&& shown.has_next_page == (shown.end < len)
        }),
{
    let shown = window(characters.len(), arguments);
    let len = characters.len() as int;
    assert(characters =~= characters.subrange(0, shown.start) + characters.subrange(
        shown.start,
        shown.end,
    ) + characters.subrange(shown.end, len));
}

/// The cursor `k` as `after` and the cursor behind it as `before` leave
/// nothing between them, whatever `first` and `last` are.
pub proof fn adjacent_cursors_select_nothing(
    len: nat,
    k: usize,
    first: Option<usize>,
    last: Option<usize>,
)
    requires
        k < usize::MAX,
    ensures
        ({
            let shown = window(
                len,
                PageArguments { after: Some(k), before: Some((k + 1) as usize), first, last },
            );
            shown.start == shown.end
        }),
{
}

/// The cursor `k` as `after` and the cursor behind it as `before`, without
/// `first` and `last`, clear both flags where `k` lies at or beyond the end
/// of the sequence. Where `k` points at an element, the element itself lies
/// before the empty window, so the first flag is set; the second is set where
/// `k` does not point at the last element.
pub proof fn adjacent_cursors_flags(len: nat, k: usize)
    requires
        k < usize::MAX,
    ensures
        ({
            let shown = window(
                len,
                PageArguments {
                    after: Some(k),
                    before: Some((k + 1) as usize),
                    first: None,
                    last: None,
                },
            );
            &&& k >= len ==> !shown.has_previous_page && !shown.has_next_page
            &&& k < len ==> shown.has_previous_page && shown.has_next_page == (k + 1 < len)
        }),
{
}

/// With `first` at zero nothing is shown, and the flags are still those of
/// the place where the window lies: something lies before it where `after`
/// is given, and something lies behind it unless `after` points at the last
/// element. This holds where the cursors are in range; a cursor out of range
/// clears both flags.
pub proof fn first_zero_selects_nothing(len: nat, arguments: PageArguments)
    requires
        arguments.first == Some(0usize),
    ensures
        ({
            let shown = window(len, arguments);
            &&& shown.start == shown.end
            &&& cursors_in_range(len, arguments) ==> {
                &&& shown.start == lower_bound(arguments)
                &&& shown.has_previous_page == (arguments.after is Some)
                &&& shown.has_next_page == (lower_bound(arguments) < len)
            }
            &&& !cursors_in_range(len, arguments) ==> !shown.has_previous_page
                && !shown.has_next_page
        }),
{
}

/// `page` shows exactly the window `shown` of `characters`: one edge for each
/// index of the window, in order, with that index as its cursor and a node
/// that `map_to` made of the element there; and the window's flags.
pub open spec fn shows<X, T, F: Fn(&X) -> T>(
    page: Connection<T>,
    characters: Seq<X>,
    shown: Window,
    map_to: F,
) -> bool {
    &&& page.has_previous_page == shown.has_previous_page
    &&& page.has_next_page == shown.has_next_page
    &&& page.edges@.len() == shown.end - shown.start
    &&& forall|i: int|
        0 <= i < page.edges@.len() ==> {
            &&& (#[trigger] page.edges@[i]).cursor == shown.start + i
            &&& call_ensures(map_to, (&characters[shown.start + i],), page.edges@[i].node)
        }
}

/// The index that a cursor's text stands for: an optional `+`, then at least
/// one decimal digit and nothing else, the number no larger than `usize::MAX`.
pub open spec fn cursor_index(text: Seq<char>) -> Option<usize> {
    let digits = if text.len() > 0 && text[0] == '+' {
        text.subrange(1, text.len() as int)
    } else {
        text
    };
    if digits.len() == 0 {
        None
    } else {
        match digits_value(digits) {
            Some(index) if index <= usize::MAX => Some(index as usize),
            _ => None,
        }
    }
}

/// A cursor written in decimal stands for itself.
pub proof fn cursor_text_reads_back(cursor: usize)
    ensures
        cursor_index(decimal_text(cursor as nat)) == Some(cursor),
{
    decimal_text_reads_back(cursor as nat);
}

/// A cursor argument is acceptable where it is absent or stands for an index.
pub open spec fn cursor_accepted(cursor: Option<Seq<char>>) -> bool {
    cursor matches Some(text) ==> cursor_index(text) is Some
}

/// The index of a cursor argument.
pub open spec fn cursor_read(cursor: Option<Seq<char>>) -> Option<usize> {
    match cursor {
        Some(text) => cursor_index(text),
        None => None,
    }
}

/// A count argument is acceptable where it is absent or not negative.
pub open spec fn count_accepted(count: Option<i32>) -> bool {
    count matches Some(n) ==> n >= 0
}

/// The count of a count argument.
pub open spec fn count_read(count: Option<i32>) -> Option<usize> {
    match count {
        Some(n) => Some(n as usize),
        None => None,
    }
}

/// The four arguments can be read: no count is negative and each cursor
/// stands for an index.
pub open spec fn arguments_accepted(
    after: Option<Seq<char>>,
    before: Option<Seq<char>>,
    first: Option<i32>,
    last: Option<i32>,
) -> bool {
    &&& count_accepted(first)
    &&& count_accepted(last)
    &&& cursor_accepted(before)
    &&& cursor_accepted(after)
}

/// What the four arguments say once read.
pub open spec fn arguments_read(
    after: Option<Seq<char>>,
    before: Option<Seq<char>>,
    first: Option<i32>,
    last: Option<i32>,
) -> PageArguments {
    PageArguments {
        after: cursor_read(after),
        before: cursor_read(before),
        first: count_read(first),
        last: count_read(last),
    }
}

/// The error of `async_graphql`: carried from the call that gives it to the
/// place that drops it, and never looked into.
#[verifier::external_type_specification]
#[verifier::external_body]
pub struct ExGraphqlError(async_graphql::Error);

/// Reads the four pagination arguments with `async_graphql::connection::query_with`.
///
/// Trusted, not proved: `query_with` refuses a negative `first` or `last`, reads
/// each cursor with `usize`'s `CursorType::decode_cursor`, which is `str::parse`,
/// and refuses a cursor that does not parse. It then hands the four values to
/// the closure, which here keeps them as they are, and returns what the closure
/// returned. The future it gives is finished at its first poll, since the
/// closure's future is.
#[verifier::external_body]
fn parse_arguments(
    after: Option<String>,
    before: Option<String>,
    first: Option<i32>,
    last: Option<i32>,
) -> (read: Result<PageArguments, async_graphql::Error>)
    ensures
        read is Ok <==> arguments_accepted(after.deep_view(), before.deep_view(), first, last),
        read matches Ok(arguments) ==> arguments == arguments_read(
            after.deep_view(),
            before.deep_view(),
            first,
            last,
        ),
{
    let reading = async_graphql::connection::query_with(
        after,
        before,
        first,
        last,
        |after: Option<usize>, before: Option<usize>, first: Option<usize>, last: Option<usize>|
            core::future::ready(
                Ok::<PageArguments, async_graphql::Error>(
                    PageArguments { after, before, first, last },
                ),
            ),
    );
    futures::FutureExt::now_or_never(reading).unwrap()
}

/// Reads the pagination arguments, cuts the window they select out of
/// `characters` and turns each element of it into a node.
///
/// Fails with `InvalidArgument`, and only so, where `first` or `last` is
/// negative or a cursor's text stands for no index.
pub fn query_characters<X, T, F: Fn(&X) -> T>(
    after: Option<String>,
    before: Option<String>,
    first: Option<i32>,
    last: Option<i32>,
    characters: &[X],
    map_to: F,
) -> (found: Result<Connection<T>, QueryError>)
    requires
        forall|i: int| 0 <= i < characters@.len() ==> call_requires(map_to, (&characters@[i],)),
    ensures
        found is Ok <==> arguments_accepted(after.deep_view(), before.deep_view(), first, last),
        found matches Err(error) ==> error == QueryError::InvalidArgument,
        found matches Ok(page) ==> shows(
            page,
            characters@,
            window(
                characters@.len(),
                arguments_read(after.deep_view(), before.deep_view(), first, last),
            ),
            map_to,
        ),
{
    match parse_arguments(after, before, first, last) {
        Ok(arguments) => Ok(paginate(arguments, characters, map_to)),
        Err(_) => Err(QueryError::InvalidArgument),
    }
}

/// Cuts the window that `arguments` select out of `characters` and turns each
/// element of it into a node.
pub fn paginate<X, T, F: Fn(&X) -> T>(
    arguments: PageArguments,
    characters: &[X],
    map_to: F,
) -> (page: Connection<T>)
    requires
        forall|i: int| 0 <= i < characters@.len() ==> call_requires(map_to, (&characters@[i],)),
    ensures
        shows(page, characters@, window(characters@.len(), arguments), map_to),
{
    let len: usize = characters.len();
    let after_outside: bool = match arguments.after {
        Some(after) => after >= len,
        None => false,
    };
    let before_outside: bool = match arguments.before {
        Some(before) => before == 0 || before > len,
        None => false,
    };
    if after_outside || before_outside {
        return Connection { edges: Vec::new(), has_previous_page: false, has_next_page: false };
    }
    let lower: usize = match arguments.after {
        Some(after) => after + 1,
        None => 0,
    };
    let upper: usize = match arguments.before {
        Some(before) => before,
        None => len,
    };
    let between: usize = if lower <= upper {
        upper - lower
    } else {
        0
    };
    let start: usize;
    let end: usize;
    match arguments.first {
        Some(first) => {
            start = lower;
            end = if first < between {
                lower + first
            } else {
                lower + between
            };
        },
        None => {
            let kept: usize = match arguments.last {
                Some(last) => if last < between {
                    last
                } else {
                    between
                },
                None => between,
            };
            start = upper - kept;
            end = upper;
        },
    }
    let mut edges: Vec<Edge<T>> = Vec::new();
    let mut at: usize = start;
    while at < end
        invariant
            start <= at <= end <= len,
            len == characters@.len(),
            edges@.len() == at - start,
            forall|i: int| 0 <= i < characters@.len() ==> call_requires(map_to, (&characters@[i],)),
            forall|i: int|
                0 <= i < edges@.len() ==> {
                    &&& (#[trigger] edges@[i]).cursor == start + i
                    &&& call_ensures(map_to, (&characters@[start + i],), edges@[i].node)
                },
        decreases end - at,
    {
        let node = map_to(&characters[at]);
        edges.push(Edge { cursor: at, node });
        at = at + 1;
    }
    Connection { edges, has_previous_page: start > 0, has_next_page: end < len }
}

} // verus!
