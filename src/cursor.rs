//! A lazy cursor over a collection that the server hands out page by page,
//! each page naming the next one in its `Link` header.
//!
//! The cursor decides; its owner performs the fetches. `next_step` either
//! yields a buffered item, asks for the page at the current link, or reports
//! the end. The owner hands the fetched page back to `receive_page`.
//!
//! A page that cannot be fetched or whose body is not JSON ends the
//! sequence: no error reaches the consumer of the items, but
//! `ended_by_failure` tells such an end from a natural one.
use crate::link::{next_link_of, parse_next_link};
use crate::trusted::{is_valid_url, json_document, parse_json_document, url_parses};
use serde_json::Value;
use vstd::prelude::*;

verus! {

/// What the cursor holds, as the contracts see it.
pub ghost struct CursorModel {
    /// The page to fetch once the buffered items are used up.
    pub link: Option<Seq<char>>,
    /// The buffered items, in the order they will be yielded.
    pub pending: Seq<Value>,
    /// Whether the sequence was cut short by a failed fetch or body.
    pub aborted: bool,
}

/// What one step of the cursor does.
pub enum CursorStep {
    /// The next item of the sequence.
    Item(Value),
    /// The owner is to fetch this URL and hand the page to `receive_page`.
    Fetch(String),
    /// The sequence is over, now and on every later step.
    Finished,
}

/// What one step does, as the contracts see it.
pub ghost enum StepOutcome {
    Item(Value),
    Fetch(Seq<char>),
    Finished,
}

pub open spec fn is_exhausted(m: CursorModel) -> bool {
    m.pending.len() == 0 && m.link is None
}

/// The state after a step and what the step yields.
pub open spec fn step_model(m: CursorModel) -> (CursorModel, StepOutcome) {
    if m.pending.len() > 0 {
        (CursorModel { pending: m.pending.drop_first(), ..m }, StepOutcome::Item(m.pending[0]))
    } else {
        match m.link {
            Some(l) => (m, StepOutcome::Fetch(l)),
            None => (m, StepOutcome::Finished),
        }
    }
}

/// The outcomes of `n` steps taken without handing a page back.
pub open spec fn run_steps(m: CursorModel, n: nat) -> (CursorModel, Seq<StepOutcome>)
    decreases n,
{
    if n == 0 {
        (m, Seq::empty())
    } else {
        let (m1, o) = step_model(m);
        let (m2, rest) = run_steps(m1, (n - 1) as nat);
        (m2, seq![o].add(rest))
    }
}

/// The link to the next page after a page with this `Link` header: the
/// header's next-page target when there is one and it is a URL.
pub open spec fn link_after(header: Option<Seq<char>>) -> Option<Seq<char>> {
    match header {
        Some(h) => match next_link_of(h) {
            Some(u) => if url_parses(u) {
                Some(u)
            } else {
                None
            },
            None => None,
        },
        None => None,
    }
}

/// The link to follow after the page at `current`: a page that names itself
/// as the next one ends the sequence instead of being fetched forever.
pub open spec fn link_following(current: Option<Seq<char>>, header: Option<Seq<char>>) -> Option<
    Seq<char>,
> {
    if link_after(header) == current {
        None
    } else {
        link_after(header)
    }
}

/// The state after a page arrives: `items` is `None` when the page could not
/// be fetched or read as JSON.
pub open spec fn page_model(m: CursorModel, header: Option<Seq<char>>, items: Option<Seq<Value>>) -> CursorModel {
    match items {
        Some(v) => CursorModel { link: link_following(m.link, header), pending: m.pending + v, aborted: m.aborted },
        None => CursorModel { link: None, pending: m.pending, aborted: true },
    }
}

/// The items of a page whose body is `body`: none when the body is not
/// JSON; the elements of an array in order; any other value as the page's
/// only item.
pub open spec fn page_items(body: Seq<char>) -> Option<Seq<Value>> {
    match json_document(body) {
        None => None,
        Some(Ok(items)) => Some(items),
        Some(Err(value)) => Some(seq![value]),
    }
}

/// The items a fetched page gives: `None` when it could not be fetched.
pub open spec fn fetched_items(body: Option<&str>) -> Option<Seq<Value>> {
    match body {
        Some(b) => page_items(b@),
        None => None,
    }
}

pub open spec fn outcome_of(s: CursorStep) -> StepOutcome {
    match s {
        CursorStep::Item(v) => StepOutcome::Item(v),
        CursorStep::Fetch(u) => StepOutcome::Fetch(u@),
        CursorStep::Finished => StepOutcome::Finished,
    }
}

pub open spec fn opt_view(s: Option<&str>) -> Option<Seq<char>> {
    match s {
        Some(t) => Some(t@),
        None => None,
    }
}

/// The cursor's traversal state.
pub struct PaginatedList {
    current_link: Option<String>,
    /// Buffered items, last to be yielded first.
    cur_buf: Vec<Value>,
    aborted: bool,
}

impl View for PaginatedList {
    type V = CursorModel;

    closed spec fn view(&self) -> CursorModel {
        CursorModel {
            link: match self.current_link {
                Some(l) => Some(l@),
                None => None,
            },
            pending: Seq::new(
                self.cur_buf@.len(),
                |i: int| self.cur_buf@[self.cur_buf@.len() - 1 - i],
            ),
            aborted: self.aborted,
        }
    }
}

/// A cursor that has ended yields nothing more, however often it is asked.
pub proof fn exhausted_cursor_stays_finished(m: CursorModel, n: nat)
    requires
        is_exhausted(m),
    ensures
        run_steps(m, n).0 == m,
        run_steps(m, n).1 == Seq::new(n, |i: int| StepOutcome::Finished),
    decreases n,
{
    if n > 0 {
        exhausted_cursor_stays_finished(m, (n - 1) as nat);
        assert(run_steps(m, n).1 =~= Seq::new(n, |i: int| StepOutcome::Finished));
    } else {
        assert(run_steps(m, n).1 =~= Seq::new(n, |i: int| StepOutcome::Finished));
    }
}

/// A cursor whose first page cannot be fetched asks for that page, then
/// yields no item at all and reports the end on every later step.
pub proof fn failed_first_fetch_yields_nothing(link: Seq<char>, header: Option<Seq<char>>, n: nat)
    ensures
        ({
            let start = CursorModel { link: Some(link), pending: Seq::empty(), aborted: false };
            let after = page_model(step_model(start).0, header, None);
            &&& step_model(start).1 == StepOutcome::Fetch(link)
            &&& is_exhausted(after)
            &&& after.aborted
            &&& run_steps(after, n).1 == Seq::new(n, |i: int| StepOutcome::Finished)
        }),
{
    let start = CursorModel { link: Some(link), pending: Seq::empty(), aborted: false };
    let after = page_model(step_model(start).0, header, None);
    exhausted_cursor_stays_finished(after, n);
}

/// With no page left to fetch, the buffered items come out one per step in
/// their order, and then the end is reported on every later step.
pub proof fn last_page_items_come_out_in_order(m: CursorModel, n: nat)
    requires
        m.link is None,
    ensures
        run_steps(m, m.pending.len() + n).1 == m.pending.map_values(|v: Value| StepOutcome::Item(v))
            + Seq::new(n, |i: int| StepOutcome::Finished),
        is_exhausted(run_steps(m, m.pending.len() + n).0),
    decreases m.pending.len(),
{
    if m.pending.len() == 0 {
        exhausted_cursor_stays_finished(m, n);
        assert(m.pending.map_values(|v: Value| StepOutcome::Item(v)) =~= Seq::<StepOutcome>::empty());
        assert(run_steps(m, m.pending.len() + n).1 =~= Seq::<StepOutcome>::empty() + Seq::new(
            n,
            |i: int| StepOutcome::Finished,
        ));
    } else {
        let next = step_model(m).0;
        last_page_items_come_out_in_order(next, n);
        assert((m.pending.len() + n) as nat - 1 == next.pending.len() + n);
        assert(m.pending.map_values(|v: Value| StepOutcome::Item(v)) =~= seq![
            StepOutcome::Item(m.pending[0]),
        ] + next.pending.map_values(|v: Value| StepOutcome::Item(v)));
        assert(run_steps(m, m.pending.len() + n).1 =~= seq![StepOutcome::Item(m.pending[0])]
            + run_steps(next, next.pending.len() + n).1);
    }
}

/// A first page whose body is one JSON value other than an array, and whose
/// header names no next page, yields exactly that value and then reports the
/// end on every later step.
pub proof fn single_value_page_yields_it_once(
    link: Seq<char>,
    header: Option<Seq<char>>,
    body: Seq<char>,
    value: Value,
    n: nat,
)
    requires
        json_document(body) == Some(Err::<Seq<Value>, Value>(value)),
        link_after(header) is None,
    ensures
        ({
            let start = CursorModel { link: Some(link), pending: Seq::empty(), aborted: false };
            let fetched = page_model(step_model(start).0, header, page_items(body));
            &&& step_model(start).1 == StepOutcome::Fetch(link)
            &&& run_steps(fetched, n + 1).1 == seq![StepOutcome::Item(value)] + Seq::new(
                n,
                |i: int| StepOutcome::Finished,
            )
        }),
{
    let start = CursorModel { link: Some(link), pending: Seq::empty(), aborted: false };
    let fetched = page_model(step_model(start).0, header, page_items(body));
    assert(fetched.pending =~= seq![value]);
    let after = step_model(fetched).0;
    assert(after.pending =~= Seq::<Value>::empty());
    exhausted_cursor_stays_finished(after, n);
    assert(run_steps(fetched, n + 1).1 =~= seq![StepOutcome::Item(value)] + run_steps(after, n).1);
}

impl PaginatedList {
    /// A cursor whose first page is at `link`.
    pub fn new(link: String) -> (r: PaginatedList)
        ensures
            r@ == (CursorModel { link: Some(link@), pending: Seq::empty(), aborted: false }),
    {
        let r = PaginatedList { current_link: Some(link), cur_buf: Vec::new(), aborted: false };
        assert(r@.pending =~= Seq::<Value>::empty());
        r
    }

    /// Whether the sequence has ended: nothing buffered and no page to fetch.
    pub fn is_finished(&self) -> (r: bool)
        ensures
            r == is_exhausted(self@),
    {
        self.cur_buf.len() == 0 && self.current_link.is_none()
    }

    /// Whether a failed fetch or an unreadable page ended the sequence early.
    pub fn ended_by_failure(&self) -> (r: bool)
        ensures
            r == self@.aborted,
    {
        self.aborted
    }

    /// Takes one step: yields the next buffered item, or asks for the page at
    /// the current link when nothing is buffered, or reports the end.
    pub fn next_step(&mut self) -> (r: CursorStep)
        ensures
            (final(self)@, outcome_of(r)) == step_model(old(self)@),
    {
        match self.cur_buf.pop() {
            Some(v) => {
                assert(final(self)@.pending =~= old(self)@.pending.drop_first());
                CursorStep::Item(v)
            },
            None => match &self.current_link {
                Some(l) => CursorStep::Fetch(l.clone()),
                None => CursorStep::Finished,
            },
        }
    }

    /// Takes in a fetched page: `link_header` is the text of its `Link`
    /// header, if it had a readable one, and `items` its items, or `None`
    /// when the page could not be fetched or its body was not JSON.
    pub fn accept_page(&mut self, link_header: Option<&str>, items: Option<Vec<Value>>)
        ensures
            final(self)@ == page_model(old(self)@, opt_view(link_header), match items {
                Some(v) => Some(v@),
                None => None,
            }),
    {
        match items {
            Some(mut v) => {
                let ghost page = v@;
                let ghost old_pending = self@.pending;
                let mut rev: Vec<Value> = Vec::new();
                while v.len() > 0
                    invariant
                        v@.len() + rev@.len() == page.len(),
                        v@ == page.subrange(0, v@.len() as int),
                        forall|i: int| 0 <= i < rev@.len() ==> rev@[i] == page[page.len() - 1 - i],
                    decreases v@.len(),
                {
                    let x = v.pop().unwrap();
                    rev.push(x);
                }
                let mut old_buf = Vec::new();
                std::mem::swap(&mut old_buf, &mut self.cur_buf);
                rev.append(&mut old_buf);
                self.cur_buf = rev;
                assert(self@.pending =~= old_pending + page);
                let next = next_page_link(link_header);
                let repeats = match &next {
                    Some(n) => match &self.current_link {
                        Some(c) => *n == *c,
                        None => false,
                    },
                    None => false,
                };
                self.current_link = if repeats {
                    None
                } else {
                    next
                };
            },
            None => {
                self.current_link = None;
                self.aborted = true;
            },
        }
    }

    /// Takes in a fetched page whose body is given as text: the body is read
    /// as JSON, an array giving its elements as items and any other value
    /// being the page's only item.
    pub fn receive_page(&mut self, link_header: Option<&str>, body: Option<&str>)
        ensures
            final(self)@ == page_model(old(self)@, opt_view(link_header), fetched_items(body)),
    {
        let items = match body {
            Some(b) => match parse_json_document(b) {
                Some(Ok(elements)) => Some(elements),
                Some(Err(value)) => {
                    let mut single: Vec<Value> = Vec::new();
                    single.push(value);
                    assert(single@ =~= seq![value]);
                    Some(single)
                },
                None => None,
            },
            None => None,
        };
        self.accept_page(link_header, items);
    }
}

/// The link that a page's `Link` header gives to the next page.
fn next_page_link(link_header: Option<&str>) -> (r: Option<String>)
    ensures
        match r {
            Some(u) => link_after(opt_view(link_header)) == Some(u@),
            None => link_after(opt_view(link_header)) is None,
        },
{
    match link_header {
        Some(h) => match parse_next_link(h) {
            Some(u) => if is_valid_url(u.as_str()) {
                Some(u)
            } else {
                None
            },
            None => None,
        },
        None => None,
    }
}

} // verus!
