//! Where the targets come from: an ascending range of numeric ids or a list
//! of names, each turned into the address of its profile page.

use vstd::prelude::*;
use vstd::string::*;
use crate::text::{decimal, push_decimal};

verus! {

/// The total shown for a crawl by id without an upper bound. It is advisory:
/// such a crawl ends when the circuit breaker trips, not at this number.
pub const ESTIMATED_TOTAL: u64 = 819864;

/// The address of the profile page of the numeric id `id`.
pub open spec fn uid_url_text(id: u64) -> Seq<char> {
    "https://www.runeclan.com/uid/"@ + decimal(id as nat)
}

/// The address of the profile page of the user called `name`.
pub open spec fn user_url_text(name: Seq<char>) -> Seq<char> {
    "https://www.runeclan.com/user/"@ + name
}

/// The address of the profile page of the numeric id `id`.
pub fn uid_url(id: u64) -> (r: String)
    ensures
        r@ == uid_url_text(id),
{
    let mut out = String::from_str("https://www.runeclan.com/uid/");
    push_decimal(&mut out, id as u128);
    out
}

/// The address of the profile page of the user called `name`. The name goes
/// in as it is, without any escaping.
pub fn user_url(name: &str) -> (r: String)
    ensures
        r@ == user_url_text(name@),
{
    let mut out = String::from_str("https://www.runeclan.com/user/");
    out.append(name);
    out
}

/// A line without its line end: one line feed, and the carriage return
/// before it if there is one.
pub open spec fn line_content(s: Seq<char>) -> Seq<char> {
    if s.len() > 0 && s.last() == '\n' {
        let t = s.drop_last();
        if t.len() > 0 && t.last() == '\r' {
            t.drop_last()
        } else {
            t
        }
    } else {
        s
    }
}

/// Cuts the line end off a line, if it has one.
pub fn trim_line_end<'a>(line: &'a str) -> (r: &'a str)
    ensures
        r@ == line_content(line@),
{
    let n: usize = line.unicode_len();
    if n > 0 && line.get_char(n - 1) == '\n' {
        assert(line@.subrange(0, n - 1) =~= line@.drop_last());
        if n > 1 && line.get_char(n - 2) == '\r' {
            assert(line@.subrange(0, n - 2) =~= line@.drop_last().drop_last());
            line.substring_char(0, n - 2)
        } else {
            line.substring_char(0, n - 1)
        }
    } else {
        line
    }
}

/// The target for one line of a list of names, taken without its line end:
/// an empty line gives none.
pub fn name_target(line: &str) -> (r: Option<String>)
    ensures
        match r {
            Some(url) => line_content(line@).len() > 0 && url@ == user_url_text(
                line_content(line@),
            ),
            None => line_content(line@).len() == 0,
        },
{
    let name = trim_line_end(line);
    if name.unicode_len() == 0 {
        None
    } else {
        Some(user_url(name))
    }
}

/// The total declared for a list of names with `lines` line ends: one more,
/// for a last line without a line end.
pub fn names_total(lines: u64) -> (r: u64)
    requires
        lines < u64::MAX,
    ensures
        r == lines + 1,
{
    lines + 1
}

/// The ids from `min` up to `max`, or without end where there is no `max`,
/// handed out one at a time.
#[derive(Debug, Clone, Copy, PartialEq, Eq)]
pub struct IdSource {
    next: u64,
    max: Option<u64>,
    exhausted: bool,
}

/// The ids that a source will still hand out, as the first of them and the
/// last; `None` where none is left.
pub ghost struct IdSourceView {
    pub remaining: Option<(u64, u64)>,
    pub bounded: bool,
}

impl IdSourceView {
    /// The id that comes next, if one is left.
    pub open spec fn head(self) -> Option<u64> {
        match self.remaining {
            Some((first, _)) => Some(first),
            None => None,
        }
    }

    /// The source once that id is taken.
    pub open spec fn tail(self) -> IdSourceView {
        match self.remaining {
            Some((first, last)) => IdSourceView {
                remaining: if first < last {
                    Some(((first + 1) as u64, last))
                } else {
                    None
                },
                ..self
            },
            None => self,
        }
    }
}

impl View for IdSource {
    type V = IdSourceView;

    closed spec fn view(&self) -> IdSourceView {
        let last = match self.max {
            Some(m) => m,
            None => u64::MAX,
        };
        IdSourceView {
            remaining: if self.exhausted || self.next > last {
                None
            } else {
                Some((self.next, last))
            },
            bounded: self.max is Some,
        }
    }
}

/// The range from `min` to `last`, both included, if it holds anything.
pub open spec fn id_range(min: u64, last: u64) -> Option<(u64, u64)> {
    if min <= last {
        Some((min, last))
    } else {
        None
    }
}

impl IdSource {
    /// The ids `min, min + 1, ..`, up to and including `max` where one is given.
    pub fn new(min: u64, max: Option<u64>) -> (r: IdSource)
        ensures
            r@.bounded == max is Some,
            r@.remaining == id_range(
                min,
                match max {
                    Some(m) => m,
                    None => u64::MAX,
                },
            ),
    {
        IdSource { next: min, max: max, exhausted: false }
    }

    /// The next id, if one is left. Ids come in ascending order, each once.
    pub fn next_id(&mut self) -> (r: Option<u64>)
        ensures
            r == old(self)@.head(),
            final(self)@ == old(self)@.tail(),
    {
        let last: u64 = match self.max {
            Some(m) => m,
            None => u64::MAX,
        };
        if self.exhausted || self.next > last {
            self.exhausted = true;
            None
        } else {
            let id: u64 = self.next;
            if id < last {
                self.next = id + 1;
            } else {
                self.exhausted = true;
            }
            Some(id)
        }
    }

    /// The total to declare for progress: the length of the range where it
    /// has an upper bound, an estimate where it has none.
    pub fn progress_total(min: u64, max: Option<u64>) -> (r: u64)
        requires
            max matches Some(m) ==> min <= m && m - min < u64::MAX,
        ensures
            match max {
                Some(m) => r == m - min + 1,
                None => r == ESTIMATED_TOTAL,
            },
    {
        match max {
            Some(m) => m - min + 1,
            None => ESTIMATED_TOTAL,
        }
    }
}

/// What is left of a source after `k` more ids were asked of it.
pub open spec fn after_ids(s: IdSourceView, k: nat) -> IdSourceView
    decreases k,
{
    if k == 0 {
        s
    } else {
        after_ids(s.tail(), (k - 1) as nat)
    }
}

/// A range from `min` to `max` hands out exactly `max - min + 1` ids: after
/// that many, and not before, nothing is left.
pub proof fn lemma_range_length(first: u64, last: u64, bounded: bool, k: nat)
    requires
        first <= last,
    ensures
        k <= last - first ==> after_ids(
            IdSourceView { remaining: Some((first, last)), bounded },
            k,
        ).remaining == Some(((first + k) as u64, last)),
        k > last - first ==> after_ids(
            IdSourceView { remaining: Some((first, last)), bounded },
            k,
        ).remaining is None,
    decreases k,
{
    if k > 0 {
        if first < last {
            lemma_range_length((first + 1) as u64, last, bounded, (k - 1) as nat);
        } else {
            let done = IdSourceView { remaining: None, bounded };
            assert(after_ids(done, (k - 1) as nat).remaining is None) by {
                lemma_after_none(done, (k - 1) as nat);
            }
        }
    }
}

/// A source with nothing left stays so.
pub proof fn lemma_after_none(s: IdSourceView, k: nat)
    requires
        s.remaining is None,
    ensures
        after_ids(s, k) == s,
    decreases k,
{
    if k > 0 {
        lemma_after_none(s, (k - 1) as nat);
    }
}

} // verus!
