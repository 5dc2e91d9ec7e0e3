//! Paging through a Kubernetes list: which page to fetch next and when to
//! stop, guarding against an API that repeats itself.

use vstd::prelude::*;
use crate::text::copy_opt_string;

verus! {

/// Most pages fetched by one listing; reaching it ends the listing.
pub const MAX_REASONABLE_PAGES: usize = 10000;

/// The continue token an API response carries, with an empty token read
/// as none (the API may send `""` on the last page).
pub open spec fn normalized_token(token: Option<Seq<char>>) -> Option<Seq<char>> {
    match token {
        Some(t) => if t.len() == 0 {
            None
        } else {
            Some(t)
        },
        None => None,
    }
}

/// A continue token with an empty token read as none.
pub fn normalize_continue_token(token: Option<String>) -> (r: Option<String>)
    ensures
        r.deep_view() == normalized_token(token.deep_view()),
{
    match token {
        Some(t) => {
            if t.unicode_len() == 0 {
                None
            } else {
                Some(t)
            }
        },
        None => None,
    }
}

/// What to do after a page arrived.
#[derive(Debug, PartialEq)]
pub enum PageStep {
    /// Keep the page's items and fetch the next page with this token.
    Continue(String),
    /// Keep the page's items; the listing is complete.
    Done,
    /// Keep the page's items and stop: the page limit was reached.
    LimitReached,
    /// Drop the page and stop: the API sent the previous token again.
    RepeatedToken,
    /// Drop the page and stop: an empty page came with a continue token.
    EmptyPageWithToken,
}

/// Progress of one listing.
pub struct Paginator {
    /// Pages fetched so far.
    pub page_count: usize,
    /// The continue token of the last page kept, if any.
    pub last_continue_token: Option<String>,
}

impl Paginator {
    /// A listing that has fetched nothing yet.
    pub fn new() -> (r: Self)
        ensures
            r.page_count == 0,
            r.last_continue_token is None,
    {
        Paginator { page_count: 0, last_continue_token: None }
    }

    /// Account for a page of `item_count` items that came with
    /// `continue_token` and say what to do next.
    pub fn next_page(&mut self, item_count: usize, continue_token: Option<String>) -> (r: PageStep)
        requires
            old(self).page_count < MAX_REASONABLE_PAGES,
        ensures
            final(self).page_count == old(self).page_count + 1,
            ({
                let token = normalized_token(continue_token.deep_view());
                let last = old(self).last_continue_token.deep_view();
                if token is Some && token == last {
                    r == PageStep::RepeatedToken && final(self).last_continue_token.deep_view() == last
                } else if item_count == 0 && token is Some {
                    r == PageStep::EmptyPageWithToken && final(self).last_continue_token.deep_view() == last
                } else {
                    match token {
                        None => r == PageStep::Done && final(self).last_continue_token.deep_view() == last,
                        Some(t) => final(self).last_continue_token.deep_view() == Some(t) && if old(
                            self,
                        ).page_count + 1 >= MAX_REASONABLE_PAGES {
                            r == PageStep::LimitReached
                        } else {
                            r is Continue && r->Continue_0@ == t
                        },
                    }
                }
            }),
    {
        self.page_count = self.page_count + 1;
        let token = normalize_continue_token(continue_token);
        match &token {
            Some(t) => {
                let repeated = match &self.last_continue_token {
                    Some(last) => last.eq(t),
                    None => false,
                };
                if repeated {
                    return PageStep::RepeatedToken;
                }
                if item_count == 0 {
                    return PageStep::EmptyPageWithToken;
                }
                self.last_continue_token = Some(t.clone());
                if self.page_count >= MAX_REASONABLE_PAGES {
                    PageStep::LimitReached
                } else {
                    PageStep::Continue(t.clone())
                }
            },
            None => PageStep::Done,
        }
    }
}

} // verus!
