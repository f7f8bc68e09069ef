//! The remote catalog walk: a state machine that consumes one page response
//! after another and accumulates the complete listing.
//!
//! The machine decides everything — what the next request asks for, where
//! pagination ends, when metadata is malformed — while the surrounding
//! application only performs the HTTP calls and feeds each response back.

use vstd::prelude::*;

use crate::error::SyncError;
use crate::pagination::{get_next_page_info, page_query_params, spec_next_cursor, PaginationInfo};
use crate::project::GitlabProject;

verus! {

/// One traversal of the remote projects listing, page by page.
pub struct ProjectFetch {
    projects: Vec<GitlabProject>,
    cursor: Option<PaginationInfo>,
    done: bool,
    pages: Ghost<Seq<Seq<GitlabProject>>>,
}

impl ProjectFetch {
    /// The records accumulated so far, in arrival order.
    pub closed spec fn records(&self) -> Seq<GitlabProject> {
        self.projects@
    }

    /// The page contents consumed so far, oldest first.
    pub closed spec fn pages(&self) -> Seq<Seq<GitlabProject>> {
        self.pages@
    }

    /// The cursor the next page request will carry.
    pub closed spec fn cursor(&self) -> Option<PaginationInfo> {
        self.cursor
    }

    /// Whether a response without a `next` relation has ended the walk.
    pub closed spec fn done(&self) -> bool {
        self.done
    }

    /// The accumulated records are always exactly the concatenation of the
    /// consumed pages, and a finished walk asks for nothing further.
    pub open spec fn wf(&self) -> bool {
        &&& self.records() == self.pages().flatten()
        &&& (self.done() ==> self.cursor() is None)
    }

    /// A fresh walk: nothing fetched, the first request carries no cursor.
    pub fn new() -> (r: ProjectFetch)
        ensures
            r.wf(),
            r.records() == Seq::<GitlabProject>::empty(),
            r.pages() == Seq::<Seq<GitlabProject>>::empty(),
            r.cursor() is None,
            !r.done(),
    {
        let r = ProjectFetch {
            projects: Vec::new(),
            cursor: None,
            done: false,
            pages: Ghost(Seq::empty()),
        };
        proof {
            assert(r.pages().flatten() =~= Seq::<GitlabProject>::empty());
        }
        r
    }

    /// Whether the walk has consumed its final page.
    pub fn is_done(&self) -> (r: bool)
        ensures
            r == self.done(),
    {
        self.done
    }

    /// The cursor that the next request will carry.
    pub fn current_cursor(&self) -> (r: Option<PaginationInfo>)
        ensures
            r == self.cursor(),
    {
        self.cursor
    }

    /// The query parameters of the next page request: the fixed keyset
    /// paging parameters, with this walk's cursor as `id_after` after the
    /// first page.
    pub fn next_request(&self) -> (r: Vec<(String, String)>)
        requires
            !self.done(),
        ensures
            r@.len() == (if self.cursor() is Some { 6int } else { 5int }),
            r@[0].0@ == "pagination"@ && r@[0].1@ == "keyset"@,
            r@[1].0@ == "order_by"@ && r@[1].1@ == "id"@,
            r@[2].0@ == "sort"@ && r@[2].1@ == "asc"@,
            r@[3].0@ == "per_page"@ && r@[3].1@ == "100"@,
            r@[4].0@ == "membership"@ && r@[4].1@ == "true"@,
            self.cursor() matches Some(c) ==> r@[5].0@ == "id_after"@ && r@[5].1@
                == crate::numbers::dec_str(c.id_after as nat),
    {
        page_query_params(self.cursor.as_ref())
    }

    /// Consumes one page response: the decoded records and the response's
    /// `link` header.  The records are appended in order; the header decides
    /// whether the walk goes on, with which cursor, or stops — a malformed
    /// `id_after` aborts the walk with a protocol error instead of silently
    /// truncating the listing.
    pub fn apply_page(&mut self, page: Vec<GitlabProject>, link_header: Option<&str>) -> (r:
        Result<(), SyncError>)
        requires
            old(self).wf(),
            !old(self).done(),
        ensures
            final(self).wf(),
            ({
                let outcome = spec_next_cursor(match link_header {
                    Some(h) => Some(h@),
                    None => None,
                });
                match r {
                    Ok(()) => {
                        &&& outcome is Ok
                        &&& final(self).records() == old(self).records() + page@
                        &&& final(self).pages() == old(self).pages().push(page@)
                        &&& final(self).cursor() == outcome.unwrap()
                        &&& (final(self).done() <==> outcome.unwrap() is None)
                    },
                    Err(e) => {
                        &&& outcome == Err::<Option<PaginationInfo>, SyncError>(e)
                        &&& *final(self) == *old(self)
                    },
                }
            }),
    {
        let next = match get_next_page_info(link_header) {
            Ok(next) => next,
            Err(e) => {
                return Err(e);
            },
        };
        let ghost page_contents = page@;
        let mut page = page;
        self.projects.append(&mut page);
        proof {
            self.pages@ = self.pages@.push(page_contents);
            old(self).pages().lemma_flatten_push(page_contents);
        }
        match next {
            Some(c) => {
                self.cursor = Some(c);
                self.done = false;
            },
            None => {
                self.cursor = None;
                self.done = true;
            },
        }
        Ok(())
    }

    /// Hands out the complete listing once the final page is consumed: the
    /// concatenation of every page the walk saw, in order.
    pub fn into_projects(self) -> (r: Vec<GitlabProject>)
        requires
            self.wf(),
            self.done(),
        ensures
            r@ == self.pages().flatten(),
    {
        self.projects
    }
}

/// However many pages a walk has consumed, the accumulated listing is
/// exactly the concatenation of those pages' records, in order.
pub proof fn lemma_fetch_is_concatenation(f: ProjectFetch)
    requires
        f.wf(),
    ensures
        f.records() == f.pages().flatten(),
{
}

} // verus!
