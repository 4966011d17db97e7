//! The gathering of a snapshot: from what the multiplexer has listed so far
//! to the query that is to be asked next. The caller asks each query and
//! hands its lines back; when nothing is left to ask, the listings are
//! complete and the session can be read from them.

use vstd::prelude::*;
use crate::environment::{
    all_delimited, first_named_from, list_panes, list_panes_query, list_sessions,
    list_sessions_query, list_windows, list_windows_query, Command, Environment, Words,
};
use crate::object::{
    lemma_windows_error_stays, listing_views, session_header_of, window_id_of, windows_of,
    windows_upto, Session, Window, WindowListing, WindowListingView,
};
use crate::text::{copy_lines, glyphs};

verus! {

/// What the multiplexer has listed so far.
#[derive(Debug, Clone, PartialEq, Eq)]
pub struct Listed {
    /// The lines of the session listing, once it was asked for.
    pub sessions: Option<Vec<String>>,
    /// The lines of the window listing of the session, once it was asked
    /// for.
    pub windows: Option<Vec<String>>,
    /// The pane listings of the first windows, in the order of the window
    /// listing.
    pub panes: Vec<Vec<String>>,
}

/// A [`Listed`] as a mathematical value.
pub struct ListedView {
    pub sessions: Option<Seq<Seq<char>>>,
    pub windows: Option<Seq<Seq<char>>>,
    pub panes: Seq<Seq<Seq<char>>>,
}

impl View for Listed {
    type V = ListedView;

    open spec fn view(&self) -> ListedView {
        ListedView {
            sessions: match self.sessions {
                Some(lines) => Some(lines.deep_view()),
                None => None,
            },
            windows: match self.windows {
                Some(lines) => Some(lines.deep_view()),
                None => None,
            },
            panes: self.panes.deep_view(),
        }
    }
}

/// The name of the session that a snapshot of `wanted` is taken of: the
/// name in the first line of the session listing whose head is `wanted`.
/// `None` where the listing cannot be read, holds no such line, or that line
/// cannot be read.
pub open spec fn found_name(lines: Seq<Seq<char>>, wanted: Seq<char>) -> Option<Seq<char>> {
    let first = first_named_from(lines, wanted, 0);
    if all_delimited(lines) && first < lines.len() {
        match session_header_of(glyphs(lines[first])) {
            Ok((name, _)) => Some(name),
            Err(_) => None,
        }
    } else {
        None
    }
}

/// The first `n` window lines, each with the pane listing that was gathered
/// for it, and with none where none was.
pub open spec fn listings_of(
    windows: Seq<Seq<char>>,
    panes: Seq<Seq<Seq<char>>>,
    n: int,
) -> Seq<WindowListingView> {
    Seq::new(
        n as nat,
        |i: int|
            WindowListingView {
                line: windows[i],
                panes: if i < panes.len() {
                    panes[i]
                } else {
                    Seq::empty()
                },
            },
    )
}

/// The query that is to be asked next: the session listing first; then the
/// window listing of the session found in it; then the pane listing of each
/// window in turn, as long as every window so far could be read and the
/// next window line names a window. `None` where nothing is left to ask.
pub open spec fn next_query_of(listed: ListedView, wanted: Seq<char>) -> Option<Words> {
    match listed.sessions {
        None => Some(list_sessions_query()),
        Some(lines) => match found_name(lines, wanted) {
            None => None,
            Some(name) => match listed.windows {
                None => Some(list_windows_query(name)),
                Some(windows) => {
                    let k = listed.panes.len() as int;
                    if k >= windows.len() {
                        None
                    } else if windows_of(listings_of(windows, listed.panes, k)) is Err {
                        None
                    } else {
                        match window_id_of(glyphs(windows[k])) {
                            Ok(id) => Some(list_panes_query(name, id)),
                            Err(_) => None,
                        }
                    }
                },
            },
        },
    }
}

/// What is listed once the answer to the query last asked is taken in: the
/// session listing first, then the window listing, then one pane listing
/// after the other.
pub open spec fn accepted(listed: ListedView, lines: Seq<Seq<char>>) -> ListedView {
    if listed.sessions is None {
        ListedView { sessions: Some(lines), ..listed }
    } else if listed.windows is None {
        ListedView { windows: Some(lines), ..listed }
    } else {
        ListedView { panes: listed.panes.push(lines), ..listed }
    }
}

impl Listed {
    /// Nothing listed yet.
    pub fn new() -> (r: Listed)
        ensures
            r@ == (ListedView { sessions: None, windows: None, panes: Seq::empty() }),
    {
        let r = Listed { sessions: None, windows: None, panes: Vec::new() };
        assert(r.panes.deep_view() =~= Seq::<Seq<Seq<char>>>::empty());
        r
    }

    /// Takes in the lines that the query last asked gave.
    pub fn accept(&mut self, lines: Vec<String>)
        ensures
            final(self)@ == accepted(old(self)@, lines.deep_view()),
    {
        if self.sessions.is_none() {
            self.sessions = Some(lines);
        } else if self.windows.is_none() {
            self.windows = Some(lines);
        } else {
            let ghost before = self.panes.deep_view();
            self.panes.push(lines);
            assert(self.panes.deep_view() =~= before.push(lines.deep_view()));
        }
    }

    /// The first `n` window lines with the pane listings gathered for them.
    fn listings_upto(windows: &Vec<String>, panes: &Vec<Vec<String>>, n: usize) -> (r: Vec<
        WindowListing,
    >)
        requires
            n <= windows.len(),
        ensures
            listing_views(r@) == listings_of(windows.deep_view(), panes.deep_view(), n as int),
    {
        let mut r: Vec<WindowListing> = Vec::new();
        let mut i: usize = 0;
        while i < n
            invariant
                i <= n <= windows.len(),
                r.len() == i,
                forall|j: int|
                    0 <= j < i ==> (#[trigger] r[j])@ == listings_of(
                        windows.deep_view(),
                        panes.deep_view(),
                        n as int,
                    )[j],
            decreases n - i,
        {
            let gathered = if i < panes.len() {
                assert(panes.deep_view()[i as int] == panes[i as int].deep_view());
                copy_lines(&panes[i])
            } else {
                let none: Vec<String> = Vec::new();
                assert(none.deep_view() =~= Seq::<Seq<char>>::empty());
                none
            };
            assert(windows.deep_view()[i as int] == windows[i as int]@);
            r.push(WindowListing { line: windows[i].clone(), panes: gathered });
            i += 1;
        }
        assert(listing_views(r@) =~= listings_of(
            windows.deep_view(),
            panes.deep_view(),
            n as int,
        ));
        r
    }

    /// The window lines with the pane listings gathered for them: what the
    /// windows of the session are read from. Empty while no window listing
    /// was taken in.
    pub fn listings(&self) -> (r: Vec<WindowListing>)
        ensures
            listing_views(r@) == match self@.windows {
                Some(windows) => listings_of(windows, self@.panes, windows.len() as int),
                None => Seq::empty(),
            },
    {
        match &self.windows {
            Some(windows) => Listed::listings_upto(windows, &self.panes, windows.len()),
            None => {
                let r: Vec<WindowListing> = Vec::new();
                assert(listing_views(r@) =~= Seq::<WindowListingView>::empty());
                r
            },
        }
    }

    /// The query that is to be asked next for a snapshot of the session
    /// `wanted`, or `None` where nothing is left to ask.
    pub fn next_query(&self, wanted: &String) -> (r: Option<Command>)
        ensures
            match next_query_of(self@, wanted@) {
                Some(query) => r is Some && r->Some_0.deep_view() == query,
                None => r is None,
            },
    {
        let lines = match &self.sessions {
            None => {
                return Some(list_sessions());
            },
            Some(lines) => lines,
        };
        let first: usize = match Environment::find_session(lines, wanted) {
            Err(_) => {
                return None;
            },
            Ok(first) => first,
        };
        assert(lines.deep_view()[first as int] == lines[first as int]@);
        let name = match Session::extract_header(lines[first].as_str()) {
            Err(_) => {
                return None;
            },
            Ok((name, _)) => name,
        };
        let windows = match &self.windows {
            None => {
                return Some(list_windows(&name));
            },
            Some(windows) => windows,
        };
        let k: usize = self.panes.len();
        if k >= windows.len() {
            return None;
        }
        let so_far = Listed::listings_upto(windows, &self.panes, k);
        if Window::extract_windows(&so_far).is_err() {
            return None;
        }
        assert(windows.deep_view()[k as int] == windows[k as int]@);
        match Window::extract_id(windows[k].as_str()) {
            Ok(id) => Some(list_panes(&name, id)),
            Err(_) => None,
        }
    }
}

/// Two window listings that agree in their first `n` entries give the same
/// for them.
pub proof fn lemma_windows_upto_agree(
    a: Seq<WindowListingView>,
    b: Seq<WindowListingView>,
    n: int,
)
    requires
        0 <= n <= a.len(),
        n <= b.len(),
        forall|i: int| 0 <= i < n ==> a[i] == b[i],
    ensures
        windows_upto(a, n) == windows_upto(b, n),
    decreases n,
{
    if n > 0 {
        lemma_windows_upto_agree(a, b, n - 1);
    }
}

/// Gathering stops no sooner than it may: once no pane listing is left to
/// ask for, the windows read from what was gathered are the windows that
/// the pane listings of all the windows would give. `full` stands for those
/// listings, of which the gathered ones are the first.
pub proof fn gathered_listings_suffice(
    windows: Seq<Seq<char>>,
    panes: Seq<Seq<Seq<char>>>,
    full: Seq<Seq<Seq<char>>>,
)
    requires
        panes.len() <= full.len(),
        windows.len() <= full.len(),
        forall|i: int| 0 <= i < panes.len() ==> full[i] == panes[i],
        panes.len() >= windows.len() || windows_of(
            listings_of(windows, panes, panes.len() as int),
        ) is Err || window_id_of(glyphs(windows[panes.len() as int])) is Err,
    ensures
        windows_of(listings_of(windows, panes, windows.len() as int)) == windows_of(
            listings_of(windows, full, windows.len() as int),
        ),
{
    let n = windows.len() as int;
    let k = panes.len() as int;
    let gathered = listings_of(windows, panes, n);
    let complete = listings_of(windows, full, n);
    if k >= n {
        assert(gathered =~= complete);
    } else {
        let so_far = listings_of(windows, panes, k);
        lemma_windows_upto_agree(gathered, so_far, k);
        lemma_windows_upto_agree(complete, so_far, k);
        if windows_upto(so_far, k) is Err {
            lemma_windows_error_stays(gathered, k, n);
            lemma_windows_error_stays(complete, k, n);
        } else {
            assert(gathered[k].line == windows[k]);
            assert(complete[k].line == windows[k]);
            assert(windows_upto(gathered, k + 1) is Err);
            assert(windows_upto(gathered, k + 1) == windows_upto(complete, k + 1));
            lemma_windows_error_stays(gathered, k + 1, n);
            lemma_windows_error_stays(complete, k + 1, n);
        }
    }
}

} // verus!
