//! The daemon's single mutable session record, apart from the engine handle
//! itself: whether a page has been opened, whether the console interceptor is
//! installed, the extra headers (replaced as a whole on every change), and
//! the recording in progress.
use crate::protocol::{Command, Response};
use vstd::prelude::*;

verus! {

/// The failure for a command that needs a page before any page is open.
pub const NO_PAGE_OPEN: &'static str = "No page open. Use 'plwr open <url>' first.";

/// The failure for starting a recording while one is in progress.
pub const ALREADY_RECORDING: &'static str = "Video recording already in progress";

/// The failure for stopping a recording when none is in progress.
pub const NOT_RECORDING: &'static str = "No video recording in progress";

/// A recording in progress: the directory that receives the raw capture.
pub struct VideoState {
    pub dir: String,
}

/// The header entries as pairs of character sequences.
pub open spec fn header_views(h: Seq<(String, String)>) -> Seq<(Seq<char>, Seq<char>)> {
    h.map_values(|p: (String, String)| (p.0@, p.1@))
}

/// No header name occurs twice.
pub open spec fn names_unique(h: Seq<(Seq<char>, Seq<char>)>) -> bool {
    forall|i: int, j: int| 0 <= i < j < h.len() ==> h[i].0 != h[j].0
}

/// The first position at or after `i` of the header named `name`.
pub open spec fn position_from(h: Seq<(Seq<char>, Seq<char>)>, name: Seq<char>, i: int) -> Option<
    int,
>
    decreases h.len() - i,
{
    if i < 0 || i >= h.len() {
        None
    } else if h[i].0 == name {
        Some(i)
    } else {
        position_from(h, name, i + 1)
    }
}

pub struct SessionState {
    pub page_opened: bool,
    pub console_installed: bool,
    pub headers: Vec<(String, String)>,
    pub video: Option<VideoState>,
}

impl SessionState {
    pub open spec fn header_seq(&self) -> Seq<(Seq<char>, Seq<char>)> {
        header_views(self.headers@)
    }

    pub open spec fn well_formed(&self) -> bool {
        names_unique(self.header_seq())
    }

    /// The state of a daemon whose engine and first page were just acquired.
    pub fn new() -> (r: Self)
        ensures
            r.well_formed(),
            !r.page_opened,
            !r.console_installed,
            r.header_seq().len() == 0,
            r.video is None,
    {
        SessionState { page_opened: false, console_installed: false, headers: Vec::new(), video: None }
    }

    /// The check made before dispatch: a command that needs a page, sent
    /// before any page was opened, is answered with the fixed failure and
    /// goes no further.
    pub fn page_check(&self, cmd: &Command) -> (r: Option<Response>)
        ensures
            r is Some <==> (!self.page_opened && !cmd.runs_without_page()),
            r is Some ==> !r->0.ok && r->0.value is None && r->0.error is Some
                && r->0.error->0@ == NO_PAGE_OPEN@,
    {
        if !self.page_opened && cmd.requires_page() {
            Some(Response::err(String::from_str(NO_PAGE_OPEN)))
        } else {
            None
        }
    }

    /// Sets one extra header: its value is replaced where the name is
    /// present, and it is added at the end where it is not.
    pub fn set_header(&mut self, name: String, value: String)
        requires
            old(self).well_formed(),
        ensures
            final(self).well_formed(),
            position_from(old(self).header_seq(), name@, 0) is Some ==> final(self).header_seq()
                == old(self).header_seq().update(
                position_from(old(self).header_seq(), name@, 0)->0,
                (name@, value@),
            ),
            position_from(old(self).header_seq(), name@, 0) is None ==> final(self).header_seq()
                == old(self).header_seq().push((name@, value@)),
            final(self).page_opened == old(self).page_opened,
            final(self).console_installed == old(self).console_installed,
            final(self).video == old(self).video,
    {
        let ghost h = self.header_seq();
        let mut i: usize = 0;
        while i < self.headers.len()
            invariant
                i <= self.headers@.len(),
                h == self.header_seq(),
                h == old(self).header_seq(),
                names_unique(h),
                self.page_opened == old(self).page_opened,
                self.console_installed == old(self).console_installed,
                self.video == old(self).video,
                h.len() == self.headers@.len(),
                position_from(h, name@, 0) == position_from(h, name@, i as int),
            decreases self.headers@.len() - i,
        {
            if self.headers[i].0 == name {
                assert(h[i as int].0 == name@);
                self.headers.set(i, (name, value));
                assert(self.header_seq() =~= h.update(i as int, (name@, value@)));
                assert(names_unique(self.header_seq())) by {
                    assert forall|a: int, b: int|
                        0 <= a < b < self.header_seq().len() implies self.header_seq()[a].0
                        != self.header_seq()[b].0 by {
                        if a != i as int && b != i as int {
                            assert(h[a].0 != h[b].0);
                        } else if a == i as int {
                            assert(h[a].0 != h[b].0);
                        } else {
                            assert(h[a].0 != h[b].0);
                        }
                    }
                }
                return;
            }
            i = i + 1;
        }
        self.headers.push((name, value));
        assert(self.header_seq() =~= h.push((name@, value@)));
        assert forall|k: int| 0 <= k < h.len() implies h[k].0 != name@ by {
            lemma_position_absent(h, name@, 0, k);
        }
    }

    /// Removes every extra header.
    pub fn clear_headers(&mut self)
        ensures
            final(self).well_formed(),
            final(self).header_seq().len() == 0,
            final(self).page_opened == old(self).page_opened,
            final(self).console_installed == old(self).console_installed,
            final(self).video == old(self).video,
    {
        self.headers = Vec::new();
    }

    /// Begins a recording into `dir`, unless one is in progress.
    pub fn start_video(&mut self, dir: String) -> (r: Result<(), String>)
        ensures
            old(self).video is None ==> r is Ok && final(self).video is Some
                && final(self).video->0.dir@ == dir@,
            old(self).video is Some ==> r is Err && r->Err_0@ == ALREADY_RECORDING@
                && final(self).video == old(self).video,
            final(self).headers == old(self).headers,
            final(self).page_opened == old(self).page_opened,
            final(self).console_installed == old(self).console_installed,
    {
        if self.video.is_some() {
            Err(String::from_str(ALREADY_RECORDING))
        } else {
            self.video = Some(VideoState { dir });
            Ok(())
        }
    }

    /// Ends the recording in progress and hands it over.
    pub fn stop_video(&mut self) -> (r: Result<VideoState, String>)
        ensures
            final(self).video is None,
            old(self).video is Some ==> r is Ok && r->Ok_0 == old(self).video->0,
            old(self).video is None ==> r is Err && r->Err_0@ == NOT_RECORDING@,
            final(self).headers == old(self).headers,
            final(self).page_opened == old(self).page_opened,
            final(self).console_installed == old(self).console_installed,
    {
        match self.video.take() {
            Some(v) => Ok(v),
            None => Err(String::from_str(NOT_RECORDING)),
        }
    }
}

proof fn lemma_position_absent(h: Seq<(Seq<char>, Seq<char>)>, name: Seq<char>, i: int, k: int)
    requires
        0 <= i <= k < h.len(),
        position_from(h, name, i) is None,
    ensures
        h[k].0 != name,
    decreases k - i,
{
    if i < k {
        lemma_position_absent(h, name, i + 1, k);
    }
}

/// The address a new cookie is set for: the one given, or the page's
/// current address where none is given.
pub fn cookie_url(url: String, current: String) -> (r: String)
    ensures
        url@.len() == 0 ==> r@ == current@,
        url@.len() > 0 ==> r@ == url@,
{
    if url.unicode_len() == 0 {
        current
    } else {
        url
    }
}

} // verus!
