//! Threads and their rendering as the lines of `subject.txt`.

use crate::response::{copy_opt, one_line, opt_view};
use crate::text::{
    chars_of, decimal, push_all, push_decimal, push_str, replace_str, same_text, string_of,
};
use vstd::prelude::*;

verus! {

/// A thread as the store holds it.
#[derive(Debug, Clone)]
pub struct Thread {
    pub title: String,
    pub response_count: u32,
    pub thread_number: String,
    pub last_modified: String,
    pub board_id: u32,
    pub non_auth_thread: u32,
    pub archived: u32,
    pub active: u32,
    pub metadent: Option<String>,
    pub no_pool: u32,
    pub modulo: u32,
}

/// The mathematical value of a [`Thread`].
pub struct ThreadView {
    pub title: Seq<char>,
    pub response_count: u32,
    pub thread_number: Seq<char>,
    pub last_modified: Seq<char>,
    pub board_id: u32,
    pub non_auth_thread: u32,
    pub archived: u32,
    pub active: u32,
    pub metadent: Option<Seq<char>>,
    pub no_pool: u32,
    pub modulo: u32,
}

impl View for Thread {
    type V = ThreadView;

    open spec fn view(&self) -> ThreadView {
        ThreadView {
            title: self.title@,
            response_count: self.response_count,
            thread_number: self.thread_number@,
            last_modified: self.last_modified@,
            board_id: self.board_id,
            non_auth_thread: self.non_auth_thread,
            archived: self.archived,
            active: self.active,
            metadent: opt_view(self.metadent),
            no_pool: self.no_pool,
            modulo: self.modulo,
        }
    }
}

/// How much of the author's fingerprint a thread shows beside each name.
#[derive(Debug, Clone, Copy, PartialEq, Eq, PartialOrd, Ord, Structural)]
pub enum MetadentType {
    /// Nothing is shown.
    Off,
    Verbose,
    VVerbose,
    VVVerbose,
}

/// The level that a stored marker stands for.
pub open spec fn metadent_of(marker: Option<Seq<char>>) -> MetadentType {
    match marker {
        Some(m) => if m == "v"@ {
            MetadentType::Verbose
        } else if m == "vv"@ {
            MetadentType::VVerbose
        } else if m == "vvv"@ {
            MetadentType::VVVerbose
        } else {
            MetadentType::Off
        },
        None => MetadentType::Off,
    }
}

/// Whether the text `s` is the text `lit`.
fn text_is(s: &str, lit: &str) -> (r: bool)
    ensures
        r == (s@ == lit@),
{
    let a = chars_of(s);
    let b = chars_of(lit);
    same_text(&a, &b)
}

impl Thread {
    /// The metadent level that the thread was created with.
    pub fn metadent_type(&self) -> (r: MetadentType)
        ensures
            r == metadent_of(self@.metadent),
    {
        match &self.metadent {
            Some(m) => {
                if text_is(m.as_str(), "v") {
                    MetadentType::Verbose
                } else if text_is(m.as_str(), "vv") {
                    MetadentType::VVerbose
                } else if text_is(m.as_str(), "vvv") {
                    MetadentType::VVVerbose
                } else {
                    MetadentType::Off
                }
            },
            None => MetadentType::Off,
        }
    }
}

impl MetadentType {
    /// The marker under which the level is stored; none for `Off`.
    pub open spec fn marker(self) -> Option<Seq<char>> {
        match self {
            MetadentType::Off => None,
            MetadentType::Verbose => Some("v"@),
            MetadentType::VVerbose => Some("vv"@),
            MetadentType::VVVerbose => Some("vvv"@),
        }
    }

    /// The marker under which the level is stored.
    pub fn as_marker(self) -> (r: Option<&'static str>)
        ensures
            match r {
                Some(m) => self.marker() == Some(m@),
                None => self.marker() is None,
            },
    {
        match self {
            MetadentType::Off => None,
            MetadentType::Verbose => Some("v"),
            MetadentType::VVerbose => Some("vv"),
            MetadentType::VVVerbose => Some("vvv"),
        }
    }
}

/// Storing a level and reading it back gives the same level.
pub proof fn lemma_marker_round_trip(level: MetadentType)
    ensures
        metadent_of(level.marker()) == level,
{
    reveal_strlit("v");
    reveal_strlit("vv");
    reveal_strlit("vvv");
    assert("v"@.len() == 1);
    assert("vv"@.len() == 2);
    assert("vvv"@.len() == 3);
}

/// The values of a list of threads.
pub open spec fn thread_views(ts: Seq<Thread>) -> Seq<ThreadView> {
    Seq::new(ts.len(), |i: int| ts[i]@)
}

/// The line of `subject.txt` for one thread.
pub open spec fn subject_line(t: ThreadView) -> Seq<char> {
    t.thread_number + ".dat<>"@ + one_line(t.title) + " ("@ + decimal(t.response_count as nat)
        + ")\n"@
}

/// The text of `subject.txt`: one line for each thread, in the given order.
pub open spec fn subject_text(ts: Seq<ThreadView>) -> Seq<char>
    decreases ts.len(),
{
    if ts.len() == 0 {
        Seq::<char>::empty()
    } else {
        subject_text(ts.drop_last()) + subject_line(ts.last())
    }
}

/// Appends the line of `subject.txt` for one thread to `out`.
pub fn push_subject_line(out: &mut Vec<char>, t: &Thread)
    ensures
        final(out)@ == old(out)@ + subject_line(t@),
{
    let ghost before = out@;
    push_str(out, t.thread_number.as_str());
    push_str(out, ".dat<>");
    let title = chars_of(t.title.as_str());
    proof {
        reveal_strlit("\n");
    }
    let title = replace_str(&title, "\n", "");
    push_all(out, &title);
    push_str(out, " (");
    push_decimal(out, t.response_count as u64);
    push_str(out, ")\n");
    assert(out@ == before + subject_line(t@));
}

/// Renders threads in the format of `subject.txt`.
pub trait Ch5ThreadFormatter {
    /// The text that `format_threads` returns.
    spec fn formatted(&self) -> Seq<char>;

    /// The `subject.txt` text of these threads.
    fn format_threads(&self) -> (r: String)
        ensures
            r@ == self.formatted(),
    ;
}

impl Ch5ThreadFormatter for Vec<Thread> {
    open spec fn formatted(&self) -> Seq<char> {
        subject_text(thread_views(self@))
    }

    fn format_threads(&self) -> (r: String) {
        let mut out: Vec<char> = Vec::new();
        let mut i: usize = 0;
        let ghost views = thread_views(self@);
        assert(views.take(0) == Seq::<ThreadView>::empty());
        while i < self.len()
            invariant
                i <= self.len(),
                views == thread_views(self@),
                out@ == subject_text(views.take(i as int)),
            decreases self.len() - i,
        {
            assert(views.take(i + 1).drop_last() == views.take(i as int));
            assert(views.take(i + 1).last() == self@[i as int]@);
            push_subject_line(&mut out, &self[i]);
            i += 1;
        }
        assert(views.take(self.len() as int) == views);
        string_of(&out)
    }
}

impl Thread {
    /// A copy of this thread.
    pub fn copy(&self) -> (r: Thread)
        ensures
            r == *self,
    {
        Thread {
            title: self.title.clone(),
            response_count: self.response_count,
            thread_number: self.thread_number.clone(),
            last_modified: self.last_modified.clone(),
            board_id: self.board_id,
            non_auth_thread: self.non_auth_thread,
            archived: self.archived,
            active: self.active,
            metadent: copy_opt(&self.metadent),
            no_pool: self.no_pool,
            modulo: self.modulo,
        }
    }
}

} // verus!
