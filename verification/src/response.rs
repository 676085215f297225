//! Responses and their rendering as the lines of a `.dat` file.

use crate::text::{
    chars_of, ends_with, push_all, push_str, replace_str, replaced, starts_with, string_of,
};
use vstd::prelude::*;

verus! {

/// A response as the store holds it.
#[derive(Debug, Clone)]
pub struct Res {
    pub name: Option<String>,
    pub mail: Option<String>,
    pub date: String,
    pub author_id: Option<String>,
    pub body: String,
    pub thread_id: String,
    pub ip_addr: String,
    pub authed_token: Option<String>,
    pub timestamp: u64,
    pub is_abone: u32,
}

/// The mathematical value of a [`Res`].
pub struct ResView {
    pub name: Option<Seq<char>>,
    pub mail: Option<Seq<char>>,
    pub date: Seq<char>,
    pub author_id: Option<Seq<char>>,
    pub body: Seq<char>,
    pub thread_id: Seq<char>,
    pub ip_addr: Seq<char>,
    pub authed_token: Option<Seq<char>>,
    pub timestamp: u64,
    pub is_abone: u32,
}

/// The value of an optional text.
pub open spec fn opt_view(s: Option<String>) -> Option<Seq<char>> {
    match s {
        Some(t) => Some(t@),
        None => None,
    }
}

impl View for Res {
    type V = ResView;

    open spec fn view(&self) -> ResView {
        ResView {
            name: opt_view(self.name),
            mail: opt_view(self.mail),
            date: self.date@,
            author_id: opt_view(self.author_id),
            body: self.body@,
            thread_id: self.thread_id@,
            ip_addr: self.ip_addr@,
            authed_token: opt_view(self.authed_token),
            timestamp: self.timestamp,
            is_abone: self.is_abone,
        }
    }
}

/// The values of a list of responses.
pub open spec fn res_views(rs: Seq<Res>) -> Seq<ResView> {
    Seq::new(rs.len(), |i: int| rs[i]@)
}

/// `s` without its line feeds.
pub open spec fn one_line(s: Seq<char>) -> Seq<char> {
    replaced(s, "\n"@, ""@)
}

/// The name under which a response is shown: its own, or the board's default
/// where it has none or an empty one.
pub open spec fn shown_name(name: Option<Seq<char>>, default_name: Seq<char>) -> Seq<char> {
    match name {
        Some(n) => if n.len() == 0 {
            default_name
        } else {
            n
        },
        None => default_name,
    }
}

/// The body as a `.dat` line shows it: `<br>` for each line feed, and the
/// new domain in place of the old one.
pub open spec fn shown_body(body: Seq<char>) -> Seq<char> {
    replaced(replaced(body, "\n"@, "<br>"@), "edge.edgebb.workers.dev"@, "bbs.eddibb.cc"@)
}

/// The text of an optional field, empty where it is absent.
pub open spec fn or_empty(s: Option<Seq<char>>) -> Seq<char> {
    match s {
        Some(t) => t,
        None => Seq::<char>::empty(),
    }
}

/// One line of a `.dat` file. `title` is the thread title on the first
/// line and empty on the others.
pub open spec fn dat_line(r: ResView, title: Seq<char>, default_name: Seq<char>) -> Seq<char> {
    if r.is_abone == 1 {
        "あぼーん<>あぼーん<> <> あぼーん<>"@ + title + "\n"@
    } else {
        one_line(shown_name(r.name, default_name)) + "<><>"@ + r.date + " ID:"@ + or_empty(
            r.author_id,
        ) + "<> "@ + shown_body(r.body) + "<>"@ + title + "\n"@
    }
}

/// The lines of the responses; only the first carries `title`.
pub open spec fn dat_lines(rs: Seq<ResView>, title: Seq<char>, default_name: Seq<char>) -> Seq<
    char,
>
    decreases rs.len(),
{
    if rs.len() == 0 {
        Seq::<char>::empty()
    } else {
        dat_lines(rs.drop_last(), title, default_name) + dat_line(
            rs.last(),
            if rs.len() == 1 {
                title
            } else {
                Seq::<char>::empty()
            },
            default_name,
        )
    }
}

/// The text of a `.dat` file: one line for each response, the thread title,
/// freed of line feeds, at the end of the first.
pub open spec fn dat_text(rs: Seq<ResView>, thread_title: Seq<char>, default_name: Seq<char>) -> Seq<
    char,
> {
    dat_lines(rs, one_line(thread_title), default_name)
}

/// Renders responses in the format of a `.dat` file.
pub trait Ch5ResponsesFormatter {
    /// The text that `format_responses` returns.
    spec fn formatted(&self, thread_title: Seq<char>, default_name: Seq<char>) -> Seq<char>;

    /// The `.dat` text of these responses.
    fn format_responses(&self, thread_title: &str, default_name: &str) -> (r: String)
        ensures
            r@ == self.formatted(thread_title@, default_name@),
    ;
}

/// Appends the `.dat` line of `r` to `out`.
fn push_dat_line(out: &mut Vec<char>, r: &Res, title: &Vec<char>, default_name: &Vec<char>)
    ensures
        final(out)@ == old(out)@ + dat_line(r@, title@, default_name@),
{
    let ghost before = out@;
    if r.is_abone == 1 {
        push_str(out, "あぼーん<>あぼーん<> <> あぼーん<>");
        push_all(out, title);
        push_str(out, "\n");
        assert(out@ == before + dat_line(r@, title@, default_name@));
    } else {
        let name: Vec<char> = match &r.name {
            Some(n) => {
                let c = chars_of(n.as_str());
                if c.len() == 0 {
                    default_name.clone()
                } else {
                    c
                }
            },
            None => default_name.clone(),
        };
        assert(name@ == shown_name(r@.name, default_name@));
        proof {
            reveal_strlit("\n");
            reveal_strlit("edge.edgebb.workers.dev");
        }
        let name = replace_str(&name, "\n", "");
        push_all(out, &name);
        push_str(out, "<><>");
        push_str(out, r.date.as_str());
        push_str(out, " ID:");
        match &r.author_id {
            Some(id) => {
                push_str(out, id.as_str());
            },
            None => {},
        }
        push_str(out, "<> ");
        let body = chars_of(r.body.as_str());
        let body = replace_str(&body, "\n", "<br>");
        let body = replace_str(&body, "edge.edgebb.workers.dev", "bbs.eddibb.cc");
        push_all(out, &body);
        push_str(out, "<>");
        push_all(out, title);
        push_str(out, "\n");
        assert(out@ == before + dat_line(r@, title@, default_name@));
    }
}

impl Ch5ResponsesFormatter for Vec<Res> {
    open spec fn formatted(&self, thread_title: Seq<char>, default_name: Seq<char>) -> Seq<char> {
        dat_text(res_views(self@), thread_title, default_name)
    }

    fn format_responses(&self, thread_title: &str, default_name: &str) -> (r: String) {
        let title = chars_of(thread_title);
        proof {
            reveal_strlit("\n");
        }
        let title = replace_str(&title, "\n", "");
        let no_title: Vec<char> = Vec::new();
        let default_name = chars_of(default_name);
        let mut out: Vec<char> = Vec::new();
        let mut i: usize = 0;
        let ghost views = res_views(self@);
        assert(views.take(0) == Seq::<ResView>::empty());
        while i < self.len()
            invariant
                i <= self.len(),
                views == res_views(self@),
                no_title@ == Seq::<char>::empty(),
                out@ == dat_lines(views.take(i as int), title@, default_name@),
            decreases self.len() - i,
        {
            assert(views.take(i + 1).drop_last() == views.take(i as int));
            assert(views.take(i + 1).last() == self@[i as int]@);
            if i == 0 {
                push_dat_line(&mut out, &self[i], &title, &default_name);
            } else {
                push_dat_line(&mut out, &self[i], &no_title, &default_name);
            }
            i += 1;
        }
        assert(views.take(self.len() as int) == views);
        string_of(&out)
    }
}

/// A copy of an optional text.
pub fn copy_opt(s: &Option<String>) -> (r: Option<String>)
    ensures
        r == *s,
{
    match s {
        Some(t) => Some(t.clone()),
        None => None,
    }
}

impl Res {
    /// A copy of this response.
    pub fn copy(&self) -> (r: Res)
        ensures
            r == *self,
    {
        Res {
            name: copy_opt(&self.name),
            mail: copy_opt(&self.mail),
            date: self.date.clone(),
            author_id: copy_opt(&self.author_id),
            body: self.body.clone(),
            thread_id: self.thread_id.clone(),
            ip_addr: self.ip_addr.clone(),
            authed_token: copy_opt(&self.authed_token),
            timestamp: self.timestamp,
            is_abone: self.is_abone,
        }
    }
}

/// The title that a thread is stored with is the one that its first
/// response is bound to: the `.dat` of a thread with a response begins
/// with the line of its first response, and that line ends with the
/// stored title, freed of line feeds, and a line feed.
pub proof fn lemma_first_line_carries_title(
    rs: Seq<ResView>,
    thread_title: Seq<char>,
    default_name: Seq<char>,
)
    requires
        rs.len() >= 1,
    ensures
        starts_with(
            dat_text(rs, thread_title, default_name),
            dat_line(rs[0], one_line(thread_title), default_name),
        ),
        ends_with(
            dat_line(rs[0], one_line(thread_title), default_name),
            one_line(thread_title) + "\n"@,
        ),
    decreases rs.len(),
{
    let title = one_line(thread_title);
    let first = dat_line(rs[0], title, default_name);
    let all = dat_lines(rs, title, default_name);
    if rs.len() == 1 {
        assert(rs.drop_last().len() == 0);
        assert(rs.last() == rs[0]);
        assert(dat_lines(rs.drop_last(), title, default_name) == Seq::<char>::empty());
        assert(all == Seq::<char>::empty() + first);
        assert(all.subrange(0, first.len() as int) == first);
    } else {
        let front = rs.drop_last();
        lemma_first_line_carries_title(front, thread_title, default_name);
        assert(front[0] == rs[0]);
        let head = dat_lines(front, title, default_name);
        assert(head.subrange(0, first.len() as int) == first);
        assert(all.subrange(0, first.len() as int) == head.subrange(0, first.len() as int));
    }
    let tail = title + "\n"@;
    assert(first.skip(first.len() - tail.len()) == tail);
}

} // verus!
