use vstd::prelude::*;
use crate::text::chars::{chars_of, push_chars, string_from_chars};

verus! {

/// How many results one page of a search shows.
pub const PAGE_SIZE: usize = 15;

/// The list lines `- name` for the first `n` names, one per line.
pub open spec fn page_lines(names: Seq<Seq<char>>, n: int) -> Seq<char>
    decreases n,
{
    if n <= 0 {
        Seq::empty()
    } else {
        page_lines(names, n - 1) + seq!['-', ' '] + names[n - 1] + seq!['\n']
    }
}

/// The names as character sequences.
pub open spec fn name_views(names: Seq<String>) -> Seq<Seq<char>> {
    names.map_values(|s: String| s@)
}

/// One page of search results.
pub struct PageView {
    /// The description: a `- name` line for each shown result.
    pub desc: String,
    /// Whether results follow this page.
    pub has_next: bool,
    /// Whether the button back to the previous page is enabled.
    pub back_enabled: bool,
    /// Whether the button on to the next page is enabled.
    pub fwd_enabled: bool,
    /// Whether the row of page buttons is shown at all.
    pub show_buttons: bool,
}

/// Lays out page `page` of search results, given the results from this page's first
/// on: it lists at most `page_size` of them, and there is a next page exactly when
/// more than `page_size` results remain.
pub fn page_view(names: &Vec<String>, page: u16, page_size: usize) -> (r: PageView)
    ensures
        r.desc@ == page_lines(
            name_views(names@),
            if names@.len() < page_size { names@.len() as int } else { page_size as int },
        ),
        r.has_next == (names@.len() > page_size),
        r.back_enabled == (page > 0),
        r.fwd_enabled == r.has_next,
        r.show_buttons == (page > 0 || r.has_next),
{
    let ghost views = name_views(names@);
    let mut out: Vec<char> = Vec::new();
    let mut i: usize = 0;
    let mut has_next = false;
    while i < names.len()
        invariant_except_break
            0 <= i <= names@.len(),
            i <= page_size,
            views == name_views(names@),
            out@ == page_lines(views, i as int),
            !has_next,
        ensures
            0 <= i <= names@.len(),
            out@ == page_lines(views, if names@.len() < page_size { names@.len() as int } else { page_size as int }),
            has_next == (names@.len() > page_size),
        decreases names@.len() - i,
    {
        if i >= page_size {
            has_next = true;
            break;
        }
        let cs = chars_of(names[i].as_str());
        assert(cs@ == views[i as int]);
        out.push('-');
        out.push(' ');
        push_chars(&mut out, cs.as_slice());
        out.push('\n');
        assert(out@ =~= page_lines(views, i as int) + seq!['-', ' '] + views[i as int] + seq!['\n']);
        i = i + 1;
    }
    let desc = string_from_chars(out);
    PageView {
        desc,
        has_next,
        back_enabled: page > 0,
        fwd_enabled: has_next,
        show_buttons: page > 0 || has_next,
    }
}

} // verus!
