//! Reading problem and ticket bodies.
use vstd::prelude::*;
use crate::closing::{fault_of, Fault};
use crate::error::Result;
use crate::lines::{lines, lines_of, text_of, trim, trimmed};
use crate::search::{find_index, position};
use crate::state::{refuse, refused};
use crate::text::{cat2, cat3, chars_of, group_views, views};

verus! {

broadcast use group_views;

/// Lines that are a heading of the first level.
pub open spec fn is_title() -> spec_fn(Seq<char>) -> bool {
    |line: Seq<char>| line.len() >= 2 && line[0] == '#' && line[1] == ' '
}

/// The title of a document: its first heading of the first level, if that says anything, else
/// `fallback`.
pub open spec fn title_of(body: Seq<char>, fallback: Seq<char>) -> Seq<char> {
    match find_index(lines(body), is_title()) {
        Some(i) => if trimmed(lines(body)[i].skip(2)).len() > 0 {
            trimmed(lines(body)[i].skip(2))
        } else {
            fallback
        },
        None => fallback,
    }
}

/// The title of a document.
pub fn title_from_body(body: &str, fallback: &str) -> (r: String)
    ensures
        r@ == title_of(body@, fallback@),
{
    let all = lines_of(body);
    let heading = |line: &String| -> (b: bool)
        ensures
            b == (is_title())(line@),
    {
        line.as_str().unicode_len() >= 2 && line.as_str().get_char(0) == '#'
            && line.as_str().get_char(1) == ' '
    };
    match position(&all, heading, Ghost(is_title())) {
        Some(i) => {
            proof {
                crate::search::lemma_find_from(views(all@), is_title(), 0);
                assert(views(all@)[i as int] == all@[i as int]@);
            }
            let chars = chars_of(all[i].as_str());
            let rest = text_of(&chars, 2, chars.len());
            assert(rest@ =~= lines(body@)[i as int].skip(2));
            let title = trim(rest.as_str());
            if title.as_str().is_empty() {
                fallback.to_owned()
            } else {
                title
            }
        },
        None => fallback.to_owned(),
    }
}

/// Lines that are nothing but the given heading.
pub open spec fn is_heading(heading: Seq<char>) -> spec_fn(Seq<char>) -> bool {
    |line: Seq<char>| trimmed(line) == heading
}

/// What is wrong with a document that must have a section.
pub open spec fn section_fault(body: Seq<char>, section: Seq<char>) -> Fault {
    let heading = "## "@ + section;
    if find_index(lines(body), is_heading(heading)) is Some {
        None
    } else {
        Some(refused("body missing required section `"@ + heading + "`"@))
    }
}

/// Checks that a document has a section.
pub fn require_section(body: &str, section: &str) -> (r: Result<()>)
    ensures
        fault_of(r) == section_fault(body@, section@),
{
    let heading = cat2("## ", section);
    let all = lines_of(body);
    let found = |line: &String| -> (b: bool)
        ensures
            b == (is_heading(heading@))(line@),
    {
        trim(line.as_str()) == heading
    };
    if position(&all, found, Ghost(is_heading(heading@))).is_some() {
        Ok(())
    } else {
        Err(refuse(cat3("body missing required section `", heading.as_str(), "`")))
    }
}

} // verus!
