//! What a client in a browser writes to the console.

use vstd::prelude::*;

verus! {

/// The lines that the start of the client writes.
pub open spec fn start_lines(started: bool) -> Seq<Seq<char>> {
    if started {
        seq!["Hello safe world!"@, "Supposedly a client started!"@]
    } else {
        seq![
            "Hello safe world!"@,
            "quick_start err!.{error:?}"@,
            "Supposedly a client started!"@,
        ]
    }
}

/// The lines that the start of the client writes, where `started` says whether it went well.
pub fn main_js(started: bool) -> (lines: Vec<&'static str>)
    ensures
        lines@.map_values(|line: &'static str| line@) == start_lines(started),
{
    let mut lines: Vec<&'static str> = Vec::new();
    lines.push("Hello safe world!");
    if !started {
        lines.push("quick_start err!.{error:?}");
    }
    lines.push("Supposedly a client started!");
    assert(lines@.map_values(|line: &'static str| line@) =~= start_lines(started));
    lines
}

/// The line that a greeting writes.
pub fn greet(s: &str) -> (line: String)
    ensures
        line@ == s@,
{
    s.to_owned()
}

/// The start greets first and says last that a client started; in between stands the error, if
/// there was one, and nothing else.
pub proof fn law_start_is_announced()
    ensures
        start_lines(false).len() == start_lines(true).len() + 1,
        start_lines(true).len() == 2,
        forall|started: bool|
            (#[trigger] start_lines(started)).first() == "Hello safe world!"@
                && start_lines(started).last() == "Supposedly a client started!"@,
        start_lines(false)[1] == "quick_start err!.{error:?}"@,
{
}

} // verus!
