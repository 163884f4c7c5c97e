//! How far a markdown pane can scroll.
use vstd::prelude::*;

use crate::styles::scroll_window;

verus! {

/// Number of lines that `tui_markdown::from_str` renders a text into.
pub uninterp spec fn markdown_line_count(s: Seq<char>) -> nat;

/// `tui_markdown::from_str(content).lines.len()`: the number of rendered
/// lines. The count is a function of the text alone (the renderer reads
/// nothing else); the contract names it and states nothing more.
#[verifier::external_body]
fn rendered_line_count(content: &str) -> (r: usize)
    ensures
        r == markdown_line_count(content@),
{
    tui_markdown::from_str(content).lines.len()
}

/// How far a markdown pane of `inner_height` rows (at least one) can
/// scroll: the rendered lines (counted as a `u16`) that do not fit.
pub fn markdown_max_scroll(content: &str, inner_height: u16) -> (r: u16)
    ensures
        ({
            let lines: int = (markdown_line_count(content@) % 65536) as int;
            let h: int = if inner_height < 1 {
                1
            } else {
                inner_height as int
            };
            r == if lines >= h {
                lines - h
            } else {
                0
            }
        }),
{
    let n = rendered_line_count(content);
    let lines = (n % 65536) as u16;
    scroll_window(lines, inner_height, 0, false).0
}

} // verus!
