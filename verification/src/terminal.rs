//! Colours for text on a terminal.

use vstd::prelude::*;
use vstd::string::StringExecFns;

verus! {

/// The escape sequence that ends a colour.
pub open spec fn reset_code() -> Seq<char> {
    "\x1b[0m"@
}

/// `text` between `code` and the sequence that ends a colour.
fn paint(code: &str, text: &str) -> (painted: String)
    ensures
        painted@ == code@ + text@ + reset_code(),
{
    let mut painted = code.to_owned();
    painted.append(text);
    painted.append("\x1b[0m");
    painted
}

/// `text` in yellow.
pub fn yellow(text: &str) -> (painted: String)
    ensures
        painted@ == "\x1b[33m"@ + text@ + reset_code(),
{
    paint("\x1b[33m", text)
}

/// `text` in red.
pub fn red(text: &str) -> (painted: String)
    ensures
        painted@ == "\x1b[31m"@ + text@ + reset_code(),
{
    paint("\x1b[31m", text)
}

/// `text` in green.
pub fn green(text: &str) -> (painted: String)
    ensures
        painted@ == "\x1b[32m"@ + text@ + reset_code(),
{
    paint("\x1b[32m", text)
}

} // verus!
