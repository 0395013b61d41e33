//! Terminal colours, by way of `owo_colors`, whose output is fixed ANSI text.
use vstd::prelude::*;

use owo_colors::OwoColorize;

verus! {

/// Calls `OwoColorize::green` and renders it: owo-colors writes
/// `ESC[32m`, the text and `ESC[39m`.
#[verifier::external_body]
pub(crate) fn green(s: &str) -> (r: String)
    ensures
        r@ == "\x1b[32m"@ + s@ + "\x1b[39m"@,
{
    s.green().to_string()
}

/// Calls `OwoColorize::red`: `ESC[31m`, the text, `ESC[39m`.
#[verifier::external_body]
pub(crate) fn red(s: &str) -> (r: String)
    ensures
        r@ == "\x1b[31m"@ + s@ + "\x1b[39m"@,
{
    s.red().to_string()
}

/// Calls `OwoColorize::yellow`: `ESC[33m`, the text, `ESC[39m`.
#[verifier::external_body]
pub(crate) fn yellow(s: &str) -> (r: String)
    ensures
        r@ == "\x1b[33m"@ + s@ + "\x1b[39m"@,
{
    s.yellow().to_string()
}

/// Calls `OwoColorize::white`: `ESC[37m`, the text, `ESC[39m`.
#[verifier::external_body]
pub(crate) fn white(s: &str) -> (r: String)
    ensures
        r@ == "\x1b[37m"@ + s@ + "\x1b[39m"@,
{
    s.white().to_string()
}

/// Calls `OwoColorize::bright_cyan`: `ESC[96m`, the text, `ESC[39m`.
#[verifier::external_body]
pub(crate) fn bright_cyan(s: &str) -> (r: String)
    ensures
        r@ == "\x1b[96m"@ + s@ + "\x1b[39m"@,
{
    s.bright_cyan().to_string()
}

/// Calls `OwoColorize::bold`: `ESC[1m`, the text, `ESC[0m`.
#[verifier::external_body]
pub(crate) fn bold(s: &str) -> (r: String)
    ensures
        r@ == "\x1b[1m"@ + s@ + "\x1b[0m"@,
{
    s.bold().to_string()
}

} // verus!
