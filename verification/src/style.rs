//! Terminal styling through owo-colors, each call stated as the ANSI
//! control sequences it writes around its text.

use vstd::prelude::*;
use owo_colors::OwoColorize;
use crate::text::decimal;

verus! {

/// The control sequence `ESC [ n m`.
pub open spec fn sgr(n: nat) -> Seq<char> {
    seq!['\u{1b}', '['] + decimal(n) + seq!['m']
}

/// Text between the bold sequence and the reset sequence.
pub open spec fn bold_text(t: Seq<char>) -> Seq<char> {
    sgr(1) + t + sgr(0)
}

/// Text in foreground colour `code`, followed by the default-foreground sequence.
pub open spec fn fg_text(code: nat, t: Seq<char>) -> Seq<char> {
    sgr(code) + t + sgr(39)
}

/// Text in foreground colour `fg` on background colour `bg`, set by one
/// combined sequence `ESC [ fg ; bg m` and followed by the reset sequence.
pub open spec fn combo_text(fg: nat, bg: nat, t: Seq<char>) -> Seq<char> {
    seq!['\u{1b}', '['] + decimal(fg) + seq![';'] + decimal(bg) + seq!['m'] + t + sgr(0)
}

/// owo-colors' `bold`, displayed: `BoldDisplay` writes `ESC[1m`, the text
/// and `ESC[0m`.
#[verifier::external_body]
pub(crate) fn bold(s: &str) -> (r: String)
    ensures
        r@ == bold_text(s@),
{
    format!("{}", s.bold())
}

/// owo-colors' `red`, displayed: `FgColorDisplay<Red>` writes `ESC[31m`, the
/// text and `ESC[39m`.
#[verifier::external_body]
pub(crate) fn red(s: &str) -> (r: String)
    ensures
        r@ == fg_text(31, s@),
{
    format!("{}", s.red())
}

/// owo-colors' `green`, displayed: `ESC[32m`, the text, `ESC[39m`.
#[verifier::external_body]
pub(crate) fn green(s: &str) -> (r: String)
    ensures
        r@ == fg_text(32, s@),
{
    format!("{}", s.green())
}

/// owo-colors' `white`, displayed: `ESC[37m`, the text, `ESC[39m`.
#[verifier::external_body]
pub(crate) fn white(s: &str) -> (r: String)
    ensures
        r@ == fg_text(37, s@),
{
    format!("{}", s.white())
}

/// owo-colors' `bright_black`, displayed: `ESC[90m`, the text, `ESC[39m`.
#[verifier::external_body]
pub(crate) fn bright_black(s: &str) -> (r: String)
    ensures
        r@ == fg_text(90, s@),
{
    format!("{}", s.bright_black())
}

/// owo-colors' `white` then `on_red`, displayed: the background method of
/// `FgColorDisplay<White>` gives a `ComboColorDisplay<White, Red>`, which
/// writes `ESC[37;41m`, the text and `ESC[0m`.
#[verifier::external_body]
pub(crate) fn white_on_red(s: &str) -> (r: String)
    ensures
        r@ == combo_text(37, 41, s@),
{
    format!("{}", s.white().on_red())
}

} // verus!
