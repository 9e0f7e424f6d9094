//! Terminal output of the command-line tool: the lines it prints for
//! headers, statuses, messages and progress, plain or styled.

use vstd::prelude::*;
use crate::text::{push_text, same_text};
use vstd::string::StringExecFns;

verus! {

/// `t` shown with some text before and after it (escape codes, or nothing).
pub open spec fn styled(r: Seq<char>, t: Seq<char>) -> bool {
    exists|p: Seq<char>, s: Seq<char>| r == p + t + s
}

/// `console::style(text).bold()` as text: the text, with whatever escape
/// codes the terminal calls for written before it and a reset after it
/// (console writes the codes, then the text, then the reset); which codes
/// depends on the terminal and is not stated.
#[verifier::external_body]
fn bold(text: &str) -> (r: String)
    ensures
        styled(r@, text@),
{
    console::style(text).bold().to_string()
}

/// `console::style(text).green().bold()` as text: the text between escape
/// codes that depend on the terminal (see `bold`).
#[verifier::external_body]
fn green_bold(text: &str) -> (r: String)
    ensures
        styled(r@, text@),
{
    console::style(text).green().bold().to_string()
}

/// `console::style(text).yellow().bold()` as text: the text between escape
/// codes that depend on the terminal (see `bold`).
#[verifier::external_body]
fn yellow_bold(text: &str) -> (r: String)
    ensures
        styled(r@, text@),
{
    console::style(text).yellow().bold().to_string()
}

/// `console::style(text).red().bold()` as text: the text between escape
/// codes that depend on the terminal (see `bold`).
#[verifier::external_body]
fn red_bold(text: &str) -> (r: String)
    ensures
        styled(r@, text@),
{
    console::style(text).red().bold().to_string()
}

/// `console::style(text).cyan().bold()` as text: the text between escape
/// codes that depend on the terminal (see `bold`).
#[verifier::external_body]
fn cyan_bold(text: &str) -> (r: String)
    ensures
        styled(r@, text@),
{
    console::style(text).cyan().bold().to_string()
}

/// The text itself is styled with nothing around it.
proof fn lemma_plain_styled(t: Seq<char>)
    ensures
        styled(t, t),
{
    assert(t == Seq::<char>::empty() + t + Seq::<char>::empty());
}

/// Health of a resource
#[derive(Debug, Clone, Copy, PartialEq, Eq, Structural)]
pub enum HealthStatus {
    Good,
    Okay,
    Bad,
}

/// The word a status is shown as.
pub open spec fn health_text(h: HealthStatus) -> Seq<char> {
    match h {
        HealthStatus::Good => "good"@,
        HealthStatus::Okay => "okay"@,
        HealthStatus::Bad => "bad"@,
    }
}

impl HealthStatus {
    /// The word the status is shown as.
    pub fn to_text(&self) -> (r: &'static str)
        ensures
            r@ == health_text(*self),
    {
        match self {
            HealthStatus::Good => "good",
            HealthStatus::Okay => "okay",
            HealthStatus::Bad => "bad",
        }
    }
}

/// Whether colors are off: `NO_COLOR` is set, or `CLICOLOR` or
/// `CLICOLOR_FORCE` is `0`.
pub open spec fn colors_off(no_color_set: bool, clicolor: Option<Seq<char>>, clicolor_force: Option<Seq<char>>) -> bool {
    no_color_set || clicolor == Some("0"@) || clicolor_force == Some("0"@)
}

/// `a` then `b`.
fn concat(a: &str, b: &str) -> (r: String)
    ensures
        r@ == a@ + b@,
{
    let mut r = String::from_str(a);
    push_text(&mut r, b);
    r
}

/// Terminal logger
pub struct Logger {
    no_color: bool,
}

impl Logger {
    /// Whether colors are off.
    pub closed spec fn plain(&self) -> bool {
        self.no_color
    }

    /// A logger with colors off when the environment says so (see
    /// `colors_off`): `no_color_set` says whether `NO_COLOR` is set, the
    /// others give `CLICOLOR` and `CLICOLOR_FORCE`.
    pub fn from_settings(no_color_set: bool, clicolor: Option<&str>, clicolor_force: Option<&str>) -> (l: Self)
        ensures
            l.plain() == colors_off(
                no_color_set,
                match clicolor {
                    Some(c) => Some(c@),
                    None => None,
                },
                match clicolor_force {
                    Some(c) => Some(c@),
                    None => None,
                },
            ),
    {
        let a = match clicolor {
            Some(c) => same_text(c, "0"),
            None => false,
        };
        let b = match clicolor_force {
            Some(c) => same_text(c, "0"),
            None => false,
        };
        Logger { no_color: no_color_set || a || b }
    }

    /// `text` in bold, or as it is without colors.
    fn style_bold(&self, text: &str) -> (r: String)
        ensures
            self.plain() ==> r@ == text@,
            styled(r@, text@),
    {
        if self.no_color {
            proof {
                lemma_plain_styled(text@);
            }
            String::from_str(text)
        } else {
            bold(text)
        }
    }

    /// The header line: `text` between blank lines.
    pub fn header(&self, text: &str) -> (r: String)
        ensures
            self.plain() ==> r@ == "\n"@ + text@ + "\n"@,
            exists|b: Seq<char>| #[trigger] styled(b, text@) && r@ == "\n"@ + b + "\n"@,
    {
        let mut r = String::from_str("\n");
        let b = self.style_bold(text);
        push_text(&mut r, b.as_str());
        push_text(&mut r, "\n");
        assert(styled(b@, text@) && r@ == "\n"@ + b@ + "\n"@);
        r
    }

    /// The section line: `text` after a blank line.
    pub fn section(&self, text: &str) -> (r: String)
        ensures
            self.plain() ==> r@ == "\n"@ + text@,
            exists|b: Seq<char>| #[trigger] styled(b, text@) && r@ == "\n"@ + b,
    {
        let b = self.style_bold(text);
        let r = concat("\n", b.as_str());
        assert(styled(b@, text@) && r@ == "\n"@ + b@);
        r
    }

    /// The status line: the label and the status word.
    pub fn status(&self, label: &str, status: HealthStatus) -> (r: String)
        ensures
            self.plain() ==> r@ == label@ + ": "@ + health_text(status),
            exists|a: Seq<char>, b: Seq<char>|
                #[trigger] styled(a, label@) && #[trigger] styled(b, health_text(status)) && r@ == a + ": "@ + b,
    {
        let word = status.to_text();
        let shown = if self.no_color {
            proof {
                lemma_plain_styled(word@);
            }
            String::from_str(word)
        } else {
            match status {
                HealthStatus::Good => green_bold(word),
                HealthStatus::Okay => yellow_bold(word),
                HealthStatus::Bad => red_bold(word),
            }
        };
        let mut r = self.style_bold(label);
        let ghost a = r@;
        push_text(&mut r, ": ");
        push_text(&mut r, shown.as_str());
        assert(styled(a, label@) && styled(shown@, health_text(status)) && r@ == a + ": "@ + shown@);
        r
    }

    /// The information line: the label and the value.
    pub fn info(&self, label: &str, value: &str) -> (r: String)
        ensures
            self.plain() ==> r@ == label@ + ": "@ + value@,
            exists|a: Seq<char>| #[trigger] styled(a, label@) && r@ == a + ": "@ + value@,
    {
        let mut r = self.style_bold(label);
        let ghost a = r@;
        push_text(&mut r, ": ");
        push_text(&mut r, value);
        assert(styled(a, label@) && r@ == a + ": "@ + value@);
        r
    }

    /// The success line.
    pub fn success(&self, text: &str) -> (r: String)
        ensures
            self.plain() ==> r@ == "✓ "@ + text@,
            !self.plain() ==> exists|a: Seq<char>| #[trigger] styled(a, "✓"@) && r@ == a + " "@ + text@,
    {
        if self.no_color {
            concat("✓ ", text)
        } else {
            let mut r = green_bold("✓");
            let ghost a = r@;
            push_text(&mut r, " ");
            push_text(&mut r, text);
            assert(styled(a, "✓"@) && r@ == a + " "@ + text@);
            r
        }
    }

    /// The warning line.
    pub fn warning(&self, text: &str) -> (r: String)
        ensures
            self.plain() ==> r@ == "WARNING: "@ + text@,
            !self.plain() ==> exists|a: Seq<char>| #[trigger] styled(a, "WARNING:"@) && r@ == a + " "@ + text@,
    {
        if self.no_color {
            concat("WARNING: ", text)
        } else {
            let mut r = yellow_bold("WARNING:");
            let ghost a = r@;
            push_text(&mut r, " ");
            push_text(&mut r, text);
            assert(styled(a, "WARNING:"@) && r@ == a + " "@ + text@);
            r
        }
    }

    /// The error line (for standard error).
    pub fn error(&self, text: &str) -> (r: String)
        ensures
            self.plain() ==> r@ == "ERROR: "@ + text@,
            !self.plain() ==> exists|a: Seq<char>| #[trigger] styled(a, "ERROR:"@) && r@ == a + " "@ + text@,
    {
        if self.no_color {
            concat("ERROR: ", text)
        } else {
            let mut r = red_bold("ERROR:");
            let ghost a = r@;
            push_text(&mut r, " ");
            push_text(&mut r, text);
            assert(styled(a, "ERROR:"@) && r@ == a + " "@ + text@);
            r
        }
    }

    /// The start of a progress line, printed without a line end.
    pub fn progress(&self, text: &str) -> (r: String)
        ensures
            self.plain() ==> r@ == "→ "@ + text@ + " ... "@,
            !self.plain() ==> exists|a: Seq<char>| #[trigger] styled(a, "→"@) && r@ == a + " "@ + text@ + " ... "@,
    {
        if self.no_color {
            let mut r = concat("→ ", text);
            push_text(&mut r, " ... ");
            r
        } else {
            let mut r = cyan_bold("→");
            let ghost a = r@;
            push_text(&mut r, " ");
            push_text(&mut r, text);
            push_text(&mut r, " ... ");
            assert(styled(a, "→"@) && r@ == a + " "@ + text@ + " ... "@);
            r
        }
    }

    /// The end of a progress line that succeeded.
    pub fn done(&self) -> (r: String)
        ensures
            self.plain() ==> r@ == "done"@,
            styled(r@, "done"@),
    {
        if self.no_color {
            proof {
                lemma_plain_styled("done"@);
            }
            String::from_str("done")
        } else {
            green_bold("done")
        }
    }

    /// The end of a progress line that failed.
    pub fn failed(&self) -> (r: String)
        ensures
            self.plain() ==> r@ == "failed"@,
            styled(r@, "failed"@),
    {
        if self.no_color {
            proof {
                lemma_plain_styled("failed"@);
            }
            String::from_str("failed")
        } else {
            red_bold("failed")
        }
    }
}

/// Progress of a command, shown through a logger
pub struct Progress {
    logger: Logger,
}

impl Progress {
    /// Whether colors are off for the progress lines.
    pub closed spec fn plain(&self) -> bool {
        self.logger.plain()
    }

    /// Progress shown through `logger`.
    pub fn new(logger: Logger) -> (p: Self)
        ensures
            p.plain() == logger.plain(),
    {
        Progress { logger }
    }

    /// The text that starts the step `message`.
    pub fn start(&self, message: &str) -> (r: String)
        ensures
            self.plain() ==> r@ == "→ "@ + message@ + " ... "@,
            !self.plain() ==> exists|a: Seq<char>| #[trigger] styled(a, "→"@) && r@ == a + " "@ + message@ + " ... "@,
    {
        self.logger.progress(message)
    }

    /// The text that ends a step that succeeded.
    pub fn success(&self) -> (r: String)
        ensures
            self.plain() ==> r@ == "done"@,
            styled(r@, "done"@),
    {
        self.logger.done()
    }

    /// The text that ends a step that failed.
    pub fn fail(&self) -> (r: String)
        ensures
            self.plain() ==> r@ == "failed"@,
            styled(r@, "failed"@),
    {
        self.logger.failed()
    }
}

} // verus!
