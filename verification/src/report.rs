//! The texts that tell how a job ended.
//!
//! The numbers and the time arrive written out; this module chooses the
//! format and puts the line together. A job that missed its deadline is
//! told apart from one that failed, in every format.

use vstd::prelude::*;
use vstd::string::StringExecFns;

verus! {

/// How a result is written out.
#[derive(Clone, Copy, Debug, PartialEq, Eq, Structural)]
pub enum OutputFormat {
    /// One line of comma-separated values.
    Csv,
    /// A JSON object.
    Json,
    /// The time taken, and nothing else.
    TimeOnly,
    /// The two factors, and nothing else.
    Quiet,
    /// A few lines for a person to read.
    Human,
}

/// What the caller asked for.
#[derive(Clone, Copy, Debug, PartialEq, Eq, Structural)]
pub struct OutputFlags {
    pub quiet: bool,
    pub json: bool,
    pub csv: bool,
    pub time_only: bool,
}

impl OutputFlags {
    /// Every flag silences prompts and progress reports.
    pub open spec fn silent(self) -> bool {
        self.quiet || self.json || self.csv || self.time_only
    }

    /// Where several flags are set, CSV wins over JSON, JSON over the time
    /// alone, and that over the bare factors.
    pub open spec fn chosen(self) -> OutputFormat {
        if self.csv {
            OutputFormat::Csv
        } else if self.json {
            OutputFormat::Json
        } else if self.time_only {
            OutputFormat::TimeOnly
        } else if self.quiet {
            OutputFormat::Quiet
        } else {
            OutputFormat::Human
        }
    }

    /// Whether prompts and progress reports are to be left out.
    pub fn is_quiet(&self) -> (b: bool)
        ensures
            b == self.silent(),
    {
        self.quiet || self.json || self.csv || self.time_only
    }

    /// The format to write results in.
    pub fn format(&self) -> (f: OutputFormat)
        ensures
            f == self.chosen(),
    {
        if self.csv {
            OutputFormat::Csv
        } else if self.json {
            OutputFormat::Json
        } else if self.time_only {
            OutputFormat::TimeOnly
        } else if self.quiet {
            OutputFormat::Quiet
        } else {
            OutputFormat::Human
        }
    }
}

/// The CSV line of a success: modulus, factors, iterations, milliseconds.
pub open spec fn csv_text(
    n: Seq<char>,
    p: Seq<char>,
    q: Seq<char>,
    iterations: Seq<char>,
    millis: Seq<char>,
) -> Seq<char> {
    n + ","@ + p + ","@ + q + ","@ + iterations + ","@ + millis
}

/// The line of a success that shows the factors alone.
pub open spec fn quiet_text(p: Seq<char>, q: Seq<char>) -> Seq<char> {
    p + " "@ + q
}

/// The lines of a success for a person to read.
pub open spec fn human_text(n: Seq<char>, p: Seq<char>, q: Seq<char>, elapsed: Seq<char>) -> Seq<
    char,
> {
    "\n✅ Factors of "@ + n + ":\n\np = "@ + p + "\nq = "@ + q + "\n⏱️  Execution time: "@ + elapsed
}

/// The text of a job without factors, in the format given. The formats
/// that have no text of their own for it use that for a person.
pub open spec fn failure_text(format: OutputFormat, n: Seq<char>, timed_out: bool) -> Seq<char> {
    match format {
        OutputFormat::Csv => if timed_out {
            n + ",TIMEOUT,TIMEOUT,TIMEOUT,TIMEOUT"@
        } else {
            n + ",ERROR,ERROR,ERROR,ERROR"@
        },
        OutputFormat::Json => if timed_out {
            "{\n  \"modulus\": \""@ + n + "\",\n  \"error\": \"Factorization timed out\"\n}"@
        } else {
            "{\n  \"modulus\": \""@ + n + "\",\n  \"error\": \"Factorization failed\"\n}"@
        },
        _ => if timed_out {
            "❌ Timed out factoring "@ + n + "."@
        } else {
            "❌ Failed to factor "@ + n + "."@
        },
    }
}

/// Writes the CSV line of a success.
pub fn csv_line(n: &str, p: &str, q: &str, iterations: &str, millis: &str) -> (line: String)
    ensures
        line@ == csv_text(n@, p@, q@, iterations@, millis@),
{
    let mut line = String::from_str(n);
    line.append(",");
    line.append(p);
    line.append(",");
    line.append(q);
    line.append(",");
    line.append(iterations);
    line.append(",");
    line.append(millis);
    line
}

/// Writes the line of a success that shows the factors alone.
pub fn quiet_line(p: &str, q: &str) -> (line: String)
    ensures
        line@ == quiet_text(p@, q@),
{
    let mut line = String::from_str(p);
    line.append(" ");
    line.append(q);
    line
}

/// Writes the lines of a success for a person to read.
pub fn human_lines(n: &str, p: &str, q: &str, elapsed: &str) -> (text: String)
    ensures
        text@ == human_text(n@, p@, q@, elapsed@),
{
    let mut text = String::from_str("\n✅ Factors of ");
    text.append(n);
    text.append(":\n\np = ");
    text.append(p);
    text.append("\nq = ");
    text.append(q);
    text.append("\n⏱️  Execution time: ");
    text.append(elapsed);
    text
}

/// Writes the text of a job that failed, or that missed its deadline.
pub fn failure_line(format: OutputFormat, n: &str, timed_out: bool) -> (text: String)
    ensures
        text@ == failure_text(format, n@, timed_out),
{
    match format {
        OutputFormat::Csv => {
            let mut text = String::from_str(n);
            if timed_out {
                text.append(",TIMEOUT,TIMEOUT,TIMEOUT,TIMEOUT");
            } else {
                text.append(",ERROR,ERROR,ERROR,ERROR");
            }
            text
        },
        OutputFormat::Json => {
            let mut text = String::from_str("{\n  \"modulus\": \"");
            text.append(n);
            if timed_out {
                text.append("\",\n  \"error\": \"Factorization timed out\"\n}");
            } else {
                text.append("\",\n  \"error\": \"Factorization failed\"\n}");
            }
            text
        },
        _ => {
            let mut text = if timed_out {
                String::from_str("❌ Timed out factoring ")
            } else {
                String::from_str("❌ Failed to factor ")
            };
            text.append(n);
            text.append(".");
            text
        },
    }
}

} // verus!
