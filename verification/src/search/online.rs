//! Searching packages and options online.
use vstd::prelude::*;
use vstd::string::*;

use crate::render::line::{plain, Line};
use crate::search::backend::SearchContexts;
use crate::search::shown::Shown;
use crate::text::{decimal, decimal_reads_back, decimal_text, decimal_value, join, joined, views};

verus! {

/// The words of a query, as one text.
pub fn query_text(words: &[String]) -> (r: String)
    ensures
        r@ == joined(views(words@), " "@),
{
    join(words, " ")
}

/// A search for packages.
#[derive(Debug, Clone, Copy, PartialEq, Eq)]
pub struct Packages {
    /// Whether to show the platforms of each package.
    pub platforms: bool,
}

/// A search for options, in the scope of the given name.
#[derive(Debug, Clone, PartialEq, Eq)]
pub struct Options {
    pub scope: String,
}

/// The packages that were found, with documents of the type `D`.
#[derive(Debug, Clone, PartialEq, Eq)]
pub struct PackageJsonOutput<D> {
    pub query: String,
    pub channel: String,
    pub elapsed_ms: u128,
    pub results: Vec<D>,
}

/// The options that were found, with documents of the type `D`.
#[derive(Debug, Clone, PartialEq, Eq)]
pub struct OptionJsonOutput<D> {
    pub query: String,
    pub channel: String,
    pub scope: String,
    pub elapsed_ms: u128,
    pub results: Vec<D>,
}

impl Packages {
    /// What to say of errors.
    pub fn contexts(&self) -> (r: SearchContexts)
        ensures
            r.build@ == "building search query"@,
            r.execute@ == "querying the elasticsearch API"@,
            r.parse@ == "parsing search document"@,
    {
        SearchContexts {
            build: "building search query",
            execute: "querying the elasticsearch API",
            parse: "parsing search document",
        }
    }

    /// What to show while `channel` is searched.
    pub fn print_querying(&self, channel: &str) -> (r: String)
        ensures
            r@ == "Querying search.nixos.org, with channel "@ + channel@ + "..."@,
    {
        let mut out = "Querying search.nixos.org, with channel ".to_owned();
        out.append(channel);
        out.append("...");
        out
    }

    /// What was found, to be written as JSON.
    pub fn print_json<D>(&self, query: String, channel: String, elapsed_ms: u128, documents: Vec<D>) -> (r:
        PackageJsonOutput<D>)
        ensures
            r == (PackageJsonOutput { query, channel, elapsed_ms, results: documents }),
    {
        PackageJsonOutput { query, channel, elapsed_ms, results: documents }
    }
}

impl Options {
    /// What to say of errors.
    pub fn contexts(&self) -> (r: SearchContexts)
        ensures
            r.build@ == "building option search query"@,
            r.execute@ == "querying the elasticsearch API for options"@,
            r.parse@ == "parsing option search document"@,
    {
        SearchContexts {
            build: "building option search query",
            execute: "querying the elasticsearch API for options",
            parse: "parsing option search document",
        }
    }

    /// What to show while `channel` is searched.
    pub fn print_querying(&self, channel: &str) -> (r: String)
        ensures
            r@ == "Querying options on search.nixos.org, with channel "@ + channel@ + "..."@,
    {
        let mut out = "Querying options on search.nixos.org, with channel ".to_owned();
        out.append(channel);
        out.append("...");
        out
    }

    /// What was found, to be written as JSON.
    pub fn print_json<D>(&self, query: String, channel: String, elapsed_ms: u128, documents: Vec<D>) -> (r:
        OptionJsonOutput<D>)
        ensures
            r.query == query,
            r.channel == channel,
            r.scope@ == self.scope@,
            r.elapsed_ms == elapsed_ms,
            r.results == documents,
    {
        OptionJsonOutput { query, channel, scope: self.scope.clone(), elapsed_ms, results: documents }
    }
}

/// How the documents that were found are shown, with JSON asked for or not:
/// also where there are none, the lines have a heading.
pub fn shown_documents(json: bool) -> (r: Shown)
    ensures
        r == if json {
            Shown::Json
        } else {
            Shown::Lines
        },
{
    if json {
        Shown::Json
    } else {
        Shown::Lines
    }
}

/// The line that says how long a search took.
pub open spec fn took(elapsed_ms: u128) -> Seq<char> {
    "Took "@ + decimal(elapsed_ms as nat) + "ms"@
}

/// The line that says how long a search took.
pub fn took_line(elapsed_ms: u128) -> (r: String)
    ensures
        r@ == took(elapsed_ms),
{
    let mut out = "Took ".to_owned();
    out.append(decimal_text(elapsed_ms).as_str());
    out.append("ms");
    out
}

/// The lines in front of the results of a search.
pub fn heading(elapsed_ms: u128) -> (r: Vec<Line>)
    ensures
        views(r@) == seq![plain(took(elapsed_ms)), plain("Most relevant results at the end"@), plain(""@)],
{
    let mut lines: Vec<Line> = Vec::new();
    lines.push(Line::of(took_line(elapsed_ms)));
    lines.push(Line::text("Most relevant results at the end"));
    lines.push(Line::text(""));
    assert(views(lines@) =~= seq![
        plain(took(elapsed_ms)),
        plain("Most relevant results at the end"@),
        plain(""@),
    ]);
    lines
}

/// The line that says how long a search took holds the milliseconds, as they
/// are counted.
pub proof fn time_is_told(elapsed_ms: u128)
    ensures
        ({
            let lead = "Took "@.len() as int;
            let line = took(elapsed_ms);
            &&& line.take(lead) == "Took "@
            &&& line.skip(line.len() - 2) == "ms"@
            &&& decimal_value(line.subrange(lead, line.len() - 2)) == elapsed_ms
        }),
{
    reveal_strlit("ms");
    decimal_reads_back(elapsed_ms as nat);
    let lead = "Took "@.len() as int;
    let line = took(elapsed_ms);
    assert(line.take(lead) =~= "Took "@);
    assert(line.skip(line.len() - 2) =~= "ms"@);
    assert(line.subrange(lead, line.len() - 2) =~= decimal(elapsed_ms as nat));
}

} // verus!
