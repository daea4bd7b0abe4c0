//! Searching databases on this machine.
use vstd::prelude::*;
use vstd::string::*;

use crate::render::line::{colored, plain, Color, Line, SpanView};
use crate::search::online::{took, took_line};
use crate::text::{
    decimal, decimal_text, ends_with_its_end, holds, join, joined, least, on_one_line, opt_view, smaller, to_one_line,
    views,
};

verus! {

/// How many packages are shown: as many as fit beside the options, which may
/// take half of the places.
pub open spec fn package_share(option_len: int, package_len: int, limit: int) -> int {
    least(package_len, limit - least(option_len, limit / 2))
}

/// How many options are shown: as many as fit beside the packages.
pub open spec fn option_share(option_len: int, package_len: int, limit: int) -> int {
    least(option_len, limit - package_share(option_len, package_len, limit))
}

/// How many options and how many packages to show, of `limit` in all.
pub fn fair_split(option_len: usize, package_len: usize, limit: usize) -> (r: (usize, usize))
    ensures
        r.0 == option_share(option_len as int, package_len as int, limit as int),
        r.1 == package_share(option_len as int, package_len as int, limit as int),
{
    let half: usize = limit / 2;
    let opt_take: usize = smaller(option_len, half);
    let pkg_take: usize = smaller(package_len, limit - opt_take);
    let opt_take: usize = opt_take + smaller(limit - opt_take - pkg_take, option_len - opt_take);
    (opt_take, pkg_take)
}

/// No place is left empty while there is something to show, none is given
/// twice, and each kind gets its half, as far as it needs it: the packages
/// the larger one.
pub proof fn split_is_fair(option_len: nat, package_len: nat, limit: nat)
    ensures
        0 <= option_share(option_len as int, package_len as int, limit as int) <= option_len,
        0 <= package_share(option_len as int, package_len as int, limit as int) <= package_len,
        option_share(option_len as int, package_len as int, limit as int) + package_share(
            option_len as int,
            package_len as int,
            limit as int,
        ) == least(limit as int, (option_len + package_len) as int),
        option_share(option_len as int, package_len as int, limit as int) >= least(
            option_len as int,
            limit as int / 2,
        ),
        package_share(option_len as int, package_len as int, limit as int) >= least(
            package_len as int,
            limit - limit as int / 2,
        ),
{
}

/// An option, as a database describes it.
#[derive(Debug, Clone, PartialEq, Eq)]
pub struct OptionRecord {
    pub name: String,
    pub summary: Option<String>,
}

/// A file, as a database describes it, with the packages that ship it.
#[derive(Debug, Clone, PartialEq, Eq)]
pub struct FileRecord {
    pub path: String,
    pub packages: Vec<String>,
}

/// What a database has to say to a query.
#[derive(Debug, Clone, PartialEq, Eq)]
pub enum DatabaseAnswer {
    Options(Vec<OptionRecord>),
    Packages(Vec<FileRecord>),
    /// It is a database of a kind that is not searched.
    Index,
}

/// An option that was found, and the database it was found in.
#[derive(Debug, Clone, PartialEq, Eq)]
pub struct OfflineOptionResult {
    pub db_path: String,
    pub name: String,
    pub summary: Option<String>,
}

/// What an option that was found stands for.
pub struct OptionView {
    pub db_path: Seq<char>,
    pub name: Seq<char>,
    pub summary: Option<Seq<char>>,
}

impl View for OfflineOptionResult {
    type V = OptionView;

    open spec fn view(&self) -> OptionView {
        OptionView { db_path: self.db_path@, name: self.name@, summary: opt_view(self.summary) }
    }
}

/// A file that was found, and the database it was found in.
#[derive(Debug, Clone, PartialEq, Eq)]
pub struct OfflinePackageResult {
    pub db_path: String,
    pub path: String,
    pub packages: Vec<String>,
}

/// What a file that was found stands for.
pub struct PackageView {
    pub db_path: Seq<char>,
    pub path: Seq<char>,
    pub packages: Seq<Seq<char>>,
}

impl View for OfflinePackageResult {
    type V = PackageView;

    open spec fn view(&self) -> PackageView {
        PackageView { db_path: self.db_path@, path: self.path@, packages: views(self.packages@) }
    }
}

/// A database of a kind that is not searched.
#[derive(Debug, Clone, PartialEq, Eq)]
pub struct UnsupportedDatabase {
    pub db_path: String,
}

impl UnsupportedDatabase {
    /// What to tell the user.
    pub fn message(&self) -> (r: String)
        ensures
            r@ == "Invalid database format for "@ + self.db_path@
                + ": expected `options` or `packages`, got `index`."@,
    {
        let mut out = "Invalid database format for ".to_owned();
        out.append(self.db_path.as_str());
        out.append(": expected `options` or `packages`, got `index`.");
        out
    }
}

/// What is done with a database.
#[derive(Debug, Clone, Copy, PartialEq, Eq, Structural)]
pub enum DatabaseStage {
    Open,
    QueryOptions,
    QueryPackages,
}

impl DatabaseStage {
    /// What to tell the user where this fails with the database `db`.
    pub open spec fn failure(self, db: Seq<char>) -> Seq<char> {
        match self {
            DatabaseStage::Open => "opening SPAM database: "@ + db,
            DatabaseStage::QueryOptions => "querying options database: "@ + db,
            DatabaseStage::QueryPackages => "querying packages database: "@ + db,
        }
    }

    /// What to tell the user where this fails with the database `db`.
    pub fn message(self, db: &str) -> (r: String)
        ensures
            r@ == self.failure(db@),
    {
        let mut out = match self {
            DatabaseStage::Open => "opening SPAM database: ".to_owned(),
            DatabaseStage::QueryOptions => "querying options database: ".to_owned(),
            DatabaseStage::QueryPackages => "querying packages database: ".to_owned(),
        };
        out.append(db);
        out
    }
}

/// The options that `records` describe, found in `db`.
pub open spec fn tagged_options(records: Seq<OptionRecord>, db: Seq<char>) -> Seq<OptionView> {
    records.map_values(
        |record: OptionRecord|
            OptionView { db_path: db, name: record.name@, summary: opt_view(record.summary) },
    )
}

/// The files that `records` describe, found in `db`.
pub open spec fn tagged_packages(records: Seq<FileRecord>, db: Seq<char>) -> Seq<PackageView> {
    records.map_values(
        |record: FileRecord|
            PackageView { db_path: db, path: record.path@, packages: views(record.packages@) },
    )
}

/// The options that are shown, of `limit` results in all.
pub open spec fn options_shown(options: Seq<OptionView>, packages: Seq<PackageView>, limit: int) -> Seq<OptionView> {
    options.take(option_share(options.len() as int, packages.len() as int, limit))
}

/// The files that are shown, of `limit` results in all.
pub open spec fn packages_shown(options: Seq<OptionView>, packages: Seq<PackageView>, limit: int) -> Seq<PackageView> {
    packages.take(package_share(options.len() as int, packages.len() as int, limit))
}

/// What was found so far.
#[derive(Debug, Clone, PartialEq, Eq)]
pub struct OfflineSearch {
    options: Vec<OfflineOptionResult>,
    packages: Vec<OfflinePackageResult>,
}

/// What was found, cut down to what is shown.
#[derive(Debug, Clone, PartialEq, Eq)]
pub struct OfflineFindings {
    /// Whether anything was found at all.
    pub found: bool,
    pub options: Vec<OfflineOptionResult>,
    pub packages: Vec<OfflinePackageResult>,
}

impl OfflineSearch {
    /// The options that were found.
    pub closed spec fn options(&self) -> Seq<OptionView> {
        views(self.options@)
    }

    /// The files that were found.
    pub closed spec fn packages(&self) -> Seq<PackageView> {
        views(self.packages@)
    }

    /// Nothing was found yet.
    pub fn new() -> (r: Self)
        ensures
            r.options() == Seq::<OptionView>::empty(),
            r.packages() == Seq::<PackageView>::empty(),
    {
        let r = OfflineSearch { options: Vec::new(), packages: Vec::new() };
        assert(views(r.options@) =~= Seq::empty());
        assert(views(r.packages@) =~= Seq::empty());
        r
    }

    /// Takes in what the database `db` had to say.
    pub fn add(&mut self, db: &str, answer: DatabaseAnswer) -> (r: Result<(), UnsupportedDatabase>)
        ensures
            match answer {
                DatabaseAnswer::Options(records) => {
                    &&& r is Ok
                    &&& final(self).options() == old(self).options() + tagged_options(records@, db@)
                    &&& final(self).packages() == old(self).packages()
                },
                DatabaseAnswer::Packages(records) => {
                    &&& r is Ok
                    &&& final(self).options() == old(self).options()
                    &&& final(self).packages() == old(self).packages() + tagged_packages(records@, db@)
                },
                DatabaseAnswer::Index => {
                    &&& r matches Err(error) && error.db_path@ == db@
                    &&& *final(self) == *old(self)
                },
            },
    {
        match answer {
            DatabaseAnswer::Options(records) => {
                let ghost start = self.options();
                let ghost all = tagged_options(records@, db@);
                assert(start + all.take(0) =~= start);
                for record in it: records
                    invariant
                        it.seq() == records@,
                        all == tagged_options(records@, db@),
                        self.options() == start + all.take(it.index() as int),
                        self.packages == old(self).packages,
                {
                    let ghost i = it.index() as int;
                    let ghost before = self.options();
                    let hit = OfflineOptionResult {
                        db_path: db.to_owned(),
                        name: record.name,
                        summary: record.summary,
                    };
                    self.options.push(hit);
                    assert(self.options() =~= before.push(all[i]));
                    assert(self.options() =~= start + all.take(i + 1));
                }
                assert(all.take(all.len() as int) =~= all);
                Ok(())
            },
            DatabaseAnswer::Packages(records) => {
                let ghost start = self.packages();
                let ghost all = tagged_packages(records@, db@);
                assert(start + all.take(0) =~= start);
                for record in it: records
                    invariant
                        it.seq() == records@,
                        all == tagged_packages(records@, db@),
                        self.packages() == start + all.take(it.index() as int),
                        self.options == old(self).options,
                {
                    let ghost i = it.index() as int;
                    let ghost before = self.packages();
                    let hit = OfflinePackageResult {
                        db_path: db.to_owned(),
                        path: record.path,
                        packages: record.packages,
                    };
                    self.packages.push(hit);
                    assert(self.packages() =~= before.push(all[i]));
                    assert(self.packages() =~= start + all.take(i + 1));
                }
                assert(all.take(all.len() as int) =~= all);
                Ok(())
            },
            DatabaseAnswer::Index => Err(UnsupportedDatabase { db_path: db.to_owned() }),
        }
    }

    /// What is shown, of `limit` results in all.
    pub fn finish(self, limit: u64) -> (r: OfflineFindings)
        ensures
            r.found == (self.options().len() > 0 || self.packages().len() > 0),
            views(r.options@) == options_shown(self.options(), self.packages(), limit as usize as int),
            views(r.packages@) == packages_shown(self.options(), self.packages(), limit as usize as int),
    {
        let mut options = self.options;
        let mut packages = self.packages;
        let found = options.len() > 0 || packages.len() > 0;
        let (opt_take, pkg_take) = fair_split(options.len(), packages.len(), limit as usize);
        proof {
            split_is_fair(options@.len(), packages@.len(), limit as usize as nat);
        }
        options.truncate(opt_take);
        packages.truncate(pkg_take);
        assert(views(options@) =~= self.options().take(opt_take as int));
        assert(views(packages@) =~= self.packages().take(pkg_take as int));
        OfflineFindings { found, options, packages }
    }
}

/// What was found, to be written as JSON.
#[derive(Debug, Clone, PartialEq, Eq)]
pub struct OfflineJsonOutput {
    pub query: String,
    pub db_paths: Vec<String>,
    pub elapsed_ms: u128,
    pub options: Vec<OfflineOptionResult>,
    pub packages: Vec<OfflinePackageResult>,
}

impl OfflineFindings {
    /// What was found, to be written as JSON.
    pub fn into_output(self, query: String, db_paths: Vec<String>, elapsed_ms: u128) -> (r: OfflineJsonOutput)
        ensures
            r == (OfflineJsonOutput {
                query,
                db_paths,
                elapsed_ms,
                options: self.options,
                packages: self.packages,
            }),
    {
        OfflineJsonOutput { query, db_paths, elapsed_ms, options: self.options, packages: self.packages }
    }
}

/// The lines that `text` is broken into, to fit in `width` columns.
pub uninterp spec fn wrapped(text: Seq<char>, width: usize) -> Seq<Seq<char>>;

/// `textwrap::wrap` breaks a text into lines of at most `width` columns, as
/// far as its words let it. The lines depend on the text and the width alone.
#[verifier::external_body]
fn wrap(text: &str, width: usize) -> (r: Vec<String>)
    ensures
        views(r@) == wrapped(text@, width),
{
    textwrap::wrap(text, width).into_iter().map(|line| line.into_owned()).collect()
}

/// `broken`, line by line, `first` in front of the first and `rest` in front
/// of the others.
pub open spec fn indentation(broken: Seq<Seq<char>>, first: Seq<char>, rest: Seq<char>) -> Seq<Seq<SpanView>> {
    Seq::new(
        broken.len(),
        |i: int|
            plain(
                if i == 0 {
                    first + broken[i]
                } else {
                    rest + broken[i]
                },
            ),
    )
}

/// Adds the lines of a text that is broken into lines, `first` in front of
/// the first and `rest` in front of the others.
pub fn indent(lines: &mut Vec<Line>, broken: &[String], first: &str, rest: &str)
    ensures
        views(final(lines)@) == views(old(lines)@) + indentation(views(broken@), first@, rest@),
{
    let ghost start = views(lines@);
    let ghost all = indentation(views(broken@), first@, rest@);
    let mut i: usize = 0;
    assert(start + all.take(0) =~= start);
    while i < broken.len()
        invariant
            0 <= i <= broken@.len(),
            all == indentation(views(broken@), first@, rest@),
            views(lines@) == start + all.take(i as int),
        decreases broken@.len() - i,
    {
        let ghost before = views(lines@);
        let mut text = if i == 0 {
            first.to_owned()
        } else {
            rest.to_owned()
        };
        text.append(broken[i].as_str());
        lines.push(Line::of(text));
        assert(views(lines@) =~= before.push(all[i as int]));
        assert(views(lines@) =~= start + all.take(i + 1));
        i += 1;
    }
    assert(all.take(all.len() as int) =~= all);
}

/// The lines of a text in `width` columns, `first` in front of the first and
/// `rest` in front of the others.
pub open spec fn indented(text: Seq<char>, width: usize, first: Seq<char>, rest: Seq<char>) -> Seq<
    Seq<SpanView>,
> {
    indentation(wrapped(text, width), first, rest)
}

/// Adds the lines of a text in `width` columns, `first` in front of the first
/// and `rest` in front of the others.
fn push_indented(lines: &mut Vec<Line>, text: &str, width: usize, first: &str, rest: &str)
    ensures
        views(final(lines)@) == views(old(lines)@) + indented(text@, width, first@, rest@),
{
    let broken = wrap(text, width);
    indent(lines, broken.as_slice(), first, rest);
}

/// The lines that show an option: its name, its database, and its summary.
pub open spec fn option_lines(option: OptionView, width: usize) -> Seq<Seq<SpanView>> {
    let head = seq![plain(""@), colored(Color::Blue, option.name), plain("  Source: "@ + option.db_path)];
    match option.summary {
        Some(summary) => head + indented(on_one_line(summary), width, "  "@, "  "@),
        None => head,
    }
}

/// The lines that show a file: its path, its database, and the packages that
/// ship it.
pub open spec fn package_lines(file: PackageView, width: usize) -> Seq<Seq<SpanView>> {
    let head = seq![plain(""@), colored(Color::Blue, file.path), plain("  Source: "@ + file.db_path)];
    if file.packages.len() > 0 {
        head + indented(joined(file.packages, ", "@), width, "  Packages: "@, "            "@)
    } else {
        head
    }
}

/// The lines that show the first `n` of `options`.
pub open spec fn options_lines(options: Seq<OptionView>, width: usize, n: int) -> Seq<Seq<SpanView>>
    decreases n,
{
    if n <= 0 {
        Seq::empty()
    } else {
        options_lines(options, width, n - 1) + option_lines(options[n - 1], width)
    }
}

/// The lines that show the first `n` of `files`.
pub open spec fn packages_lines(files: Seq<PackageView>, width: usize, n: int) -> Seq<Seq<SpanView>>
    decreases n,
{
    if n <= 0 {
        Seq::empty()
    } else {
        packages_lines(files, width, n - 1) + package_lines(files[n - 1], width)
    }
}

/// The lines in front of all results.
pub open spec fn heading_lines(databases: nat, elapsed_ms: u128) -> Seq<Seq<SpanView>> {
    seq![
        plain("Searching "@ + decimal(databases) + " offline database(s)..."@),
        plain(took(elapsed_ms)),
        plain(""@),
    ]
}

/// All lines that show what was found: how many databases were searched, how
/// long it took, and the results.
pub open spec fn report_lines(
    found: bool,
    options: Seq<OptionView>,
    packages: Seq<PackageView>,
    databases: nat,
    elapsed_ms: u128,
    width: usize,
) -> Seq<Seq<SpanView>> {
    if found {
        heading_lines(databases, elapsed_ms) + options_lines(options, width, options.len() as int)
            + packages_lines(packages, width, packages.len() as int)
    } else {
        heading_lines(databases, elapsed_ms).push(plain("No results found."@))
    }
}

/// The lines that show what has a name and a database.
fn push_head(lines: &mut Vec<Line>, name: &str, db_path: &str)
    ensures
        views(final(lines)@) == views(old(lines)@) + seq![
            plain(""@),
            colored(Color::Blue, name@),
            plain("  Source: "@ + db_path@),
        ],
{
    let mut source = "  Source: ".to_owned();
    source.append(db_path);
    let ghost start = views(lines@);
    lines.push(Line::text(""));
    lines.push(Line::painted(Color::Blue, name));
    lines.push(Line::of(source));
    assert(views(lines@) =~= start + seq![
        plain(""@),
        colored(Color::Blue, name@),
        plain("  Source: "@ + db_path@),
    ]);
}

fn push_option(lines: &mut Vec<Line>, option: &OfflineOptionResult, width: usize)
    ensures
        views(final(lines)@) == views(old(lines)@) + option_lines(option@, width),
{
    let ghost start = views(lines@);
    push_head(lines, option.name.as_str(), option.db_path.as_str());
    if let Some(summary) = &option.summary {
        push_indented(lines, to_one_line(summary.as_str()).as_str(), width, "  ", "  ");
    }
    assert(views(lines@) =~= start + option_lines(option@, width));
}

fn push_package(lines: &mut Vec<Line>, file: &OfflinePackageResult, width: usize)
    ensures
        views(final(lines)@) == views(old(lines)@) + package_lines(file@, width),
{
    let ghost start = views(lines@);
    push_head(lines, file.path.as_str(), file.db_path.as_str());
    if file.packages.len() > 0 {
        let names = join(file.packages.as_slice(), ", ");
        push_indented(lines, names.as_str(), width, "  Packages: ", "            ");
    }
    assert(views(lines@) =~= start + package_lines(file@, width));
}

impl OfflineFindings {
    /// The lines that show what was found, in `width` columns.
    pub fn print(&self, databases: usize, elapsed_ms: u128, width: usize) -> (r: Vec<Line>)
        ensures
            views(r@) == report_lines(
                self.found,
                views(self.options@),
                views(self.packages@),
                databases as nat,
                elapsed_ms,
                width,
            ),
    {
        let mut searching = "Searching ".to_owned();
        searching.append(decimal_text(databases as u128).as_str());
        searching.append(" offline database(s)...");
        let mut lines: Vec<Line> = Vec::new();
        lines.push(Line::of(searching));
        lines.push(Line::of(took_line(elapsed_ms)));
        lines.push(Line::text(""));
        let ghost head = heading_lines(databases as nat, elapsed_ms);
        assert(views(lines@) =~= head);
        if !self.found {
            lines.push(Line::text("No results found."));
            assert(views(lines@) =~= head.push(plain("No results found."@)));
            return lines;
        }
        let ghost options = views(self.options@);
        let ghost packages = views(self.packages@);
        let mut i: usize = 0;
        assert(head + options_lines(options, width, 0) =~= head);
        while i < self.options.len()
            invariant
                0 <= i <= self.options@.len(),
                options == views(self.options@),
                views(lines@) == head + options_lines(options, width, i as int),
            decreases self.options@.len() - i,
        {
            let ghost before = views(lines@);
            push_option(&mut lines, &self.options[i], width);
            assert(views(lines@) == before + option_lines(options[i as int], width));
            assert(views(lines@) =~= head + options_lines(options, width, i + 1));
            i += 1;
        }
        let ghost upper = views(lines@);
        let mut j: usize = 0;
        assert(upper + packages_lines(packages, width, 0) =~= upper);
        while j < self.packages.len()
            invariant
                0 <= j <= self.packages@.len(),
                packages == views(self.packages@),
                views(lines@) == upper + packages_lines(packages, width, j as int),
            decreases self.packages@.len() - j,
        {
            let ghost before = views(lines@);
            push_package(&mut lines, &self.packages[j], width);
            assert(views(lines@) == before + package_lines(packages[j as int], width));
            assert(views(lines@) =~= upper + packages_lines(packages, width, j + 1));
            j += 1;
        }
        lines
    }
}

/// The lines that show one option stand among those that show all, in order.
proof fn option_is_shown(options: Seq<OptionView>, width: usize, n: int, i: int, k: int)
    requires
        0 <= i < n,
        0 <= k < option_lines(options[i], width).len(),
    ensures
        options_lines(options, width, i).len() + k < options_lines(options, width, n).len(),
        options_lines(options, width, n)[options_lines(options, width, i).len() + k] == option_lines(
            options[i],
            width,
        )[k],
    decreases n,
{
    if i < n - 1 {
        option_is_shown(options, width, n - 1, i, k);
    }
}

proof fn package_is_shown(files: Seq<PackageView>, width: usize, n: int, i: int, k: int)
    requires
        0 <= i < n,
        0 <= k < package_lines(files[i], width).len(),
    ensures
        packages_lines(files, width, i).len() + k < packages_lines(files, width, n).len(),
        packages_lines(files, width, n)[packages_lines(files, width, i).len() + k] == package_lines(
            files[i],
            width,
        )[k],
    decreases n,
{
    if i < n - 1 {
        package_is_shown(files, width, n - 1, i, k);
    }
}

/// Every option that is reported is shown: its name, right behind it the
/// database it was found in, and behind that every line of its summary,
/// indented.
pub proof fn every_option_is_shown(
    options: Seq<OptionView>,
    packages: Seq<PackageView>,
    databases: nat,
    elapsed_ms: u128,
    width: usize,
    i: int,
) -> (at: int)
    requires
        0 <= i < options.len(),
    ensures
        ({
            let lines = report_lines(true, options, packages, databases, elapsed_ms, width);
            &&& 0 <= at < lines.len() - 1
            &&& lines[at] == seq![SpanView::Colored(Color::Blue, options[i].name)]
            &&& lines[at + 1] == seq![SpanView::Plain("  Source: "@ + options[i].db_path)]
            &&& options[i].summary matches Some(summary) ==> at + 2 + wrapped(on_one_line(summary), width).len()
                <= lines.len()
            &&& options[i].summary matches Some(summary) ==> forall|k: int|
                0 <= k < wrapped(on_one_line(summary), width).len() ==> lines[at + 2 + k] == seq![
                    SpanView::Plain("  "@ + #[trigger] wrapped(on_one_line(summary), width)[k]),
                ]
        }),
{
    let lines = report_lines(true, options, packages, databases, elapsed_ms, width);
    let n = options.len() as int;
    let start = 3 + options_lines(options, width, i).len() as int;
    let own = option_lines(options[i], width);
    option_is_shown(options, width, n, i, 1);
    option_is_shown(options, width, n, i, 2);
    let at = start + 1;
    assert(lines[at] == own[1]);
    assert(lines[at + 1] == own[2]);
    if let Some(summary) = options[i].summary {
        let broken = wrapped(on_one_line(summary), width);
        if broken.len() > 0 {
            option_is_shown(options, width, n, i, broken.len() as int + 2);
        }
        assert forall|k: int| 0 <= k < broken.len() implies lines[at + 2 + k] == plain(
            "  "@ + #[trigger] broken[k],
        ) by {
            option_is_shown(options, width, n, i, 3 + k);
            assert(own[3 + k] == indented(on_one_line(summary), width, "  "@, "  "@)[k]);
        }
    }
    at
}

/// Every file that is reported is shown: its path, right behind it the database
/// it was found in, and behind that the packages that ship it.
pub proof fn every_file_is_shown(
    options: Seq<OptionView>,
    packages: Seq<PackageView>,
    databases: nat,
    elapsed_ms: u128,
    width: usize,
    i: int,
) -> (at: int)
    requires
        0 <= i < packages.len(),
    ensures
        ({
            let lines = report_lines(true, options, packages, databases, elapsed_ms, width);
            &&& 0 <= at < lines.len() - 1
            &&& lines[at] == seq![SpanView::Colored(Color::Blue, packages[i].path)]
            &&& lines[at + 1] == seq![SpanView::Plain("  Source: "@ + packages[i].db_path)]
            &&& packages[i].packages.len() > 0 ==> at + 2 + wrapped(joined(packages[i].packages, ", "@), width).len()
                <= lines.len()
            &&& packages[i].packages.len() > 0 ==> forall|k: int|
                0 <= k < wrapped(joined(packages[i].packages, ", "@), width).len() ==> lines[at + 2 + k] == seq![
                    SpanView::Plain(
                        (if k == 0 {
                            "  Packages: "@
                        } else {
                            "            "@
                        }) + #[trigger] wrapped(joined(packages[i].packages, ", "@), width)[k],
                    ),
                ]
        }),
{
    let lines = report_lines(true, options, packages, databases, elapsed_ms, width);
    let n = packages.len() as int;
    let start = 3 + options_lines(options, width, options.len() as int).len() + packages_lines(
        packages,
        width,
        i,
    ).len() as int;
    let own = package_lines(packages[i], width);
    package_is_shown(packages, width, n, i, 1);
    package_is_shown(packages, width, n, i, 2);
    let at = start + 1;
    assert(lines[at] == own[1]);
    assert(lines[at + 1] == own[2]);
    if packages[i].packages.len() > 0 {
        let broken = wrapped(joined(packages[i].packages, ", "@), width);
        if broken.len() > 0 {
            package_is_shown(packages, width, n, i, broken.len() as int + 2);
        }
        assert forall|k: int| 0 <= k < broken.len() implies lines[at + 2 + k] == plain(
            (if k == 0 {
                "  Packages: "@
            } else {
                "            "@
            }) + #[trigger] broken[k],
        ) by {
            package_is_shown(packages, width, n, i, 3 + k);
            assert(own[3 + k] == indented(
                joined(packages[i].packages, ", "@),
                width,
                "  Packages: "@,
                "            "@,
            )[k]);
        }
    }
    at
}

/// A report begins with the number of databases and the time that the search
/// took, and says so where nothing was found.
pub proof fn report_begins_with_its_figures(
    found: bool,
    options: Seq<OptionView>,
    packages: Seq<PackageView>,
    databases: nat,
    elapsed_ms: u128,
    width: usize,
)
    ensures
        ({
            let lines = report_lines(found, options, packages, databases, elapsed_ms, width);
            &&& lines.len() >= 3
            &&& lines[0] == plain("Searching "@ + decimal(databases) + " offline database(s)..."@)
            &&& lines[1] == plain("Took "@ + decimal(elapsed_ms as nat) + "ms"@)
            &&& lines[2] == plain(""@)
            &&& !found ==> lines.len() == 4 && lines[3] == plain("No results found."@)
            &&& found && options.len() == 0 && packages.len() == 0 ==> lines.len() == 3
        }),
{
}

/// What a database says is kept as it is, record by record, with the database
/// it came from.
pub proof fn records_are_kept(options: Seq<OptionRecord>, files: Seq<FileRecord>, db: Seq<char>)
    ensures
        tagged_options(options, db).len() == options.len(),
        forall|i: int|
            0 <= i < options.len() ==> (#[trigger] tagged_options(options, db)[i]).db_path == db && tagged_options(
                options,
                db,
            )[i].name == options[i].name@ && tagged_options(options, db)[i].summary == opt_view(
                options[i].summary,
            ),
        tagged_packages(files, db).len() == files.len(),
        forall|i: int|
            0 <= i < files.len() ==> (#[trigger] tagged_packages(files, db)[i]).db_path == db && tagged_packages(
                files,
                db,
            )[i].path == files[i].path@ && tagged_packages(files, db)[i].packages == views(files[i].packages@),
{
}

/// What is told of a database that fails names the database, and no two things
/// that are done with it are told alike.
pub proof fn failure_names_the_database(a: DatabaseStage, b: DatabaseStage, db: Seq<char>)
    ensures
        holds(a.failure(db), db),
        a.failure(db) == b.failure(db) ==> a == b,
{
    reveal_strlit("opening SPAM database: ");
    reveal_strlit("querying options database: ");
    reveal_strlit("querying packages database: ");
    ends_with_its_end("opening SPAM database: "@, db);
    ends_with_its_end("querying options database: "@, db);
    ends_with_its_end("querying packages database: "@, db);
    assert(a.failure(db).len() == b.failure(db).len() ==> a == b);
}

/// What is shown is what was found first, in order: all of it where it fits,
/// and as much as fits otherwise.
pub proof fn first_results_are_shown(options: Seq<OptionView>, packages: Seq<PackageView>, limit: nat)
    ensures
        ({
            let some = options_shown(options, packages, limit as int);
            let more = packages_shown(options, packages, limit as int);
            &&& some.len() <= options.len() && more.len() <= packages.len()
            &&& forall|i: int| 0 <= i < some.len() ==> #[trigger] some[i] == options[i]
            &&& forall|i: int| 0 <= i < more.len() ==> #[trigger] more[i] == packages[i]
            &&& options.len() + packages.len() <= limit ==> some == options && more == packages
            &&& options.len() + packages.len() > limit ==> some.len() + more.len() == limit
        }),
{
    split_is_fair(options.len(), packages.len(), limit);
    assert(options.take(options.len() as int) =~= options);
    assert(packages.take(packages.len() as int) =~= packages);
}

} // verus!
