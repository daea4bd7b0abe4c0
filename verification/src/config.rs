//! The configuration file of `nh`.
use vstd::prelude::*;
use vstd::slice::*;
use vstd::string::*;
use vstd::utf8::*;

use toml_edit::{DocumentMut, TomlError};

use crate::files::{
    creates_privately, is_private, mode_after, modes_are_private, FileStep, ReadOutcome, StepView, PRIVATE_DIR_MODE,
    PRIVATE_FILE_MODE,
};
use crate::paths::{below, join, path_keeps_directory_and_name, plain_name_is_relative};
use crate::text::{ends_with_its_end, holds, views};

verus! {

/// The variable that can hold the path of the configuration file.
pub const CONFIG_ENV: &'static str = "NH_CONFIG";

/// The name of the configuration file.
pub const CONFIG_FILE: &'static str = "config.toml";

/// A TOML document that keeps its layout.
#[verifier::external_type_specification]
#[verifier::external_body]
pub struct ExDocumentMut(DocumentMut);

/// Why a text is not a TOML document.
#[verifier::external_type_specification]
#[verifier::external_body]
pub struct ExTomlError(TomlError);

/// The text that a document is written as.
pub uninterp spec fn document_text(document: DocumentMut) -> Seq<char>;

/// The text that an error is shown as.
pub uninterp spec fn error_text(error: TomlError) -> Seq<char>;

/// The text that the TOML document `raw` is written as once it was read; or,
/// if `raw` is not one, the text of the error.
pub uninterp spec fn rewritten(raw: Seq<char>) -> Result<Seq<char>, Seq<char>>;

/// What stands before place `i` on its line.
pub open spec fn line_head(raw: Seq<char>, i: int) -> Seq<char>
    decreases i,
{
    if i <= 0 || raw[i - 1] == '\n' {
        Seq::empty()
    } else {
        line_head(raw, i - 1).push(raw[i - 1])
    }
}

/// What stands behind place `i` on its line.
pub open spec fn line_tail(raw: Seq<char>, i: int) -> Seq<char>
    decreases raw.len() - i,
{
    if i + 1 >= raw.len() || raw[i + 1] == '\n' {
        Seq::empty()
    } else {
        seq![raw[i + 1]] + line_tail(raw, i + 1)
    }
}

/// Whether there is a quotation mark of either kind in `s`.
pub open spec fn has_quote(s: Seq<char>) -> bool {
    s.contains('"') || s.contains('\'')
}

/// Whether `s` is made of spaces and tabs alone.
pub open spec fn is_blank(s: Seq<char>) -> bool {
    forall|k: int| 0 <= k < s.len() ==> #[trigger] s[k] == ' ' || s[k] == '\t'
}

/// Whether a dot can be part of a key or a header, where `head` stands before
/// it on its line. It is not where a comment or a value has begun: behind a
/// number sign, or behind an equals sign and outside braces, with no quotation
/// mark before that sign.
pub open spec fn may_be_in_key(head: Seq<char>) -> bool {
    !exists|k: int|
        0 <= k < head.len() && !has_quote(head.take(k)) && (#[trigger] head[k] == '#' || (head[k] == '='
            && !head.contains('{')))
}

/// Whether a brace opens nothing that goes on behind its line, where `head`
/// stands before and `tail` behind it: it is in a comment, or is the one such
/// brace of its line and closed there.
pub open spec fn ends_on_its_line(head: Seq<char>, tail: Seq<char>) -> bool {
    &&& !has_quote(head)
    &&& head.contains('#') || {
        &&& !has_quote(tail)
        &&& !tail.contains('#')
        &&& !head.contains('{')
        &&& !tail.contains('{')
        &&& tail.contains('}')
    }
}

/// Whether `c` can be part of a key that is not in quotation marks.
pub open spec fn is_bare(c: char) -> bool {
    'a' <= c <= 'z' || 'A' <= c <= 'Z' || '0' <= c <= '9' || c == '_' || c == '-'
}

/// Whether `s` is made of such characters and dots alone.
pub open spec fn is_bare_path(s: Seq<char>) -> bool {
    forall|k: int| 0 <= k < s.len() ==> is_bare(#[trigger] s[k]) || s[k] == '.'
}

/// Whether `s` is a comment, with nothing but spaces and tabs in front, or
/// nothing at all.
pub open spec fn is_blank_or_comment(s: Seq<char>) -> bool {
    is_blank(s) || exists|k: int| 0 <= k < s.len() && #[trigger] s[k] == '#' && is_blank(s.take(k))
}

/// Whether a dot stands between two keys of a header, where `head` stands
/// before and `tail` behind it: on a line that begins with the bracket, with no
/// spaces and no quotation marks inside, and with nothing but a comment behind.
pub open spec fn is_in_header(head: Seq<char>, tail: Seq<char>) -> bool {
    &&& head.len() > 1 && head[0] == '[' && is_bare_path(head.skip(1)) && is_bare(head.last())
    &&& exists|e: int|
        0 < e < tail.len() && #[trigger] tail[e] == ']' && is_bare(tail[0]) && is_bare_path(tail.take(e))
            && is_blank_or_comment(tail.skip(e + 1))
}

/// Whether every quotation mark in `s` stands behind a number sign.
pub open spec fn quotes_in_comment(s: Seq<char>) -> bool {
    forall|k: int| 0 <= k < s.len() && (#[trigger] s[k] == '"' || s[k] == '\'') ==> s.take(k).contains('#')
}

/// Whether a text has nothing in it that is laid out anew when it is read and
/// written: it ends its last line, has no carriage return and no byte order
/// mark, no dot that can be part of a key, but for plain headers, and no line
/// that begins with two brackets (a header that can come up twice). In a text
/// with a dot, no inline table goes on from one line to the next, since a
/// dotted key can stand anywhere on a line inside of one. In a text with a
/// dotted header, no header has quotation marks, since a key is written alike
/// wherever it comes up.
pub open spec fn keeps_layout(raw: Seq<char>) -> bool {
    &&& raw.len() > 0 ==> raw.last() == '\n' && raw[0] != '\u{feff}'
    &&& !raw.contains('\r')
    &&& forall|i: int|
        0 <= i < raw.len() && raw[i] == '.' ==> !may_be_in_key(#[trigger] line_head(raw, i)) || is_in_header(
            line_head(raw, i),
            line_tail(raw, i),
        )
    &&& (exists|i: int|
        0 <= i < raw.len() && raw[i] == '.' && is_in_header(#[trigger] line_head(raw, i), line_tail(raw, i)))
        ==> forall|i: int|
        0 <= i < raw.len() && raw[i] == '[' && is_blank(#[trigger] line_head(raw, i)) ==> quotes_in_comment(
            line_tail(raw, i),
        )
    &&& raw.contains('.') ==> forall|i: int|
        0 <= i < raw.len() && raw[i] == '{' ==> ends_on_its_line(
            #[trigger] line_head(raw, i),
            line_tail(raw, i),
        )
    &&& forall|i: int|
        0 <= i < raw.len() - 1 && raw[i] == '[' && raw[i + 1] == '[' ==> !is_blank(#[trigger] line_head(raw, i))
}

/// `toml_edit::DocumentMut`, read from a text with `str::parse`. Whether the
/// text is a document, what the document is written as, and what the error
/// says, depends on the text alone. Comments, spaces and the order of items
/// are kept; what may change is left out by `keeps_layout`, and of a text
/// that it leaves out nothing is claimed.
#[verifier::external_body]
fn read_document(raw: &str) -> (r: Result<DocumentMut, TomlError>)
    ensures
        rewritten(raw@) == match r {
            Ok(document) => Ok(document_text(document)),
            Err(error) => Err(error_text(error)),
        },
        r matches Ok(document) ==> keeps_layout(raw@) ==> document_text(document) == raw@,
{
    raw.parse::<DocumentMut>()
}

/// `toml_edit::DocumentMut::new` makes a document that is written as nothing.
#[verifier::external_body]
fn empty_document() -> (r: DocumentMut)
    ensures
        document_text(r) == Seq::<char>::empty(),
{
    DocumentMut::new()
}

/// `toml_edit::DocumentMut::to_string` writes a document.
#[verifier::external_body]
fn write_document(document: &DocumentMut) -> (r: String)
    ensures
        r@ == document_text(*document),
{
    document.to_string()
}

/// `toml_edit::TomlError::to_string` says what is wrong with a text.
#[verifier::external_body]
fn describe(error: &TomlError) -> (r: String)
    ensures
        r@ == error_text(*error),
{
    error.to_string()
}

/// Why there is no configuration. Paths are bytes.
#[derive(Debug, Clone, PartialEq, Eq)]
pub enum ConfigError {
    /// The variable that holds the path is set, but empty.
    EmptyOverride,
    /// No variable says where the configuration is.
    NoPath,
    /// The file is there, but cannot be read.
    Unreadable { path: Vec<u8> },
    /// The file is not a TOML document, for the reason given.
    Malformed { path: Vec<u8>, reason: String },
}

impl ConfigError {
    /// What to tell the user, with `path` for the path that the error is
    /// about.
    pub open spec fn text(self, path: Seq<char>) -> Seq<char> {
        match self {
            ConfigError::EmptyOverride => "NH_CONFIG is set but empty"@,
            ConfigError::NoPath => "could not determine NH configuration path; set NH_CONFIG"@,
            ConfigError::Unreadable { .. } => "failed to read "@ + path,
            ConfigError::Malformed { .. } => "failed to parse NH configuration at "@ + path,
        }
    }

    /// What to tell the user, with `path` for the path that the error is
    /// about.
    pub fn message(&self, path: &str) -> (r: String)
        ensures
            r@ == self.text(path@),
    {
        match self {
            ConfigError::EmptyOverride => "NH_CONFIG is set but empty".to_owned(),
            ConfigError::NoPath => "could not determine NH configuration path; set NH_CONFIG".to_owned(),
            ConfigError::Unreadable { .. } => {
                let mut out = "failed to read ".to_owned();
                out.append(path);
                out
            },
            ConfigError::Malformed { .. } => {
                let mut out = "failed to parse NH configuration at ".to_owned();
                out.append(path);
                out
            },
        }
    }
}

/// The value of a variable, unless it is empty or not set.
pub open spec fn non_empty(value: Option<Seq<u8>>) -> Option<Seq<u8>> {
    match value {
        Some(bytes) if bytes.len() > 0 => Some(bytes),
        _ => None,
    }
}

/// Where the configuration is: the path given for it, which must not be
/// empty, or else its place below the directory for configuration, or else
/// that place below the user's directory.
pub open spec fn config_path(
    nh_config: Option<Seq<u8>>,
    config_home: Option<Seq<u8>>,
    home: Option<Seq<u8>>,
) -> Result<Seq<u8>, ConfigError> {
    match (nh_config, non_empty(config_home), non_empty(home)) {
        (Some(path), _, _) => if path.len() == 0 {
            Err(ConfigError::EmptyOverride)
        } else {
            Ok(path)
        },
        (None, Some(dir), _) => Ok(below(below(dir, encode_utf8("nh"@)), encode_utf8(CONFIG_FILE@))),
        (None, None, Some(dir)) => Ok(
            below(
                below(below(dir, encode_utf8(".config"@)), encode_utf8("nh"@)),
                encode_utf8(CONFIG_FILE@),
            ),
        ),
        (None, None, None) => Err(ConfigError::NoPath),
    }
}

/// What an optional piece of bytes stands for.
pub open spec fn opt_bytes(value: Option<&[u8]>) -> Option<Seq<u8>> {
    match value {
        Some(bytes) => Some(bytes@),
        None => None,
    }
}

/// Where the configuration is, by the variables `NH_CONFIG`,
/// `XDG_CONFIG_HOME` and `HOME`.
pub fn default_config_path(
    nh_config: Option<&[u8]>,
    config_home: Option<&[u8]>,
    home: Option<&[u8]>,
) -> (r: Result<Vec<u8>, ConfigError>)
    ensures
        config_path(opt_bytes(nh_config), opt_bytes(config_home), opt_bytes(home)) == match r {
            Ok(path) => Ok(path@),
            Err(error) => Err(error),
        },
{
    if let Some(path) = nh_config {
        if path.len() == 0 {
            return Err(ConfigError::EmptyOverride);
        }
        return Ok(slice_to_vec(path));
    }
    if let Some(dir) = config_home {
        if dir.len() > 0 {
            let own = join(dir, "nh");
            return Ok(join(own.as_slice(), CONFIG_FILE));
        }
    }
    if let Some(dir) = home {
        if dir.len() > 0 {
            let configs = join(dir, ".config");
            let own = join(configs.as_slice(), "nh");
            return Ok(join(own.as_slice(), CONFIG_FILE));
        }
    }
    Err(ConfigError::NoPath)
}

/// The settings that `nh` knows.
#[derive(Debug, Clone, Copy, Default, PartialEq, Eq)]
pub struct Config {}

/// A configuration file: where it is, and what it holds.
pub struct ConfigStore {
    path: Vec<u8>,
    document: DocumentMut,
}

/// Reads the text of a configuration file.
pub fn parse_document(path: &[u8], raw: &str) -> (r: Result<DocumentMut, ConfigError>)
    ensures
        r is Ok <==> rewritten(raw@) is Ok,
        r matches Ok(document) ==> document_text(document) == rewritten(raw@)->Ok_0,
        r matches Ok(document) ==> keeps_layout(raw@) ==> document_text(document) == raw@,
        r matches Err(error) ==> error is Malformed && error->Malformed_path@ == path@ && error->reason@
            == rewritten(raw@)->Err_0,
{
    match read_document(raw) {
        Ok(document) => Ok(document),
        Err(error) => Err(ConfigError::Malformed { path: slice_to_vec(path), reason: describe(&error) }),
    }
}

/// The text that a file which was read, with `outcome`, is written as; an
/// absent file counts as an empty one. Nothing if it cannot be used.
pub open spec fn loaded(outcome: ReadOutcome) -> Option<Seq<char>> {
    match outcome {
        ReadOutcome::Contents(raw) => match rewritten(raw@) {
            Ok(text) => Some(text),
            Err(_) => None,
        },
        ReadOutcome::NotFound => Some(Seq::empty()),
        ReadOutcome::Failed => None,
    }
}

/// The steps that write the text `text` to the file `path`, in the directory
/// `parent`, where it has one.
pub open spec fn save_steps(path: Seq<u8>, parent: Option<Seq<u8>>, text: Seq<char>) -> Seq<StepView> {
    let write = seq![
        StepView::Open { path, mode: PRIVATE_FILE_MODE },
        StepView::Write { contents: encode_utf8(text) },
        StepView::SetMode { mode: PRIVATE_FILE_MODE },
    ];
    match parent {
        Some(dir) => seq![StepView::CreateDir { path: dir, mode: PRIVATE_DIR_MODE }] + write,
        None => write,
    }
}

/// How to write the text `text` to the file `path`, in the directory
/// `parent`, where it has one.
pub fn write_private(path: &[u8], parent: Option<&[u8]>, text: &str) -> (r: Vec<FileStep>)
    ensures
        views(r@) == save_steps(path@, opt_bytes(parent), text@),
{
    let mut steps: Vec<FileStep> = Vec::new();
    if let Some(dir) = parent {
        steps.push(FileStep::CreateDir { path: slice_to_vec(dir), mode: PRIVATE_DIR_MODE });
    }
    steps.push(FileStep::Open { path: slice_to_vec(path), mode: PRIVATE_FILE_MODE });
    steps.push(FileStep::Write { contents: slice_to_vec(text.as_bytes()) });
    steps.push(FileStep::SetMode { mode: PRIVATE_FILE_MODE });
    assert(views(steps@) =~= save_steps(path@, opt_bytes(parent), text@));
    steps
}

impl ConfigStore {
    /// Where the file is.
    pub closed spec fn location(&self) -> Seq<u8> {
        self.path@
    }

    /// What the file is written as.
    pub closed spec fn text(&self) -> Seq<char> {
        document_text(self.document)
    }

    /// The configuration in the file `path`, from what came of reading it. A
    /// file that is not there is an empty configuration. What the file holds
    /// is kept for the next `save`, comments and settings that `nh` does not
    /// know included.
    pub fn load_from(path: Vec<u8>, outcome: &ReadOutcome) -> (r: Result<Self, ConfigError>)
        ensures
            r is Ok <==> loaded(*outcome) is Some,
            r matches Ok(store) ==> store.location() == path@ && Some(store.text()) == loaded(*outcome),
            r matches Ok(store) ==> match outcome {
                ReadOutcome::Contents(raw) => keeps_layout(raw@) ==> store.text() == raw@,
                _ => store.text().len() == 0,
            },
            r matches Err(error) ==> match outcome {
                ReadOutcome::Contents(raw) => error is Malformed && error->Malformed_path@ == path@
                    && error->reason@ == rewritten(raw@)->Err_0,
                _ => error is Unreadable && error->Unreadable_path@ == path@,
            },
    {
        match outcome {
            ReadOutcome::Contents(raw) => match parse_document(path.as_slice(), raw.as_str()) {
                Ok(document) => Ok(ConfigStore { path, document }),
                Err(error) => Err(error),
            },
            ReadOutcome::NotFound => Ok(ConfigStore { path, document: empty_document() }),
            ReadOutcome::Failed => Err(ConfigError::Unreadable { path }),
        }
    }

    /// Where the file is.
    pub fn path(&self) -> (r: &[u8])
        ensures
            r@ == self.location(),
    {
        self.path.as_slice()
    }

    /// The settings in the file. None is known yet, so none can be wrong.
    pub fn config(&self) -> (r: Result<Config, ConfigError>)
        ensures
            r == Ok::<Config, ConfigError>(Config {  }),
    {
        Ok(Config {  })
    }

    /// How to write the file, in the directory `parent` where it has one.
    pub fn save(&self, parent: Option<&[u8]>) -> (r: Vec<FileStep>)
        ensures
            views(r@) == save_steps(self.location(), opt_bytes(parent), self.text()),
    {
        let text = write_document(&self.document);
        write_private(self.path.as_slice(), parent, text.as_str())
    }
}

/// What is saved is private: the directories and the file that are created
/// are closed to others, and so is the file once it is written, whatever mode
/// it had before.
pub proof fn saved_file_is_private(path: Seq<u8>, parent: Option<Seq<u8>>, text: Seq<char>)
    ensures
        creates_privately(save_steps(path, parent, text)),
        mode_after(save_steps(path, parent, text)) matches Some(mode) && is_private(mode),
{
    modes_are_private();
    let steps = save_steps(path, parent, text);
    assert(steps.last() == (StepView::SetMode { mode: PRIVATE_FILE_MODE }));
    assert forall|i: int| 0 <= i < steps.len() implies match #[trigger] steps[i] {
        StepView::CreateDir { mode, .. } => is_private(mode),
        StepView::Open { mode, .. } => is_private(mode),
        _ => true,
    } by {}
}

/// What to tell the user when a step of saving fails, with `path` for the
/// path that the step is about.
pub open spec fn save_failure_text(step: StepView, path: Seq<char>) -> Seq<char> {
    match step {
        StepView::CreateDir { .. } => "failed to create "@ + path,
        StepView::Write { .. } => "failed to write "@ + path,
        StepView::SetMode { .. } => "failed to set private permissions on "@ + path,
        _ => "failed to open "@ + path,
    }
}

/// What to tell the user when a step of saving fails.
pub fn save_failure(step: &FileStep, path: &str) -> (r: String)
    ensures
        r@ == save_failure_text(step@, path@),
{
    let mut out = match step {
        FileStep::CreateDir { .. } => "failed to create ".to_owned(),
        FileStep::Write { .. } => "failed to write ".to_owned(),
        FileStep::SetMode { .. } => "failed to set private permissions on ".to_owned(),
        _ => "failed to open ".to_owned(),
    };
    out.append(path);
    out
}

/// A path that is given for the configuration is taken as it is, whatever the
/// directories are, and refused if it is empty.
pub proof fn given_path_is_taken(path: Seq<u8>, config_home: Option<Seq<u8>>, home: Option<Seq<u8>>)
    ensures
        path.len() > 0 ==> config_path(Some(path), config_home, home) == Ok::<Seq<u8>, ConfigError>(path),
        path.len() == 0 ==> config_path(Some(path), config_home, home) == Err::<Seq<u8>, ConfigError>(
            ConfigError::EmptyOverride,
        ),
{
}

/// Without a path that is given, an empty directory counts as none; there is a
/// path if and only if there is a directory; the directory for configuration
/// counts before the user's; and the user's directory counts as the directory
/// for configuration that is in it.
pub proof fn first_directory_counts(dir: Seq<u8>, config_home: Option<Seq<u8>>, home: Option<Seq<u8>>)
    ensures
        config_path(None, Some(Seq::empty()), home) == config_path(None, None, home),
        config_path(None, config_home, Some(Seq::empty())) == config_path(None, config_home, None),
        config_path(None, None, None) == Err::<Seq<u8>, ConfigError>(ConfigError::NoPath),
        dir.len() > 0 ==> config_path(None, Some(dir), home) is Ok && config_path(None, config_home, Some(dir)) is Ok,
        dir.len() > 0 ==> config_path(None, Some(dir), home) == config_path(None, Some(dir), None),
        dir.len() > 0 ==> config_path(None, None, Some(dir)) == config_path(
            None,
            Some(below(dir, encode_utf8(".config"@))),
            None,
        ),
{
    reveal_strlit(".config");
    plain_name_is_relative(".config"@);
}

/// The configuration is inside of the directory that counts, in the file of
/// its name, in a directory of this program's name.
pub proof fn configuration_is_in_its_directory(dir: Seq<u8>)
    requires
        dir.len() > 0,
    ensures
        config_path(None, Some(dir), None) matches Ok(path) && {
            let tail = encode_utf8("nh"@) + seq![47u8] + encode_utf8("config.toml"@);
            &&& path.len() >= dir.len() + tail.len()
            &&& path.take(dir.len() as int) == dir
            &&& path.skip(path.len() - tail.len()) == tail
            &&& path[path.len() - tail.len() - 1] == 47
            &&& path.len() == if dir.last() == 47 {
                dir.len() + tail.len()
            } else {
                dir.len() + tail.len() + 1
            }
        },
{
    reveal_strlit("nh");
    reveal_strlit("config.toml");
    plain_name_is_relative("nh"@);
    plain_name_is_relative("config.toml"@);
    is_ascii_chars_encode_utf8("nh"@);
    let program = encode_utf8("nh"@);
    let file = encode_utf8("config.toml"@);
    assert("nh"@[1] as u8 == program[1]);
    path_keeps_directory_and_name(dir, program);
    path_keeps_directory_and_name(below(dir, program), file);
    let path = below(below(dir, program), file);
    let tail = program + seq![47u8] + file;
    assert(path.skip(path.len() - tail.len()) =~= tail);
    assert(path.take(dir.len() as int) =~= dir);
}

/// Saving opens the file, writes the whole text to it once, and touches no
/// other file; a directory is created if and only if there is one, first.
pub proof fn text_is_written_once(path: Seq<u8>, parent: Option<Seq<u8>>, text: Seq<char>)
    ensures
        ({
            let steps = save_steps(path, parent, text);
            let first: int = if parent is Some {
                1
            } else {
                0
            };
            &&& steps.len() == first + 3
            &&& parent matches Some(dir) ==> (steps[0] matches StepView::CreateDir { path: created, .. } && created
                == dir)
            &&& steps[first] matches StepView::Open { path: opened, .. } && opened == path
            &&& steps[first + 1] matches StepView::Write { contents } && decode_utf8(contents) == text
            &&& steps[first + 2] is SetMode
        }),
{
    encode_utf8_decode_utf8(text);
}

/// A file that is not there counts as an empty one, a file that cannot be read
/// is of no use, and any other is of use if and only if it is a document.
pub proof fn absent_file_is_empty(raw: String)
    ensures
        loaded(ReadOutcome::NotFound) matches Some(text) && text.len() == 0,
        loaded(ReadOutcome::Failed) is None,
        loaded(ReadOutcome::Contents(raw)) is Some <==> rewritten(raw@) is Ok,
{
}

/// What the user is told of a failure names the path that it is about.
pub proof fn failures_name_the_path(error: ConfigError, step: StepView, path: Seq<char>)
    ensures
        error is Unreadable || error is Malformed ==> holds(error.text(path), path),
        holds(save_failure_text(step, path), path),
{
    ends_with_its_end("failed to read "@, path);
    ends_with_its_end("failed to parse NH configuration at "@, path);
    ends_with_its_end("failed to create "@, path);
    ends_with_its_end("failed to write "@, path);
    ends_with_its_end("failed to set private permissions on "@, path);
    ends_with_its_end("failed to open "@, path);
}

/// A variable that is set to something stands for what it is set to.
pub proof fn bytes_are_kept(value: Option<&[u8]>)
    ensures
        opt_bytes(value) is Some <==> value is Some,
        value matches Some(bytes) ==> opt_bytes(value) == Some(bytes@),
{
}

} // verus!
