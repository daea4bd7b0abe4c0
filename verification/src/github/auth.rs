//! Finding the token that GitHub wants to see.
use vstd::prelude::*;
use vstd::slice::*;
use vstd::string::*;
use vstd::utf8::*;

use crate::files::{
    creates_privately, is_private, mode_after, modes_are_private, private_before_write, FileStep, ReadOutcome,
    StepView, PRIVATE_DIR_MODE, PRIVATE_FILE_MODE,
};
use crate::paths::{below, join, path_keeps_directory_and_name, plain_name_is_relative};
use crate::text::{
    ends_with_its_end, holds, opt_view, stands_in_the_middle, trim, trimmed, trimmed_is_trimmed, views,
};

verus! {

/// Where the user can create a token.
pub const TOKEN_CREATION_URL: &'static str = "https://github.com/settings/personal-access-tokens/new";

/// The variable that can hold the token.
pub const TOKEN_ENV: &'static str = "GH_TOKEN";

/// The variable that can hold the path of the token's file.
pub const TOKEN_FILE_ENV: &'static str = "NH_GITHUB_TOKEN_FILE";

/// The variable that can hold the directory for the state of programs.
pub const STATE_HOME_ENV: &'static str = "XDG_STATE_HOME";

/// The variable that can hold the user's directory.
pub const HOME_ENV: &'static str = "HOME";

/// The name of the token's file.
pub const TOKEN_FILE: &'static str = "github-token";

/// The variables that say where the token is kept: each unset, or a value.
#[derive(Debug, Clone, PartialEq, Eq)]
pub struct StoreEnv {
    pub token_file: Option<Vec<u8>>,
    pub state_home: Option<Vec<u8>>,
    pub home: Option<Vec<u8>>,
}

/// What the variables stand for.
pub struct StoreEnvView {
    pub token_file: Option<Seq<u8>>,
    pub state_home: Option<Seq<u8>>,
    pub home: Option<Seq<u8>>,
}

impl View for StoreEnv {
    type V = StoreEnvView;

    open spec fn view(&self) -> StoreEnvView {
        StoreEnvView {
            token_file: opt_view(self.token_file),
            state_home: opt_view(self.state_home),
            home: opt_view(self.home),
        }
    }
}

/// Why there is no token. Paths are bytes.
#[derive(Debug, Clone, PartialEq, Eq)]
pub enum TokenError {
    /// The variable is set, but empty.
    EmptyVariable { name: &'static str },
    /// No variable says where the token is kept.
    NoStorePath,
    /// The file is there, but cannot be read.
    Unreadable { path: Vec<u8> },
    /// There is no token, and nobody to ask for one.
    NotFound { path: Vec<u8> },
    /// The user gave an empty token.
    EmptyToken,
    /// The path has no directory that the file could be in.
    NoParent { path: Vec<u8> },
}

/// What an error stands for.
pub enum TokenErrorView {
    EmptyVariable { name: Seq<char> },
    NoStorePath,
    Unreadable { path: Seq<u8> },
    NotFound { path: Seq<u8> },
    EmptyToken,
    NoParent { path: Seq<u8> },
}

impl View for TokenError {
    type V = TokenErrorView;

    open spec fn view(&self) -> TokenErrorView {
        match self {
            TokenError::EmptyVariable { name } => TokenErrorView::EmptyVariable { name: name@ },
            TokenError::NoStorePath => TokenErrorView::NoStorePath,
            TokenError::Unreadable { path } => TokenErrorView::Unreadable { path: path@ },
            TokenError::NotFound { path } => TokenErrorView::NotFound { path: path@ },
            TokenError::EmptyToken => TokenErrorView::EmptyToken,
            TokenError::NoParent { path } => TokenErrorView::NoParent { path: path@ },
        }
    }
}

impl TokenErrorView {
    /// What to tell the user, with `path` for the path that the error is
    /// about.
    pub open spec fn text(self, path: Seq<char>) -> Seq<char> {
        match self {
            TokenErrorView::EmptyVariable { name } => name + " is set but empty"@,
            TokenErrorView::NoStorePath
                => "could not determine GitHub token store path; set GH_TOKEN or NH_GITHUB_TOKEN_FILE"@,
            TokenErrorView::Unreadable { .. } => "failed to read "@ + path,
            TokenErrorView::NotFound { .. } => "GitHub token not found; set GH_TOKEN or write a token to "@
                + path,
            TokenErrorView::EmptyToken => "empty GitHub token"@,
            TokenErrorView::NoParent { .. } => "Invalid token path "@ + path
                + ": no parent directory found"@,
        }
    }
}

impl TokenError {
    /// What to tell the user, with `path` for the path that the error is
    /// about.
    pub fn message(&self, path: &str) -> (r: String)
        ensures
            r@ == self@.text(path@),
    {
        match self {
            TokenError::EmptyVariable { name } => {
                let mut out = (*name).to_owned();
                out.append(" is set but empty");
                out
            },
            TokenError::NoStorePath =>
            "could not determine GitHub token store path; set GH_TOKEN or NH_GITHUB_TOKEN_FILE".to_owned(),
            TokenError::Unreadable { .. } => {
                let mut out = "failed to read ".to_owned();
                out.append(path);
                out
            },
            TokenError::NotFound { .. } => {
                let mut out = "GitHub token not found; set GH_TOKEN or write a token to ".to_owned();
                out.append(path);
                out
            },
            TokenError::EmptyToken => "empty GitHub token".to_owned(),
            TokenError::NoParent { .. } => {
                let mut out = "Invalid token path ".to_owned();
                out.append(path);
                out.append(": no parent directory found");
                out
            },
        }
    }
}

/// Where the token is kept: the path given for it, or else its place among
/// the state of programs, or else that place below the user's directory. The
/// first of the three variables that is set decides, and must not be empty.
pub open spec fn store_path(env: StoreEnvView) -> Result<Seq<u8>, TokenErrorView> {
    match (env.token_file, env.state_home, env.home) {
        (Some(path), _, _) => if path.len() == 0 {
            Err(TokenErrorView::EmptyVariable { name: TOKEN_FILE_ENV@ })
        } else {
            Ok(path)
        },
        (None, Some(state), _) => if state.len() == 0 {
            Err(TokenErrorView::EmptyVariable { name: STATE_HOME_ENV@ })
        } else {
            Ok(below(below(state, encode_utf8("nh"@)), encode_utf8(TOKEN_FILE@)))
        },
        (None, None, Some(home)) => if home.len() == 0 {
            Err(TokenErrorView::EmptyVariable { name: HOME_ENV@ })
        } else {
            Ok(
                below(
                    below(
                        below(below(home, encode_utf8(".local"@)), encode_utf8("state"@)),
                        encode_utf8("nh"@),
                    ),
                    encode_utf8(TOKEN_FILE@),
                ),
            )
        },
        (None, None, None) => Err(TokenErrorView::NoStorePath),
    }
}

/// What a path, or the reason why there is none, stands for.
pub open spec fn path_view(r: Result<Vec<u8>, TokenError>) -> Result<Seq<u8>, TokenErrorView> {
    match r {
        Ok(path) => Ok(path@),
        Err(error) => Err(error@),
    }
}

/// Where the token is kept.
pub fn token_store_path(env: &StoreEnv) -> (r: Result<Vec<u8>, TokenError>)
    ensures
        path_view(r) == store_path(env@),
{
    if let Some(path) = &env.token_file {
        if path.len() == 0 {
            return Err(TokenError::EmptyVariable { name: TOKEN_FILE_ENV });
        }
        return Ok(slice_to_vec(path.as_slice()));
    }
    if let Some(state) = &env.state_home {
        if state.len() == 0 {
            return Err(TokenError::EmptyVariable { name: STATE_HOME_ENV });
        }
        let dir = join(state.as_slice(), "nh");
        return Ok(join(dir.as_slice(), TOKEN_FILE));
    }
    if let Some(home) = &env.home {
        if home.len() == 0 {
            return Err(TokenError::EmptyVariable { name: HOME_ENV });
        }
        let local = join(home.as_slice(), ".local");
        let state = join(local.as_slice(), "state");
        let dir = join(state.as_slice(), "nh");
        return Ok(join(dir.as_slice(), TOKEN_FILE));
    }
    Err(TokenError::NoStorePath)
}

/// The token in a text: what is left without the whitespace around it, if
/// anything is left.
pub open spec fn token_in(text: Seq<char>) -> Option<Seq<char>> {
    if trimmed(text).len() > 0 {
        Some(trimmed(text))
    } else {
        None
    }
}

fn find_token(text: &str) -> (r: Option<String>)
    ensures
        opt_view(r) == token_in(text@),
{
    let token = trim(text);
    if token.as_str().is_empty() {
        None
    } else {
        Some(token)
    }
}

/// The token that a file holds, from what came of reading it. A file that is
/// not there holds none.
pub fn read_token_file(path: &[u8], outcome: &ReadOutcome) -> (r: Result<Option<String>, TokenError>)
    ensures
        match outcome {
            ReadOutcome::Contents(raw) => r matches Ok(token) && opt_view(token) == token_in(raw@),
            ReadOutcome::NotFound => r matches Ok(token) && token is None,
            ReadOutcome::Failed => r matches Err(error) && error@ == (TokenErrorView::Unreadable { path: path@ }),
        },
{
    match outcome {
        ReadOutcome::Contents(raw) => Ok(find_token(raw.as_str())),
        ReadOutcome::NotFound => Ok(None),
        ReadOutcome::Failed => Err(TokenError::Unreadable { path: slice_to_vec(path) }),
    }
}

/// What to do next to get the token.
#[derive(PartialEq, Eq)]
pub enum TokenStep {
    /// This is the token.
    Ready { token: String },
    /// Read the token's file.
    ReadStore { path: Vec<u8> },
    /// Find out whether there is a user to ask.
    AskTerminal { path: Vec<u8> },
    /// Ask the user for a token.
    Prompt { path: Vec<u8> },
    /// Keep the token in its file.
    Save { path: Vec<u8>, token: String },
    /// There is no token.
    Failed { error: TokenError },
}

/// What a step stands for.
pub enum TokenStepView {
    Ready { token: Seq<char> },
    ReadStore { path: Seq<u8> },
    AskTerminal { path: Seq<u8> },
    Prompt { path: Seq<u8> },
    Save { path: Seq<u8>, token: Seq<char> },
    Failed { error: TokenErrorView },
}

impl View for TokenStep {
    type V = TokenStepView;

    open spec fn view(&self) -> TokenStepView {
        match self {
            TokenStep::Ready { token } => TokenStepView::Ready { token: token@ },
            TokenStep::ReadStore { path } => TokenStepView::ReadStore { path: path@ },
            TokenStep::AskTerminal { path } => TokenStepView::AskTerminal { path: path@ },
            TokenStep::Prompt { path } => TokenStepView::Prompt { path: path@ },
            TokenStep::Save { path, token } => TokenStepView::Save { path: path@, token: token@ },
            TokenStep::Failed { error } => TokenStepView::Failed { error: error@ },
        }
    }
}

/// What came of a step.
#[derive(PartialEq, Eq)]
pub enum TokenEvent {
    Read(ReadOutcome),
    /// Whether there is a user to ask.
    Terminal(bool),
    /// What the user typed.
    Typed(String),
    Saved,
}

/// The first step, from the variables.
pub open spec fn first_step(gh_token: Option<Seq<char>>, env: StoreEnvView) -> TokenStepView {
    match gh_token {
        Some(text) if token_in(text) is Some => TokenStepView::Ready { token: token_in(text)->0 },
        _ => match store_path(env) {
            Ok(path) => TokenStepView::ReadStore { path },
            Err(error) => TokenStepView::Failed { error },
        },
    }
}

/// How to begin: with the token from its variable where it holds one, and
/// with the token's file otherwise.
pub fn token(gh_token: &Option<String>, env: &StoreEnv) -> (r: TokenStep)
    ensures
        r@ == first_step(opt_view(*gh_token), env@),
{
    if let Some(text) = gh_token {
        if let Some(token) = find_token(text.as_str()) {
            return TokenStep::Ready { token };
        }
    }
    match token_store_path(env) {
        Ok(path) => TokenStep::ReadStore { path },
        Err(error) => TokenStep::Failed { error },
    }
}

/// The step that follows `step`, by what came of it. Where the event does not
/// belong to the step, nothing changes.
pub open spec fn next_step(step: TokenStepView, event: TokenEvent) -> TokenStepView {
    match (step, event) {
        (TokenStepView::ReadStore { path }, TokenEvent::Read(ReadOutcome::Contents(raw))) => match token_in(
            raw@,
        ) {
            Some(token) => TokenStepView::Ready { token },
            None => TokenStepView::AskTerminal { path },
        },
        (TokenStepView::ReadStore { path }, TokenEvent::Read(ReadOutcome::NotFound))
            => TokenStepView::AskTerminal { path },
        (TokenStepView::ReadStore { path }, TokenEvent::Read(ReadOutcome::Failed)) => TokenStepView::Failed {
            error: TokenErrorView::Unreadable { path },
        },
        (TokenStepView::AskTerminal { path }, TokenEvent::Terminal(true)) => TokenStepView::Prompt { path },
        (TokenStepView::AskTerminal { path }, TokenEvent::Terminal(false)) => TokenStepView::Failed {
            error: TokenErrorView::NotFound { path },
        },
        (TokenStepView::Prompt { path }, TokenEvent::Typed(text)) => match token_in(text@) {
            Some(token) => TokenStepView::Save { path, token },
            None => TokenStepView::Failed { error: TokenErrorView::EmptyToken },
        },
        (TokenStepView::Save { path, token }, TokenEvent::Saved) => TokenStepView::Ready { token },
        (step, _) => step,
    }
}

/// How to go on, by what came of a step.
pub fn advance(step: TokenStep, event: TokenEvent) -> (r: TokenStep)
    ensures
        r@ == next_step(step@, event),
{
    match (step, event) {
        (TokenStep::ReadStore { path }, TokenEvent::Read(outcome)) => {
            match read_token_file(path.as_slice(), &outcome) {
                Ok(Some(token)) => TokenStep::Ready { token },
                Ok(None) => TokenStep::AskTerminal { path },
                Err(error) => TokenStep::Failed { error },
            }
        },
        (TokenStep::AskTerminal { path }, TokenEvent::Terminal(interactive)) => {
            if interactive {
                TokenStep::Prompt { path }
            } else {
                TokenStep::Failed { error: TokenError::NotFound { path } }
            }
        },
        (TokenStep::Prompt { path }, TokenEvent::Typed(text)) => match find_token(text.as_str()) {
            Some(token) => TokenStep::Save { path, token },
            None => TokenStep::Failed { error: TokenError::EmptyToken },
        },
        (TokenStep::Save { token, .. }, TokenEvent::Saved) => TokenStep::Ready { token },
        (step, _) => step,
    }
}

/// Whether a token that the step hands on is not empty, and has no
/// whitespace around it.
pub open spec fn is_clean(step: TokenStepView) -> bool {
    match step {
        TokenStepView::Ready { token } => token.len() > 0 && trimmed(token) == token,
        TokenStepView::Save { token, .. } => token.len() > 0 && trimmed(token) == token,
        _ => true,
    }
}

/// Every token that is handed on is not empty and has no whitespace around
/// it, wherever it came from.
pub proof fn tokens_are_clean(
    gh_token: Option<Seq<char>>,
    env: StoreEnvView,
    step: TokenStepView,
    event: TokenEvent,
)
    ensures
        is_clean(first_step(gh_token, env)),
        is_clean(step) ==> is_clean(next_step(step, event)),
{
    if let Some(text) = gh_token {
        trimmed_is_trimmed(text);
    }
    match event {
        TokenEvent::Read(ReadOutcome::Contents(raw)) => {
            trimmed_is_trimmed(raw@);
        },
        TokenEvent::Typed(text) => {
            trimmed_is_trimmed(text@);
        },
        _ => {},
    }
}

/// A token in its variable counts, whatever the token's file holds.
pub proof fn variable_wins(text: Seq<char>, env: StoreEnvView)
    requires
        token_in(text) is Some,
    ensures
        first_step(Some(text), env) == (TokenStepView::Ready { token: trimmed(text) }),
{
}

/// The steps that put a token into its file.
pub open spec fn write_steps(path: Seq<u8>, parent: Seq<u8>, token: Seq<char>) -> Seq<StepView> {
    seq![
        StepView::CreateDir { path: parent, mode: PRIVATE_DIR_MODE },
        StepView::OpenTemporary { dir: parent },
        StepView::SetMode { mode: PRIVATE_FILE_MODE },
        StepView::Write { contents: encode_utf8(token) },
        StepView::Sync,
        StepView::Persist { path },
    ]
}

/// How to put `token` into the file `path`, in the directory `parent`: all at
/// once, and readable for nobody else at any time. Fails if there is no such
/// directory.
pub fn write_token_file(path: &[u8], parent: Option<&[u8]>, token: &str) -> (r: Result<
    Vec<FileStep>,
    TokenError,
>)
    ensures
        match parent {
            Some(dir) => r matches Ok(steps) && views(steps@) == write_steps(path@, dir@, token@),
            None => r matches Err(error) && error@ == (TokenErrorView::NoParent { path: path@ }),
        },
{
    let dir = match parent {
        Some(dir) => dir,
        None => {
            return Err(TokenError::NoParent { path: slice_to_vec(path) });
        },
    };
    let mut steps: Vec<FileStep> = Vec::new();
    steps.push(FileStep::CreateDir { path: slice_to_vec(dir), mode: PRIVATE_DIR_MODE });
    steps.push(FileStep::OpenTemporary { dir: slice_to_vec(dir) });
    steps.push(FileStep::SetMode { mode: PRIVATE_FILE_MODE });
    steps.push(FileStep::Write { contents: slice_to_vec(token.as_bytes()) });
    steps.push(FileStep::Sync);
    steps.push(FileStep::Persist { path: slice_to_vec(path) });
    assert(views(steps@) =~= write_steps(path@, dir@, token@));
    Ok(steps)
}

/// A token is written to a file that nobody else can read, the directories
/// created for it are closed to others, and the file takes its name only when
/// it holds the whole token.
pub proof fn token_is_kept_private(path: Seq<u8>, parent: Seq<u8>, token: Seq<char>)
    ensures
        creates_privately(write_steps(path, parent, token)),
        private_before_write(write_steps(path, parent, token)),
        write_steps(path, parent, token).last() == (StepView::Persist { path }),
{
    modes_are_private();
    let steps = write_steps(path, parent, token);
    assert forall|i: int| 0 <= i < steps.len() && (#[trigger] steps[i] is Write) implies (mode_after(
        steps.take(i),
    ) matches Some(mode) && is_private(mode)) by {
        assert(i == 3);
        assert(steps.take(3).last() == (StepView::SetMode { mode: PRIVATE_FILE_MODE }));
    }
}

/// A token that was put into its file is found there again.
pub proof fn kept_token_is_found_again(path: Seq<u8>, token: Seq<char>, raw: String)
    requires
        is_clean(TokenStepView::Save { path, token }),
        encode_utf8(raw@) == encode_utf8(token),
    ensures
        next_step(TokenStepView::ReadStore { path }, TokenEvent::Read(ReadOutcome::Contents(raw)))
            == (TokenStepView::Ready { token }),
{
    encode_utf8_decode_utf8(raw@);
    encode_utf8_decode_utf8(token);
}

/// What to tell the user when a step of writing the token fails, with `path`
/// for the path that the step is about.
pub open spec fn write_failure_text(step: StepView, path: Seq<char>) -> Seq<char> {
    match step {
        StepView::CreateDir { .. } => "failed to create directory "@ + path,
        StepView::Open { .. } | StepView::OpenTemporary { .. } => "failed to create temporary token file"@,
        StepView::SetMode { .. } => "failed to set secure permissions on temporary file"@,
        StepView::Write { .. } => "failed to write secret to temporary file"@,
        StepView::Sync => "failed to sync token file to disk"@,
        StepView::Persist { .. } => "failed to atomically save token to "@ + path,
    }
}

/// What to tell the user when a step of writing the token fails.
pub fn write_failure(step: &FileStep, path: &str) -> (r: String)
    ensures
        r@ == write_failure_text(step@, path@),
{
    match step {
        FileStep::CreateDir { .. } => {
            let mut out = "failed to create directory ".to_owned();
            out.append(path);
            out
        },
        FileStep::Open { .. } | FileStep::OpenTemporary { .. } => {
            "failed to create temporary token file".to_owned()
        },
        FileStep::SetMode { .. } => "failed to set secure permissions on temporary file".to_owned(),
        FileStep::Write { .. } => "failed to write secret to temporary file".to_owned(),
        FileStep::Sync => "failed to sync token file to disk".to_owned(),
        FileStep::Persist { .. } => {
            let mut out = "failed to atomically save token to ".to_owned();
            out.append(path);
            out
        },
    }
}

/// The first variable that is set decides where the token is kept, whatever the
/// others are; it is an error if it is empty, and so it is if none is set.
pub proof fn first_variable_decides(
    value: Seq<u8>,
    state_home: Option<Seq<u8>>,
    home: Option<Seq<u8>>,
)
    ensures
        store_path(StoreEnvView { token_file: Some(value), state_home, home }) == if value.len() > 0 {
            Ok::<Seq<u8>, TokenErrorView>(value)
        } else {
            Err(TokenErrorView::EmptyVariable { name: "NH_GITHUB_TOKEN_FILE"@ })
        },
        store_path(StoreEnvView { token_file: None, state_home: Some(value), home }) == store_path(
            StoreEnvView { token_file: None, state_home: Some(value), home: None },
        ),
        value.len() == 0 ==> store_path(StoreEnvView { token_file: None, state_home: Some(value), home }) == Err::<
            Seq<u8>,
            TokenErrorView,
        >(TokenErrorView::EmptyVariable { name: "XDG_STATE_HOME"@ }),
        value.len() == 0 ==> store_path(StoreEnvView { token_file: None, state_home: None, home: Some(value) })
            == Err::<Seq<u8>, TokenErrorView>(TokenErrorView::EmptyVariable { name: "HOME"@ }),
        store_path(StoreEnvView { token_file: None, state_home: None, home: None }) == Err::<
            Seq<u8>,
            TokenErrorView,
        >(TokenErrorView::NoStorePath),
{
}

/// The user's directory counts as the directory for state that is in it.
pub proof fn home_holds_the_state(home: Seq<u8>)
    requires
        home.len() > 0,
    ensures
        store_path(StoreEnvView { token_file: None, state_home: None, home: Some(home) }) == store_path(
            StoreEnvView {
                token_file: None,
                state_home: Some(below(below(home, encode_utf8(".local"@)), encode_utf8("state"@))),
                home: None,
            },
        ),
{
    reveal_strlit(".local");
    reveal_strlit("state");
    plain_name_is_relative(".local"@);
    plain_name_is_relative("state"@);
}

/// The token's file is inside of the directory for state, in a directory of
/// this program's name.
pub proof fn token_is_in_its_directory(state: Seq<u8>)
    requires
        state.len() > 0,
    ensures
        store_path(StoreEnvView { token_file: None, state_home: Some(state), home: None }) matches Ok(path) && {
            let tail = encode_utf8("nh"@) + seq![47u8] + encode_utf8("github-token"@);
            &&& path.len() >= state.len() + tail.len()
            &&& path.take(state.len() as int) == state
            &&& path.skip(path.len() - tail.len()) == tail
            &&& path[path.len() - tail.len() - 1] == 47
            &&& path.len() == if state.last() == 47 {
                state.len() + tail.len()
            } else {
                state.len() + tail.len() + 1
            }
        },
{
    reveal_strlit("nh");
    reveal_strlit("github-token");
    plain_name_is_relative("nh"@);
    plain_name_is_relative("github-token"@);
    is_ascii_chars_encode_utf8("nh"@);
    let program = encode_utf8("nh"@);
    let file = encode_utf8("github-token"@);
    assert("nh"@[1] as u8 == program[1]);
    path_keeps_directory_and_name(state, program);
    path_keeps_directory_and_name(below(state, program), file);
    let path = below(below(state, program), file);
    let tail = program + seq![47u8] + file;
    assert(path.skip(path.len() - tail.len()) =~= tail);
    assert(path.take(state.len() as int) =~= state);
}

/// The path that a step is about, if it is about one.
pub open spec fn path_of(step: TokenStepView) -> Option<Seq<u8>> {
    match step {
        TokenStepView::ReadStore { path } => Some(path),
        TokenStepView::AskTerminal { path } => Some(path),
        TokenStepView::Prompt { path } => Some(path),
        TokenStepView::Save { path, .. } => Some(path),
        TokenStepView::Failed { error: TokenErrorView::Unreadable { path } } => Some(path),
        TokenStepView::Failed { error: TokenErrorView::NotFound { path } } => Some(path),
        _ => None,
    }
}

/// The path of the token's file is the same from the first step to the last.
pub proof fn path_is_kept(step: TokenStepView, event: TokenEvent)
    ensures
        path_of(next_step(step, event)) is Some ==> path_of(next_step(step, event)) == path_of(step),
{
}

/// A token that is handed out came out of its file, or was kept there before;
/// a token to keep is what the user typed. Each is handed on as it was given,
/// but for the whitespace around it.
pub proof fn tokens_come_from_somewhere(step: TokenStepView, event: TokenEvent)
    ensures
        next_step(step, event) matches TokenStepView::Ready { token } ==> {
            ||| step == next_step(step, event)
            ||| step is ReadStore && (event matches TokenEvent::Read(ReadOutcome::Contents(raw)) && token == trimmed(
                raw@,
            ))
            ||| event is Saved && (step matches TokenStepView::Save { token: kept, .. } && kept == token)
        },
        next_step(step, event) matches TokenStepView::Save { token, .. } ==> {
            ||| step == next_step(step, event)
            ||| step is Prompt && (event matches TokenEvent::Typed(text) && token == trimmed(text@))
        },
{
}

/// Without a token in its file, the user is asked if there is one, and what
/// they type is kept before it is handed out; if there is nobody to ask, or
/// nothing is typed, there is no token.
pub proof fn user_is_asked(path: Seq<u8>, raw: String, typed: String)
    requires
        trimmed(raw@).len() == 0,
    ensures
        ({
            let asking = next_step(
                TokenStepView::ReadStore { path },
                TokenEvent::Read(ReadOutcome::Contents(raw)),
            );
            let absent = next_step(TokenStepView::ReadStore { path }, TokenEvent::Read(ReadOutcome::NotFound));
            let prompt = next_step(asking, TokenEvent::Terminal(true));
            let saving = next_step(prompt, TokenEvent::Typed(typed));
            &&& asking == absent
            &&& next_step(asking, TokenEvent::Terminal(false)) is Failed
            &&& prompt is Prompt
            &&& trimmed(typed@).len() == 0 ==> saving is Failed
            &&& trimmed(typed@).len() > 0 ==> saving is Save && (next_step(saving, TokenEvent::Saved)
                matches TokenStepView::Ready { token } && token == trimmed(typed@))
        }),
{
}

/// A file that cannot be read is an error, not a reason to ask for another
/// token. What is over stays as it is.
pub proof fn failures_are_final(path: Seq<u8>, step: TokenStepView, event: TokenEvent)
    ensures
        next_step(TokenStepView::ReadStore { path }, TokenEvent::Read(ReadOutcome::Failed))
            == (TokenStepView::Failed { error: TokenErrorView::Unreadable { path } }),
        step is Ready || step is Failed ==> next_step(step, event) == step,
{
}

/// The whole token, and nothing else, is written, once, before the file takes
/// its name; it is written in the directory that the file is in.
pub proof fn token_is_written_once(path: Seq<u8>, parent: Seq<u8>, token: Seq<char>)
    ensures
        ({
            let steps = write_steps(path, parent, token);
            &&& steps.last() is Persist
            &&& exists|i: int|
                0 <= i < steps.len() - 1 && (#[trigger] steps[i] matches StepView::Write { contents }
                    && decode_utf8(contents) == token) && (forall|j: int|
                    0 <= j < steps.len() && #[trigger] steps[j] is Write ==> j == i) && exists|k: int|
                    i < k < steps.len() - 1 && #[trigger] steps[k] is Sync
            &&& forall|i: int|
                0 <= i < steps.len() ==> match #[trigger] steps[i] {
                    StepView::CreateDir { path: dir, .. } => dir == parent,
                    StepView::OpenTemporary { dir } => dir == parent,
                    StepView::Persist { path: name } => name == path,
                    StepView::Open { .. } => false,
                    _ => true,
                }
        }),
{
    encode_utf8_decode_utf8(token);
    let steps = write_steps(path, parent, token);
    assert(steps[3] is Write);
    assert(steps[4] is Sync);
}

/// What the user is told of a path that is no good names it, and what they are
/// told of a variable names the variable.
pub proof fn errors_name_their_subject(error: TokenErrorView, path: Seq<char>)
    ensures
        error is Unreadable || error is NotFound || error is NoParent ==> holds(error.text(path), path),
        error matches TokenErrorView::EmptyVariable { name } ==> holds(error.text(path), name),
{
    ends_with_its_end("failed to read "@, path);
    ends_with_its_end("GitHub token not found; set GH_TOKEN or write a token to "@, path);
    stands_in_the_middle("Invalid token path "@, path, ": no parent directory found"@);
    if let TokenErrorView::EmptyVariable { name } = error {
        stands_in_the_middle(Seq::empty(), name, " is set but empty"@);
        assert(Seq::<char>::empty() + name + " is set but empty"@ =~= name + " is set but empty"@);
    }
}

/// A variable that holds nothing but whitespace counts as one that is not set;
/// in any other the token is what is left without the whitespace around it, and
/// so it is in a file.
pub proof fn token_is_what_is_not_whitespace(text: Seq<char>, env: StoreEnvView, path: Seq<u8>, raw: String)
    ensures
        trimmed(text).len() > 0 ==> first_step(Some(text), env) == (TokenStepView::Ready { token: trimmed(text) }),
        trimmed(text).len() == 0 ==> first_step(Some(text), env) == first_step(None, env),
        first_step(None, env) matches TokenStepView::ReadStore { path } ==> store_path(env) == Ok::<
            Seq<u8>,
            TokenErrorView,
        >(path),
        first_step(None, env) is ReadStore || first_step(None, env) is Failed,
        first_step(None, env) matches TokenStepView::Failed { error } ==> store_path(env) == Err::<
            Seq<u8>,
            TokenErrorView,
        >(error),
        trimmed(raw@).len() > 0 ==> next_step(
            TokenStepView::ReadStore { path },
            TokenEvent::Read(ReadOutcome::Contents(raw)),
        ) == (TokenStepView::Ready { token: trimmed(raw@) }),
{
}

/// What the user is told of a directory that cannot be created, or of a file
/// that cannot take its name, names the path; and no two steps are told alike.
pub proof fn write_failures_are_told_apart(a: StepView, b: StepView, path: Seq<char>)
    ensures
        a is CreateDir || a is Persist ==> holds(write_failure_text(a, path), path),
        write_failure_text(a, Seq::empty()) == write_failure_text(b, Seq::empty()) ==> {
            ||| a is CreateDir && b is CreateDir
            ||| (a is Open || a is OpenTemporary) && (b is Open || b is OpenTemporary)
            ||| a is SetMode && b is SetMode
            ||| a is Write && b is Write
            ||| a is Sync && b is Sync
            ||| a is Persist && b is Persist
        },
{
    reveal_strlit("failed to create directory ");
    reveal_strlit("failed to create temporary token file");
    reveal_strlit("failed to set secure permissions on temporary file");
    reveal_strlit("failed to write secret to temporary file");
    reveal_strlit("failed to sync token file to disk");
    reveal_strlit("failed to atomically save token to ");
    ends_with_its_end("failed to create directory "@, path);
    ends_with_its_end("failed to atomically save token to "@, path);
    assert("failed to create directory "@.len() == 27);
    assert("failed to create temporary token file"@.len() == 37);
    assert("failed to set secure permissions on temporary file"@.len() == 50);
    assert("failed to write secret to temporary file"@.len() == 40);
    assert("failed to sync token file to disk"@.len() == 33);
    assert("failed to atomically save token to "@.len() == 35);
    let one = write_failure_text(a, Seq::empty());
    let other = write_failure_text(b, Seq::empty());
    if one == other {
        assert(one.len() == other.len());
    }
}

} // verus!
