//! The completion engine: it has the line parsed, finds the token under the
//! cursor, and completes it by the strategy that the token calls for. What a
//! strategy needs of the file system is asked of the caller: the engine says
//! which directories it wants listed, and makes the candidates once it has
//! the listings.

use vstd::prelude::*;
use vstd::string::StringSliceAdditionalSpecFns;
use vstd::utf8::encode_utf8;
use crate::candidate::{lemma_shown_push, shown, Span};
use crate::cursor::{
    first_touching,
    lemma_first_touching,
    lemma_located_span,
    located,
    resolve_cursor,
    token_text,
    Located,
    Strategy,
    Token,
};
use crate::engine::{
    call_provider,
    decl_count,
    env_var,
    env_vars,
    item_view,
    EnvValue,
    EnvView,
    ephemeral_scopes,
    known_commands,
    main_separator,
    parse_tokens,
    persistent_scopes,
    resolve_base,
    value_text,
};
use crate::executables::{executable_names, external_command_completion, PathEntry};
use crate::order::{sort_by_text, sorted_by_text, Shown};
use crate::paths::{
    base_portion,
    file_path_candidates,
    file_path_completion,
    split_partial,
    strip_quotes,
    BaseDir,
    PathStyle,
};
use crate::text::is_prefix;
use crate::provider::{provider_completion, provider_outcome, Evaluation, ProviderDefect};
use crate::text::{lossy_text, texts, utf8_lossy};
use crate::variables::{complete_variables, variable_candidates};

verus! {

/// A directory whose entries are wanted, to complete a path.
#[derive(Clone, Debug)]
pub struct FileRequest {
    /// The partial path as typed.
    pub partial: String,
    /// The directory to list: the directory part of the partial path,
    /// resolved against the working directory. Never empty.
    pub dir: String,
}

/// The directories of the search path, whose executable files are wanted.
#[derive(Clone, Debug)]
pub struct ExecutableRequest {
    /// What was typed of the command's name.
    pub prefix: String,
    /// The directories, in the order of the search path.
    pub dirs: Vec<String>,
}

/// A completion that waits for what the file system holds.
#[derive(Clone, Debug)]
pub struct Request {
    /// The span of the token under the cursor, counted from the start of the
    /// line: every candidate replaces it.
    pub span: Span,
    /// The candidates that need nothing of the file system.
    pub found: Vec<(Span, String)>,
    /// The directory to list for candidates that are paths, if any are
    /// called for.
    pub files: Option<FileRequest>,
    /// The search path to scan for candidates that are executable files, if
    /// any are called for.
    pub executables: Option<ExecutableRequest>,
    /// How the platform writes paths.
    pub style: PathStyle,
}

/// The texts `names`, each as a candidate for `span`.
pub open spec fn named(names: Seq<Seq<char>>, span: Span) -> Seq<Shown> {
    names.map_values(|t: Seq<char>| (span, t))
}

impl Request {
    /// The request is for a token of a line of `len` bytes: its span lies in
    /// the line, every candidate found replaces that span, and a directory
    /// to list has a name.
    pub open spec fn wf(self, len: nat) -> bool {
        &&& self.span.wf()
        &&& self.span.end <= len
        &&& forall|i: int| 0 <= i < self.found@.len() ==> (#[trigger] self.found@[i]).0 == self.span
        &&& self.files is Some ==> self.files->0.dir@.len() > 0
    }

    /// The candidates that are paths, given what is known of the directory
    /// asked for.
    pub open spec fn path_part(self, base_dir: BaseDir) -> Seq<Shown> {
        match self.files {
            Some(f) => file_path_candidates(self.span, f.partial@, base_dir, self.style),
            None => Seq::empty(),
        }
    }

    /// The candidates that are executable files, given the listings of the
    /// directories asked for.
    pub open spec fn executable_part(self, path_dirs: Seq<Vec<PathEntry>>) -> Seq<Shown> {
        match self.executables {
            Some(x) => named(executable_names(x.prefix@, path_dirs), self.span),
            None => Seq::empty(),
        }
    }

    /// The candidates before they are sorted: the paths, then what was found
    /// without the file system, then the executable files.
    pub open spec fn gathered(self, base_dir: BaseDir, path_dirs: Seq<Vec<PathEntry>>) -> Seq<Shown> {
        self.path_part(base_dir) + shown(self.found@) + self.executable_part(path_dirs)
    }

    /// The answer to the request.
    pub open spec fn candidates(self, base_dir: BaseDir, path_dirs: Seq<Vec<PathEntry>>) -> Seq<
        Shown,
    > {
        sorted_by_text(self.gathered(base_dir, path_dirs))
    }

    /// The request is the one that is answered with no candidate.
    pub open spec fn is_nothing(self, style: PathStyle) -> bool {
        &&& self.span == (Span { start: 0, end: 0 })
        &&& self.found@.len() == 0
        &&& self.files is None
        &&& self.executables is None
        &&& self.style == style
    }

    /// A request that is answered with no candidate.
    pub fn nothing(style: PathStyle) -> (r: Request)
        ensures
            r.is_nothing(style),
            forall|len: nat| r.wf(len),
    {
        Request {
            span: Span { start: 0, end: 0 },
            found: Vec::new(),
            files: None,
            executables: None,
            style,
        }
    }

    /// Answers the request. `base_dir` tells what is known of the directory
    /// `files` asks for, `path_dirs` holds the listing of each directory
    /// that `executables` asks for, in their order, a directory that could
    /// not be read listed as empty. The candidates are the paths, what was
    /// found without the file system, and the executable files, sorted by
    /// their texts, candidates with the same text in that order.
    pub fn complete(&self, base_dir: &BaseDir, path_dirs: &Vec<Vec<PathEntry>>) -> (out: Vec<
        (Span, String),
    >)
        ensures
            shown(out@) == self.candidates(*base_dir, path_dirs@),
    {
        let mut all: Vec<(Span, String)> = match &self.files {
            Some(f) => file_path_completion(self.span, f.partial.as_str(), base_dir, self.style),
            None => Vec::new(),
        };
        assert(shown(all@) =~= self.path_part(*base_dir));
        let mut i: usize = 0;
        while i < self.found.len()
            invariant
                i <= self.found.len(),
                shown(all@) == self.path_part(*base_dir) + shown(self.found@.subrange(0, i as int)),
            decreases self.found.len() - i,
        {
            let item = (self.found[i].0, self.found[i].1.clone());
            proof {
                lemma_shown_push(all@, item);
                lemma_shown_push(self.found@.subrange(0, i as int), self.found@[i as int]);
                assert(self.found@.subrange(0, i + 1) =~= self.found@.subrange(0, i as int).push(
                    self.found@[i as int],
                ));
            }
            all.push(item);
            i += 1;
            assert(shown(all@) =~= self.path_part(*base_dir) + shown(
                self.found@.subrange(0, i as int),
            ));
        }
        assert(self.found@.subrange(0, self.found.len() as int) =~= self.found@);
        match &self.executables {
            Some(x) => {
                let names = external_command_completion(x.prefix.as_str(), path_dirs);
                let ghost before = shown(all@);
                let mut k: usize = 0;
                while k < names.len()
                    invariant
                        k <= names.len(),
                        shown(all@) == before + named(texts(names@).subrange(0, k as int), self.span),
                    decreases names.len() - k,
                {
                    let item = (self.span, names[k].clone());
                    proof {
                        lemma_shown_push(all@, item);
                    }
                    all.push(item);
                    k += 1;
                    assert(shown(all@) =~= before + named(
                        texts(names@).subrange(0, k as int),
                        self.span,
                    ));
                }
                assert(texts(names@).subrange(0, names.len() as int) =~= texts(names@));
            },
            None => {
                assert(shown(all@) =~= shown(all@) + Seq::<Shown>::empty());
            },
        }
        sort_by_text(all)
    }
}

/// The working directory that the environment names: the text of `PWD`
/// where it is set to a text, else the empty text.
pub fn working_dir(pwd: Option<String>) -> (cwd: String)
    ensures
        cwd@ == match pwd {
            Some(s) => s@,
            None => Seq::<char>::empty(),
        },
{
    match pwd {
        Some(s) => s,
        None => String::new(),
    }
}

/// The directories of a search path whose items were read as texts, `None`
/// for an item that is no text.
pub open spec fn search_path_dirs(items: Seq<Option<String>>) -> Seq<Seq<char>> {
    items.map_values(
        |item: Option<String>|
            match item {
                Some(s) => s@,
                None => Seq::<char>::empty(),
            },
    )
}

/// The directories of the search path that the environment names: the
/// items of `PATH` where it is set to a list, an item that is no text read
/// as the empty text; no directory where `PATH` is not set or is no list.
pub fn search_path(path: Option<Vec<Option<String>>>) -> (dirs: Vec<String>)
    ensures
        texts(dirs@) == match path {
            Some(items) => search_path_dirs(items@),
            None => Seq::<Seq<char>>::empty(),
        },
{
    let mut dirs: Vec<String> = Vec::new();
    match path {
        None => {
            assert(texts(dirs@) =~= Seq::<Seq<char>>::empty());
        },
        Some(items) => {
            let mut i: usize = 0;
            while i < items.len()
                invariant
                    i <= items.len(),
                    dirs@.len() == i,
                    forall|j: int| 0 <= j < i ==> (#[trigger] dirs@[j])@ == search_path_dirs(items@)[j],
                decreases items.len() - i,
            {
                let dir = match &items[i] {
                    Some(s) => s.clone(),
                    None => String::new(),
                };
                dirs.push(dir);
                i += 1;
            }
            assert(texts(dirs@) =~= search_path_dirs(items@));
        },
    }
    dirs
}

/// The directory to list for the partial path `partial`, whose directory
/// part resolved to `resolved`: none where it resolved to the empty path,
/// which stands for no directory, not for the working directory.
pub fn file_request(partial: String, resolved: String) -> (r: Option<FileRequest>)
    ensures
        resolved@.len() == 0 ==> r is None,
        resolved@.len() > 0 ==> r is Some && r->0.partial@ == partial@ && r->0.dir@ == resolved@,
{
    if resolved.as_str().is_empty() {
        None
    } else {
        Some(FileRequest { partial, dir: resolved })
    }
}

/// The names of known commands as candidates for `span`, each name read as
/// text.
pub fn command_candidates(names: &Vec<Vec<u8>>, span: Span) -> (out: Vec<(Span, String)>)
    ensures
        out@.len() == names@.len(),
        forall|i: int|
            0 <= i < out@.len() ==> (#[trigger] out@[i]).0 == span && out@[i].1@ == utf8_lossy(
                names@[i]@,
            ),
{
    let mut out: Vec<(Span, String)> = Vec::new();
    let mut i: usize = 0;
    while i < names.len()
        invariant
            i <= names.len(),
            out@.len() == i,
            forall|j: int|
                0 <= j < i ==> (#[trigger] out@[j]).0 == span && out@[j].1@ == utf8_lossy(names@[j]@),
        decreases names.len() - i,
    {
        out.push((span, lossy_text(names[i].as_slice())));
        i += 1;
    }
    out
}

/// What the shell told for a token, by the strategy that completes it.
#[derive(Clone, Debug)]
pub enum Gathered {
    /// The names of the variables of the two scope chains.
    Variables { ephemeral: Vec<Vec<Vec<u8>>>, persistent: Vec<Vec<Vec<u8>>> },
    /// What running the provider gave.
    Provider { provider: usize, evaluation: Evaluation },
    /// The names of the known commands that start with the token's text,
    /// the directory that the text points into, resolved, and the search
    /// path.
    PathsAndCommands { commands: Vec<Vec<u8>>, resolved: String, search_path: Vec<String> },
    /// The directory that the token's text points into, resolved.
    Paths { resolved: String },
    /// Nothing: no strategy completes the token.
    Nothing,
}

/// The request for a directory as contracts see it: the partial path and
/// the directory to list.
pub open spec fn shown_files(files: Option<FileRequest>) -> Option<(Seq<char>, Seq<char>)> {
    match files {
        Some(f) => Some((f.partial@, f.dir@)),
        None => None,
    }
}

/// The request for the search path as contracts see it: the prefix and the
/// directories.
pub open spec fn shown_executables(wanted: Option<ExecutableRequest>) -> Option<
    (Seq<char>, Seq<Seq<char>>),
> {
    match wanted {
        Some(x) => Some((x.prefix@, texts(x.dirs@))),
        None => None,
    }
}

/// The directory to list for the token text `text` whose directory part
/// resolved to `resolved`.
pub open spec fn files_wanted(text: Seq<u8>, resolved: Seq<char>) -> Option<(Seq<char>, Seq<char>)> {
    if resolved.len() == 0 {
        None
    } else {
        Some((utf8_lossy(text), resolved))
    }
}

/// The names of commands as candidates for `span`.
pub open spec fn command_names(commands: Seq<Vec<u8>>, span: Span) -> Seq<Shown> {
    commands.map_values(|name: Vec<u8>| (span, utf8_lossy(name@)))
}

/// What the dispatcher gives for the token at `span`, whose text is `text`,
/// from what the shell told for it: `r` is that.
pub open spec fn dispatched(
    r: Result<Request, ProviderDefect>,
    span: Span,
    text: Seq<u8>,
    style: PathStyle,
    gathered: Gathered,
) -> bool {
    &&& r is Ok ==> r->Ok_0.span == span && r->Ok_0.style == style && forall|i: int|
        0 <= i < r->Ok_0.found@.len() ==> (#[trigger] r->Ok_0.found@[i]).0 == span
    &&& match gathered {
        Gathered::Variables { ephemeral, persistent } => r is Ok && shown(r->Ok_0.found@)
            == variable_candidates(text, span, ephemeral@, persistent@) && r->Ok_0.files is None
            && r->Ok_0.executables is None,
        Gathered::Provider { provider, evaluation } => match provider_outcome(
            evaluation,
            provider,
            text,
            span,
        ) {
            Ok(candidates) => r is Ok && shown(r->Ok_0.found@) == candidates && r->Ok_0.files is None
                && r->Ok_0.executables is None,
            Err(defect) => r == Err::<Request, ProviderDefect>(defect),
        },
        Gathered::PathsAndCommands { commands, resolved, search_path } => r is Ok && shown(
            r->Ok_0.found@,
        ) == command_names(commands@, span) && shown_files(r->Ok_0.files) == files_wanted(
            text,
            resolved@,
        ) && shown_executables(r->Ok_0.executables) == Some(
            (utf8_lossy(text), texts(search_path@)),
        ),
        Gathered::Paths { resolved } => r is Ok && r->Ok_0.found@.len() == 0 && shown_files(
            r->Ok_0.files,
        ) == files_wanted(text, resolved@) && r->Ok_0.executables is None,
        Gathered::Nothing => r is Ok && r->Ok_0.found@.len() == 0 && r->Ok_0.files is None
            && r->Ok_0.executables is None,
    }
}

/// The strategy dispatcher: the request that answers the token at `span`,
/// whose text is `text`, from what the shell told for it. Variables and the
/// values of a provider are candidates at once; a token that may be a path
/// asks for the directory its text points into, unless that resolved to the
/// empty path; a token that may be a command also takes the names of the
/// known commands and asks for the search path. Every candidate replaces
/// the token's span. A provider that yielded a value that is no text is an
/// error.
pub fn request_for(span: Span, text: &[u8], style: PathStyle, gathered: Gathered) -> (r: Result<
    Request,
    ProviderDefect,
>)
    requires
        span.wf(),
    ensures
        dispatched(r, span, text@, style, gathered),
{
    let mut request = Request::nothing(style);
    request.span = span;
    match gathered {
        Gathered::Variables { ephemeral, persistent } => {
            request.found = complete_variables(text, span, 0, &ephemeral, &persistent);
            Ok(request)
        },
        Gathered::Provider { provider, evaluation } => {
            match provider_completion(&evaluation, provider, text, span) {
                Ok(found) => {
                    request.found = found;
                    Ok(request)
                },
                Err(defect) => Err(defect),
            }
        },
        Gathered::PathsAndCommands { commands, resolved, search_path } => {
            request.found = command_candidates(&commands, span);
            assert(shown(request.found@) =~= command_names(commands@, span));
            request.files = file_request(lossy_text(text), resolved);
            request.executables = Some(
                ExecutableRequest { prefix: lossy_text(text), dirs: search_path },
            );
            Ok(request)
        },
        Gathered::Paths { resolved } => {
            request.files = file_request(lossy_text(text), resolved);
            Ok(request)
        },
        Gathered::Nothing => Ok(request),
    }
}

/// The directories that the items of a search path name: an item that is
/// no text names the empty directory.
pub open spec fn named_dirs(items: Seq<Option<Seq<char>>>) -> Seq<Seq<char>> {
    items.map_values(
        |item: Option<Seq<char>>|
            match item {
                Some(t) => t,
                None => Seq::<char>::empty(),
            },
    )
}

/// The working directory that the state's environment names: the text of
/// `PWD`; the empty text where `PWD` is not set or holds no text.
pub open spec fn working_dir_of(state: nu_protocol::engine::EngineState) -> Seq<char> {
    if env_vars(state).contains_key("PWD"@) {
        match env_vars(state)["PWD"@] {
            EnvView::Text(t) => t,
            _ => Seq::<char>::empty(),
        }
    } else {
        Seq::<char>::empty()
    }
}

/// The search path that the state's environment names: the items of `PATH`;
/// no directory where `PATH` is not set or holds no list.
pub open spec fn search_path_of(state: nu_protocol::engine::EngineState) -> Seq<Seq<char>> {
    if env_vars(state).contains_key("PATH"@) {
        match env_vars(state)["PATH"@] {
            EnvView::List(items) => named_dirs(items),
            _ => Seq::<Seq<char>>::empty(),
        }
    } else {
        Seq::<Seq<char>>::empty()
    }
}

/// What holds of the directory that the token text `text` resolved to,
/// whatever the user's home directory is: a bare word points into the
/// working directory, so that it resolves to the empty path where the
/// environment names no working directory.
pub open spec fn resolves_to(
    resolved: Seq<char>,
    state: nu_protocol::engine::EngineState,
    text: Seq<u8>,
    style: PathStyle,
) -> bool {
    working_dir_of(state).len() == 0 && base_portion(strip_quotes(utf8_lossy(text)), style)
        == seq!['.', '/'] ==> resolved.len() == 0
}

/// `gathered` is what the shell with the state `state` told for a token with
/// the text `text` that `strategy` completes: it is of the strategy's kind;
/// a provider that the state does not hold was not run; the known commands
/// all start with the text; the search path is the environment's; and the
/// directory is the one the text resolved to.
pub open spec fn told_for(
    gathered: Gathered,
    strategy: Strategy,
    state: nu_protocol::engine::EngineState,
    text: Seq<u8>,
    style: PathStyle,
) -> bool {
    match gathered {
        Gathered::Variables { .. } => strategy == Strategy::Variables,
        Gathered::Provider { provider, evaluation } => strategy == Strategy::Provider(provider) && (
        provider >= decl_count(state) ==> evaluation is Failed),
        Gathered::PathsAndCommands { commands, resolved, search_path } => strategy
            == Strategy::PathsAndCommands && (forall|i: int|
            0 <= i < commands@.len() ==> is_prefix(text, (#[trigger] commands@[i])@)) && texts(
            search_path@,
        ) == search_path_of(state) && resolves_to(resolved@, state, text, style),
        Gathered::Paths { resolved } => strategy == Strategy::Paths && resolves_to(
            resolved@,
            state,
            text,
            style,
        ),
        Gathered::Nothing => strategy == Strategy::Nothing,
    }
}

/// `r` is the engine's answer for the cursor at `pos` of `line`, where the
/// parser put the line at `offset` and made `tokens` of it, and the shell
/// told `gathered` for the token under the cursor: the request that is
/// answered with no candidate where the cursor is on no token of the line,
/// else what the dispatcher gives for that token.
pub open spec fn answers(
    r: Result<Request, ProviderDefect>,
    line: Seq<u8>,
    pos: usize,
    style: PathStyle,
    state: nu_protocol::engine::EngineState,
    offset: usize,
    tokens: Seq<Token>,
    gathered: Gathered,
) -> bool {
    match located(line, pos, offset, tokens) {
        None => r is Ok && r->Ok_0.is_nothing(style),
        Some(token) => {
            let text = line.subrange(token.span.start as int, token.span.end as int);
            told_for(gathered, token.strategy, state, text, style) && dispatched(
                r,
                token.span,
                text,
                style,
                gathered,
            )
        },
    }
}

/// A cursor beyond the end of the line is on no token of the line.
pub proof fn lemma_cursor_beyond_line(line: Seq<u8>, pos: usize, offset: usize, tokens: Seq<Token>)
    requires
        pos > line.len(),
    ensures
        located(line, pos, offset, tokens) is None,
{
    lemma_first_touching(tokens, offset + pos);
}

/// The completion engine of a shell.
#[derive(Clone)]
pub struct NuCompleter {
    engine_state: nu_protocol::engine::EngineState,
    style: PathStyle,
}

impl NuCompleter {
    /// The state of the shell that this engine completes against.
    pub closed spec fn engine_state(&self) -> nu_protocol::engine::EngineState {
        self.engine_state
    }

    /// How this engine writes paths.
    pub closed spec fn spec_style(&self) -> PathStyle {
        self.style
    }

    /// An engine that completes against the state `engine_state`, with the
    /// path separators of the platform it runs on.
    pub fn new(engine_state: nu_protocol::engine::EngineState) -> (completer: Self)
        ensures
            completer.engine_state() == engine_state,
    {
        NuCompleter { engine_state, style: PathStyle::of_separator(main_separator()) }
    }

    /// How this engine writes paths.
    #[verifier::when_used_as_spec(spec_style)]
    pub fn style(&self) -> (style: PathStyle)
        ensures
            style == self.spec_style(),
    {
        self.style
    }

    /// The working directory of the shell: the variable `PWD` of its
    /// environment; the empty text where it is not set or holds no text.
    fn working_dir(&self) -> (cwd: String)
        ensures
            cwd@ == working_dir_of(self.engine_state),
    {
        match env_var(&self.engine_state, "PWD") {
            Some(EnvValue::Text(text)) => working_dir(Some(text)),
            _ => working_dir(None),
        }
    }

    /// Each of the values read as text.
    fn read_values(values: &Vec<nu_protocol::Value>) -> (read: Vec<Option<String>>)
        ensures
            read@.len() == values@.len(),
    {
        let mut read: Vec<Option<String>> = Vec::new();
        let mut i: usize = 0;
        while i < values.len()
            invariant
                i <= values.len(),
                read@.len() == i,
            decreases values.len() - i,
        {
            read.push(value_text(&values[i]));
            i += 1;
        }
        read
    }

    /// The search path of the shell: the items of the variable `PATH` of
    /// its environment, an item that is no text read as the empty text; no
    /// directory where `PATH` is not set or holds no list.
    fn external_command_path(&self) -> (dirs: Vec<String>)
        ensures
            texts(dirs@) == search_path_of(self.engine_state),
    {
        match env_var(&self.engine_state, "PATH") {
            Some(EnvValue::List(items)) => {
                assert(search_path_dirs(items@) =~= named_dirs(
                    items@.map_values(|i: Option<String>| item_view(i)),
                ));
                search_path(Some(items))
            },
            _ => search_path(None),
        }
    }

    /// Runs the provider and reads each value it yields as text. A provider
    /// that the shell's state does not hold cannot be run: its run counts as
    /// failed.
    fn evaluate(&self, provider: usize, origin: Span) -> (evaluation: Evaluation)
        ensures
            provider >= decl_count(self.engine_state) ==> evaluation is Failed,
    {
        if provider >= self.engine_state.num_decls() {
            return Evaluation::Failed;
        }
        match call_provider(&self.engine_state, provider, origin) {
            None => Evaluation::Failed,
            Some(values) => Evaluation::Values(Self::read_values(&values)),
        }
    }

    /// The directory that the token text `text` points into, resolved
    /// against the working directory. A bare word points into the working
    /// directory itself: where the environment names none, it resolves to
    /// the empty path.
    fn resolved_base(&self, text: &[u8]) -> (resolved: String)
        ensures
            resolves_to(resolved@, self.engine_state, text@, self.style),
    {
        let partial = lossy_text(text);
        let query = split_partial(partial.as_str(), self.style);
        let cwd = self.working_dir();
        resolve_base(query.base.as_str(), cwd.as_str())
    }

    /// Asks the shell what the strategy for the token needs.
    fn gather(
        &self,
        working_set: &nu_protocol::engine::StateWorkingSet,
        text: &[u8],
        token: Located,
    ) -> (gathered: Gathered)
        ensures
            told_for(gathered, token.strategy, self.engine_state, text@, self.style),
    {
        match token.strategy {
            Strategy::Variables => Gathered::Variables {
                ephemeral: ephemeral_scopes(working_set),
                persistent: persistent_scopes(&self.engine_state),
            },
            Strategy::Provider(provider) => Gathered::Provider {
                provider,
                evaluation: self.evaluate(provider, token.origin),
            },
            Strategy::PathsAndCommands => Gathered::PathsAndCommands {
                commands: known_commands(working_set, text),
                resolved: self.resolved_base(text),
                search_path: self.external_command_path(),
            },
            Strategy::Paths => Gathered::Paths { resolved: self.resolved_base(text) },
            Strategy::Nothing => Gathered::Nothing,
        }
    }

    /// Has `line` parsed, finds the token under the cursor at byte `pos` of
    /// the line, and completes it as far as that can be done without the
    /// file system; the request that comes back says what remains to be
    /// listed, and [`Request::complete`] gives the candidates. Where the
    /// cursor touches no token of the line, the request is the one that is
    /// answered with no candidate. An error tells that the provider for the
    /// token yielded a value that is no text.
    ///
    /// Whatever the parser made of the line and whatever the shell told for
    /// the token under the cursor, the result is what the cursor resolver
    /// and the dispatcher give for them. So the request's span lies in the
    /// line, every candidate found replaces that span, a directory to list
    /// is never the empty path, and where anything is found or asked for,
    /// the cursor touches the span. A cursor beyond the end of the line is
    /// on no token, and is answered with no candidate.
    pub fn completion_helper(&self, line: &str, pos: usize) -> (r: Result<Request, ProviderDefect>)
        ensures
            exists|offset: usize, tokens: Seq<Token>, gathered: Gathered| #[trigger]
                answers(
                    r,
                    encode_utf8(line@),
                    pos,
                    self.spec_style(),
                    self.engine_state(),
                    offset,
                    tokens,
                    gathered,
                ),
            pos > encode_utf8(line@).len() ==> r is Ok && r->Ok_0.is_nothing(self.spec_style()),
            match r {
                Ok(request) => request.wf(encode_utf8(line@).len()) && request.style
                    == self.spec_style() && (request.found@.len() > 0 || request.files is Some
                    || request.executables is Some ==> request.span.start <= pos
                    <= request.span.end),
                Err(_) => true,
            },
    {
        let bytes = line.as_bytes();
        assert(bytes@ == encode_utf8(line@));
        let mut working_set = nu_protocol::engine::StateWorkingSet::new(&self.engine_state);
        let offset = working_set.next_span_start();
        let tokens = parse_tokens(&mut working_set, bytes);
        proof {
            lemma_located_span(bytes@, pos, offset, tokens@);
            if pos > bytes@.len() {
                lemma_cursor_beyond_line(bytes@, pos, offset, tokens@);
            }
        }
        match resolve_cursor(bytes, pos, offset, &tokens) {
            None => {
                let r = Ok(Request::nothing(self.style));
                assert(answers(
                    r,
                    encode_utf8(line@),
                    pos,
                    self.spec_style(),
                    self.engine_state(),
                    offset,
                    tokens@,
                    Gathered::Nothing,
                ));
                r
            },
            Some(token) => {
                let text = token_text(bytes, token.span);
                let gathered = self.gather(&working_set, text, token);
                let ghost told = gathered;
                let r = request_for(token.span, text, self.style, gathered);
                assert(answers(
                    r,
                    encode_utf8(line@),
                    pos,
                    self.spec_style(),
                    self.engine_state(),
                    offset,
                    tokens@,
                    told,
                ));
                r
            },
        }
    }
}

} // verus!
