//! The completion engine on given values: each strategy by itself, the
//! cursor resolver, the order of the answer, and whole requests against a
//! shell state.

use nu_completion::candidate::Span;
use nu_completion::completer::{
    file_request, request_for, search_path, working_dir, Gathered, NuCompleter, Request,
};
use nu_completion::cursor::{
    choose_strategy, locate, resolve_cursor, token_text, Located, Shape, Strategy, Token,
};
use nu_completion::executables::{external_command_completion, PathEntry};
use nu_completion::order::sort_by_text;
use nu_completion::paths::{
    file_path_completion, split_partial, BaseDir, DirEntry, PathStyle,
};
use nu_completion::provider::{provider_completion, Evaluation, ProviderDefect};
use nu_completion::variables::complete_variables;
use nu_protocol::ast::Call;
use nu_protocol::engine::{Command, EngineState, Stack, StateWorkingSet};
use nu_protocol::{PipelineData, ShellError, Signature, SyntaxShape, Type, Value};

fn file(name: &str) -> DirEntry {
    DirEntry { name: name.to_string(), is_dir: false }
}

fn dir(name: &str) -> DirEntry {
    DirEntry { name: name.to_string(), is_dir: true }
}

fn texts(found: &[(Span, String)]) -> Vec<&str> {
    found.iter().map(|(_, text)| text.as_str()).collect()
}

fn span(start: usize, end: usize) -> Span {
    Span { start, end }
}

#[test]
fn matches_is_a_prefix_test() {
    assert!(nu_completion::matcher::matches("fo", "foo.txt"));
    assert!(nu_completion::matcher::matches("foo.txt", "foo.txt"));
    assert!(nu_completion::matcher::matches("", "foo.txt"));
    assert!(nu_completion::matcher::matches("", ""));
    assert!(!nu_completion::matcher::matches("foo.txt2", "foo.txt"));
    assert!(!nu_completion::matcher::matches("oo", "foo.txt"));
    assert!(!nu_completion::matcher::matches("f", ""));
}

#[test]
fn matches_takes_no_account_of_ascii_case() {
    assert!(nu_completion::matcher::matches("FO", "foo.txt"));
    assert!(nu_completion::matcher::matches("fo", "FOO.TXT"));
    assert!(nu_completion::matcher::matches("rEaD", "README.md"));
    assert!(nu_completion::matcher::matches("[", "[x"));
    assert!(!nu_completion::matcher::matches("@", "`"));
    assert!(!nu_completion::matcher::matches("[", "{"));
}

#[test]
fn matches_leaves_other_letters_alone() {
    assert!(nu_completion::matcher::matches("é", "école"));
    assert!(!nu_completion::matcher::matches("É", "école"));
    assert!(!nu_completion::matcher::matches("é", "École"));
}

#[test]
fn split_of_a_bare_word() {
    let q = split_partial("foo", PathStyle::Unix);
    assert_eq!(q.base, "./");
    assert_eq!(q.name, "foo");
    let q = split_partial("", PathStyle::Unix);
    assert_eq!(q.base, "./");
    assert_eq!(q.name, "");
    let q = split_partial("foo", PathStyle::Windows);
    assert_eq!(q.base, ".\\");
    assert_eq!(q.name, "foo");
}

#[test]
fn split_at_the_last_separator() {
    let q = split_partial("src/ma", PathStyle::Unix);
    assert_eq!(q.base, "src/");
    assert_eq!(q.name, "ma");
    let q = split_partial("/usr/local/bi", PathStyle::Unix);
    assert_eq!(q.base, "/usr/local/");
    assert_eq!(q.name, "bi");
    let q = split_partial("src/", PathStyle::Unix);
    assert_eq!(q.base, "src/");
    assert_eq!(q.name, "");
    let q = split_partial("/", PathStyle::Unix);
    assert_eq!(q.base, "/");
    assert_eq!(q.name, "");
    let q = split_partial("a\\b", PathStyle::Unix);
    assert_eq!(q.base, "./");
    assert_eq!(q.name, "a\\b");
}

#[test]
fn split_strips_one_quote_at_each_end() {
    let q = split_partial("\"my dir/fi", PathStyle::Unix);
    assert_eq!(q.base, "my dir/");
    assert_eq!(q.name, "fi");
    let q = split_partial("\"my dir/fi\"", PathStyle::Unix);
    assert_eq!(q.base, "my dir/");
    assert_eq!(q.name, "fi");
    let q = split_partial("\"\"a\"\"", PathStyle::Unix);
    assert_eq!(q.base, "./");
    assert_eq!(q.name, "\"a\"");
    let q = split_partial("\"", PathStyle::Unix);
    assert_eq!(q.base, "./");
    assert_eq!(q.name, "");
    let q = split_partial("a\"b", PathStyle::Unix);
    assert_eq!(q.name, "a\"b");
}

#[test]
fn split_makes_separators_uniform() {
    let q = split_partial("a/b\\c", PathStyle::Windows);
    assert_eq!(q.base, "a\\b\\");
    assert_eq!(q.name, "c");
    let q = split_partial("a/b/c", PathStyle::Windows);
    assert_eq!(q.base, "a\\b\\");
    assert_eq!(q.name, "c");
    let q = split_partial("a//b", PathStyle::Unix);
    assert_eq!(q.base, "a//");
    assert_eq!(q.name, "b");
}

#[test]
fn path_style_of_the_platform_separator() {
    assert_eq!(PathStyle::of_separator('/'), PathStyle::Unix);
    assert_eq!(PathStyle::of_separator('\\'), PathStyle::Windows);
    assert_eq!(PathStyle::Unix.separator(), '/');
    assert_eq!(PathStyle::Windows.separator(), '\\');
    assert!(PathStyle::Unix.is_separator('/'));
    assert!(!PathStyle::Unix.is_separator('\\'));
    assert!(PathStyle::Windows.is_separator('/'));
    assert!(PathStyle::Windows.is_separator('\\'));
}

#[test]
fn files_that_complete_the_typed_name() {
    let listing = BaseDir::Listed(vec![file("foo.txt"), file("bar.txt"), file("foobar.txt")]);
    let found = file_path_completion(span(5, 8), "foo", &listing, PathStyle::Unix);
    assert_eq!(
        found,
        vec![(span(5, 8), "./foo.txt".to_string()), (span(5, 8), "./foobar.txt".to_string())]
    );
}

#[test]
fn prefix_correctness_on_a_listing() {
    let names = ["Cargo.toml", "cargo.lock", "CARGO", "car", "ca", "scar", "Car go"];
    let listing = BaseDir::Listed(names.iter().map(|n| file(n)).collect());
    let found = file_path_completion(span(0, 3), "CAR", &listing, PathStyle::Unix);
    assert_eq!(
        texts(&found),
        vec!["./Cargo.toml", "./cargo.lock", "./CARGO", "./car", "\"./Car go\""]
    );
    for name in names {
        let listed = found.iter().any(|(_, t)| t.trim_matches('"') == format!("./{}", name));
        assert_eq!(listed, name.to_lowercase().starts_with("car"));
    }
}

#[test]
fn every_entry_completes_the_empty_name() {
    let listing = BaseDir::Listed(vec![file("b"), dir("a"), file(".hidden")]);
    let found = file_path_completion(span(3, 7), "src/", &listing, PathStyle::Unix);
    assert_eq!(texts(&found), vec!["src/b", "src/a/", "src/.hidden"]);
}

#[test]
fn a_directory_gets_one_separator() {
    let listing = BaseDir::Listed(vec![dir("src"), file("src.txt")]);
    let found = file_path_completion(span(0, 1), "s", &listing, PathStyle::Unix);
    assert_eq!(texts(&found), vec!["./src/", "./src.txt"]);
    let found = file_path_completion(span(0, 1), "s", &listing, PathStyle::Windows);
    assert_eq!(texts(&found), vec![".\\src\\", ".\\src.txt"]);
    for (_, text) in file_path_completion(span(0, 1), "s", &listing, PathStyle::Unix) {
        assert!(!text.ends_with("//"));
    }
}

#[test]
fn a_path_with_a_space_is_quoted_once() {
    let listing = BaseDir::Listed(vec![file("my file.txt"), dir("my dir"), file("myfile")]);
    let found = file_path_completion(span(0, 2), "my", &listing, PathStyle::Unix);
    assert_eq!(texts(&found), vec!["\"./my file.txt\"", "\"./my dir/\"", "./myfile"]);
    for (_, text) in found {
        let quotes = text.chars().filter(|c| *c == '"').count();
        if text.contains(' ') {
            assert_eq!(quotes, 2);
            assert!(text.starts_with('"') && text.ends_with('"'));
        } else {
            assert_eq!(quotes, 0);
        }
    }
}

#[test]
fn a_space_in_the_typed_directory_quotes_too() {
    let listing = BaseDir::Listed(vec![file("a.txt")]);
    let found = file_path_completion(span(0, 9), "\"my dir/a", &listing, PathStyle::Unix);
    assert_eq!(texts(&found), vec!["\"my dir/a.txt\""]);
}

#[test]
fn other_special_characters_do_not_quote() {
    let listing = BaseDir::Listed(vec![file("a$b"), file("a'b"), file("a\tb"), file("a;b")]);
    let found = file_path_completion(span(0, 1), "a", &listing, PathStyle::Unix);
    assert_eq!(texts(&found), vec!["./a$b", "./a'b", "./a\tb", "./a;b"]);
}

#[test]
fn an_empty_base_gives_no_candidate() {
    let found = file_path_completion(span(0, 3), "foo", &BaseDir::Empty, PathStyle::Unix);
    assert!(found.is_empty());
    let found = file_path_completion(span(0, 0), "", &BaseDir::Empty, PathStyle::Unix);
    assert!(found.is_empty());
}

#[test]
fn an_unreadable_directory_gives_no_candidate() {
    let found = file_path_completion(span(0, 3), "foo", &BaseDir::Unreadable, PathStyle::Unix);
    assert!(found.is_empty());
    let found = file_path_completion(span(0, 3), "foo", &BaseDir::Listed(vec![]), PathStyle::Unix);
    assert!(found.is_empty());
}

fn entry(name: &str, is_executable: bool) -> PathEntry {
    PathEntry { name: name.to_string(), is_unicode: true, is_executable }
}

#[test]
fn executables_of_the_search_path() {
    let dirs = vec![vec![entry("mytool", true), entry("notes.txt", false)]];
    assert_eq!(external_command_completion("my", &dirs), vec!["mytool".to_string()]);
    assert_eq!(external_command_completion("no", &dirs), Vec::<String>::new());
    assert_eq!(external_command_completion("", &dirs), vec!["mytool".to_string()]);
}

#[test]
fn executables_are_named_once_by_the_first_directory() {
    let dirs = vec![
        vec![entry("git", true), entry("grep", true)],
        vec![],
        vec![entry("gzip", true), entry("git", true), entry("GIT", true)],
        vec![entry("grep", false), entry("gawk", true)],
    ];
    assert_eq!(
        external_command_completion("g", &dirs),
        vec!["git".to_string(), "grep".to_string(), "gzip".to_string(), "gawk".to_string()]
    );
}

#[test]
fn executables_need_the_mark_and_a_unicode_name() {
    let odd = PathEntry { name: "tool\u{fffd}".to_string(), is_unicode: false, is_executable: true };
    let dirs = vec![vec![entry("tool", false), odd], vec![entry("tool", true)]];
    assert_eq!(external_command_completion("t", &dirs), vec!["tool".to_string()]);
    let dirs = vec![vec![entry("Tool", true)]];
    assert!(external_command_completion("t", &dirs).is_empty());
}

fn names(list: &[&str]) -> Vec<Vec<u8>> {
    list.iter().map(|n| n.as_bytes().to_vec()).collect()
}

#[test]
fn variables_builtin_first() {
    let found = complete_variables(b"$", span(10, 11), 10, &vec![], &vec![]);
    assert_eq!(texts(&found), vec!["$nu", "$scope", "$in", "$config", "$env"]);
    for (s, _) in found {
        assert_eq!(s, span(0, 1));
    }
}

#[test]
fn variables_of_both_chains() {
    let ephemeral = vec![names(&["$x", "$extra"]), names(&["$y"])];
    let persistent = vec![names(&["$earlier"]), names(&["$e", "$z"])];
    let found = complete_variables(b"$e", span(7, 9), 4, &ephemeral, &persistent);
    assert_eq!(texts(&found), vec!["$env", "$extra", "$earlier", "$e"]);
    for (s, _) in found.iter() {
        assert_eq!(*s, span(3, 5));
    }
    let found = complete_variables(b"", span(0, 0), 0, &ephemeral, &persistent);
    assert_eq!(found.len(), 11);
    let found = complete_variables(b"$nothing-like-it", span(0, 16), 0, &ephemeral, &persistent);
    assert!(found.is_empty());
}

#[test]
fn variables_are_given_once() {
    let ephemeral = vec![names(&["$x", "$in", "$x"]), names(&["$y", "$x"])];
    let persistent = vec![names(&["$y"]), names(&["$x", "$nu"])];
    let found = complete_variables(b"$", span(0, 1), 0, &ephemeral, &persistent);
    assert_eq!(texts(&found), vec!["$nu", "$scope", "$in", "$config", "$env", "$x", "$y"]);
    for i in 0..found.len() {
        for j in 0..i {
            assert_ne!(found[i], found[j]);
        }
    }
}

#[test]
fn variable_names_are_read_as_text() {
    let persistent = vec![vec![vec![b'$', 0xc3, 0xa9], vec![b'$', 0xff, b'a']]];
    let found = complete_variables(b"$", span(0, 1), 0, &vec![], &persistent);
    assert_eq!(texts(&found)[5..], ["$é", "$\u{fffd}a"]);
    let found = complete_variables(&[b'$', 0xc3], span(0, 2), 0, &vec![], &persistent);
    assert_eq!(texts(&found), vec!["$é"]);
}

fn token(start: usize, end: usize, shape: Shape) -> Token {
    Token { span: span(start, end), shape }
}

#[test]
fn the_first_token_that_the_cursor_touches() {
    let tokens = vec![
        token(100, 104, Shape::InternalCall),
        token(105, 108, Shape::Filepath),
        token(108, 110, Shape::Other),
    ];
    assert_eq!(locate(&tokens, 100, 0), Some(0));
    assert_eq!(locate(&tokens, 100, 4), Some(0));
    assert_eq!(locate(&tokens, 100, 5), Some(1));
    assert_eq!(locate(&tokens, 100, 8), Some(1));
    assert_eq!(locate(&tokens, 100, 9), Some(2));
    assert_eq!(locate(&tokens, 100, 10), Some(2));
    assert_eq!(locate(&tokens, 100, 11), None);
    assert_eq!(locate(&tokens, 0, 50), None);
    assert_eq!(locate(&tokens, usize::MAX, 5), None);
    assert_eq!(locate(&vec![], 0, 0), None);
}

#[test]
fn strategy_by_text_and_shape() {
    assert_eq!(choose_strategy(b"$x", Shape::Variable), Strategy::Variables);
    assert_eq!(choose_strategy(b"$", Shape::Other), Strategy::Variables);
    assert_eq!(choose_strategy(b"$HOME/x", Shape::Filepath), Strategy::Variables);
    assert_eq!(choose_strategy(b"$x", Shape::Provider(7)), Strategy::Variables);
    assert_eq!(choose_strategy(b"a", Shape::Provider(7)), Strategy::Provider(7));
    assert_eq!(choose_strategy(b"gi", Shape::External), Strategy::PathsAndCommands);
    assert_eq!(choose_strategy(b"gi", Shape::InternalCall), Strategy::PathsAndCommands);
    assert_eq!(choose_strategy(b"gi", Shape::BareString), Strategy::PathsAndCommands);
    assert_eq!(choose_strategy(b"src/", Shape::Filepath), Strategy::Paths);
    assert_eq!(choose_strategy(b"*.rs", Shape::GlobPattern), Strategy::Paths);
    assert_eq!(choose_strategy(b"-l", Shape::ExternalArg), Strategy::Paths);
    assert_eq!(choose_strategy(b"x", Shape::Variable), Strategy::Nothing);
    assert_eq!(choose_strategy(b"12", Shape::Other), Strategy::Nothing);
    assert_eq!(choose_strategy(b"", Shape::Other), Strategy::Nothing);
    assert_eq!(choose_strategy(b"", Shape::Filepath), Strategy::Paths);
}

#[test]
fn the_located_token_in_the_line() {
    let line = b"open foo";
    let tokens = vec![token(20, 24, Shape::InternalCall), token(25, 28, Shape::Filepath)];
    assert_eq!(
        resolve_cursor(line, 8, 20, &tokens),
        Some(Located { origin: span(25, 28), span: span(5, 8), strategy: Strategy::Paths })
    );
    assert_eq!(
        resolve_cursor(line, 2, 20, &tokens),
        Some(Located {
            origin: span(20, 24),
            span: span(0, 4),
            strategy: Strategy::PathsAndCommands
        })
    );
    assert_eq!(resolve_cursor(b"open  foo", 5, 20, &vec![token(20, 24, Shape::Other), token(26, 29, Shape::Other)]), None);
    assert_eq!(token_text(line, span(5, 8)), b"foo");
    assert_eq!(token_text(line, span(8, 8)), b"");
}

#[test]
fn the_first_touching_token_decides() {
    let tokens = vec![token(0, 3, Shape::Other), token(3, 6, Shape::Filepath)];
    let located = resolve_cursor(b"abcdef", 3, 0, &tokens).expect("a token");
    assert_eq!(located.span, span(0, 3));
    assert_eq!(located.strategy, Strategy::Nothing);
    let tokens = vec![token(0, 3, Shape::Filepath), token(3, 6, Shape::Other)];
    let located = resolve_cursor(b"abcdef", 3, 0, &tokens).expect("a token");
    assert_eq!(located.span, span(0, 3));
    assert_eq!(located.strategy, Strategy::Paths);
}

#[test]
fn a_token_outside_the_line_is_not_completed() {
    assert_eq!(resolve_cursor(b"abc", 0, 10, &vec![token(4, 10, Shape::Filepath)]), None);
    assert_eq!(resolve_cursor(b"abc", 3, 10, &vec![token(12, 20, Shape::Filepath)]), None);
    assert_eq!(resolve_cursor(b"abc", 3, 10, &vec![token(14, 13, Shape::Filepath)]), None);
    assert!(resolve_cursor(b"abc", 3, 10, &vec![token(10, 13, Shape::Filepath)]).is_some());
}

#[test]
fn the_sigil_is_read_from_the_line() {
    let tokens = vec![token(7, 9, Shape::Other)];
    let located = resolve_cursor(b"ls $x", 5, 4, &tokens).expect("a token");
    assert_eq!(located.strategy, Strategy::Variables);
    assert_eq!(located.span, span(3, 5));
}

fn values(list: &[Option<&str>]) -> Evaluation {
    Evaluation::Values(list.iter().map(|v| v.map(|s| s.to_string())).collect())
}

#[test]
fn what_a_provider_yields_is_filtered() {
    let run = values(&[Some("alpha"), Some("beta"), Some("gamma")]);
    let found = provider_completion(&run, 3, b"a", span(4, 5)).expect("texts only");
    assert_eq!(found, vec![(span(4, 5), "alpha".to_string())]);
    let found = provider_completion(&run, 3, b"", span(4, 4)).expect("texts only");
    assert_eq!(texts(&found), vec!["alpha", "beta", "gamma"]);
    let found = provider_completion(&run, 3, b"A", span(4, 5)).expect("texts only");
    assert!(found.is_empty());
    let run = values(&[Some("b"), Some("a2"), Some("a1"), Some("a2")]);
    let found = provider_completion(&run, 3, b"a", span(0, 1)).expect("texts only");
    assert_eq!(texts(&found), vec!["a2", "a1", "a2"]);
}

#[test]
fn a_value_that_is_no_text_is_a_defect() {
    let run = values(&[Some("alpha"), None, Some("gamma"), None]);
    assert_eq!(
        provider_completion(&run, 3, b"a", span(4, 5)),
        Err(ProviderDefect { provider: 3, output: 1 })
    );
    assert_eq!(
        provider_completion(&run, 9, b"zzz", span(4, 7)),
        Err(ProviderDefect { provider: 9, output: 1 })
    );
    let run = values(&[None]);
    assert_eq!(
        provider_completion(&run, 0, b"", span(0, 0)),
        Err(ProviderDefect { provider: 0, output: 0 })
    );
}

#[test]
fn a_failed_run_gives_no_candidate() {
    assert_eq!(provider_completion(&Evaluation::Failed, 3, b"a", span(4, 5)), Ok(vec![]));
    assert_eq!(provider_completion(&values(&[]), 3, b"a", span(4, 5)), Ok(vec![]));
}

#[test]
fn the_answer_is_sorted_by_text() {
    let items = vec![
        (span(0, 1), "pear".to_string()),
        (span(0, 1), "apple".to_string()),
        (span(0, 1), "Zebra".to_string()),
        (span(0, 1), "app".to_string()),
        (span(0, 1), "".to_string()),
        (span(0, 1), "école".to_string()),
    ];
    let sorted = sort_by_text(items);
    assert_eq!(texts(&sorted), vec!["", "Zebra", "app", "apple", "pear", "école"]);
}

#[test]
fn the_sort_is_stable() {
    let items = vec![
        (span(1, 1), "b".to_string()),
        (span(2, 2), "a".to_string()),
        (span(3, 3), "b".to_string()),
        (span(4, 4), "a".to_string()),
        (span(5, 5), "b".to_string()),
    ];
    let sorted = sort_by_text(items.clone());
    assert_eq!(
        sorted,
        vec![
            (span(2, 2), "a".to_string()),
            (span(4, 4), "a".to_string()),
            (span(1, 1), "b".to_string()),
            (span(3, 3), "b".to_string()),
            (span(5, 5), "b".to_string()),
        ]
    );
    let mut expected = items;
    expected.sort_by(|a, b| a.1.cmp(&b.1));
    assert_eq!(sorted, expected);
    assert_eq!(sort_by_text(vec![]), vec![]);
}

#[test]
fn the_environment_as_it_is_read() {
    assert_eq!(working_dir(Some("/home/me".to_string())), "/home/me");
    assert_eq!(working_dir(None), "");
    assert_eq!(search_path(None), Vec::<String>::new());
    assert_eq!(search_path(Some(vec![])), Vec::<String>::new());
    assert_eq!(
        search_path(Some(vec![Some("/bin".to_string()), None, Some("/usr/bin".to_string())])),
        vec!["/bin".to_string(), "".to_string(), "/usr/bin".to_string()]
    );
}

#[test]
fn no_directory_for_an_empty_base() {
    assert!(file_request("foo".to_string(), "".to_string()).is_none());
    let request = file_request("src/ma".to_string(), "/work/src".to_string()).expect("a directory");
    assert_eq!(request.partial, "src/ma");
    assert_eq!(request.dir, "/work/src");
}

#[test]
fn a_request_gathers_paths_then_found_then_executables() {
    let request = Request {
        span: span(0, 1),
        found: vec![(span(0, 1), "b-command".to_string()), (span(0, 1), "a-command".to_string())],
        files: file_request("b".to_string(), "/work".to_string()),
        executables: Some(nu_completion::completer::ExecutableRequest {
            prefix: "b".to_string(),
            dirs: vec!["/bin".to_string()],
        }),
        style: PathStyle::Unix,
    };
    let listing = BaseDir::Listed(vec![file("b-file"), file("c-file")]);
    let path = vec![vec![entry("b-tool", true), entry("a-tool", true)]];
    let found = request.complete(&listing, &path);
    assert_eq!(texts(&found), vec!["./b-file", "a-command", "b-command", "b-tool"]);
    let found = request.complete(&BaseDir::Unreadable, &vec![]);
    assert_eq!(texts(&found), vec!["a-command", "b-command"]);
    let nothing = Request::nothing(PathStyle::Unix);
    assert!(nothing.complete(&listing, &path).is_empty());
}

#[test]
fn the_request_for_each_strategy() {
    let at = span(5, 7);
    let gathered = Gathered::Variables {
        ephemeral: vec![names(&["$extra"])],
        persistent: vec![names(&["$e", "$x"])],
    };
    let request = request_for(at, b"$e", PathStyle::Unix, gathered).expect("a request");
    assert_eq!(request.span, at);
    assert_eq!(texts(&request.found), vec!["$env", "$extra", "$e"]);
    assert!(request.files.is_none() && request.executables.is_none());

    let gathered = Gathered::Provider {
        provider: 4,
        evaluation: values(&[Some("go"), Some("stop"), Some("gone")]),
    };
    let request = request_for(at, b"go", PathStyle::Unix, gathered).expect("a request");
    assert_eq!(request.found, vec![(at, "go".to_string()), (at, "gone".to_string())]);
    assert!(request.files.is_none() && request.executables.is_none());
    let gathered = Gathered::Provider { provider: 4, evaluation: values(&[Some("go"), None]) };
    assert_eq!(
        request_for(at, b"go", PathStyle::Unix, gathered).err(),
        Some(ProviderDefect { provider: 4, output: 1 })
    );

    let gathered = Gathered::PathsAndCommands {
        commands: names(&["goto", "go"]),
        resolved: "/w".to_string(),
        search_path: vec!["/bin".to_string()],
    };
    let request = request_for(at, b"go", PathStyle::Windows, gathered).expect("a request");
    assert_eq!(request.found, vec![(at, "goto".to_string()), (at, "go".to_string())]);
    assert_eq!(request.style, PathStyle::Windows);
    let files = request.files.clone().expect("a directory is asked for");
    assert_eq!((files.partial.as_str(), files.dir.as_str()), ("go", "/w"));
    let wanted = request.executables.clone().expect("the search path is asked for");
    assert_eq!(wanted.prefix, "go");
    assert_eq!(wanted.dirs, vec!["/bin".to_string()]);

    let gathered = Gathered::PathsAndCommands {
        commands: vec![],
        resolved: "".to_string(),
        search_path: vec![],
    };
    let request = request_for(at, b"go", PathStyle::Unix, gathered).expect("a request");
    assert!(request.files.is_none());
    assert!(request.executables.is_some());

    let gathered = Gathered::Paths { resolved: "/w/src".to_string() };
    let request = request_for(at, b"sr", PathStyle::Unix, gathered).expect("a request");
    assert!(request.found.is_empty() && request.executables.is_none());
    assert_eq!(request.files.clone().expect("a directory is asked for").dir, "/w/src");
    let gathered = Gathered::Paths { resolved: "".to_string() };
    let request = request_for(at, b"sr", PathStyle::Unix, gathered).expect("a request");
    assert!(request.files.is_none());

    let request = request_for(at, b"12", PathStyle::Unix, Gathered::Nothing).expect("a request");
    assert_eq!(request.span, at);
    assert!(request.found.is_empty() && request.files.is_none() && request.executables.is_none());
}

fn text_value(text: &str) -> Value {
    Value::String { val: text.to_string(), span: nu_protocol::Span::new(0, 0) }
}

#[derive(Clone)]
struct Yields {
    name: String,
    values: Vec<Value>,
    fails: bool,
}

impl Command for Yields {
    fn name(&self) -> &str {
        &self.name
    }

    fn usage(&self) -> &str {
        "Yields what it was made with."
    }

    fn signature(&self) -> Signature {
        Signature::build(self.name.clone())
    }

    fn run(
        &self,
        _engine_state: &EngineState,
        _stack: &mut Stack,
        call: &Call,
        _input: PipelineData,
    ) -> Result<PipelineData, ShellError> {
        if self.fails {
            return Err(ShellError::NonUtf8(call.head));
        }
        Ok(PipelineData::Value(Value::List { vals: self.values.clone(), span: call.head }, None))
    }
}

#[derive(Clone)]
struct Pick {
    provider: usize,
}

impl Command for Pick {
    fn name(&self) -> &str {
        "pick"
    }

    fn usage(&self) -> &str {
        "Takes one of what its provider yields."
    }

    fn signature(&self) -> Signature {
        let shape = SyntaxShape::Custom(Box::new(SyntaxShape::String), self.provider);
        Signature::build("pick").required("choice", shape, "what to take")
    }

    fn run(
        &self,
        _engine_state: &EngineState,
        _stack: &mut Stack,
        call: &Call,
        _input: PipelineData,
    ) -> Result<PipelineData, ShellError> {
        Ok(PipelineData::new(call.head))
    }
}

/// A shell that knows `pick`, whose argument the command `provider`
/// completes, and holds the variable `$x`.
fn shell_with(provider: Yields) -> (EngineState, usize) {
    let mut engine_state = EngineState::new();
    let (delta, id) = {
        let mut working_set = StateWorkingSet::new(&engine_state);
        let id = working_set.add_decl(Box::new(provider));
        working_set.add_decl(Box::new(Pick { provider: id }));
        working_set.add_variable(b"$x".to_vec(), nu_protocol::Span::new(0, 0), Type::Int);
        (working_set.render(), id)
    };
    engine_state.merge_delta(delta, None, ".").expect("the commands are taken in");
    (engine_state, id)
}

fn greek() -> Yields {
    Yields {
        name: "greek".to_string(),
        values: vec![text_value("alpha"), text_value("beta"), text_value("gamma")],
        fails: false,
    }
}

#[test]
fn a_bound_variable_is_completed() {
    let (engine_state, _) = shell_with(greek());
    let completer = NuCompleter::new(engine_state);
    let request = completer.completion_helper("$x", 2).expect("no provider is asked");
    assert_eq!(request.span, span(0, 2));
    assert!(request.files.is_none());
    assert!(request.executables.is_none());
    let found = request.complete(&BaseDir::Empty, &vec![]);
    assert_eq!(found, vec![(span(0, 2), "$x".to_string())]);
    let request = completer.completion_helper("pick $", 6).expect("no provider is asked");
    let found = request.complete(&BaseDir::Empty, &vec![]);
    assert_eq!(texts(&found), vec!["$config", "$env", "$in", "$nu", "$scope", "$x"]);
    for (s, _) in found {
        assert_eq!(s, span(5, 6));
    }
}

#[test]
fn a_provider_completes_its_argument() {
    let (engine_state, _) = shell_with(greek());
    let completer = NuCompleter::new(engine_state);
    let request = completer.completion_helper("pick a", 6).expect("texts only");
    assert_eq!(request.span, span(5, 6));
    let found = request.complete(&BaseDir::Empty, &vec![]);
    assert_eq!(found, vec![(span(5, 6), "alpha".to_string())]);
    let request = completer.completion_helper("pick g", 6).expect("texts only");
    assert_eq!(texts(&request.complete(&BaseDir::Empty, &vec![])), vec!["gamma"]);
    let request = completer.completion_helper("pick x", 6).expect("texts only");
    assert!(request.complete(&BaseDir::Empty, &vec![]).is_empty());
}

#[test]
fn a_provider_of_numbers_is_read_as_text() {
    let numbers = Yields {
        name: "numbers".to_string(),
        values: vec![
            Value::Int { val: 12, span: nu_protocol::Span::new(0, 0) },
            Value::Int { val: 21, span: nu_protocol::Span::new(0, 0) },
        ],
        fails: false,
    };
    let (engine_state, _) = shell_with(numbers);
    let completer = NuCompleter::new(engine_state);
    let request = completer.completion_helper("pick 1", 6).expect("numbers read as text");
    assert_eq!(texts(&request.complete(&BaseDir::Empty, &vec![])), vec!["12"]);
}

#[test]
fn a_provider_that_yields_no_text_is_reported() {
    let odd = Yields {
        name: "odd".to_string(),
        values: vec![
            text_value("alpha"),
            Value::Record { cols: vec![], vals: vec![], span: nu_protocol::Span::new(0, 0) },
        ],
        fails: false,
    };
    let (engine_state, id) = shell_with(odd);
    let completer = NuCompleter::new(engine_state);
    assert_eq!(
        completer.completion_helper("pick a", 6).err(),
        Some(ProviderDefect { provider: id, output: 1 })
    );
}

#[test]
fn a_provider_that_fails_gives_no_candidate() {
    let failing = Yields { name: "failing".to_string(), values: vec![], fails: true };
    let (engine_state, _) = shell_with(failing);
    let completer = NuCompleter::new(engine_state);
    let request = completer.completion_helper("pick a", 6).expect("a failed run is no defect");
    assert_eq!(request.span, span(5, 6));
    assert!(request.complete(&BaseDir::Empty, &vec![]).is_empty());
}

#[test]
fn known_commands_and_the_search_path() {
    let (mut engine_state, _) = shell_with(greek());
    let dirs = vec![text_value("/bin"), Value::Int { val: 1, span: nu_protocol::Span::new(0, 0) }];
    engine_state.env_vars.insert(
        "PATH".to_string(),
        Value::List { vals: dirs, span: nu_protocol::Span::new(0, 0) },
    );
    engine_state.env_vars.insert("PWD".to_string(), text_value("/work"));
    let completer = NuCompleter::new(engine_state);
    let request = completer.completion_helper("pi", 2).expect("no provider is asked");
    assert_eq!(request.span, span(0, 2));
    assert_eq!(request.found, vec![(span(0, 2), "pick".to_string())]);
    let wanted = request.executables.clone().expect("the search path is asked for");
    assert_eq!(wanted.prefix, "pi");
    assert_eq!(wanted.dirs, vec!["/bin".to_string(), "1".to_string()]);
    let files = request.files.clone().expect("a directory is asked for");
    assert_eq!(files.partial, "pi");
    assert_eq!(files.dir, "/work");
    let listing = BaseDir::Listed(vec![file("pictures.txt"), dir("Pi"), file("notes")]);
    let path = vec![vec![entry("ping", true), entry("pip", false)], vec![entry("pick", true)]];
    let found = request.complete(&listing, &path);
    assert_eq!(texts(&found), vec!["./Pi/", "./pictures.txt", "pick", "pick", "ping"]);
    for (s, _) in found {
        assert_eq!(s, span(0, 2));
    }
}

#[test]
fn a_malformed_environment_counts_as_empty() {
    let (mut engine_state, _) = shell_with(greek());
    engine_state.env_vars.insert("PATH".to_string(), text_value("/bin"));
    engine_state.env_vars.insert(
        "PWD".to_string(),
        Value::List { vals: vec![text_value("/work")], span: nu_protocol::Span::new(0, 0) },
    );
    let completer = NuCompleter::new(engine_state);
    let request = completer.completion_helper("pi", 2).expect("no provider is asked");
    assert_eq!(request.found, vec![(span(0, 2), "pick".to_string())]);
    assert!(request.files.is_none());
    let wanted = request.executables.clone().expect("the search path is asked for");
    assert_eq!(wanted.prefix, "pi");
    assert!(wanted.dirs.is_empty());
    assert_eq!(texts(&request.complete(&BaseDir::Empty, &vec![])), vec!["pick"]);
}

#[test]
fn a_cursor_beyond_the_line_is_answered_with_nothing() {
    let (mut engine_state, _) = shell_with(greek());
    engine_state.env_vars.insert("PWD".to_string(), text_value("/work"));
    let completer = NuCompleter::new(engine_state);
    for line in ["", "pick a", "$x", "open foo"] {
        let request = completer.completion_helper(line, line.len() + 1).expect("no provider is asked");
        assert_eq!(request.span, span(0, 0));
        assert!(request.found.is_empty());
        assert!(request.files.is_none());
        assert!(request.executables.is_none());
    }
}

#[test]
fn files_for_an_argument() {
    let (mut engine_state, _) = shell_with(greek());
    engine_state.env_vars.insert("PWD".to_string(), text_value("/work"));
    let completer = NuCompleter::new(engine_state);
    let request = completer.completion_helper("open foo", 8).expect("no provider is asked");
    assert_eq!(request.span, span(5, 8));
    assert!(request.found.is_empty());
    assert!(request.executables.is_none());
    let files = request.files.clone().expect("a directory is asked for");
    assert_eq!(files.dir, "/work");
    let listing = BaseDir::Listed(vec![file("foobar.txt"), file("bar.txt"), file("foo.txt")]);
    let found = request.complete(&listing, &vec![]);
    assert_eq!(
        found,
        vec![(span(5, 8), "./foo.txt".to_string()), (span(5, 8), "./foobar.txt".to_string())]
    );
    let request = completer.completion_helper("open src/ma", 11).expect("no provider is asked");
    assert_eq!(request.files.clone().expect("a directory is asked for").dir, "/work/src/");
    let listing = BaseDir::Listed(vec![file("main.rs"), file("lib.rs")]);
    assert_eq!(texts(&request.complete(&listing, &vec![])), vec!["src/main.rs"]);
}

#[test]
fn no_working_directory_no_listing() {
    let (engine_state, _) = shell_with(greek());
    let completer = NuCompleter::new(engine_state);
    let request = completer.completion_helper("open foo", 8).expect("no provider is asked");
    assert_eq!(request.span, span(5, 8));
    assert!(request.files.is_none());
    let listing = BaseDir::Listed(vec![file("foo.txt")]);
    assert!(request.complete(&listing, &vec![]).is_empty());
}

#[test]
fn a_cursor_on_no_token() {
    let (engine_state, _) = shell_with(greek());
    let completer = NuCompleter::new(engine_state);
    for (line, cursor) in [("", 0), ("pick   a", 6), ("pick a", 60), ("12", 2)] {
        let request = completer.completion_helper(line, cursor).expect("no provider is asked");
        assert!(request.found.is_empty());
        assert!(request.files.is_none());
        assert!(request.executables.is_none());
        assert!(request.complete(&BaseDir::Empty, &vec![]).is_empty());
    }
}

#[test]
fn spans_count_from_the_line_whatever_was_parsed_before() {
    let (mut engine_state, _) = shell_with(greek());
    let delta = {
        let mut working_set = StateWorkingSet::new(&engine_state);
        nu_parser::parse(&mut working_set, None, b"pick beta; pick gamma", false, &[]);
        working_set.render()
    };
    engine_state.merge_delta(delta, None, ".").expect("the line is taken in");
    let completer = NuCompleter::new(engine_state);
    let request = completer.completion_helper("pick a", 6).expect("texts only");
    assert_eq!(request.span, span(5, 6));
    assert_eq!(request.complete(&BaseDir::Empty, &vec![]), vec![(span(5, 6), "alpha".to_string())]);
    let request = completer.completion_helper("$x", 0).expect("no provider is asked");
    assert_eq!(request.span, span(0, 2));
}
