use dotcli::command::command::command_factory;
use dotcli::command::command::dispatch;
use dotcli::command::command::execute;
use dotcli::command::command::invalid_command_error;
use dotcli::command::command::path_to_resolve;
use dotcli::command::command::quote_list;
use dotcli::command::command::read_failure_error;
use dotcli::command::command::run_command;
use dotcli::command::command::AnyCommand;
use dotcli::command::command::Effect;
use dotcli::command::command::Environment;
use dotcli::command::command::Resolution;
use dotcli::command::path::PathCommand;
use dotcli::error::CommandError;
use dotcli::error::ErrorKind;
use dotcli::text::from_chars;

fn words(items: &[&str]) -> Vec<String> {
    items.iter().map(|item| item.to_string()).collect()
}

fn world(text: &str) -> Environment {
    Environment {
        home: "/home/ada".to_string(),
        existing: vec![true, false, false, false],
        shell_config: Ok(text.to_string()),
        resolved: Resolution::Missing,
    }
}

#[test]
fn empty_args_are_an_invalid_command() {
    let e = dispatch(vec![], &world("")).unwrap_err();
    assert_eq!(e.kind, ErrorKind::InvalidCommand);
    assert_eq!(e.message, "Please provide a command");
    let e = dispatch(words(&["dotcli"]), &world("")).unwrap_err();
    assert_eq!(e.kind, ErrorKind::InvalidCommand);
}

#[test]
fn an_unknown_action_is_an_invalid_command_that_lists_the_actions() {
    let e = dispatch(words(&["dotcli", "alias", "bogus"]), &world("")).unwrap_err();
    assert_eq!(e.kind, ErrorKind::InvalidCommand);
    assert_eq!(
        e.message,
        "Error executing command: Invalid command, please use one of the following: [\"add\", \"list\"]"
    );
    let e = dispatch(words(&["dotcli", "path"]), &world("")).unwrap_err();
    assert_eq!(e.kind, ErrorKind::InvalidCommand);
    assert!(e.message.ends_with("[\"add\", \"list\"]"));
}

#[test]
fn an_unknown_category_is_an_invalid_command_that_lists_the_categories() {
    let e = dispatch(words(&["dotcli", "bogus", "list"]), &world("")).unwrap_err();
    assert_eq!(e.kind, ErrorKind::InvalidCommand);
    assert_eq!(
        e.message,
        "Invalid command, please use one of the following: [\"alias\", \"path\"]"
    );
    let e = execute("Alias", words(&["dotcli", "Alias", "list"]), &world("")).unwrap_err();
    assert_eq!(e.kind, ErrorKind::InvalidCommand);
}

#[test]
fn the_category_is_looked_at_before_the_world() {
    let mut env = world("");
    env.existing = vec![];
    env.shell_config = Err("unreadable".to_string());
    let e = dispatch(words(&["dotcli", "bogus"]), &env).unwrap_err();
    assert_eq!(e.kind, ErrorKind::InvalidCommand);
}

#[test]
fn list_prints_the_alias_of_the_config_file() {
    let plan = dispatch(words(&["dotcli", "alias", "list"]), &world("alias ll=\"ls -la\"")).unwrap();
    assert_eq!(plan, vec![Effect::Print("[1] ll = \"ls -la\"".to_string())]);
}

#[test]
fn list_prints_the_paths_of_the_config_file() {
    let text = "alias ll=ls\nexport PATH=\"$PATH:/opt/bin\"\n";
    let plan = execute("path", words(&["dotcli", "path", "list"]), &world(text)).unwrap();
    assert_eq!(plan, vec![Effect::Print("[1] \"$PATH:/opt/bin\"".to_string())]);
}

#[test]
fn errors_of_init_say_so() {
    let mut env = world("");
    env.existing = vec![false, false, false, false];
    let e = dispatch(words(&["dotcli", "alias", "list"]), &env).unwrap_err();
    assert_eq!(e.kind, ErrorKind::NotFound);
    assert_eq!(e.message, "Error initializing command: No shell config found");

    let mut env = world("");
    env.shell_config = Err("Permission denied".to_string());
    let e = dispatch(words(&["dotcli", "path", "list"]), &env).unwrap_err();
    assert_eq!(e.kind, ErrorKind::Io);
    assert_eq!(e.message, "Error initializing command: /home/ada/.zprofile Permission denied");

    let e = dispatch(words(&["dotcli", "alias", "list"]), &world("alias x\n")).unwrap_err();
    assert_eq!(e.kind, ErrorKind::Malformed);
    assert_eq!(e.message, "Error initializing command: Malformed alias entry: alias x");
}

#[test]
fn errors_of_execute_say_so() {
    let e = dispatch(words(&["dotcli", "alias", "add", "ll", "ls"]), &world("alias ll=x\n"))
        .unwrap_err();
    assert_eq!(e.kind, ErrorKind::DuplicateEntry);
    assert_eq!(e.message, "Error executing command: Alias already exists");

    let e = dispatch(words(&["dotcli", "path", "add", "nowhere"]), &world("")).unwrap_err();
    assert_eq!(e.kind, ErrorKind::NotFound);
    assert_eq!(e.message, "Error executing command: Path nowhere does not exist");

    let e = dispatch(words(&["dotcli", "path", "add"]), &world("")).unwrap_err();
    assert_eq!(e.kind, ErrorKind::InvalidCommand);
    assert_eq!(e.message, "Error executing command: Invalid command, please provide a path to add");
}

#[test]
fn an_absolute_path_is_written_though_nothing_is_there() {
    let plan = dispatch(words(&["dotcli", "path", "add", "/no/such/place"]), &world("x\n")).unwrap();
    assert_eq!(
        plan[0],
        Effect::Write {
            path: "/home/ada/.zprofile".to_string(),
            contents: "x\n\n# Added by dotcli\nexport PATH=\"$PATH:/no/such/place\"\n".to_string(),
        }
    );
    assert_eq!(plan.len(), 5);
}

#[test]
fn a_resolved_relative_path_is_written_in_its_absolute_form() {
    let mut env = world("");
    env.resolved = Resolution::Found("/work/bin".to_string());
    let plan = dispatch(words(&["dotcli", "path", "add", "bin"]), &env).unwrap();
    assert_eq!(
        plan[0],
        Effect::Write {
            path: "/home/ada/.zprofile".to_string(),
            contents: "\n# Added by dotcli\nexport PATH=\"$PATH:/work/bin\"\n".to_string(),
        }
    );
}

#[test]
fn an_alias_is_added_from_the_command_line() {
    let plan = dispatch(words(&["dotcli", "alias", "add", "gs", "git status"]), &world("")).unwrap();
    assert_eq!(
        plan,
        vec![
            Effect::Write {
                path: "/home/ada/.zprofile".to_string(),
                contents: "\n# Added by dotcli\nalias gs=\"git status\"\n".to_string(),
            },
            Effect::Print("Added alias to /home/ada/.zprofile".to_string()),
            Effect::Print(
                "Note: Please run `source /home/ada/.zprofile` to apply the changes".to_string()
            ),
        ]
    );
}

#[test]
fn the_factory_makes_the_command_of_the_category() {
    assert!(matches!(command_factory("alias"), Ok(AnyCommand::Alias(_))));
    assert!(matches!(command_factory("path"), Ok(AnyCommand::Path(_))));
    let e = command_factory("").unwrap_err();
    assert_eq!(e.kind, ErrorKind::InvalidCommand);
    let e = command_factory("paths").unwrap_err();
    assert_eq!(e.kind, ErrorKind::InvalidCommand);
}

#[test]
fn run_command_runs_init_and_execute() {
    let mut command = PathCommand::new();
    let env = world("export PATH=/x\n");
    let plan = run_command(&mut command, words(&["dotcli", "path", "list"]), &env).unwrap();
    assert_eq!(plan, vec![Effect::Print("[1] /x".to_string())]);
    let mut any = command_factory("alias").unwrap();
    let e = run_command(&mut any, words(&["dotcli", "alias"]), &env).unwrap_err();
    assert!(e.message.starts_with("Error executing command: Invalid command"));
}

#[test]
fn only_a_relative_path_to_add_has_to_be_resolved() {
    assert_eq!(path_to_resolve(&words(&["dotcli", "path", "add", "bin"])), Some("bin".to_string()));
    assert_eq!(path_to_resolve(&words(&["dotcli", "path", "add", ""])), Some(String::new()));
    assert_eq!(path_to_resolve(&words(&["dotcli", "path", "add", "./b", "x"])), Some("./b".to_string()));
    assert_eq!(path_to_resolve(&words(&["dotcli", "path", "add", "/bin"])), None);
    assert_eq!(path_to_resolve(&words(&["dotcli", "path", "list", "bin"])), None);
    assert_eq!(path_to_resolve(&words(&["dotcli", "alias", "add", "bin"])), None);
    assert_eq!(path_to_resolve(&words(&["dotcli", "path", "add"])), None);
    assert_eq!(path_to_resolve(&words(&[])), None);
}

#[test]
fn a_list_is_quoted_between_brackets() {
    assert_eq!(from_chars(&quote_list(&words(&["add", "list"]))), "[\"add\", \"list\"]");
    assert_eq!(from_chars(&quote_list(&words(&["one"]))), "[\"one\"]");
    assert_eq!(from_chars(&quote_list(&words(&[]))), "[]");
    assert_eq!(
        from_chars(&quote_list(&words(&["add", "list"]))),
        format!("{:?}", vec!["add", "list"])
    );
}

#[test]
fn the_errors_have_their_messages() {
    let e = invalid_command_error(&words(&["a", "b"]));
    assert_eq!(e.kind, ErrorKind::InvalidCommand);
    assert_eq!(e.message, "Invalid command, please use one of the following: [\"a\", \"b\"]");
    let e = read_failure_error("/rc", "gone");
    assert_eq!(e.kind, ErrorKind::Io);
    assert_eq!(e.message, "/rc gone");
}

#[test]
fn an_error_keeps_its_kind_in_context() {
    let e = CommandError::new(ErrorKind::DuplicateEntry, "Alias already exists");
    assert_eq!(e.kind(), ErrorKind::DuplicateEntry);
    assert_eq!(e.to_string(), "Alias already exists");
    let e = e.context("Error executing command: ");
    assert_eq!(e.kind(), ErrorKind::DuplicateEntry);
    assert_eq!(e.to_string(), "Error executing command: Alias already exists");
    for kind in [
        ErrorKind::InvalidCommand,
        ErrorKind::NotFound,
        ErrorKind::DuplicateEntry,
        ErrorKind::Io,
        ErrorKind::Malformed,
    ] {
        assert_eq!(CommandError::new(kind, "m").context("").kind(), kind);
    }
}
