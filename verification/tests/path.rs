use dotcli::command::command::Command;
use dotcli::command::command::Effect;
use dotcli::command::command::Environment;
use dotcli::command::command::Resolution;
use dotcli::command::path::add_path;
use dotcli::command::path::parse_paths;
use dotcli::command::path::PathCommand;
use dotcli::command::path::PathReference;
use dotcli::error::ErrorKind;

fn words(items: &[&str]) -> Vec<String> {
    items.iter().map(|item| item.to_string()).collect()
}

fn entry(id: &str, path: &str) -> PathReference {
    PathReference { path: path.to_string(), id: id.to_string() }
}

fn world(shell_config: Result<&str, &str>, resolved: Resolution) -> Environment {
    Environment {
        home: "/home/ada".to_string(),
        existing: vec![false, false, true, false],
        shell_config: match shell_config {
            Ok(text) => Ok(text.to_string()),
            Err(reason) => Err(reason.to_string()),
        },
        resolved,
    }
}

#[test]
fn one_export_line_is_one_entry() {
    let paths = parse_paths("export PATH=\"$PATH:/opt/bin\"\n");
    assert_eq!(paths, vec![entry("1", "\"$PATH:/opt/bin\"")]);
}

#[test]
fn entries_are_numbered_in_file_order() {
    let text = "alias a=1\nexport PATH=\"$PATH:/a\"\nexport EDITOR=vi\nexport PATH=\"$PATH:/b\"";
    let paths = parse_paths(text);
    assert_eq!(paths, vec![entry("1", "\"$PATH:/a\""), entry("2", "\"$PATH:/b\"")]);
}

#[test]
fn the_entry_is_all_that_follows_the_first_equals_sign() {
    let paths = parse_paths("X=1 export PATH=/a=b\n");
    assert_eq!(paths, vec![entry("1", "1 export PATH=/a=b")]);
    let paths = parse_paths("export PATH=\n");
    assert_eq!(paths, vec![entry("1", "")]);
}

#[test]
fn a_text_without_export_lines_records_none() {
    assert_eq!(parse_paths(""), vec![]);
    assert_eq!(parse_paths("export PATH\nPATH=/x\nexport  PATH=/x\n"), vec![]);
}

#[test]
fn an_entry_is_shown_with_id_and_path() {
    assert_eq!(entry("3", "\"$PATH:/opt/bin\"").to_string(), "[3] \"$PATH:/opt/bin\"");
}

#[test]
fn add_path_takes_an_absolute_path_as_it_is() {
    for resolved in [
        Resolution::Missing,
        Resolution::Found("/elsewhere".to_string()),
        Resolution::Failed("no".to_string()),
    ] {
        let text = add_path("# rc\n", "/does/not/exist", &resolved).unwrap();
        assert_eq!(text, "# rc\n\n# Added by dotcli\nexport PATH=\"$PATH:/does/not/exist\"\n");
    }
}

#[test]
fn add_path_takes_a_relative_path_in_its_resolved_form() {
    let resolved = Resolution::Found("/home/ada/tools/bin".to_string());
    let text = add_path("", "tools/bin", &resolved).unwrap();
    assert_eq!(text, "\n# Added by dotcli\nexport PATH=\"$PATH:/home/ada/tools/bin\"\n");
}

#[test]
fn add_path_refuses_a_relative_path_that_leads_nowhere() {
    let e = add_path("", "tools/bin", &Resolution::Missing).unwrap_err();
    assert_eq!(e.kind, ErrorKind::NotFound);
    assert_eq!(e.message, "Path tools/bin does not exist");
    let e = add_path("", "", &Resolution::Missing).unwrap_err();
    assert_eq!(e.message, "Path  does not exist");
}

#[test]
fn add_path_passes_on_why_a_path_could_not_be_resolved() {
    let e = add_path("", "bin", &Resolution::Failed("Permission denied".to_string())).unwrap_err();
    assert_eq!(e.kind, ErrorKind::Io);
    assert_eq!(e.message, "Permission denied");
}

#[test]
fn an_added_path_is_parsed_back_last() {
    let old = "export PATH=\"$PATH:/a\"\n";
    let new = add_path(old, "/b", &Resolution::Missing).unwrap();
    assert_eq!(parse_paths(&new), vec![entry("1", "\"$PATH:/a\""), entry("2", "\"$PATH:/b\"")]);
}

#[test]
fn the_same_path_can_be_added_twice() {
    let once = add_path("", "/b", &Resolution::Missing).unwrap();
    let twice = add_path(&once, "/b", &Resolution::Missing).unwrap();
    assert_eq!(parse_paths(&twice).len(), 2);
}

#[test]
fn path_list_shows_what_init_found() {
    let env = world(Ok("export PATH=\"$PATH:/a\"\nexport PATH=\"$PATH:/b\"\n"), Resolution::Missing);
    let mut command = PathCommand::new();
    command.init(words(&["dotcli", "path", "list"]), &env).unwrap();
    let plan = command.execute(&env).unwrap();
    assert_eq!(plan, vec![Effect::Print("[1] \"$PATH:/a\"\n[2] \"$PATH:/b\"".to_string())]);
    assert_eq!(command.execute_list().unwrap(), plan);
}

#[test]
fn path_add_writes_and_sources() {
    let env = world(Ok("# rc"), Resolution::Missing);
    let mut command = PathCommand::new();
    command.init(words(&["dotcli", "path", "add", "/opt/bin"]), &env).unwrap();
    let plan = command.execute(&env).unwrap();
    assert_eq!(
        plan,
        vec![
            Effect::Write {
                path: "/home/ada/.bashrc".to_string(),
                contents: "# rc\n# Added by dotcli\nexport PATH=\"$PATH:/opt/bin\"\n".to_string(),
            },
            Effect::Print("Added path to /home/ada/.bashrc".to_string()),
            Effect::Print("Executing `source /home/ada/.bashrc`".to_string()),
            Effect::Source("/home/ada/.bashrc".to_string()),
            Effect::Print("Done".to_string()),
        ]
    );
    assert_eq!(command.execute_add(&env).unwrap(), plan);
}

#[test]
fn path_add_of_a_missing_relative_path_plans_nothing() {
    let env = world(Ok("# rc"), Resolution::Missing);
    let mut command = PathCommand::new();
    command.init(words(&["dotcli", "path", "add", "no/such/dir"]), &env).unwrap();
    let e = command.execute(&env).unwrap_err();
    assert_eq!(e.kind, ErrorKind::NotFound);
    assert_eq!(e.message, "Path no/such/dir does not exist");
}

#[test]
fn path_add_needs_a_path() {
    let env = world(Ok(""), Resolution::Missing);
    let mut command = PathCommand::new();
    command.init(words(&["dotcli", "path", "add"]), &env).unwrap();
    let e = command.execute(&env).unwrap_err();
    assert_eq!(e.kind, ErrorKind::InvalidCommand);
    assert_eq!(e.message, "Invalid command, please provide a path to add");
}

#[test]
fn path_command_needs_a_known_action() {
    let env = world(Ok(""), Resolution::Missing);
    for args in [words(&["dotcli", "path"]), words(&["dotcli", "path", "ADD", "/x"])] {
        let mut command = PathCommand::new();
        command.init(args, &env).unwrap();
        let e = command.execute(&env).unwrap_err();
        assert_eq!(e.kind, ErrorKind::InvalidCommand);
        assert_eq!(
            e.message,
            "Invalid command, please use one of the following: [\"add\", \"list\"]"
        );
    }
}

#[test]
fn path_init_fails_where_the_file_cannot_be_read() {
    let env = world(Err("No such file or directory (os error 2)"), Resolution::Missing);
    let mut command = PathCommand::new();
    let e = command.init(words(&["dotcli", "path", "list"]), &env).unwrap_err();
    assert_eq!(e.kind, ErrorKind::Io);
    assert_eq!(e.message, "/home/ada/.bashrc No such file or directory (os error 2)");
    let e = command.find_existing_paths(&env).unwrap_err();
    assert_eq!(e.kind, ErrorKind::Io);
}

#[test]
fn path_add_reports_the_bare_reason_where_the_file_cannot_be_read() {
    let mut command = PathCommand::new();
    command.init(words(&["dotcli", "path", "add", "/x"]), &world(Ok(""), Resolution::Missing)).unwrap();
    let e = command.execute(&world(Err("Interrupted"), Resolution::Missing)).unwrap_err();
    assert_eq!(e.kind, ErrorKind::Io);
    assert_eq!(e.message, "Interrupted");
}

#[test]
fn existing_paths_are_read_from_the_environment() {
    let command = PathCommand::new();
    let env = world(Ok("export PATH=/x\n"), Resolution::Missing);
    assert_eq!(command.find_existing_paths(&env).unwrap(), vec![entry("1", "/x")]);
}
