//! Entries of the search path: reading them out of the shell configuration,
//! and adding one.
use crate::command::command::Category;
use crate::command::command::Command;
use crate::command::command::CommandState;
use crate::command::command::Effect;
use crate::command::command::effects;
use crate::command::command::EffectView;
use crate::command::command::Environment;
use crate::command::command::fresh;
use crate::command::command::invalid_command_error;
use crate::command::command::outcome;
use crate::command::command::read_failure;
use crate::command::command::read_failure_error;
use crate::command::command::Resolution;
use crate::command::command::ResolutionView;
use crate::command::shell::find_shell_config_path;
use crate::command::shell::is_absolute;
use crate::command::shell::is_absolute_path;
use crate::error::CommandError;
use crate::error::ErrorKind;
use crate::error::ErrorView;
use crate::text::after;
use crate::text::contains;
use crate::text::decimal;
use crate::text::find_char;
use crate::text::from_chars;
use crate::text::has;
use crate::text::join;
use crate::text::join_rows;
use crate::text::lines;
use crate::text::push_decimal;
use crate::text::push_str;
use crate::text::rows;
use crate::text::same;
use crate::text::slice;
use crate::text::split_lines;
use crate::text::texts;
use crate::text::to_chars;
use vstd::prelude::*;

verus! {

/// One entry of the search path that the shell configuration records.
#[derive(Debug, PartialEq, Eq)]
pub struct PathReference {
    /// What the line assigns: the whole expression behind its first `=`.
    pub path: String,
    /// Its place among the recorded entries, counted from one, in base ten.
    pub id: String,
}

/// A `PathReference` as a plain value.
pub ghost struct PathView {
    pub path: Seq<char>,
    pub id: Seq<char>,
}

impl View for PathReference {
    type V = PathView;

    open spec fn view(&self) -> PathView {
        PathView { path: self.path@, id: self.id@ }
    }
}

/// The views of the entries of `v`.
pub open spec fn path_views(v: Seq<PathReference>) -> Seq<PathView> {
    Seq::new(v.len(), |i: int| v[i]@)
}

/// A line extends the search path where `export PATH=` stands anywhere in it.
pub open spec fn exports_path() -> spec_fn(Seq<char>) -> bool {
    |line: Seq<char>| contains(line, "export PATH="@)
}

/// The entry that `line` records as the `position`-th of its file.
pub open spec fn path_of(line: Seq<char>, position: nat) -> PathView {
    PathView { path: after(line, '='), id: decimal(position) }
}

/// The entries that the lines of `found` record, numbered from one.
pub open spec fn numbered_paths(found: Seq<Seq<char>>) -> Seq<PathView> {
    Seq::new(found.len(), |i: int| path_of(found[i], (i + 1) as nat))
}

/// The entries that `text` records: one for each line that extends the
/// search path, in the order of the lines.
pub open spec fn parsed_paths(text: Seq<char>) -> Seq<PathView> {
    numbered_paths(lines(text).filter(exports_path()))
}

/// The line that `list` shows for an entry.
pub open spec fn rendered_path(entry: PathView) -> Seq<char> {
    "["@ + entry.id + "] "@ + entry.path
}

/// The lines that `list` shows for the entries of `v`.
pub open spec fn rendered_paths(v: Seq<PathView>) -> Seq<Seq<char>> {
    Seq::new(v.len(), |i: int| rendered_path(v[i]))
}

/// The entries that the shell configuration at `path` records, where
/// `shell_config` is its text or the reason why it could not be read.
pub open spec fn existing_paths(
    path: Seq<char>,
    shell_config: Result<Seq<char>, Seq<char>>,
) -> Result<Seq<PathView>, ErrorView> {
    match shell_config {
        Err(reason) => Err(read_failure(path, reason)),
        Ok(text) => Ok(parsed_paths(text)),
    }
}

/// What is put at the end of the shell configuration for a new entry: an
/// empty line, a comment that names this tool, and the export.
pub open spec fn path_block(path: Seq<char>) -> Seq<char> {
    "\n# Added by dotcli\nexport PATH=\"$PATH:"@ + path + "\"\n"@
}

/// The error for a relative path that leads to nothing.
pub open spec fn missing_path(raw: Seq<char>) -> ErrorView {
    ErrorView { kind: ErrorKind::NotFound, message: "Path "@ + raw + " does not exist"@ }
}

/// The path that is recorded for the argument `raw`. An absolute path is
/// taken as it is, whatever is at its end. A relative path is taken in its
/// resolved form, and refused where it leads to nothing.
pub open spec fn path_to_record(raw: Seq<char>, resolved: ResolutionView) -> Result<
    Seq<char>,
    ErrorView,
> {
    if is_absolute(raw) {
        Ok(raw)
    } else {
        match resolved {
            ResolutionView::Found(path) => Ok(path),
            ResolutionView::Missing => Err(missing_path(raw)),
            ResolutionView::Failed(reason) => Err(
                ErrorView { kind: ErrorKind::Io, message: reason },
            ),
        }
    }
}

/// The text of the shell configuration once the entry is added.
pub open spec fn added_path(text: Seq<char>, raw: Seq<char>, resolved: ResolutionView) -> Result<
    Seq<char>,
    ErrorView,
> {
    match path_to_record(raw, resolved) {
        Err(e) => Err(e),
        Ok(path) => Ok(text + path_block(path)),
    }
}

/// The error for `add` without a path.
pub open spec fn no_path() -> ErrorView {
    ErrorView {
        kind: ErrorKind::InvalidCommand,
        message: "Invalid command, please provide a path to add"@,
    }
}

/// What `path add` does: it writes the whole file anew, with the entry at its
/// end, and then has a shell source the file. The fourth argument is the path.
pub open spec fn path_added(
    args: Seq<Seq<char>>,
    path: Seq<char>,
    shell_config: Result<Seq<char>, Seq<char>>,
    resolved: ResolutionView,
) -> Result<Seq<EffectView>, ErrorView> {
    if args.len() < 4 {
        Err(no_path())
    } else {
        match shell_config {
            Err(reason) => Err(ErrorView { kind: ErrorKind::Io, message: reason }),
            Ok(text) => match added_path(text, args[3], resolved) {
                Err(e) => Err(e),
                Ok(contents) => Ok(
                    seq![
                        EffectView::Write { path, contents },
                        EffectView::Print("Added path to "@ + path),
                        EffectView::Print("Executing `source "@ + path + "`"@),
                        EffectView::Source(path),
                        EffectView::Print("Done"@),
                    ],
                ),
            },
        }
    }
}

impl PathReference {
    /// The line that `list` shows for this entry.
    pub fn to_string(&self) -> (line: String)
        ensures
            line@ == rendered_path(self@),
    {
        let mut out = to_chars("[");
        push_str(&mut out, self.id.as_str());
        push_str(&mut out, "] ");
        push_str(&mut out, self.path.as_str());
        from_chars(&out)
    }
}

/// The entries of the search path that `text` records, in the order of its
/// lines and numbered from one.
pub fn parse_paths(text: &str) -> (paths: Vec<PathReference>)
    ensures
        path_views(paths@) == parsed_paths(text@),
{
    let chars = to_chars(text);
    let all = split_lines(&chars);
    let keyword = to_chars("export PATH=");
    let mut paths: Vec<PathReference> = Vec::new();
    let mut i: usize = 0;
    assert(rows(all@).take(0) == Seq::<Seq<char>>::empty());
    assert(path_views(paths@) == numbered_paths(Seq::<Seq<char>>::empty()));
    while i < all.len()
        invariant
            i <= all.len(),
            keyword@ == "export PATH="@,
            rows(all@) == lines(text@),
            paths.len() <= i,
            path_views(paths@) == numbered_paths(rows(all@).take(i as int).filter(exports_path())),
        decreases all.len() - i,
    {
        let line = &all[i];
        let ghost seen = rows(all@).take(i as int);
        let ghost found = seen.filter(exports_path());
        proof {
            assert(rows(all@).take(i + 1) == seen.push(line@));
            seen.lemma_filter_push(line@, exports_path());
        }
        if has(line, &keyword) {
            let equals = find_char(line, 0, '=');
            let start = if equals < line.len() {
                equals + 1
            } else {
                line.len()
            };
            let path = slice(line, start, line.len());
            let mut id: Vec<char> = Vec::new();
            push_decimal(&mut id, paths.len() + 1);
            proof {
                assert(line@.skip(0) == line@);
                assert(path@ == after(line@, '='));
                assert(id@ == decimal((paths.len() + 1) as nat));
            }
            let ghost before_push = path_views(paths@);
            paths.push(PathReference { path: from_chars(&path), id: from_chars(&id) });
            proof {
                let now = path_views(paths@);
                let want = numbered_paths(found.push(line@));
                assert(before_push.len() == found.len());
                assert forall|j: int| 0 <= j < now.len() implies now[j] == want[j] by {
                    if j < found.len() {
                        assert(now[j] == before_push[j]);
                        assert(found.push(line@)[j] == found[j]);
                    }
                }
                assert(now =~= want);
            }
        }
        i += 1;
    }
    assert(rows(all@).take(all.len() as int) == rows(all@));
    paths
}

/// Adds an entry of the search path to the text of a shell configuration and
/// returns the new text. An absolute path is recorded as it is. A relative
/// path is recorded in the form that `resolved` gives, and refused with
/// `NotFound` where `resolved` says that it leads to nothing.
pub fn add_path(text: &str, raw: &str, resolved: &Resolution) -> (r: Result<String, CommandError>)
    ensures
        match r {
            Ok(contents) => added_path(text@, raw@, resolved@) == Ok::<Seq<char>, ErrorView>(
                contents@,
            ),
            Err(e) => added_path(text@, raw@, resolved@) == Err::<Seq<char>, ErrorView>(e@),
        },
{
    let mut contents = to_chars(text);
    push_str(&mut contents, "\n# Added by dotcli\nexport PATH=\"$PATH:");
    if is_absolute_path(raw) {
        push_str(&mut contents, raw);
    } else {
        match resolved {
            Resolution::Found(path) => {
                push_str(&mut contents, path.as_str());
            },
            Resolution::Missing => {
                let mut message = to_chars("Path ");
                push_str(&mut message, raw);
                push_str(&mut message, " does not exist");
                return Err(
                    CommandError { kind: ErrorKind::NotFound, message: from_chars(&message) },
                );
            },
            Resolution::Failed(reason) => {
                return Err(CommandError::new(ErrorKind::Io, reason.as_str()));
            },
        }
    }
    push_str(&mut contents, "\"\n");
    assert(contents@ == text@ + path_block(path_to_record(raw@, resolved@)->Ok_0));
    Ok(from_chars(&contents))
}

/// The command that lists the recorded entries of the search path and adds
/// one.
#[derive(Debug)]
pub struct PathCommand {
    args: Vec<String>,
    available_commands: Vec<String>,
    shell_config_path: String,
    paths: Vec<PathReference>,
}

impl PathCommand {
    /// A command that has not seen its arguments yet.
    pub fn new() -> (command: Self)
        ensures
            command.state() == fresh(Category::Path),
    {
        let mut available_commands: Vec<String> = Vec::new();
        available_commands.push("add".to_owned());
        available_commands.push("list".to_owned());
        let command = Self {
            args: Vec::new(),
            available_commands,
            shell_config_path: String::new(),
            paths: Vec::new(),
        };
        assert(command.state().args =~= fresh(Category::Path).args);
        assert(command.state().available_commands =~= fresh(Category::Path).available_commands);
        assert(command.state().listing =~= fresh(Category::Path).listing);
        command
    }

    /// Adds the path that the arguments name to the search path.
    pub fn execute_add(&self, env: &Environment) -> (r: Result<Vec<Effect>, CommandError>)
        ensures
            outcome(r) == path_added(
                self.state().args,
                self.state().shell_config_path,
                env@.shell_config,
                env@.resolved,
            ),
    {
        if self.args.len() < 4 {
            return Err(
                CommandError::new(
                    ErrorKind::InvalidCommand,
                    "Invalid command, please provide a path to add",
                ),
            );
        }
        let raw = self.args[3].as_str();
        assert(texts(self.args@)[3] == raw@);
        let text = match &env.shell_config {
            Ok(text) => text,
            Err(reason) => {
                return Err(CommandError::new(ErrorKind::Io, reason.as_str()));
            },
        };
        let contents = match add_path(text.as_str(), raw, &env.resolved) {
            Ok(contents) => contents,
            Err(e) => {
                return Err(e);
            },
        };
        let path = self.shell_config_path.as_str();
        let mut added = to_chars("Added path to ");
        push_str(&mut added, path);
        let mut executing = to_chars("Executing `source ");
        push_str(&mut executing, path);
        push_str(&mut executing, "`");
        let mut plan: Vec<Effect> = Vec::new();
        plan.push(Effect::Write { path: self.shell_config_path.clone(), contents });
        plan.push(Effect::Print(from_chars(&added)));
        plan.push(Effect::Print(from_chars(&executing)));
        plan.push(Effect::Source(self.shell_config_path.clone()));
        plan.push(Effect::Print("Done".to_owned()));
        assert(effects(plan@) =~= path_added(
            self.state().args,
            self.state().shell_config_path,
            env@.shell_config,
            env@.resolved,
        )->Ok_0);
        Ok(plan)
    }

    /// Shows the entries that `init` found, one on each line.
    pub fn execute_list(&self) -> (r: Result<Vec<Effect>, CommandError>)
        ensures
            outcome(r) == Ok::<Seq<EffectView>, ErrorView>(
                seq![EffectView::Print(join(self.state().listing, "\n"@))],
            ),
    {
        let mut shown: Vec<Vec<char>> = Vec::new();
        let mut i: usize = 0;
        while i < self.paths.len()
            invariant
                i <= self.paths.len(),
                rows(shown@) == self.state().listing.take(i as int),
            decreases self.paths.len() - i,
        {
            let line = to_chars(self.paths[i].to_string().as_str());
            let ghost before_push = rows(shown@);
            shown.push(line);
            assert(rows(shown@) == before_push.push(line@));
            assert(self.state().listing.take(i + 1) == before_push.push(line@));
            i += 1;
        }
        assert(self.state().listing.take(self.paths.len() as int) == self.state().listing);
        let text = join_rows(&shown, &to_chars("\n"));
        let mut plan: Vec<Effect> = Vec::new();
        plan.push(Effect::Print(from_chars(&text)));
        assert(effects(plan@) =~= seq![EffectView::Print(join(self.state().listing, "\n"@))]);
        Ok(plan)
    }

    /// The entries of the search path that the shell configuration records.
    pub fn find_existing_paths(&self, env: &Environment) -> (r: Result<
        Vec<PathReference>,
        CommandError,
    >)
        ensures
            match r {
                Ok(paths) => existing_paths(self.state().shell_config_path, env@.shell_config)
                    == Ok::<Seq<PathView>, ErrorView>(path_views(paths@)),
                Err(e) => existing_paths(self.state().shell_config_path, env@.shell_config)
                    == Err::<Seq<PathView>, ErrorView>(e@),
            },
    {
        match &env.shell_config {
            Ok(text) => Ok(parse_paths(text.as_str())),
            Err(reason) => Err(
                read_failure_error(self.shell_config_path.as_str(), reason.as_str()),
            ),
        }
    }
}

impl Command for PathCommand {
    closed spec fn state(&self) -> CommandState {
        CommandState {
            category: Category::Path,
            args: texts(self.args@),
            available_commands: texts(self.available_commands@),
            shell_config_path: self.shell_config_path@,
            listing: rendered_paths(path_views(self.paths@)),
        }
    }

    fn init(&mut self, args: Vec<String>, env: &Environment) -> (r: Result<(), CommandError>) {
        self.args = args;
        self.shell_config_path = match find_shell_config_path(env.home.as_str(), &env.existing) {
            Ok(path) => path,
            Err(e) => {
                return Err(e);
            },
        };
        self.paths = match self.find_existing_paths(env) {
            Ok(paths) => paths,
            Err(e) => {
                return Err(e);
            },
        };
        Ok(())
    }

    fn execute(&self, env: &Environment) -> (r: Result<Vec<Effect>, CommandError>) {
        if self.args.len() < 3 {
            return Err(invalid_command_error(&self.available_commands));
        }
        let action = to_chars(self.args[2].as_str());
        assert(texts(self.args@)[2] == action@);
        if same(&action, &to_chars("add")) {
            self.execute_add(env)
        } else if same(&action, &to_chars("list")) {
            self.execute_list()
        } else {
            Err(invalid_command_error(&self.available_commands))
        }
    }
}

} // verus!
