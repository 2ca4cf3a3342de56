//! What a command is told about the world outside, what it asks for, and how
//! a command line is carried out.
use crate::command::alias::alias_added;
use crate::command::alias::AliasCommand;
use crate::command::alias::existing_aliases;
use crate::command::alias::rendered_aliases;
use crate::command::path::existing_paths;
use crate::command::path::missing_path;
use crate::command::path::path_added;
use crate::command::path::path_block;
use crate::command::path::PathCommand;
use crate::command::path::rendered_paths;
use crate::command::shell::is_absolute;
use crate::command::shell::is_absolute_path;
use crate::command::shell::located;
use crate::error::CommandError;
use crate::error::ErrorKind;
use crate::error::ErrorView;
use crate::error::in_context;
use crate::text::from_chars;
use crate::text::join;
use crate::text::join_rows;
use crate::text::push_all;
use crate::text::push_str;
use crate::text::rows;
use crate::text::same;
use crate::text::texts;
use crate::text::to_chars;
use vstd::prelude::*;

verus! {

/// What became of a relative path when it was resolved against the current
/// directory.
#[derive(Debug, PartialEq, Eq)]
pub enum Resolution {
    /// It leads to something; this is its absolute form.
    Found(String),
    /// It leads to nothing.
    Missing,
    /// It could not be resolved, for the reason given.
    Failed(String),
}

/// A `Resolution` as a plain value.
pub ghost enum ResolutionView {
    Found(Seq<char>),
    Missing,
    Failed(Seq<char>),
}

impl View for Resolution {
    type V = ResolutionView;

    open spec fn view(&self) -> ResolutionView {
        match self {
            Resolution::Found(path) => ResolutionView::Found(path@),
            Resolution::Missing => ResolutionView::Missing,
            Resolution::Failed(reason) => ResolutionView::Failed(reason@),
        }
    }
}

/// The world outside as a command finds it: every answer that it may ask for.
#[derive(Debug, PartialEq, Eq)]
pub struct Environment {
    /// The home directory.
    pub home: String,
    /// For each candidate file, in order, whether it exists.
    pub existing: Vec<bool>,
    /// The text of the shell configuration file, or why it could not be read.
    pub shell_config: Result<String, String>,
    /// What the path argument resolves to, where it is relative.
    pub resolved: Resolution,
}

/// An `Environment` as a plain value.
pub ghost struct EnvironmentView {
    pub home: Seq<char>,
    pub existing: Seq<bool>,
    pub shell_config: Result<Seq<char>, Seq<char>>,
    pub resolved: ResolutionView,
}

impl View for Environment {
    type V = EnvironmentView;

    open spec fn view(&self) -> EnvironmentView {
        EnvironmentView {
            home: self.home@,
            existing: self.existing@,
            shell_config: match self.shell_config {
                Ok(text) => Ok(text@),
                Err(reason) => Err(reason@),
            },
            resolved: self.resolved@,
        }
    }
}

/// One thing that a command wants done. The caller carries the effects out in
/// order and stops at the first that fails.
#[derive(Debug, PartialEq, Eq)]
pub enum Effect {
    /// Print this text, and a line feed behind it.
    Print(String),
    /// Replace the whole contents of the file at `path`.
    Write { path: String, contents: String },
    /// Start a shell that sources the file at this path, and do not wait for it.
    Source(String),
}

/// An `Effect` as a plain value.
pub ghost enum EffectView {
    Print(Seq<char>),
    Write { path: Seq<char>, contents: Seq<char> },
    Source(Seq<char>),
}

impl View for Effect {
    type V = EffectView;

    open spec fn view(&self) -> EffectView {
        match self {
            Effect::Print(text) => EffectView::Print(text@),
            Effect::Write { path, contents } => EffectView::Write {
                path: path@,
                contents: contents@,
            },
            Effect::Source(path) => EffectView::Source(path@),
        }
    }
}

/// The views of the effects of `v`.
pub open spec fn effects(v: Seq<Effect>) -> Seq<EffectView> {
    Seq::new(v.len(), |i: int| v[i]@)
}

/// What a command did, or why it did not, as a plain value.
pub open spec fn outcome(r: Result<Vec<Effect>, CommandError>) -> Result<Seq<EffectView>, ErrorView> {
    match r {
        Ok(v) => Ok(effects(v@)),
        Err(e) => Err(e@),
    }
}

/// What the entries of a command are about.
#[derive(Clone, Copy, Debug, PartialEq, Eq, Structural)]
pub enum Category {
    Alias,
    Path,
}

/// What a command knows: its category and, once `init` has run, its
/// arguments, the shell configuration file and the entries found in it, each
/// as the line that `list` shows for it.
pub ghost struct CommandState {
    pub category: Category,
    pub args: Seq<Seq<char>>,
    pub available_commands: Seq<Seq<char>>,
    pub shell_config_path: Seq<char>,
    pub listing: Seq<Seq<char>>,
}

/// The actions that a command knows.
pub open spec fn actions() -> Seq<Seq<char>> {
    seq!["add"@, "list"@]
}

/// A command of the given category before `init`.
pub open spec fn fresh(category: Category) -> CommandState {
    CommandState {
        category,
        args: Seq::empty(),
        available_commands: actions(),
        shell_config_path: Seq::empty(),
        listing: Seq::empty(),
    }
}

/// The error for a file that could not be read while looking for entries.
pub open spec fn read_failure(path: Seq<char>, reason: Seq<char>) -> ErrorView {
    ErrorView { kind: ErrorKind::Io, message: path + " "@ + reason }
}

/// `items` between square brackets, each between double quotes, with a comma
/// and a space between each two neighbours.
pub open spec fn quoted_list(items: Seq<Seq<char>>) -> Seq<char> {
    "["@ + join(Seq::new(items.len(), |i: int| "\""@ + items[i] + "\""@), ", "@) + "]"@
}

/// The error for a word that is none of `valid`, or for a missing word.
pub open spec fn invalid_command(valid: Seq<Seq<char>>) -> ErrorView {
    ErrorView {
        kind: ErrorKind::InvalidCommand,
        message: "Invalid command, please use one of the following: "@ + quoted_list(valid),
    }
}

/// The entries of a category that the shell configuration records, each as
/// the line that `list` shows for it.
pub open spec fn listed(
    category: Category,
    path: Seq<char>,
    shell_config: Result<Seq<char>, Seq<char>>,
) -> Result<Seq<Seq<char>>, ErrorView> {
    match category {
        Category::Alias => match existing_aliases(path, shell_config) {
            Ok(aliases) => Ok(rendered_aliases(aliases)),
            Err(e) => Err(e),
        },
        Category::Path => match existing_paths(path, shell_config) {
            Ok(paths) => Ok(rendered_paths(paths)),
            Err(e) => Err(e),
        },
    }
}

/// What `init` leaves of the state `prior`, and what it returns. The arguments
/// are kept in any case, the file where one was located, and the entries
/// where the file could be read and understood.
pub open spec fn initialized(
    prior: CommandState,
    args: Seq<Seq<char>>,
    env: EnvironmentView,
) -> (CommandState, Result<(), ErrorView>) {
    let with_args = CommandState { args, ..prior };
    match located(env.home, env.existing) {
        Err(e) => (with_args, Err(e)),
        Ok(path) => {
            let with_path = CommandState { shell_config_path: path, ..with_args };
            match listed(prior.category, path, env.shell_config) {
                Err(e) => (with_path, Err(e)),
                Ok(listing) => (CommandState { listing, ..with_path }, Ok(())),
            }
        },
    }
}

/// What `execute` returns in the state `state`. The third argument names the
/// action: `add` or `list`.
pub open spec fn executed(state: CommandState, env: EnvironmentView) -> Result<
    Seq<EffectView>,
    ErrorView,
> {
    if state.args.len() < 3 {
        Err(invalid_command(state.available_commands))
    } else if state.args[2] == "add"@ {
        match state.category {
            Category::Alias => alias_added(state.args, state.shell_config_path, env.shell_config),
            Category::Path => path_added(
                state.args,
                state.shell_config_path,
                env.shell_config,
                env.resolved,
            ),
        }
    } else if state.args[2] == "list"@ {
        Ok(seq![EffectView::Print(join(state.listing, "\n"@))])
    } else {
        Err(invalid_command(state.available_commands))
    }
}

/// A command with its two steps. `init` takes the arguments and reads the
/// entries of its category; `execute` carries out the action that the
/// arguments name.
pub trait Command {
    /// What the command knows.
    spec fn state(&self) -> CommandState;

    fn init(&mut self, args: Vec<String>, env: &Environment) -> (r: Result<(), CommandError>)
        ensures
            final(self).state() == initialized(old(self).state(), texts(args@), env@).0,
            match r {
                Ok(()) => initialized(old(self).state(), texts(args@), env@).1 is Ok,
                Err(e) => initialized(old(self).state(), texts(args@), env@).1 == Err::<
                    (),
                    ErrorView,
                >(e@),
            },
    ;

    fn execute(&self, env: &Environment) -> (r: Result<Vec<Effect>, CommandError>)
        ensures
            outcome(r) == executed(self.state(), env@),
    ;
}

/// The strings of `items` between square brackets, each between double
/// quotes, with a comma and a space between each two neighbours.
pub fn quote_list(items: &Vec<String>) -> (out: Vec<char>)
    ensures
        out@ == quoted_list(texts(items@)),
{
    let mut quoted: Vec<Vec<char>> = Vec::new();
    let mut i: usize = 0;
    while i < items.len()
        invariant
            i <= items.len(),
            rows(quoted@) == Seq::new(
                i as nat,
                |k: int| "\""@ + texts(items@)[k] + "\""@,
            ),
        decreases items.len() - i,
    {
        let mut item = to_chars("\"");
        push_str(&mut item, items[i].as_str());
        push_str(&mut item, "\"");
        let ghost before_push = rows(quoted@);
        quoted.push(item);
        assert(rows(quoted@) == before_push.push(item@));
        i += 1;
    }
    let mut out = to_chars("[");
    let list = join_rows(&quoted, &to_chars(", "));
    push_all(&mut out, &list);
    push_str(&mut out, "]");
    out
}

/// The error for a word that is none of `valid`, or for a missing word.
pub fn invalid_command_error(valid: &Vec<String>) -> (e: CommandError)
    ensures
        e@ == invalid_command(texts(valid@)),
{
    let mut message = to_chars("Invalid command, please use one of the following: ");
    let list = quote_list(valid);
    push_all(&mut message, &list);
    CommandError { kind: ErrorKind::InvalidCommand, message: from_chars(&message) }
}

/// The error for a file that could not be read while looking for entries.
pub fn read_failure_error(path: &str, reason: &str) -> (e: CommandError)
    ensures
        e@ == read_failure(path@, reason@),
{
    let mut message = to_chars(path);
    push_str(&mut message, " ");
    push_str(&mut message, reason);
    CommandError { kind: ErrorKind::Io, message: from_chars(&message) }
}

/// One of the two commands.
#[derive(Debug)]
pub enum AnyCommand {
    Alias(AliasCommand),
    Path(PathCommand),
}

impl Command for AnyCommand {
    open spec fn state(&self) -> CommandState {
        match self {
            AnyCommand::Alias(command) => command.state(),
            AnyCommand::Path(command) => command.state(),
        }
    }

    fn init(&mut self, args: Vec<String>, env: &Environment) -> (r: Result<(), CommandError>) {
        match self {
            AnyCommand::Alias(command) => command.init(args, env),
            AnyCommand::Path(command) => command.init(args, env),
        }
    }

    fn execute(&self, env: &Environment) -> (r: Result<Vec<Effect>, CommandError>) {
        match self {
            AnyCommand::Alias(command) => command.execute(env),
            AnyCommand::Path(command) => command.execute(env),
        }
    }
}

/// The categories that a command line can name.
pub open spec fn categories() -> Seq<Seq<char>> {
    seq!["alias"@, "path"@]
}

/// The category that the word `command` names.
pub open spec fn categorized(command: Seq<char>) -> Result<Category, ErrorView> {
    if command == "path"@ {
        Ok(Category::Path)
    } else if command == "alias"@ {
        Ok(Category::Alias)
    } else {
        Err(invalid_command(categories()))
    }
}

/// What running a command in the state `prior` gives: `init`, then `execute`.
/// An error says in front of its message in which of the two it came up.
pub open spec fn ran(prior: CommandState, args: Seq<Seq<char>>, env: EnvironmentView) -> Result<
    Seq<EffectView>,
    ErrorView,
> {
    match initialized(prior, args, env).1 {
        Err(e) => Err(in_context("Error initializing command: "@, e)),
        Ok(()) => match executed(initialized(prior, args, env).0, env) {
            Err(e) => Err(in_context("Error executing command: "@, e)),
            Ok(plan) => Ok(plan),
        },
    }
}

/// What the command line `args` asks for where its category is `command`.
pub open spec fn carried_out(
    command: Seq<char>,
    args: Seq<Seq<char>>,
    env: EnvironmentView,
) -> Result<Seq<EffectView>, ErrorView> {
    match categorized(command) {
        Err(e) => Err(e),
        Ok(category) => ran(fresh(category), args, env),
    }
}

/// The error for a command line that names no category.
pub open spec fn no_command() -> ErrorView {
    ErrorView { kind: ErrorKind::InvalidCommand, message: "Please provide a command"@ }
}

/// What the command line `args` asks for. Its first word is the name of the
/// program, its second the category, its third the action.
pub open spec fn dispatched(args: Seq<Seq<char>>, env: EnvironmentView) -> Result<
    Seq<EffectView>,
    ErrorView,
> {
    if args.len() < 2 {
        Err(no_command())
    } else {
        carried_out(args[1], args, env)
    }
}

/// The relative path that the command line wants added to the search path,
/// if it wants that: the path that has to be resolved before the command runs.
pub open spec fn unresolved(args: Seq<Seq<char>>) -> Option<Seq<char>> {
    if args.len() >= 4 && args[1] == "path"@ && args[2] == "add"@ && !is_absolute(args[3]) {
        Some(args[3])
    } else {
        None
    }
}

/// The command for the category that the word `command` names.
pub fn command_factory(command: &str) -> (r: Result<AnyCommand, CommandError>)
    ensures
        match r {
            Ok(made) => categorized(command@) == Ok::<Category, ErrorView>(made.state().category)
                && made.state() == fresh(made.state().category),
            Err(e) => categorized(command@) == Err::<Category, ErrorView>(e@),
        },
{
    let word = to_chars(command);
    if same(&word, &to_chars("path")) {
        Ok(AnyCommand::Path(PathCommand::new()))
    } else if same(&word, &to_chars("alias")) {
        Ok(AnyCommand::Alias(AliasCommand::new()))
    } else {
        let mut valid: Vec<String> = Vec::new();
        valid.push("alias".to_owned());
        valid.push("path".to_owned());
        assert(texts(valid@) =~= categories());
        Err(invalid_command_error(&valid))
    }
}

/// Runs a command on its arguments: `init`, then `execute`.
pub fn run_command<C: Command>(command: &mut C, args: Vec<String>, env: &Environment) -> (r: Result<
    Vec<Effect>,
    CommandError,
>)
    ensures
        final(command).state() == initialized(old(command).state(), texts(args@), env@).0,
        outcome(r) == ran(old(command).state(), texts(args@), env@),
{
    match command.init(args, env) {
        Ok(()) => {},
        Err(e) => {
            return Err(e.context("Error initializing command: "));
        },
    }
    match command.execute(env) {
        Ok(plan) => Ok(plan),
        Err(e) => Err(e.context("Error executing command: ")),
    }
}

/// Carries out the command line `args`, whose category is `command`, in the
/// world that `env` describes, and returns what is left to do.
pub fn execute(command: &str, args: Vec<String>, env: &Environment) -> (r: Result<
    Vec<Effect>,
    CommandError,
>)
    ensures
        outcome(r) == carried_out(command@, texts(args@), env@),
{
    let mut command = match command_factory(command) {
        Ok(command) => command,
        Err(e) => {
            return Err(e);
        },
    };
    run_command(&mut command, args, env)
}

/// Carries out a whole command line, the name of the program first.
pub fn dispatch(args: Vec<String>, env: &Environment) -> (r: Result<Vec<Effect>, CommandError>)
    ensures
        outcome(r) == dispatched(texts(args@), env@),
{
    if args.len() < 2 {
        return Err(CommandError::new(ErrorKind::InvalidCommand, "Please provide a command"));
    }
    let command = args[1].clone();
    assert(texts(args@)[1] == command@);
    execute(command.as_str(), args, env)
}

/// The relative path that the command line wants added to the search path,
/// if it wants that. The caller resolves it and puts the answer into the
/// environment before it runs the command line.
pub fn path_to_resolve(args: &Vec<String>) -> (r: Option<String>)
    ensures
        match r {
            Some(raw) => unresolved(texts(args@)) == Some(raw@),
            None => unresolved(texts(args@)) is None,
        },
{
    if args.len() < 4 {
        return None;
    }
    proof {
        assert(texts(args@)[1] == args@[1]@);
        assert(texts(args@)[2] == args@[2]@);
        assert(texts(args@)[3] == args@[3]@);
    }
    if !same(&to_chars(args[1].as_str()), &to_chars("path")) {
        return None;
    }
    if !same(&to_chars(args[2].as_str()), &to_chars("add")) {
        return None;
    }
    if is_absolute_path(args[3].as_str()) {
        return None;
    }
    Some(args[3].clone())
}

/// A relative path that leads to nothing is never added: the command line
/// ends in an error, so nothing is written. Where the shell configuration was
/// found and read, the error is `NotFound`.
pub proof fn lemma_missing_relative_path_writes_nothing(args: Seq<Seq<char>>, env: EnvironmentView)
    requires
        args.len() >= 4,
        args[1] == "path"@,
        args[2] == "add"@,
        !is_absolute(args[3]),
        env.resolved is Missing,
    ensures
        dispatched(args, env) is Err,
        located(env.home, env.existing) is Ok && env.shell_config is Ok ==> dispatched(args, env)
            == Err::<Seq<EffectView>, ErrorView>(
            in_context("Error executing command: "@, missing_path(args[3])),
        ),
        located(env.home, env.existing) is Ok && env.shell_config is Ok ==> dispatched(
            args,
            env,
        )->Err_0.kind == ErrorKind::NotFound,
{
}

/// An absolute path is added as it is given, whether or not anything is at
/// its end: the first effect writes the shell configuration with the export
/// of that path behind its old text.
pub proof fn lemma_absolute_path_is_written(args: Seq<Seq<char>>, env: EnvironmentView)
    requires
        args.len() >= 4,
        args[1] == "path"@,
        args[2] == "add"@,
        is_absolute(args[3]),
        located(env.home, env.existing) is Ok,
        env.shell_config is Ok,
    ensures
        dispatched(args, env) is Ok,
        dispatched(args, env)->Ok_0.len() > 0,
        dispatched(args, env)->Ok_0[0] == (EffectView::Write {
            path: located(env.home, env.existing)->Ok_0,
            contents: env.shell_config->Ok_0 + path_block(args[3]),
        }),
{
}

/// A command line without a category is refused with `InvalidCommand`, and
/// so is one whose category is known and whose shell configuration was found
/// and understood, but which names no action or one that is neither `add` nor
/// `list`: the error then lists these two.
pub proof fn lemma_unknown_action_is_invalid(args: Seq<Seq<char>>, env: EnvironmentView)
    requires
        args.len() < 2 || {
            &&& categorized(args[1]) is Ok
            &&& initialized(fresh(categorized(args[1])->Ok_0), args, env).1 is Ok
            &&& args.len() < 3 || (args[2] != "add"@ && args[2] != "list"@)
        },
    ensures
        dispatched(args, env) is Err,
        dispatched(args, env)->Err_0.kind == ErrorKind::InvalidCommand,
        args.len() >= 2 ==> dispatched(args, env)->Err_0 == in_context(
            "Error executing command: "@,
            invalid_command(actions()),
        ),
{
}

} // verus!
