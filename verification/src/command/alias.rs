//! Aliases: reading them out of the shell configuration, and adding one.
use crate::command::command::Category;
use crate::command::command::Command;
use crate::command::command::CommandState;
use crate::command::command::Effect;
use crate::command::command::effects;
use crate::command::command::EffectView;
use crate::command::command::Environment;
use crate::command::command::fresh;
use crate::command::command::invalid_command_error;
use crate::command::command::outcome;
use crate::command::command::read_failure;
use crate::command::command::read_failure_error;
use crate::command::shell::find_shell_config_path;
use crate::error::CommandError;
use crate::error::ErrorKind;
use crate::error::ErrorView;
use crate::text::after;
use crate::text::before;
use crate::text::contains;
use crate::text::decimal;
use crate::text::find_char;
use crate::text::from_chars;
use crate::text::has;
use crate::text::join;
use crate::text::join_rows;
use crate::text::lemma_first_index_contains;
use crate::text::lemma_first_index_is;
use crate::text::lemma_lines_ended;
use crate::text::lemma_lines_of_one;
use crate::text::lemma_lines_of_two;
use crate::text::lines;
use crate::text::occurs_at;
use crate::text::push_all;
use crate::text::push_decimal;
use crate::text::push_str;
use crate::text::rows;
use crate::text::same;
use crate::text::slice;
use crate::text::split_lines;
use crate::text::strip_cr;
use crate::text::texts;
use crate::text::to_chars;
use vstd::prelude::*;

verus! {

/// One alias that the shell configuration records.
#[derive(Debug, PartialEq, Eq)]
pub struct Alias {
    /// Its place among the recorded aliases, counted from one, in base ten.
    pub id: String,
    pub name: String,
    /// The value as the file holds it, quotes included.
    pub value: String,
}

/// An `Alias` as a plain value.
pub ghost struct AliasView {
    pub id: Seq<char>,
    pub name: Seq<char>,
    pub value: Seq<char>,
}

impl View for Alias {
    type V = AliasView;

    open spec fn view(&self) -> AliasView {
        AliasView { id: self.id@, name: self.name@, value: self.value@ }
    }
}

/// The views of the aliases of `v`.
pub open spec fn alias_views(v: Seq<Alias>) -> Seq<AliasView> {
    Seq::new(v.len(), |i: int| v[i]@)
}

/// A line announces an alias where the word `alias` stands anywhere in it.
pub open spec fn announces_alias() -> spec_fn(Seq<char>) -> bool {
    |line: Seq<char>| contains(line, "alias"@)
}

/// What a line says behind its first word: what follows its first space.
pub open spec fn definition(line: Seq<char>) -> Seq<char> {
    after(line, ' ')
}

/// A line is malformed where it announces an alias and holds no `=` behind
/// its first word.
pub open spec fn is_malformed() -> spec_fn(Seq<char>) -> bool {
    |line: Seq<char>| contains(line, "alias"@) && !definition(line).contains('=')
}

/// The alias that `line` records as the `position`-th of its file: the name
/// stands before the first `=` of the definition, the value behind it.
pub open spec fn alias_of(line: Seq<char>, position: nat) -> AliasView {
    AliasView {
        id: decimal(position),
        name: before(definition(line), '='),
        value: after(definition(line), '='),
    }
}

/// The aliases that the lines of `found` record, numbered from one.
pub open spec fn numbered_aliases(found: Seq<Seq<char>>) -> Seq<AliasView> {
    Seq::new(found.len(), |i: int| alias_of(found[i], (i + 1) as nat))
}

/// The error for a malformed line.
pub open spec fn malformed(line: Seq<char>) -> ErrorView {
    ErrorView { kind: ErrorKind::Malformed, message: "Malformed alias entry: "@ + line }
}

/// The aliases that `text` records: one for each line that announces an
/// alias, in the order of the lines. Where a line is malformed, the error for
/// the first such line.
pub open spec fn parsed_aliases(text: Seq<char>) -> Result<Seq<AliasView>, ErrorView> {
    let bad = lines(text).filter(is_malformed());
    if bad.len() == 0 {
        Ok(numbered_aliases(lines(text).filter(announces_alias())))
    } else {
        Err(malformed(bad[0]))
    }
}

/// Reads `line` as the `position`-th alias of its file, or returns `None`
/// where it holds no `=` behind its first word.
pub fn parse_alias_line(line: &Vec<char>, position: usize) -> (r: Option<Alias>)
    ensures
        match r {
            Some(alias) => definition(line@).contains('=') && alias@ == alias_of(
                line@,
                position as nat,
            ),
            None => !definition(line@).contains('='),
        },
{
    let space = find_char(line, 0, ' ');
    let start = if space < line.len() {
        space + 1
    } else {
        line.len()
    };
    let equals = find_char(line, start, '=');
    proof {
        assert(line@.skip(0) == line@);
        assert(definition(line@) == line@.skip(start as int));
        lemma_first_index_contains(definition(line@), '=');
    }
    if equals == line.len() {
        return None;
    }
    let name = slice(line, start, equals);
    let value = slice(line, equals + 1, line.len());
    let mut id: Vec<char> = Vec::new();
    push_decimal(&mut id, position);
    proof {
        let d = definition(line@);
        assert(name@ == d.take(equals - start));
        assert(value@ == d.skip(equals - start + 1));
        assert(id@ == decimal(position as nat));
    }
    Some(Alias { id: from_chars(&id), name: from_chars(&name), value: from_chars(&value) })
}

/// The aliases that `text` records, in the order of its lines and numbered
/// from one. Fails as a whole on the first malformed line.
pub fn parse_aliases(text: &str) -> (r: Result<Vec<Alias>, CommandError>)
    ensures
        match r {
            Ok(aliases) => parsed_aliases(text@) == Ok::<Seq<AliasView>, ErrorView>(
                alias_views(aliases@),
            ),
            Err(e) => parsed_aliases(text@) == Err::<Seq<AliasView>, ErrorView>(e@),
        },
{
    let chars = to_chars(text);
    let all = split_lines(&chars);
    let keyword = to_chars("alias");
    let mut aliases: Vec<Alias> = Vec::new();
    let mut i: usize = 0;
    assert(rows(all@).take(0) == Seq::<Seq<char>>::empty());
    assert(alias_views(aliases@) == numbered_aliases(Seq::<Seq<char>>::empty()));
    while i < all.len()
        invariant
            i <= all.len(),
            keyword@ == "alias"@,
            rows(all@) == lines(text@),
            aliases.len() <= i,
            rows(all@).take(i as int).filter(is_malformed()).len() == 0,
            alias_views(aliases@) == numbered_aliases(
                rows(all@).take(i as int).filter(announces_alias()),
            ),
        decreases all.len() - i,
    {
        let line = &all[i];
        let ghost seen = rows(all@).take(i as int);
        let ghost found = seen.filter(announces_alias());
        proof {
            assert(rows(all@).take(i + 1) == seen.push(line@));
            seen.lemma_filter_push(line@, announces_alias());
            seen.lemma_filter_push(line@, is_malformed());
        }
        if has(line, &keyword) {
            match parse_alias_line(line, aliases.len() + 1) {
                Some(alias) => {
                    let ghost before_push = alias_views(aliases@);
                    aliases.push(alias);
                    proof {
                        let now = alias_views(aliases@);
                        let want = numbered_aliases(found.push(line@));
                        assert(before_push.len() == found.len());
                        assert forall|j: int| 0 <= j < now.len() implies now[j] == want[j] by {
                            if j < found.len() {
                                assert(now[j] == before_push[j]);
                                assert(found.push(line@)[j] == found[j]);
                            }
                        }
                        assert(now =~= want);
                    }
                },
                None => {
                    proof {
                        let rest = rows(all@).skip(i + 1);
                        assert(rows(all@) == seen.push(line@) + rest);
                        Seq::filter_distributes_over_add(
                            seen.push(line@),
                            rest,
                            is_malformed(),
                        );
                        assert(seen.push(line@).filter(is_malformed()) == seq![line@]);
                        assert(lines(text@).filter(is_malformed())[0] == line@);
                    }
                    let mut message = to_chars("Malformed alias entry: ");
                    push_all(&mut message, line);
                    return Err(
                        CommandError { kind: ErrorKind::Malformed, message: from_chars(&message) },
                    );
                },
            }
        }
        i += 1;
    }
    assert(rows(all@).take(all.len() as int) == rows(all@));
    Ok(aliases)
}

/// The line that `list` shows for an alias.
pub open spec fn rendered_alias(alias: AliasView) -> Seq<char> {
    "["@ + alias.id + "] "@ + alias.name + " = "@ + alias.value
}

/// The lines that `list` shows for the aliases of `v`.
pub open spec fn rendered_aliases(v: Seq<AliasView>) -> Seq<Seq<char>> {
    Seq::new(v.len(), |i: int| rendered_alias(v[i]))
}

/// The names of the aliases of `v`.
pub open spec fn names(v: Seq<AliasView>) -> Seq<Seq<char>> {
    Seq::new(v.len(), |i: int| v[i].name)
}

/// What is put at the end of the shell configuration for a new alias: an
/// empty line, a comment that names this tool, and the alias with its value
/// between double quotes.
pub open spec fn alias_block(name: Seq<char>, value: Seq<char>) -> Seq<char> {
    "\n# Added by dotcli\nalias "@ + name + "=\""@ + value + "\"\n"@
}

/// The error for a name that is recorded already.
pub open spec fn duplicate() -> ErrorView {
    ErrorView { kind: ErrorKind::DuplicateEntry, message: "Alias already exists"@ }
}

/// The text of the shell configuration once the alias is added. A text that
/// cannot be parsed is refused with the parser's error, a name that it
/// records already with `DuplicateEntry`.
pub open spec fn added_alias(text: Seq<char>, name: Seq<char>, value: Seq<char>) -> Result<
    Seq<char>,
    ErrorView,
> {
    match parsed_aliases(text) {
        Err(e) => Err(e),
        Ok(existing) => if names(existing).contains(name) {
            Err(duplicate())
        } else {
            Ok(text + alias_block(name, value))
        },
    }
}

/// The aliases that the shell configuration at `path` records, where
/// `shell_config` is its text or the reason why it could not be read.
pub open spec fn existing_aliases(
    path: Seq<char>,
    shell_config: Result<Seq<char>, Seq<char>>,
) -> Result<Seq<AliasView>, ErrorView> {
    match shell_config {
        Err(reason) => Err(read_failure(path, reason)),
        Ok(text) => parsed_aliases(text),
    }
}

/// The error for `add` without a name and a value.
pub open spec fn no_name_and_value() -> ErrorView {
    ErrorView {
        kind: ErrorKind::InvalidCommand,
        message: "Invalid command, please provide a name and value to add"@,
    }
}

/// What `alias add` does: it writes the whole file anew, with the alias at
/// its end, and then tells the user to source the file. The fourth argument
/// is the name, the fifth the value.
pub open spec fn alias_added(
    args: Seq<Seq<char>>,
    path: Seq<char>,
    shell_config: Result<Seq<char>, Seq<char>>,
) -> Result<Seq<EffectView>, ErrorView> {
    if args.len() < 5 {
        Err(no_name_and_value())
    } else {
        match shell_config {
            Err(reason) => Err(read_failure(path, reason)),
            Ok(text) => match added_alias(text, args[3], args[4]) {
                Err(e) => Err(e),
                Ok(contents) => Ok(
                    seq![
                        EffectView::Write { path, contents },
                        EffectView::Print("Added alias to "@ + path),
                        EffectView::Print(
                            "Note: Please run `source "@ + path + "` to apply the changes"@,
                        ),
                    ],
                ),
            },
        }
    }
}

impl Alias {
    /// The line that `list` shows for this alias.
    pub fn to_string(&self) -> (line: String)
        ensures
            line@ == rendered_alias(self@),
    {
        let mut out = to_chars("[");
        push_str(&mut out, self.id.as_str());
        push_str(&mut out, "] ");
        push_str(&mut out, self.name.as_str());
        push_str(&mut out, " = ");
        push_str(&mut out, self.value.as_str());
        from_chars(&out)
    }
}

/// Adds an alias to the text of a shell configuration and returns the new
/// text. Fails where the text cannot be parsed, and with `DuplicateEntry`
/// where it records an alias of that name already.
pub fn add_alias(text: &str, name: &str, value: &str) -> (r: Result<String, CommandError>)
    ensures
        match r {
            Ok(contents) => added_alias(text@, name@, value@) == Ok::<Seq<char>, ErrorView>(
                contents@,
            ),
            Err(e) => added_alias(text@, name@, value@) == Err::<Seq<char>, ErrorView>(e@),
        },
{
    let existing = match parse_aliases(text) {
        Ok(existing) => existing,
        Err(e) => {
            return Err(e);
        },
    };
    let wanted = to_chars(name);
    let mut i: usize = 0;
    while i < existing.len()
        invariant
            i <= existing.len(),
            wanted@ == name@,
            parsed_aliases(text@) == Ok::<Seq<AliasView>, ErrorView>(alias_views(existing@)),
            forall|j: int| 0 <= j < i ==> existing@[j]@.name != name@,
        decreases existing.len() - i,
    {
        let known = to_chars(existing[i].name.as_str());
        if same(&known, &wanted) {
            assert(names(alias_views(existing@))[i as int] == name@);
            assert(names(alias_views(existing@)).contains(name@));
            return Err(CommandError::new(ErrorKind::DuplicateEntry, "Alias already exists"));
        }
        i += 1;
    }
    let mut contents = to_chars(text);
    push_str(&mut contents, "\n# Added by dotcli\nalias ");
    push_str(&mut contents, name);
    push_str(&mut contents, "=\"");
    push_str(&mut contents, value);
    push_str(&mut contents, "\"\n");
    assert(contents@ == text@ + alias_block(name@, value@));
    Ok(from_chars(&contents))
}

/// The command that lists the recorded aliases and adds one.
#[derive(Debug)]
pub struct AliasCommand {
    args: Vec<String>,
    available_commands: Vec<String>,
    shell_config_path: String,
    aliases: Vec<Alias>,
}

impl AliasCommand {
    /// A command that has not seen its arguments yet.
    pub fn new() -> (command: Self)
        ensures
            command.state() == fresh(Category::Alias),
    {
        let mut available_commands: Vec<String> = Vec::new();
        available_commands.push("add".to_owned());
        available_commands.push("list".to_owned());
        let command = Self {
            args: Vec::new(),
            available_commands,
            shell_config_path: String::new(),
            aliases: Vec::new(),
        };
        assert(command.state().args =~= fresh(Category::Alias).args);
        assert(command.state().available_commands =~= fresh(Category::Alias).available_commands);
        assert(command.state().listing =~= fresh(Category::Alias).listing);
        command
    }

    /// Adds the alias that the arguments name, unless it is recorded already.
    pub fn execute_add(&self, env: &Environment) -> (r: Result<Vec<Effect>, CommandError>)
        ensures
            outcome(r) == alias_added(
                self.state().args,
                self.state().shell_config_path,
                env@.shell_config,
            ),
    {
        if self.args.len() < 5 {
            return Err(
                CommandError::new(
                    ErrorKind::InvalidCommand,
                    "Invalid command, please provide a name and value to add",
                ),
            );
        }
        let name = self.args[3].as_str();
        let value = self.args[4].as_str();
        proof {
            assert(texts(self.args@)[3] == name@);
            assert(texts(self.args@)[4] == value@);
        }
        let path = self.shell_config_path.as_str();
        let text = match &env.shell_config {
            Ok(text) => text,
            Err(reason) => {
                return Err(read_failure_error(path, reason.as_str()));
            },
        };
        let contents = match add_alias(text.as_str(), name, value) {
            Ok(contents) => contents,
            Err(e) => {
                return Err(e);
            },
        };
        let mut added = to_chars("Added alias to ");
        push_str(&mut added, path);
        let mut note = to_chars("Note: Please run `source ");
        push_str(&mut note, path);
        push_str(&mut note, "` to apply the changes");
        let mut plan: Vec<Effect> = Vec::new();
        plan.push(Effect::Write { path: self.shell_config_path.clone(), contents });
        plan.push(Effect::Print(from_chars(&added)));
        plan.push(Effect::Print(from_chars(&note)));
        assert(effects(plan@) =~= alias_added(
            self.state().args,
            self.state().shell_config_path,
            env@.shell_config,
        )->Ok_0);
        Ok(plan)
    }

    /// Shows the aliases that `init` found, one on each line.
    pub fn execute_list(&self) -> (r: Result<Vec<Effect>, CommandError>)
        ensures
            outcome(r) == Ok::<Seq<EffectView>, ErrorView>(
                seq![EffectView::Print(join(self.state().listing, "\n"@))],
            ),
    {
        let mut shown: Vec<Vec<char>> = Vec::new();
        let mut i: usize = 0;
        while i < self.aliases.len()
            invariant
                i <= self.aliases.len(),
                rows(shown@) == self.state().listing.take(i as int),
            decreases self.aliases.len() - i,
        {
            let line = to_chars(self.aliases[i].to_string().as_str());
            let ghost before_push = rows(shown@);
            shown.push(line);
            assert(rows(shown@) == before_push.push(line@));
            assert(self.state().listing.take(i + 1) == before_push.push(line@));
            i += 1;
        }
        assert(self.state().listing.take(self.aliases.len() as int) == self.state().listing);
        let text = join_rows(&shown, &to_chars("\n"));
        let mut plan: Vec<Effect> = Vec::new();
        plan.push(Effect::Print(from_chars(&text)));
        assert(effects(plan@) =~= seq![EffectView::Print(join(self.state().listing, "\n"@))]);
        Ok(plan)
    }

    /// The aliases that the shell configuration records.
    pub fn find_existing_aliases(&self, env: &Environment) -> (r: Result<Vec<Alias>, CommandError>)
        ensures
            match r {
                Ok(aliases) => existing_aliases(self.state().shell_config_path, env@.shell_config)
                    == Ok::<Seq<AliasView>, ErrorView>(alias_views(aliases@)),
                Err(e) => existing_aliases(self.state().shell_config_path, env@.shell_config)
                    == Err::<Seq<AliasView>, ErrorView>(e@),
            },
    {
        match &env.shell_config {
            Ok(text) => parse_aliases(text.as_str()),
            Err(reason) => Err(
                read_failure_error(self.shell_config_path.as_str(), reason.as_str()),
            ),
        }
    }
}

impl Command for AliasCommand {
    closed spec fn state(&self) -> CommandState {
        CommandState {
            category: Category::Alias,
            args: texts(self.args@),
            available_commands: texts(self.available_commands@),
            shell_config_path: self.shell_config_path@,
            listing: rendered_aliases(alias_views(self.aliases@)),
        }
    }

    fn init(&mut self, args: Vec<String>, env: &Environment) -> (r: Result<(), CommandError>) {
        self.args = args;
        self.shell_config_path = match find_shell_config_path(env.home.as_str(), &env.existing) {
            Ok(path) => path,
            Err(e) => {
                return Err(e);
            },
        };
        self.aliases = match self.find_existing_aliases(env) {
            Ok(aliases) => aliases,
            Err(e) => {
                return Err(e);
            },
        };
        Ok(())
    }

    fn execute(&self, env: &Environment) -> (r: Result<Vec<Effect>, CommandError>) {
        if self.args.len() < 3 {
            return Err(invalid_command_error(&self.available_commands));
        }
        let action = to_chars(self.args[2].as_str());
        assert(texts(self.args@)[2] == action@);
        if same(&action, &to_chars("add")) {
            self.execute_add(env)
        } else if same(&action, &to_chars("list")) {
            self.execute_list()
        } else {
            Err(invalid_command_error(&self.available_commands))
        }
    }
}

/// The text ends in a carriage return, on a line that announces an alias and
/// that no line feed has ended yet.
pub open spec fn ends_in_open_alias(text: Seq<char>) -> bool {
    text.len() > 0 && text.last() == '\r' && contains(lines(text).last(), "alias"@)
}

/// Where every line that announces an alias holds a `=` behind its first
/// word, the text is parsed, into one alias for each such line. The aliases
/// stand in the order of their lines, and their ids count up from one.
pub proof fn lemma_one_alias_for_each_line(text: Seq<char>)
    requires
        forall|i: int|
            0 <= i < lines(text).len() && contains(#[trigger] lines(text)[i], "alias"@)
                ==> definition(lines(text)[i]).contains('='),
    ensures
        parsed_aliases(text) is Ok,
        parsed_aliases(text)->Ok_0.len() == lines(text).filter(announces_alias()).len(),
        forall|i: int|
            0 <= i < parsed_aliases(text)->Ok_0.len() ==> {
                &&& (#[trigger] parsed_aliases(text)->Ok_0[i]).id == decimal((i + 1) as nat)
                &&& parsed_aliases(text)->Ok_0[i] == alias_of(
                    lines(text).filter(announces_alias())[i],
                    (i + 1) as nat,
                )
            },
{
    let bad = lines(text).filter(is_malformed());
    if bad.len() > 0 {
        lines(text).lemma_filter_pred(is_malformed(), 0);
        assert(bad.contains(bad[0]));
        lines(text).lemma_filter_contains_rev(is_malformed(), bad[0]);
        let i = choose|i: int| 0 <= i < lines(text).len() && lines(text)[i] == bad[0];
        assert(contains(lines(text)[i], "alias"@));
    }
}

/// A name that the text records already is refused with `DuplicateEntry`,
/// whatever the value.
pub proof fn lemma_recorded_name_is_refused(text: Seq<char>, i: int, value: Seq<char>)
    requires
        parsed_aliases(text) is Ok,
        0 <= i < parsed_aliases(text)->Ok_0.len(),
    ensures
        added_alias(text, parsed_aliases(text)->Ok_0[i].name, value) == Err::<
            Seq<char>,
            ErrorView,
        >(duplicate()),
{
    let recorded = parsed_aliases(text)->Ok_0;
    assert(names(recorded)[i] == recorded[i].name);
}

/// A phrase that stands in a line without its last character stands in the
/// line.
proof fn lemma_contains_in_longer(line: Seq<char>, pat: Seq<char>)
    requires
        line.len() > 0,
        contains(line.drop_last(), pat),
    ensures
        contains(line, pat),
{
    let i = choose|i: int| occurs_at(line.drop_last(), pat, i);
    assert(line.subrange(i, i + pat.len()) == line.drop_last().subrange(i, i + pat.len()));
    assert(occurs_at(line, pat, i));
}

/// A line feed at the end of a text changes none of the lines that `keep`
/// keeps, where `keep` keeps only lines that announce an alias and the text
/// does not end in a carriage return on such a line.
proof fn lemma_ended_text_keeps_lines(text: Seq<char>, keep: spec_fn(Seq<char>) -> bool)
    requires
        !ends_in_open_alias(text),
        forall|line: Seq<char>| #[trigger] keep(line) ==> contains(line, "alias"@),
    ensures
        lines(text + seq!['\n']).filter(keep) == lines(text).filter(keep),
{
    reveal_strlit("alias");
    lemma_lines_ended(text);
    let all = lines(text);
    if text.len() == 0 || text.last() == '\n' {
        let empty = Seq::<char>::empty();
        all.lemma_filter_push(empty, keep);
        if keep(empty) {
            let i = choose|i: int| occurs_at(empty, "alias"@, i);
            assert(false);
        }
    } else {
        let last = all.last();
        assert(all == all.drop_last().push(last));
        all.drop_last().lemma_filter_push(last, keep);
        all.drop_last().lemma_filter_push(strip_cr(last), keep);
        if text.last() == '\r' {
            assert(strip_cr(last) == last.drop_last());
            if keep(strip_cr(last)) {
                lemma_contains_in_longer(last, "alias"@);
            }
        }
    }
}

/// The line that records a new alias is read back as that alias: the name as
/// it was given, where it holds no `=`, and the value between double quotes.
proof fn lemma_new_line_is_read_back(name: Seq<char>, value: Seq<char>, position: nat)
    requires
        !name.contains('='),
    ensures
        contains("alias "@ + name + "=\""@ + value + "\""@, "alias"@),
        definition("alias "@ + name + "=\""@ + value + "\""@).contains('='),
        alias_of("alias "@ + name + "=\""@ + value + "\""@, position) == (AliasView {
            id: decimal(position),
            name,
            value: "\""@ + value + "\""@,
        }),
{
    reveal_strlit("alias ");
    reveal_strlit("alias");
    reveal_strlit("=\"");
    reveal_strlit("\"");
    let line = "alias "@ + name + "=\""@ + value + "\""@;
    assert(line.subrange(0, 5) == "alias"@);
    assert(occurs_at(line, "alias"@, 0));
    lemma_first_index_is(line, ' ', 5);
    let said = definition(line);
    assert(said == name + "=\""@ + value + "\""@);
    assert(said[name.len() as int] == '=');
    assert forall|j: int| 0 <= j < name.len() implies said[j] != '=' by {
        assert(said[j] == name[j]);
        assert(name.contains(name[j]));
    }
    lemma_first_index_is(said, '=', name.len() as int);
    assert(before(said, '=') == name);
    assert(after(said, '=') == "\""@ + value + "\""@);
}

/// Once an alias is added, the new text is parsed into the aliases of the old
/// text followed by the new one, which has the name that was given and the
/// value between double quotes. This holds for a name without `=` and line
/// feed and a value without line feed, unless the old text ends in a carriage
/// return on a line that announces an alias: the line feed that is put behind
/// it would take that carriage return out of the old alias's value.
pub proof fn lemma_added_alias_is_parsed_last(text: Seq<char>, name: Seq<char>, value: Seq<char>)
    requires
        added_alias(text, name, value) is Ok,
        !name.contains('='),
        !name.contains('\n'),
        !value.contains('\n'),
        !ends_in_open_alias(text),
    ensures
        parsed_aliases(added_alias(text, name, value)->Ok_0) == Ok::<Seq<AliasView>, ErrorView>(
            parsed_aliases(text)->Ok_0.push(
                AliasView {
                    id: decimal(parsed_aliases(text)->Ok_0.len() + 1),
                    name,
                    value: "\""@ + value + "\""@,
                },
            ),
        ),
{
    reveal_strlit("\n# Added by dotcli\nalias ");
    reveal_strlit("# Added by dotcli");
    reveal_strlit("alias ");
    reveal_strlit("alias");
    reveal_strlit("=\"");
    reveal_strlit("\"");
    reveal_strlit("\"\n");
    let feed = seq!['\n'];
    let comment = "# Added by dotcli"@;
    let line = "alias "@ + name + "=\""@ + value + "\""@;
    let new_text = added_alias(text, name, value)->Ok_0;
    assert(new_text == text + feed + (comment + feed + (line + feed)));

    assert forall|j: int| 0 <= j < line.len() implies line[j] != '\n' by {
        if 6 <= j < 6 + name.len() {
            assert(line[j] == name[j - 6]);
            assert(name.contains(name[j - 6]));
        } else if 8 + name.len() <= j < 8 + name.len() + value.len() {
            assert(line[j] == value[j - 8 - name.len()]);
            assert(value.contains(value[j - 8 - name.len()]));
        }
    }
    lemma_lines_of_two(text, comment + feed + (line + feed));
    lemma_lines_of_two(comment, line + feed);
    lemma_lines_of_one(comment);
    lemma_lines_of_one(line);
    let ended = lines(text + feed);
    assert(lines(new_text) == ended.push(comment).push(line));

    lemma_new_line_is_read_back(name, value, (lines(text).filter(announces_alias()).len() + 1) as nat);
    assert(!contains(comment, "alias"@)) by {
        if contains(comment, "alias"@) {
            let i = choose|i: int| occurs_at(comment, "alias"@, i);
            assert(comment.subrange(i, i + 5)[0] == 'a');
        }
    }
    ended.lemma_filter_push(comment, announces_alias());
    ended.lemma_filter_push(comment, is_malformed());
    ended.push(comment).lemma_filter_push(line, announces_alias());
    ended.push(comment).lemma_filter_push(line, is_malformed());
    lemma_ended_text_keeps_lines(text, announces_alias());
    lemma_ended_text_keeps_lines(text, is_malformed());

    let found = lines(text).filter(announces_alias());
    assert(lines(new_text).filter(announces_alias()) == found.push(line));
    assert(lines(new_text).filter(is_malformed()).len() == 0);
    assert(numbered_aliases(found.push(line)) == numbered_aliases(found).push(
        alias_of(line, (found.len() + 1) as nat),
    ));
}

} // verus!
