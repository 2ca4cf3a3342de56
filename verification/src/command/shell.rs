//! Where the shell configuration file is, and what an absolute path is.
use crate::error::CommandError;
use crate::error::ErrorKind;
use crate::error::ErrorView;
use crate::text::first_index;
use crate::text::from_chars;
use crate::text::lemma_first_index;
use crate::text::lemma_first_index_is;
use crate::text::push_all;
use crate::text::slice;
use crate::text::texts;
use crate::text::to_chars;
use vstd::prelude::*;

verus! {

/// The files that may hold the shell configuration, in the order in which
/// they are tried. `~` stands for the home directory.
pub open spec fn candidates() -> Seq<Seq<char>> {
    seq!["~/.zprofile"@, "~/.zshrc"@, "~/.bashrc"@, "~/.bash_profile"@]
}

/// `path` with a `~` at its front replaced by `home`.
pub open spec fn expand_tilde(path: Seq<char>, home: Seq<char>) -> Seq<char> {
    if path.len() > 0 && path[0] == '~' {
        home + path.skip(1)
    } else {
        path
    }
}

/// The candidates with the home directory filled in.
pub open spec fn expanded_candidates(home: Seq<char>) -> Seq<Seq<char>> {
    Seq::new(candidates().len(), |i: int| expand_tilde(candidates()[i], home))
}

/// The error for a home directory that holds none of the candidates.
pub open spec fn no_shell_config() -> ErrorView {
    ErrorView { kind: ErrorKind::NotFound, message: "No shell config found"@ }
}

/// The first candidate that exists. `existing[i]` says whether candidate `i`
/// exists; a candidate without a flag counts as missing.
pub open spec fn located(home: Seq<char>, existing: Seq<bool>) -> Result<Seq<char>, ErrorView> {
    let i = first_index(existing, true);
    if 0 <= i < existing.len() && i < candidates().len() {
        Ok(expanded_candidates(home)[i])
    } else {
        Err(no_shell_config())
    }
}

/// A path is absolute where it starts at the root, `/`.
pub open spec fn is_absolute(path: Seq<char>) -> bool {
    path.len() > 0 && path[0] == '/'
}

/// `path` with a `~` at its front replaced by `home`.
pub fn tilde_to_home(path: &str, home: &str) -> (expanded: String)
    ensures
        expanded@ == expand_tilde(path@, home@),
{
    let chars = to_chars(path);
    if chars.len() > 0 && chars[0] == '~' {
        let mut out = to_chars(home);
        let rest = slice(&chars, 1, chars.len());
        push_all(&mut out, &rest);
        from_chars(&out)
    } else {
        from_chars(&chars)
    }
}

/// The candidate files in the order in which they are tried, with the home
/// directory filled in.
pub fn shell_config_candidates(home: &str) -> (paths: Vec<String>)
    ensures
        texts(paths@) == expanded_candidates(home@),
        paths@.len() == candidates().len(),
{
    let mut paths: Vec<String> = Vec::new();
    paths.push(tilde_to_home("~/.zprofile", home));
    paths.push(tilde_to_home("~/.zshrc", home));
    paths.push(tilde_to_home("~/.bashrc", home));
    paths.push(tilde_to_home("~/.bash_profile", home));
    assert(texts(paths@) =~= expanded_candidates(home@));
    paths
}

/// The shell configuration file: the first candidate that `existing` reports
/// as present, or `NotFound` where it reports none.
pub fn find_shell_config_path(home: &str, existing: &Vec<bool>) -> (r: Result<String, CommandError>)
    ensures
        match r {
            Ok(path) => located(home@, existing@) == Ok::<Seq<char>, ErrorView>(path@),
            Err(e) => located(home@, existing@) == Err::<Seq<char>, ErrorView>(e@),
        },
{
    let possible_paths = shell_config_candidates(home);
    let mut i: usize = 0;
    while i < possible_paths.len() && i < existing.len()
        invariant
            texts(possible_paths@) == expanded_candidates(home@),
            possible_paths@.len() == candidates().len(),
            i <= possible_paths.len(),
            i <= existing.len(),
            forall|j: int| 0 <= j < i ==> !existing@[j],
        decreases possible_paths.len() - i,
    {
        if existing[i] {
            proof {
                lemma_first_index_is(existing@, true, i as int);
                assert(texts(possible_paths@)[i as int] == possible_paths@[i as int]@);
            }
            return Ok(possible_paths[i].clone());
        }
        i += 1;
    }
    proof {
        if i < existing.len() {
            lemma_first_index(existing@, true);
        } else {
            lemma_first_index_is(existing@, true, i as int);
        }
    }
    Err(CommandError::new(ErrorKind::NotFound, "No shell config found"))
}

/// Whether `path` is absolute: whether it starts at the root, `/`.
pub fn is_absolute_path(path: &str) -> (r: bool)
    ensures
        r == is_absolute(path@),
{
    let chars = to_chars(path);
    chars.len() > 0 && chars[0] == '/'
}

/// The first candidate that exists is the one that is located, whether or
/// not any candidate behind it exists.
pub proof fn lemma_first_existing_is_located(home: Seq<char>, existing: Seq<bool>, i: int)
    requires
        0 <= i < candidates().len(),
        i < existing.len(),
        existing[i],
        forall|j: int| 0 <= j < i ==> !existing[j],
    ensures
        located(home, existing) == Ok::<Seq<char>, ErrorView>(
            expand_tilde(candidates()[i], home),
        ),
{
    lemma_first_index_is(existing, true, i);
}

/// Where no candidate exists, none is located.
pub proof fn lemma_none_existing_is_not_found(home: Seq<char>, existing: Seq<bool>)
    requires
        forall|j: int| 0 <= j < existing.len() && j < candidates().len() ==> !existing[j],
    ensures
        located(home, existing) == Err::<Seq<char>, ErrorView>(no_shell_config()),
{
    lemma_first_index(existing, true);
}

} // verus!
