//! The identity resolver: picks the author of a record from the environment
//! and from git configuration, layer by layer.

use vstd::prelude::*;
use crate::text::chars_of;
use crate::text::is_trimmed;
use crate::text::lemma_trim_bounds;
use crate::text::string_of;
use crate::text::trim;
use crate::text::trim_chars;

verus! {

/// The variable that names the author.
pub const AUTHOR_NAME: &'static str = "GIT_AUTHOR_NAME";

/// The variable that holds the author's email.
pub const AUTHOR_EMAIL: &'static str = "GIT_AUTHOR_EMAIL";

/// The variable that names the committer.
pub const COMMITTER_NAME: &'static str = "GIT_COMMITTER_NAME";

/// The variable that holds the committer's email.
pub const COMMITTER_EMAIL: &'static str = "GIT_COMMITTER_EMAIL";

/// The text of an optional string.
pub open spec fn text_of(value: Option<String>) -> Option<Seq<char>> {
    match value {
        Some(s) => Some(s@),
        None => None,
    }
}

/// What a raw source value counts for: its trimmed text, or nothing where it
/// is missing or holds whitespace only.
pub open spec fn present(raw: Option<Seq<char>>) -> Option<Seq<char>> {
    match raw {
        Some(s) => if trim(s).len() > 0 {
            Some(trim(s))
        } else {
            None
        },
        None => None,
    }
}

/// The bindings that the first `n` entries of `vars` make; a later entry
/// overrides an earlier one for the same key.
pub open spec fn bindings(vars: Seq<(String, String)>, n: int) -> Map<Seq<char>, Seq<char>>
    decreases n,
{
    if n <= 0 {
        Map::empty()
    } else {
        bindings(vars, n - 1).insert(vars[n - 1].0@, vars[n - 1].1@)
    }
}

/// Entries that do not name `key` leave its binding as it was.
proof fn lemma_bindings_skip(vars: Seq<(String, String)>, from: int, n: int, key: Seq<char>)
    requires
        0 <= from <= n <= vars.len(),
        forall|j: int| from <= j < n ==> (#[trigger] vars[j]).0@ != key,
    ensures
        bindings(vars, n).contains_key(key) == bindings(vars, from).contains_key(key),
        bindings(vars, n).contains_key(key) ==> bindings(vars, n)[key] == bindings(vars, from)[key],
    decreases n - from,
{
    if from < n {
        lemma_bindings_skip(vars, from, n - 1, key);
    }
}

/// The bindings of the first `n` entries depend on those entries alone.
proof fn lemma_bindings_prefix(a: Seq<(String, String)>, b: Seq<(String, String)>, n: int)
    requires
        n <= a.len(),
        n <= b.len(),
        forall|j: int| 0 <= j < n ==> a[j] == b[j],
    ensures
        bindings(a, n) == bindings(b, n),
    decreases n,
{
    if n > 0 {
        lemma_bindings_prefix(a, b, n - 1);
    }
}

/// A snapshot of environment variables, handed to the resolver in place of
/// the process environment.
pub struct Env {
    vars: Vec<(String, String)>,
}

impl View for Env {
    type V = Map<Seq<char>, Seq<char>>;

    closed spec fn view(&self) -> Map<Seq<char>, Seq<char>> {
        bindings(self.vars@, self.vars@.len() as int)
    }
}

impl Env {
    /// What the snapshot holds for `key`.
    pub open spec fn var(&self, key: Seq<char>) -> Option<Seq<char>> {
        if self@.contains_key(key) {
            Some(self@[key])
        } else {
            None
        }
    }

    /// A snapshot without variables.
    pub fn new() -> (env: Env)
        ensures
            env@ == Map::<Seq<char>, Seq<char>>::empty(),
    {
        Env { vars: Vec::new() }
    }

    /// Binds `key` to `value`, in place of what it was bound to.
    pub fn set(&mut self, key: &str, value: &str)
        ensures
            final(self)@ == old(self)@.insert(key@, value@),
    {
        self.vars.push((key.to_owned(), value.to_owned()));
        proof {
            lemma_bindings_prefix(old(self).vars@, self.vars@, old(self).vars@.len() as int);
        }
    }

    /// The value bound to `key`, if any.
    pub fn get(&self, key: &str) -> (value: Option<String>)
        ensures
            text_of(value) == self.var(key@),
    {
        let wanted = key.to_owned();
        let mut i: usize = self.vars.len();
        while i > 0
            invariant
                i <= self.vars.len(),
                wanted@ == key@,
                forall|j: int| i <= j < self.vars.len() ==> (#[trigger] self.vars@[j]).0@ != key@,
            decreases i,
        {
            i -= 1;
            if self.vars[i].0 == wanted {
                proof {
                    lemma_bindings_skip(self.vars@, i + 1, self.vars@.len() as int, key@);
                }
                return Some(self.vars[i].1.clone());
            }
        }
        proof {
            lemma_bindings_skip(self.vars@, 0, self.vars@.len() as int, key@);
        }
        None
    }
}

/// Trims `raw` and counts a value left empty as missing.
pub fn normalize(raw: &Option<String>) -> (value: Option<String>)
    ensures
        text_of(value) == present(text_of(*raw)),
{
    match raw {
        Some(s) => {
            let trimmed = trim_chars(&chars_of(s.as_str()));
            if trimmed.len() == 0 {
                None
            } else {
                Some(string_of(&trimmed))
            }
        },
        None => None,
    }
}

/// The value of `key` in `env`, trimmed; nothing where the variable is
/// missing or holds whitespace only.
pub fn env_nonempty(env: &Env, key: &str) -> (value: Option<String>)
    ensures
        text_of(value) == present(env.var(key@)),
{
    normalize(&env.get(key))
}

/// What one source has to say: a name and an email, either of which may be
/// missing.
pub struct Layer {
    pub name: Option<String>,
    pub email: Option<String>,
}

/// A name and an email as far as they are known.
pub struct Known {
    pub name: Option<Seq<char>>,
    pub email: Option<Seq<char>>,
}

impl Known {
    /// Nothing known.
    pub open spec fn nothing() -> Known {
        Known { name: None, email: None }
    }

    /// Whether both the name and the email are known.
    pub open spec fn complete(self) -> bool {
        self.name is Some && self.email is Some
    }

    /// `self` with its gaps filled from `lower`: what is known stays.
    pub open spec fn filled_from(self, lower: Known) -> Known {
        Known {
            name: if self.name is Some {
                self.name
            } else {
                lower.name
            },
            email: if self.email is Some {
                self.email
            } else {
                lower.email
            },
        }
    }

    /// The identity that `self` amounts to: `name <email>` where both are
    /// known, nothing otherwise.
    pub open spec fn identity(self) -> Option<Seq<char>> {
        if self.complete() {
            Some(display(self.name->0, self.email->0))
        } else {
            None
        }
    }
}

/// The display form of an identity: the name, a space, and the email in angle
/// brackets.
pub open spec fn display(name: Seq<char>, email: Seq<char>) -> Seq<char> {
    name + " <"@ + email + ">"@
}

/// What a source counts for once its values are trimmed; a source that could
/// not be read counts for nothing.
pub open spec fn stated(layer: Option<&Layer>) -> Known {
    match layer {
        Some(l) => Known { name: present(text_of(l.name)), email: present(text_of(l.email)) },
        None => Known::nothing(),
    }
}

/// What the author pair of `env` states.
pub open spec fn author(env: Env) -> Known {
    Known { name: present(env.var(AUTHOR_NAME@)), email: present(env.var(AUTHOR_EMAIL@)) }
}

/// What the committer pair of `env` states.
pub open spec fn committer(env: Env) -> Known {
    Known { name: present(env.var(COMMITTER_NAME@)), email: present(env.var(COMMITTER_EMAIL@)) }
}

/// The identity that four layers resolve to, highest priority first: each
/// lower layer fills only what the layers above it left open.
pub open spec fn resolved(first: Known, second: Known, third: Known, fourth: Known) -> Option<
    Seq<char>,
> {
    first.filled_from(second).filled_from(third).filled_from(fourth).identity()
}

/// The first of four optional values that is there, if any is.
pub open spec fn highest(
    first: Option<Seq<char>>,
    second: Option<Seq<char>>,
    third: Option<Seq<char>>,
    fourth: Option<Seq<char>>,
) -> Option<Seq<char>> {
    if first is Some {
        first
    } else if second is Some {
        second
    } else if third is Some {
        third
    } else {
        fourth
    }
}

/// A value that counts is trimmed and not empty.
pub proof fn lemma_present_is_trimmed(raw: Option<Seq<char>>)
    ensures
        present(raw) matches Some(text) ==> text.len() > 0 && is_trimmed(text),
{
    if let Some(s) = raw {
        lemma_trim_bounds(s);
    }
}

/// Where the first layer states both a name and an email, the identity is
/// that pair, whatever the lower layers state.
pub proof fn lemma_first_pair_wins(first: Known, second: Known, third: Known, fourth: Known)
    requires
        first.complete(),
    ensures
        resolved(first, second, third, fourth) == Some(display(first.name->0, first.email->0)),
{
}

/// Where the first layer states nothing and the second states both a name
/// and an email, the identity is the second pair.
pub proof fn lemma_second_pair_used(second: Known, third: Known, fourth: Known)
    requires
        second.complete(),
    ensures
        resolved(Known::nothing(), second, third, fourth) == Some(
            display(second.name->0, second.email->0),
        ),
{
}

/// Each part of the identity comes from the highest layer that states it,
/// and there is an identity exactly where some layer states a name and some
/// layer states an email.
pub proof fn lemma_resolution(first: Known, second: Known, third: Known, fourth: Known)
    ensures
        ({
            let name = highest(first.name, second.name, third.name, fourth.name);
            let email = highest(first.email, second.email, third.email, fourth.email);
            resolved(first, second, third, fourth) == if name is Some && email is Some {
                Some(display(name->0, email->0))
            } else {
                None
            }
        }),
        resolved(Known::nothing(), Known::nothing(), Known::nothing(), Known::nothing()) is None,
{
}

/// Run to its end, the resolver gives what the layers resolve to: it is done
/// at once where the environment states both parts, asks for the repository's
/// configuration otherwise, and for the user's only where the two together
/// still leave a part open.
pub proof fn lemma_steps_resolve(first: Known, second: Known, repo: Known, global: Known)
    ensures
        ({
            let at_start = first.filled_from(second);
            let after_repo = at_start.filled_from(repo);
            let after_global = after_repo.filled_from(global);
            let outcome = StepText::Done(resolved(first, second, repo, global));
            if at_start.complete() {
                Resolver::step_after(at_start, 0) == outcome
            } else if after_repo.complete() {
                &&& Resolver::step_after(at_start, 0) == StepText::Read(Source::Repository)
                &&& Resolver::step_after(after_repo, 1) == outcome
            } else {
                &&& Resolver::step_after(at_start, 0) == StepText::Read(Source::Repository)
                &&& Resolver::step_after(after_repo, 1) == StepText::Read(Source::Global)
                &&& Resolver::step_after(after_global, 2) == outcome
            }
        }),
{
}

/// Writes an identity in its display form.
pub fn format_identity(name: &str, email: &str) -> (text: String)
    ensures
        text@ == display(name@, email@),
{
    let mut text = name.to_owned();
    text.append(" <");
    text.append(email);
    text.append(">");
    text
}

/// The configuration that the resolver asks for.
#[derive(Clone, Copy, PartialEq, Eq, Structural, Debug)]
pub enum Source {
    /// The configuration of the repository around the working directory.
    Repository,
    /// The configuration of the user, whatever the repository.
    Global,
}

/// What the resolver wants done next.
#[derive(Debug)]
pub enum Step {
    /// Read this configuration and hand in what it holds.
    Read(Source),
    /// Resolution is over, with this identity or without one.
    Done(Option<String>),
}

/// An identity resolution under way: what is known so far, and how many
/// configurations have been handed in.
pub struct Resolver {
    name: Option<String>,
    email: Option<String>,
    consulted: u8,
}

impl Resolver {
    /// What is known so far.
    pub closed spec fn known(&self) -> Known {
        Known { name: text_of(self.name), email: text_of(self.email) }
    }

    /// How many configurations have been handed in: 0, 1 or 2.
    pub closed spec fn consulted(&self) -> int {
        self.consulted as int
    }

    /// The step that follows a state: done as soon as both parts are known or
    /// both configurations were handed in; else the next configuration.
    pub open spec fn step_after(known: Known, consulted: int) -> StepText {
        if known.complete() || consulted >= 2 {
            StepText::Done(known.identity())
        } else if consulted <= 0 {
            StepText::Read(Source::Repository)
        } else {
            StepText::Read(Source::Global)
        }
    }

    /// Starts a resolution from the environment: the author pair, its gaps
    /// filled from the committer pair.
    pub fn start(env: &Env) -> (resolver: Resolver)
        ensures
            resolver.known() == author(*env).filled_from(committer(*env)),
            resolver.consulted() == 0,
    {
        let mut name = env_nonempty(env, AUTHOR_NAME);
        if name.is_none() {
            name = env_nonempty(env, COMMITTER_NAME);
        }
        let mut email = env_nonempty(env, AUTHOR_EMAIL);
        if email.is_none() {
            email = env_nonempty(env, COMMITTER_EMAIL);
        }
        Resolver { name, email, consulted: 0 }
    }

    /// What to do next.
    pub fn step(&self) -> (step: Step)
        ensures
            step_text(step) == Self::step_after(self.known(), self.consulted()),
    {
        match (&self.name, &self.email) {
            (Some(name), Some(email)) => Step::Done(
                Some(format_identity(name.as_str(), email.as_str())),
            ),
            _ => if self.consulted >= 2 {
                Step::Done(None)
            } else if self.consulted == 0 {
                Step::Read(Source::Repository)
            } else {
                Step::Read(Source::Global)
            },
        }
    }

    /// Hands in what the configuration asked for holds, or `None` where it
    /// could not be read: its values fill what is still open. Once both
    /// configurations were handed in, nothing more is taken.
    pub fn supply(&mut self, layer: Option<&Layer>)
        ensures
            old(self).consulted() < 2 ==> final(self).known() == old(self).known().filled_from(
                stated(layer),
            ) && final(self).consulted() == old(self).consulted() + 1,
            old(self).consulted() >= 2 ==> final(self).known() == old(self).known()
                && final(self).consulted() == old(self).consulted(),
    {
        if self.consulted >= 2 {
            return ;
        }
        if let Some(l) = layer {
            if self.name.is_none() {
                self.name = normalize(&l.name);
            }
            if self.email.is_none() {
                self.email = normalize(&l.email);
            }
        }
        self.consulted = self.consulted + 1;
    }
}

/// A step with the text of its identity.
pub enum StepText {
    Read(Source),
    Done(Option<Seq<char>>),
}

/// The text of a step.
pub open spec fn step_text(step: Step) -> StepText {
    match step {
        Step::Read(source) => StepText::Read(source),
        Step::Done(identity) => StepText::Done(text_of(identity)),
    }
}

/// The identity as `name <email>`, resolved from the environment, then from
/// the repository's configuration, then from the user's; `None` where a name
/// or an email is found nowhere.
pub fn get_identity(env: &Env, repo: Option<&Layer>, global: Option<&Layer>) -> (identity: Option<
    String,
>)
    ensures
        text_of(identity) == resolved(
            author(*env),
            committer(*env),
            stated(repo),
            stated(global),
        ),
{
    let mut resolver = Resolver::start(env);
    if let Step::Done(identity) = resolver.step() {
        return identity;
    }
    resolver.supply(repo);
    if let Step::Done(identity) = resolver.step() {
        return identity;
    }
    resolver.supply(global);
    match resolver.step() {
        Step::Done(identity) => identity,
        Step::Read(_) => None,
    }
}

} // verus!
