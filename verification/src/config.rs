//! The configuration data model and the variable resolver.
//!
//! A configuration is immutable once built.  Its three tables (`vars`,
//! `hosts`, `tasks`) are association lists keyed by strings; lookup returns
//! the first entry whose key matches.  Strings in the configuration may
//! contain `{{name}}` placeholders, substituted by the variable resolver.

use vstd::prelude::*;
use vstd::string::*;

verus! {

/// An inline, self-contained task definition: an optional display name and
/// the shell command it runs.
#[derive(Debug)]
pub struct LiteralTaskDefinition {
    pub name: Option<String>,
    pub exec_command: String,
}

/// An entry of a host's task list: either a bare reference into the global
/// task pool, or an inline literal definition.
#[derive(Debug)]
pub enum TaskDefinition {
    Ref(String),
    Literal(LiteralTaskDefinition),
}

/// How a link declaration is materialized on the filesystem.
#[derive(Clone, Copy, PartialEq, Eq, Structural, Debug)]
pub enum LinkKind {
    Hard,
    Soft,
    Copy,
}

/// A declarative filesystem link: source and destination path strings (which
/// may contain variable placeholders), an optional display name used for
/// selective linking, and an optional kind (defaulting to soft).
#[derive(Debug)]
pub struct LinkDefinition {
    pub from: String,
    pub to: String,
    pub name: Option<String>,
    pub kind: Option<LinkKind>,
}

/// The task and link lists declared for one host.  Order is significant:
/// it is the execution order.
#[derive(Debug)]
pub struct ConfigHost {
    pub tasks: Vec<TaskDefinition>,
    pub links: Vec<LinkDefinition>,
}

/// A whole configuration: the variable table, the per-host sections, and the
/// global task pool.
#[derive(Debug)]
pub struct Config {
    pub vars: Vec<(String, String)>,
    pub hosts: Vec<(String, ConfigHost)>,
    pub tasks: Vec<(String, LiteralTaskDefinition)>,
}

/// Why a string could not be resolved: a placeholder named a variable absent
/// from the table, or substitution did not reach a fixed point within the
/// iteration bound (a circular chain of variable definitions).
#[derive(Debug)]
pub enum VariableResolutionError {
    UndefinedVariable(String),
    CircularVariableReference(String),
}

impl VariableResolutionError {
    /// A human-readable description of the error.
    pub fn message(&self) -> (r: String)
        ensures
            match self {
                VariableResolutionError::UndefinedVariable(n) => r@ == "Undefined variable: "@
                    + n@,
                VariableResolutionError::CircularVariableReference(n) => r@
                    == "Circular variable reference: "@ + n@,
            },
    {
        match self {
            VariableResolutionError::UndefinedVariable(n) => {
                let mut m = String::from_str("Undefined variable: ");
                m.append(n.as_str());
                m
            },
            VariableResolutionError::CircularVariableReference(n) => {
                let mut m = String::from_str("Circular variable reference: ");
                m.append(n.as_str());
                m
            },
        }
    }
}

fn clone_string_option(o: &Option<String>) -> (r: Option<String>)
    ensures
        r == *o,
{
    match o {
        Some(s) => Some(s.clone()),
        None => None,
    }
}

impl Clone for LiteralTaskDefinition {
    fn clone(&self) -> (res: Self)
        ensures
            res == *self,
    {
        LiteralTaskDefinition {
            name: clone_string_option(&self.name),
            exec_command: self.exec_command.clone(),
        }
    }
}

impl Clone for LinkDefinition {
    fn clone(&self) -> (res: Self)
        ensures
            res == *self,
    {
        LinkDefinition {
            from: self.from.clone(),
            to: self.to.clone(),
            name: clone_string_option(&self.name),
            kind: self.kind,
        }
    }
}

/// First-match lookup in an association list, by string contents.
pub open spec fn lookup_spec<V>(entries: Seq<(String, V)>, key: Seq<char>) -> Option<V>
    decreases entries.len(),
{
    if entries.len() == 0 {
        None
    } else if entries[0].0@ == key {
        Some(entries[0].1)
    } else {
        lookup_spec(entries.drop_first(), key)
    }
}

/// Finds the first entry whose key equals `key`, if any.
pub fn lookup_entry<'a, V>(entries: &'a Vec<(String, V)>, key: &String) -> (r: Option<&'a V>)
    ensures
        match r {
            Some(v) => lookup_spec(entries@, key@) == Some(*v),
            None => lookup_spec(entries@, key@) is None,
        },
{
    let n = entries.len();
    let mut idx: usize = 0;
    proof {
        assert(entries@.skip(0) =~= entries@);
    }
    while idx < n
        invariant
            idx <= n,
            n == entries@.len(),
            lookup_spec(entries@, key@) == lookup_spec(entries@.skip(idx as int), key@),
        decreases n - idx,
    {
        proof {
            assert(entries@.skip(idx as int)[0] == entries@[idx as int]);
        }
        if entries[idx].0 == *key {
            return Some(&entries[idx].1);
        }
        proof {
            assert(entries@.skip(idx as int).drop_first() =~= entries@.skip(idx as int + 1));
        }
        idx += 1;
    }
    proof {
        assert(entries@.skip(n as int) =~= Seq::<(String, V)>::empty());
    }
    None
}

/// How many substitution passes the resolver is willing to make before it
/// suspects a circular chain of variable definitions and gives up.
pub const MAX_RESOLVE_PASSES: usize = 1000;

/// A word character, as placeholder identifiers are made of: an ASCII
/// letter, digit, or underscore.
pub open spec fn is_word_char(c: char) -> bool {
    let u = c as u32;
    (('a' as u32) <= u && u <= ('z' as u32)) || (('A' as u32) <= u && u <= ('Z' as u32)) || ((
    '0' as u32) <= u && u <= ('9' as u32)) || u == ('_' as u32)
}

/// The position just past the run of word characters that starts at `k`.
pub open spec fn word_run_end(s: Seq<char>, k: int) -> int
    decreases s.len() - k,
{
    if 0 <= k < s.len() && is_word_char(s[k]) {
        word_run_end(s, k + 1)
    } else {
        k
    }
}

/// Whether a placeholder starts at position `i` of `s`, and where it ends if
/// so.  A placeholder is `{{`, an identifier (a first character other than
/// `}`, then word characters), and `}}`; the returned position is just past
/// the closing braces.
pub open spec fn placeholder_end_at(s: Seq<char>, i: int) -> Option<int> {
    if 0 <= i && i + 2 < s.len() && s[i] == '{' && s[i + 1] == '{' && s[i + 2] != '}' {
        let m = word_run_end(s, i + 3);
        if m + 1 < s.len() && s[m] == '}' && s[m + 1] == '}' {
            Some(m + 2)
        } else {
            None
        }
    } else {
        None
    }
}

/// The leftmost placeholder of `s` at or after position `i`, as a (start,
/// end) pair of positions.
pub open spec fn first_placeholder_from(s: Seq<char>, i: int) -> Option<(int, int)>
    decreases s.len() - i,
{
    if i < 0 || i >= s.len() {
        None
    } else {
        match placeholder_end_at(s, i) {
            Some(end) => Some((i, end)),
            None => first_placeholder_from(s, i + 1),
        }
    }
}

/// The leftmost placeholder of `s`, if any.
pub open spec fn first_placeholder(s: Seq<char>) -> Option<(int, int)> {
    first_placeholder_from(s, 0)
}

/// The identifier between the braces of a placeholder spanning `[start, end)`.
pub open spec fn placeholder_name(s: Seq<char>, start: int, end: int) -> Seq<char> {
    s.subrange(start + 2, end - 2)
}

/// What repeated substitution makes of a string: the fully resolved text, or
/// the name of the first undefined variable met, or — when the pass budget
/// runs out — the name of the placeholder that was still pending.
pub enum ResolveOutcome {
    Resolved(Seq<char>),
    Undefined(Seq<char>),
    Cyclic(Seq<char>),
}

/// Repeated substitution, leftmost placeholder first, restarting from the
/// start of the updated string after each replacement, with at most `fuel`
/// replacements.
pub open spec fn resolve_spec(vars: Seq<(String, String)>, s: Seq<char>, fuel: nat) -> ResolveOutcome
    decreases fuel,
{
    match first_placeholder(s) {
        None => ResolveOutcome::Resolved(s),
        Some((start, end)) => {
            let name = placeholder_name(s, start, end);
            match lookup_spec(vars, name) {
                None => ResolveOutcome::Undefined(name),
                Some(value) => {
                    if fuel == 0 {
                        ResolveOutcome::Cyclic(name)
                    } else {
                        resolve_spec(
                            vars,
                            s.subrange(0, start) + value@ + s.subrange(end, s.len() as int),
                            (fuel - 1) as nat,
                        )
                    }
                },
            }
        },
    }
}

/// The error that resolving `text` against `vars` produces, when it fails.
pub open spec fn resolution_failed(
    vars: Seq<(String, String)>,
    text: Seq<char>,
    e: VariableResolutionError,
) -> bool {
    match e {
        VariableResolutionError::UndefinedVariable(name) => resolve_spec(
            vars,
            text,
            MAX_RESOLVE_PASSES as nat,
        ) == ResolveOutcome::Undefined(name@),
        VariableResolutionError::CircularVariableReference(name) => resolve_spec(
            vars,
            text,
            MAX_RESOLVE_PASSES as nat,
        ) == ResolveOutcome::Cyclic(name@),
    }
}

/// A string in which no `{` occurs cannot contain a placeholder.
pub proof fn lemma_no_brace_no_placeholder(s: Seq<char>, i: int)
    requires
        forall|k: int| 0 <= k < s.len() ==> s[k] != '{',
    ensures
        first_placeholder_from(s, i) is None,
    decreases s.len() - i,
{
    if 0 <= i < s.len() {
        lemma_no_brace_no_placeholder(s, i + 1);
    }
}

/// Resolution leaves a string without placeholders unchanged, whatever the
/// variable table holds.
pub proof fn lemma_resolve_without_placeholder(vars: Seq<(String, String)>, s: Seq<char>, fuel: nat)
    requires
        first_placeholder(s) is None,
    ensures
        resolve_spec(vars, s, fuel) == ResolveOutcome::Resolved(s),
{
}

/// When the leftmost placeholder names a variable absent from the table,
/// resolution fails with exactly that name — it never substitutes a default.
pub proof fn lemma_resolve_undefined_variable(
    vars: Seq<(String, String)>,
    s: Seq<char>,
    fuel: nat,
    start: int,
    end: int,
)
    requires
        first_placeholder(s) == Some((start, end)),
        lookup_spec(vars, placeholder_name(s, start, end)) is None,
    ensures
        resolve_spec(vars, s, fuel) == ResolveOutcome::Undefined(placeholder_name(s, start, end)),
{
}

fn word_char(c: char) -> (r: bool)
    ensures
        r == is_word_char(c),
{
    let u = c as u32;
    (('a' as u32) <= u && u <= ('z' as u32)) || (('A' as u32) <= u && u <= ('Z' as u32)) || ((
    '0' as u32) <= u && u <= ('9' as u32)) || u == ('_' as u32)
}

/// Whether a placeholder starts at position `i`, and where it ends.
fn placeholder_end_from(s: &str, i: usize, n: usize) -> (r: Option<usize>)
    requires
        n == s@.len(),
        i < n,
    ensures
        match r {
            Some(end) => placeholder_end_at(s@, i as int) == Some(end as int) && i + 5 <= end
                && end <= n,
            None => placeholder_end_at(s@, i as int) is None,
        },
{
    if n - i <= 2 {
        return None;
    }
    if s.get_char(i) != '{' || s.get_char(i + 1) != '{' {
        return None;
    }
    if s.get_char(i + 2) == '}' {
        return None;
    }
    let mut m: usize = i + 3;
    while m < n && word_char(s.get_char(m))
        invariant
            i + 3 <= m <= n,
            n == s@.len(),
            word_run_end(s@, i as int + 3) == word_run_end(s@, m as int),
        decreases n - m,
    {
        m += 1;
    }
    proof {
        assert(word_run_end(s@, m as int) == m as int);
    }
    if n - m <= 1 {
        return None;
    }
    if s.get_char(m) == '}' && s.get_char(m + 1) == '}' {
        Some(m + 2)
    } else {
        None
    }
}

/// The leftmost placeholder of `s`, as (start, end) character positions.
pub fn find_placeholder(s: &str) -> (r: Option<(usize, usize)>)
    ensures
        match r {
            Some(pair) => first_placeholder(s@) == Some((pair.0 as int, pair.1 as int)) && pair.0
                + 5 <= pair.1 && pair.1 <= s@.len(),
            None => first_placeholder(s@) is None,
        },
{
    let n = s.unicode_len();
    let mut i: usize = 0;
    while i < n
        invariant
            i <= n,
            n == s@.len(),
            first_placeholder(s@) == first_placeholder_from(s@, i as int),
        decreases n - i,
    {
        match placeholder_end_from(s, i, n) {
            Some(end) => {
                return Some((i, end));
            },
            None => {},
        }
        i += 1;
    }
    None
}

/// `s` with the span `[start, end)` replaced by `value`.
fn splice(s: &str, start: usize, end: usize, value: &str) -> (r: String)
    requires
        start <= end <= s@.len(),
    ensures
        r@ == s@.subrange(0, start as int) + value@ + s@.subrange(end as int, s@.len() as int),
{
    let n = s.unicode_len();
    let prefix = s.substring_char(0, start);
    let suffix = s.substring_char(end, n);
    let mut out = prefix.to_owned();
    out.append(value);
    out.append(suffix);
    out
}

impl Config {
    /// Resolves every `{{name}}` placeholder in `text` against the variable
    /// table.  Substitution is iterative: after one replacement the scan
    /// restarts on the updated string, so a substituted value may itself
    /// contain placeholders that later passes resolve.  Fails on the first
    /// placeholder whose name is not in the table, and — since a cyclic
    /// variable table would otherwise loop forever — after
    /// `MAX_RESOLVE_PASSES` replacements.
    pub fn resolve_variable_string(&self, text: String) -> (r: Result<
        String,
        VariableResolutionError,
    >)
        ensures
            match r {
                Ok(resolved) => resolve_spec(self.vars@, text@, MAX_RESOLVE_PASSES as nat)
                    == ResolveOutcome::Resolved(resolved@),
                Err(e) => resolution_failed(self.vars@, text@, e),
            },
    {
        let mut current = text;
        let mut fuel: usize = MAX_RESOLVE_PASSES;
        loop
            invariant
                resolve_spec(self.vars@, current@, fuel as nat) == resolve_spec(
                    self.vars@,
                    text@,
                    MAX_RESOLVE_PASSES as nat,
                ),
            decreases fuel,
        {
            match find_placeholder(current.as_str()) {
                None => {
                    return Ok(current);
                },
                Some((start, end)) => {
                    let name = current.as_str().substring_char(start + 2, end - 2).to_owned();
                    match lookup_entry(&self.vars, &name) {
                        None => {
                            return Err(VariableResolutionError::UndefinedVariable(name));
                        },
                        Some(value) => {
                            if fuel == 0 {
                                return Err(
                                    VariableResolutionError::CircularVariableReference(name),
                                );
                            }
                            current = splice(current.as_str(), start, end, value.as_str());
                            fuel -= 1;
                        },
                    }
                },
            }
        }
    }
}

} // verus!
