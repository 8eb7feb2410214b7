//! The runner: resolves what each subcommand has to do against the loaded
//! configuration.
//!
//! The runner turns a subcommand into a plan of concrete actions — resolved
//! task definitions and link declarations — validating every task reference
//! before anything would run.  The unverified shell around the crate carries
//! the plan out: it spawns each task's command and performs each link
//! operation, calling back into [`Runner::prepare_task_command`] and
//! [`Runner::plan_link`] for the per-step variable resolution, in the same
//! order and at the same point where the side effects happen.

use crate::config::{
    Config, ConfigHost, LinkDefinition, LinkKind, LiteralTaskDefinition, TaskDefinition,
    VariableResolutionError, ResolveOutcome, MAX_RESOLVE_PASSES, lookup_spec, lookup_entry,
    resolve_spec, resolution_failed,
};
use crate::opts::{ExecCmd, InstallCmd, LinkCmd, SubCommand};
use vstd::prelude::*;

verus! {

/// The errors a subcommand can end with.
#[derive(Debug)]
pub enum ExecError {
    NoHostname,
    NoConfigFound(String),
    NoTaskFound(String),
    RunFailure(String, String),
    MetadataFailure(String),
}

impl ExecError {
    /// A human-readable description of the error.
    pub fn message(&self) -> (r: String)
        ensures
            match self {
                ExecError::NoHostname => r@ == "Could not get hostname"@,
                ExecError::NoConfigFound(h) => r@ == "No config found for hostname "@ + h@,
                ExecError::NoTaskFound(t) => r@ == "Could not find task named "@ + t@,
                ExecError::RunFailure(command, status) => r@ == "Task "@ + command@
                    + " failed with "@ + status@,
                ExecError::MetadataFailure(p) => r@ == "Could not retrieve metadata for file "@
                    + p@,
            },
    {
        match self {
            ExecError::NoHostname => String::from_str("Could not get hostname"),
            ExecError::NoConfigFound(h) => {
                let mut m = String::from_str("No config found for hostname ");
                m.append(h.as_str());
                m
            },
            ExecError::NoTaskFound(t) => {
                let mut m = String::from_str("Could not find task named ");
                m.append(t.as_str());
                m
            },
            ExecError::RunFailure(command, status) => {
                let mut m = String::from_str("Task ");
                m.append(command.as_str());
                m.append(" failed with ");
                m.append(status.as_str());
                m
            },
            ExecError::MetadataFailure(p) => {
                let mut m = String::from_str("Could not retrieve metadata for file ");
                m.append(p.as_str());
                m
            },
        }
    }
}

/// The first literal task of `tasks` whose declared name is `name`.
/// References are never considered: only an inline definition can shadow a
/// global task.
pub open spec fn find_literal_spec(tasks: Seq<TaskDefinition>, name: Seq<char>) -> Option<
    LiteralTaskDefinition,
>
    decreases tasks.len(),
{
    if tasks.len() == 0 {
        None
    } else {
        match tasks[0] {
            TaskDefinition::Literal(lit) => match lit.name {
                Some(n) => if n@ == name {
                    Some(lit)
                } else {
                    find_literal_spec(tasks.drop_first(), name)
                },
                None => find_literal_spec(tasks.drop_first(), name),
            },
            TaskDefinition::Ref(_) => find_literal_spec(tasks.drop_first(), name),
        }
    }
}

/// Resolution of a single task name for a host: a literal task of the host's
/// own list takes precedence; otherwise the global pool decides.
pub open spec fn resolve_one_spec(
    host: ConfigHost,
    global: Seq<(String, LiteralTaskDefinition)>,
    name: Seq<char>,
) -> Option<LiteralTaskDefinition> {
    match find_literal_spec(host.tasks@, name) {
        Some(lit) => Some(lit),
        None => lookup_spec(global, name),
    }
}

/// Resolution of a host's whole task list, in declaration order: a reference
/// is looked up in the global pool, a literal passes through unchanged.  The
/// first reference absent from the pool fails the whole list with its name;
/// nothing is skipped or deduplicated.
pub open spec fn resolve_tasks_spec(
    tasks: Seq<TaskDefinition>,
    global: Seq<(String, LiteralTaskDefinition)>,
) -> Result<Seq<LiteralTaskDefinition>, Seq<char>>
    decreases tasks.len(),
{
    if tasks.len() == 0 {
        Ok(Seq::empty())
    } else {
        let rest = resolve_tasks_spec(tasks.drop_first(), global);
        match tasks[0] {
            TaskDefinition::Ref(name) => match lookup_spec(global, name@) {
                None => Err(name@),
                Some(lit) => match rest {
                    Ok(r) => Ok(seq![lit] + r),
                    Err(e) => Err(e),
                },
            },
            TaskDefinition::Literal(lit) => match rest {
                Ok(r) => Ok(seq![lit] + r),
                Err(e) => Err(e),
            },
        }
    }
}

/// Whether some selector names `name`.
pub open spec fn selector_match(selectors: Seq<String>, name: Seq<char>) -> bool {
    exists|k: int| 0 <= k < selectors.len() && selectors[k]@ == name
}

/// Whether a link is picked by a non-empty selector list: only a link with a
/// declared name can be, and only when a selector equals that name.
pub open spec fn link_selected(link: LinkDefinition, selectors: Seq<String>) -> bool {
    match link.name {
        Some(n) => selector_match(selectors, n@),
        None => false,
    }
}

/// The links picked by a non-empty selector list, in declaration order.
pub open spec fn filter_links_spec(links: Seq<LinkDefinition>, selectors: Seq<String>) -> Seq<
    LinkDefinition,
>
    decreases links.len(),
{
    if links.len() == 0 {
        Seq::empty()
    } else {
        let rest = filter_links_spec(links.drop_first(), selectors);
        if link_selected(links[0], selectors) {
            seq![links[0]] + rest
        } else {
            rest
        }
    }
}

/// What the link subcommand applies: every link of the host when no selector
/// is given, else exactly the selected ones.
pub open spec fn select_links_spec(links: Seq<LinkDefinition>, selectors: Seq<String>) -> Seq<
    LinkDefinition,
> {
    if selectors.len() == 0 {
        links
    } else {
        filter_links_spec(links, selectors)
    }
}

/// The two ways planning a subcommand can fail: no section for the host, or
/// a task name that resolves nowhere.
pub enum PlanFailure {
    NoConfig(Seq<char>),
    NoTask(Seq<char>),
}

/// Whether the error value `e` reports the planning failure `f`.
pub open spec fn failure_matches(e: ExecError, f: PlanFailure) -> bool {
    match (e, f) {
        (ExecError::NoConfigFound(h), PlanFailure::NoConfig(n)) => h@ == n,
        (ExecError::NoTaskFound(t), PlanFailure::NoTask(n)) => t@ == n,
        _ => false,
    }
}

/// What installing on a host comes to: its fully resolved task list and its
/// declared links, or the first failure.
pub open spec fn install_spec(config: Config, hostname: Seq<char>) -> Result<
    (Seq<LiteralTaskDefinition>, Seq<LinkDefinition>),
    PlanFailure,
> {
    match lookup_spec(config.hosts@, hostname) {
        None => Err(PlanFailure::NoConfig(hostname)),
        Some(host) => match resolve_tasks_spec(host.tasks@, config.tasks@) {
            Err(name) => Err(PlanFailure::NoTask(name)),
            Ok(tasks) => Ok((tasks, host.links@)),
        },
    }
}

/// What the link subcommand comes to for a host and selector list.
pub open spec fn link_cmd_spec(config: Config, hostname: Seq<char>, selectors: Seq<String>) -> Result<
    Seq<LinkDefinition>,
    PlanFailure,
> {
    match lookup_spec(config.hosts@, hostname) {
        None => Err(PlanFailure::NoConfig(hostname)),
        Some(host) => Ok(select_links_spec(host.links@, selectors)),
    }
}

/// What the exec subcommand comes to for a host and task name.
pub open spec fn exec_cmd_spec(config: Config, hostname: Seq<char>, task_name: Seq<char>) -> Result<
    LiteralTaskDefinition,
    PlanFailure,
> {
    match lookup_spec(config.hosts@, hostname) {
        None => Err(PlanFailure::NoConfig(hostname)),
        Some(host) => match resolve_one_spec(host, config.tasks@, task_name) {
            None => Err(PlanFailure::NoTask(task_name)),
            Some(lit) => Ok(lit),
        },
    }
}

/// The kind a link declaration effectively has: soft when none is declared.
pub open spec fn effective_link_kind(kind: Option<LinkKind>) -> LinkKind {
    match kind {
        Some(k) => k,
        None => LinkKind::Soft,
    }
}

/// The ghost model of planning one link: the outcomes of resolving its two
/// paths, and its effective kind.
pub open spec fn link_plan_spec(vars: Seq<(String, String)>, link: LinkDefinition) -> (
    ResolveOutcome,
    ResolveOutcome,
    LinkKind,
) {
    (
        resolve_spec(vars, link.from@, MAX_RESOLVE_PASSES as nat),
        resolve_spec(vars, link.to@, MAX_RESOLVE_PASSES as nat),
        effective_link_kind(link.kind),
    )
}

/// Everything the install subcommand is to do, in order: the resolved tasks,
/// then the host's links.
#[derive(Debug)]
pub struct InstallPlan {
    pub tasks: Vec<LiteralTaskDefinition>,
    pub links: Vec<LinkDefinition>,
}

/// What a subcommand resolved to; the shell around the crate performs it.
#[derive(Debug)]
pub enum Plan {
    Install(InstallPlan),
    Link(Vec<LinkDefinition>),
    Exec(LiteralTaskDefinition),
}

/// A fully resolved link operation: concrete source and destination paths
/// and the kind of filesystem operation to perform.
#[derive(Debug)]
pub struct LinkAction {
    pub from: String,
    pub to: String,
    pub kind: LinkKind,
}

/// A host-scoped literal task strictly takes precedence: whenever the
/// host's own list has a literal definition of the name, single-task
/// resolution returns it, whatever the global pool holds of that name.
pub proof fn lemma_host_literal_precedence(
    host: ConfigHost,
    global: Seq<(String, LiteralTaskDefinition)>,
    name: Seq<char>,
    lit: LiteralTaskDefinition,
)
    requires
        find_literal_spec(host.tasks@, name) == Some(lit),
    ensures
        resolve_one_spec(host, global, name) == Some(lit),
{
}

/// Whole-list resolution fails as soon as any entry of the list is a
/// reference absent from the global pool — even when every other entry,
/// earlier or later, is valid — so nothing of the list is handed out.
pub proof fn lemma_resolve_all_fails_on_missing_reference(
    tasks: Seq<TaskDefinition>,
    global: Seq<(String, LiteralTaskDefinition)>,
    k: int,
)
    requires
        0 <= k < tasks.len(),
        tasks[k] matches TaskDefinition::Ref(name) && lookup_spec(global, name@) is None,
    ensures
        resolve_tasks_spec(tasks, global) is Err,
    decreases tasks.len(),
{
    assert(tasks.drop_first() =~= tasks.skip(1));
    if k > 0 {
        lemma_resolve_all_fails_on_missing_reference(tasks.drop_first(), global, k - 1);
    }
}

/// A link declared without a kind is planned exactly as one declared
/// `soft`: same resolved paths, same operation.
pub proof fn lemma_missing_kind_defaults_to_soft(
    vars: Seq<(String, String)>,
    bare: LinkDefinition,
    soft: LinkDefinition,
)
    requires
        bare.kind is None,
        soft.kind == Some(LinkKind::Soft),
        bare.from == soft.from,
        bare.to == soft.to,
        bare.name == soft.name,
    ensures
        link_plan_spec(vars, bare) == link_plan_spec(vars, soft),
{
}

/// With no selectors, the link subcommand takes every link of the host.
pub proof fn lemma_empty_selection_takes_all(links: Seq<LinkDefinition>)
    ensures
        select_links_spec(links, Seq::empty()) == links,
{
}

/// An element stands in the filtered link list exactly when it stands in
/// the original list and a selector names it.
pub proof fn lemma_filter_links_membership(
    links: Seq<LinkDefinition>,
    selectors: Seq<String>,
    link: LinkDefinition,
)
    ensures
        filter_links_spec(links, selectors).contains(link) <==> (links.contains(link)
            && link_selected(link, selectors)),
    decreases links.len(),
{
    if links.len() > 0 {
        lemma_filter_links_membership(links.drop_first(), selectors, link);
        let rest = filter_links_spec(links.drop_first(), selectors);
        if link_selected(links[0], selectors) {
            assert(filter_links_spec(links, selectors) == seq![links[0]] + rest);
            assert forall|x: LinkDefinition| #[trigger] (seq![links[0]] + rest).contains(x)
                implies x == links[0] || rest.contains(x) by {
                let j = choose|j: int|
                    0 <= j < (seq![links[0]] + rest).len() && (seq![links[0]] + rest)[j] == x;
                if j > 0 {
                    assert(rest[j - 1] == x);
                }
            }
            if link == links[0] || rest.contains(link) {
                if link == links[0] {
                    assert((seq![links[0]] + rest)[0] == link);
                } else {
                    let j = choose|j: int| 0 <= j < rest.len() && rest[j] == link;
                    assert((seq![links[0]] + rest)[j + 1] == link);
                }
            }
        }
        if links.contains(link) {
            let j = choose|j: int| 0 <= j < links.len() && links[j] == link;
            if j > 0 {
                assert(links.drop_first()[j - 1] == link);
            }
        }
        if links.drop_first().contains(link) {
            let j = choose|j: int| 0 <= j < links.drop_first().len() && links.drop_first()[j]
                == link;
            assert(links[j + 1] == link);
        }
    }
}

/// With a non-empty selector list, the link subcommand applies exactly the
/// links whose declared name matches a selector: every applied link is so
/// named, every so-named link is applied, and unnamed links are skipped.
pub proof fn lemma_selection_filters_by_name(links: Seq<LinkDefinition>, selectors: Seq<String>)
    requires
        selectors.len() > 0,
    ensures
        forall|j: int|
            0 <= j < select_links_spec(links, selectors).len() ==> link_selected(
                #[trigger] select_links_spec(links, selectors)[j],
                selectors,
            ),
        forall|j: int|
            0 <= j < links.len() && link_selected(#[trigger] links[j], selectors)
                ==> select_links_spec(links, selectors).contains(links[j]),
{
    let picked = select_links_spec(links, selectors);
    assert forall|j: int| 0 <= j < picked.len() implies link_selected(picked[j], selectors) by {
        assert(picked.contains(picked[j]));
        lemma_filter_links_membership(links, selectors, picked[j]);
    }
    assert forall|j: int|
        0 <= j < links.len() && link_selected(links[j], selectors) implies picked.contains(
        links[j],
    ) by {
        assert(links.contains(links[j]));
        lemma_filter_links_membership(links, selectors, links[j]);
    }
}

proof fn lemma_resolve_tasks_invariant_step(
    full: Seq<TaskDefinition>,
    global: Seq<(String, LiteralTaskDefinition)>,
    idx: int,
    done: Seq<LiteralTaskDefinition>,
    lit: LiteralTaskDefinition,
)
    requires
        0 <= idx < full.len(),
        match full[idx] {
            TaskDefinition::Ref(name) => lookup_spec(global, name@) == Some(lit),
            TaskDefinition::Literal(l) => l == lit,
        },
        match resolve_tasks_spec(full.skip(idx), global) {
            Ok(rest) => resolve_tasks_spec(full, global) == Ok::<_, Seq<char>>(done + rest),
            Err(e) => resolve_tasks_spec(full, global) == Err::<Seq<LiteralTaskDefinition>, _>(e),
        },
    ensures
        match resolve_tasks_spec(full.skip(idx + 1), global) {
            Ok(rest) => resolve_tasks_spec(full, global) == Ok::<_, Seq<char>>(
                (done + seq![lit]) + rest,
            ),
            Err(e) => resolve_tasks_spec(full, global) == Err::<Seq<LiteralTaskDefinition>, _>(e),
        },
{
    assert(full.skip(idx)[0] == full[idx]);
    assert(full.skip(idx).drop_first() =~= full.skip(idx + 1));
    match resolve_tasks_spec(full.skip(idx + 1), global) {
        Ok(rest) => {
            assert(resolve_tasks_spec(full.skip(idx), global) == Ok::<_, Seq<char>>(
                seq![lit] + rest,
            ));
            assert(done + (seq![lit] + rest) =~= (done + seq![lit]) + rest);
        },
        Err(e) => {},
    }
}

fn clone_links(links: &Vec<LinkDefinition>) -> (r: Vec<LinkDefinition>)
    ensures
        r@ == links@,
{
    let mut out: Vec<LinkDefinition> = Vec::new();
    let mut idx: usize = 0;
    while idx < links.len()
        invariant
            idx <= links@.len(),
            out@ == links@.subrange(0, idx as int),
        decreases links@.len() - idx,
    {
        out.push(links[idx].clone());
        proof {
            assert(links@.subrange(0, idx as int + 1) =~= links@.subrange(0, idx as int).push(
                links@[idx as int],
            ));
        }
        idx += 1;
    }
    proof {
        assert(links@.subrange(0, links@.len() as int) =~= links@);
    }
    out
}

fn selectors_contain(selectors: &Vec<String>, name: &String) -> (r: bool)
    ensures
        r == selector_match(selectors@, name@),
{
    let mut idx: usize = 0;
    while idx < selectors.len()
        invariant
            idx <= selectors@.len(),
            forall|k: int| 0 <= k < idx ==> selectors@[k]@ != name@,
        decreases selectors@.len() - idx,
    {
        if selectors[idx] == *name {
            proof {
                assert(selectors@[idx as int]@ == name@);
            }
            return true;
        }
        idx += 1;
    }
    false
}

fn link_matches_selectors(link: &LinkDefinition, selectors: &Vec<String>) -> (r: bool)
    ensures
        r == link_selected(*link, selectors@),
{
    match &link.name {
        Some(name) => selectors_contain(selectors, name),
        None => false,
    }
}

/// The runner holds the loaded configuration and answers, for each
/// subcommand, what is to be done.
pub struct Runner {
    pub config: Config,
}

impl Runner {
    pub fn new(config: Config) -> (r: Self)
        ensures
            r.config == config,
    {
        Runner { config }
    }

    /// The host section for `hostname`, or `NoConfigFound`.
    pub fn get_config_host(&self, hostname: String) -> (r: Result<&ConfigHost, ExecError>)
        ensures
            match r {
                Ok(host) => lookup_spec(self.config.hosts@, hostname@) == Some(*host),
                Err(e) => lookup_spec(self.config.hosts@, hostname@) is None && (e matches
                    ExecError::NoConfigFound(h) && h@ == hostname@),
            },
    {
        match lookup_entry(&self.config.hosts, &hostname) {
            Some(host) => Ok(host),
            None => Err(ExecError::NoConfigFound(hostname)),
        }
    }

    /// The first literal task named `task_name` in the host's own list.
    pub fn find_host_config_task(&self, config_host: &ConfigHost, task_name: String) -> (r: Option<
        LiteralTaskDefinition,
    >)
        ensures
            match r {
                Some(lit) => find_literal_spec(config_host.tasks@, task_name@) == Some(lit),
                None => find_literal_spec(config_host.tasks@, task_name@) is None,
            },
    {
        let n = config_host.tasks.len();
        let mut idx: usize = 0;
        proof {
            assert(config_host.tasks@.skip(0) =~= config_host.tasks@);
        }
        while idx < n
            invariant
                idx <= n,
                n == config_host.tasks@.len(),
                find_literal_spec(config_host.tasks@, task_name@) == find_literal_spec(
                    config_host.tasks@.skip(idx as int),
                    task_name@,
                ),
            decreases n - idx,
        {
            proof {
                assert(config_host.tasks@.skip(idx as int)[0] == config_host.tasks@[idx as int]);
                assert(config_host.tasks@.skip(idx as int).drop_first() =~= config_host.tasks@.skip(
                    idx as int + 1,
                ));
            }
            match &config_host.tasks[idx] {
                TaskDefinition::Literal(lit) => {
                    match &lit.name {
                        Some(lit_name) => {
                            if *lit_name == task_name {
                                return Some(lit.clone());
                            }
                        },
                        None => {},
                    }
                },
                TaskDefinition::Ref(_) => {},
            }
            idx += 1;
        }
        None
    }

    /// Resolution of one task name: the host's own literal definition wins
    /// over a same-named task of the global pool.
    pub fn find_host_or_global_config_task(
        &self,
        config_host: &ConfigHost,
        task_name: String,
    ) -> (r: Option<LiteralTaskDefinition>)
        ensures
            match r {
                Some(lit) => resolve_one_spec(*config_host, self.config.tasks@, task_name@)
                    == Some(lit),
                None => resolve_one_spec(*config_host, self.config.tasks@, task_name@) is None,
            },
    {
        match self.find_host_config_task(config_host, task_name.clone()) {
            Some(lit) => Some(lit),
            None => match lookup_entry(&self.config.tasks, &task_name) {
                Some(lit) => Some(lit.clone()),
                None => None,
            },
        }
    }

    /// Resolves the whole task list of `hostname`, in declaration order,
    /// validating every reference against the global pool.  When any
    /// reference is missing this fails with the first such name and hands
    /// out no task at all, so that an install executes either the complete
    /// list or nothing.
    pub fn resolve_all_tasks_for_host(&self, hostname: String) -> (r: Result<
        Vec<LiteralTaskDefinition>,
        ExecError,
    >)
        ensures
            match r {
                Ok(tasks) => (lookup_spec(self.config.hosts@, hostname@) matches Some(host)
                    && resolve_tasks_spec(host.tasks@, self.config.tasks@) == Ok::<_, Seq<char>>(
                    tasks@,
                )),
                Err(e) => match e {
                    ExecError::NoConfigFound(h) => lookup_spec(self.config.hosts@, hostname@)
                        is None && h@ == hostname@,
                    ExecError::NoTaskFound(n) => (lookup_spec(self.config.hosts@, hostname@)
                        matches Some(host) && resolve_tasks_spec(host.tasks@, self.config.tasks@)
                        == Err::<Seq<LiteralTaskDefinition>, _>(n@)),
                    _ => false,
                },
            },
    {
        let host = match self.get_config_host(hostname.clone()) {
            Ok(h) => h,
            Err(e) => {
                return Err(e);
            },
        };
        let n = host.tasks.len();
        let mut out: Vec<LiteralTaskDefinition> = Vec::new();
        let mut idx: usize = 0;
        proof {
            assert(host.tasks@.skip(0) =~= host.tasks@);
            assert(out@ + resolve_tasks_spec(host.tasks@, self.config.tasks@)->Ok_0
                =~= resolve_tasks_spec(host.tasks@, self.config.tasks@)->Ok_0);
        }
        while idx < n
            invariant
                idx <= n,
                n == host.tasks@.len(),
                lookup_spec(self.config.hosts@, hostname@) == Some(*host),
                match resolve_tasks_spec(host.tasks@.skip(idx as int), self.config.tasks@) {
                    Ok(rest) => resolve_tasks_spec(host.tasks@, self.config.tasks@) == Ok::<
                        _,
                        Seq<char>,
                    >(out@ + rest),
                    Err(e) => resolve_tasks_spec(host.tasks@, self.config.tasks@) == Err::<
                        Seq<LiteralTaskDefinition>,
                        _,
                    >(e),
                },
            decreases n - idx,
        {
            proof {
                assert(host.tasks@.skip(idx as int)[0] == host.tasks@[idx as int]);
                assert(host.tasks@.skip(idx as int).drop_first() =~= host.tasks@.skip(
                    idx as int + 1,
                ));
            }
            match &host.tasks[idx] {
                TaskDefinition::Ref(name) => {
                    match lookup_entry(&self.config.tasks, name) {
                        None => {
                            return Err(ExecError::NoTaskFound(name.clone()));
                        },
                        Some(lit) => {
                            let ghost done = out@;
                            out.push(lit.clone());
                            proof {
                                lemma_resolve_tasks_invariant_step(
                                    host.tasks@,
                                    self.config.tasks@,
                                    idx as int,
                                    done,
                                    out@.last(),
                                );
                                assert(out@ == done + seq![out@.last()]);
                            }
                        },
                    }
                },
                TaskDefinition::Literal(lit) => {
                    let ghost done = out@;
                    out.push(lit.clone());
                    proof {
                        lemma_resolve_tasks_invariant_step(
                            host.tasks@,
                            self.config.tasks@,
                            idx as int,
                            done,
                            out@.last(),
                        );
                        assert(out@ == done + seq![out@.last()]);
                    }
                },
            }
            idx += 1;
        }
        proof {
            assert(host.tasks@.skip(n as int) =~= Seq::<TaskDefinition>::empty());
            assert(out@ + Seq::<LiteralTaskDefinition>::empty() =~= out@);
        }
        Ok(out)
    }

    /// The install plan for a host: every task resolved (or the first
    /// failure), followed by every declared link.
    pub fn execute_install_cmd(&self, cmd: InstallCmd) -> (r: Result<InstallPlan, ExecError>)
        ensures
            match r {
                Ok(plan) => install_spec(self.config, cmd.hostname@) == Ok::<_, PlanFailure>(
                    (plan.tasks@, plan.links@),
                ),
                Err(e) => (install_spec(self.config, cmd.hostname@) matches Err(f)
                    && failure_matches(e, f)),
            },
    {
        let tasks = match self.resolve_all_tasks_for_host(cmd.hostname.clone()) {
            Ok(t) => t,
            Err(e) => {
                return Err(e);
            },
        };
        let host = match self.get_config_host(cmd.hostname) {
            Ok(h) => h,
            Err(e) => {
                return Err(e);
            },
        };
        Ok(InstallPlan { tasks, links: clone_links(&host.links) })
    }

    /// The links the link subcommand applies for a host: all of them when no
    /// selector is given, else exactly those whose declared name matches a
    /// selector (a nameless link is never selected explicitly).
    pub fn execute_link_cmd(&self, cmd: LinkCmd) -> (r: Result<Vec<LinkDefinition>, ExecError>)
        ensures
            match r {
                Ok(links) => link_cmd_spec(self.config, cmd.hostname@, cmd.args@) == Ok::<
                    _,
                    PlanFailure,
                >(links@),
                Err(e) => (link_cmd_spec(self.config, cmd.hostname@, cmd.args@) matches Err(f)
                    && failure_matches(e, f)),
            },
    {
        let host = match self.get_config_host(cmd.hostname) {
            Ok(h) => h,
            Err(e) => {
                return Err(e);
            },
        };
        if cmd.args.is_empty() {
            Ok(clone_links(&host.links))
        } else {
            let n = host.links.len();
            let mut out: Vec<LinkDefinition> = Vec::new();
            let mut idx: usize = 0;
            proof {
                assert(host.links@.skip(0) =~= host.links@);
                assert(out@ + filter_links_spec(host.links@, cmd.args@) =~= filter_links_spec(
                    host.links@,
                    cmd.args@,
                ));
            }
            while idx < n
                invariant
                    idx <= n,
                    n == host.links@.len(),
                    filter_links_spec(host.links@, cmd.args@) == out@ + filter_links_spec(
                        host.links@.skip(idx as int),
                        cmd.args@,
                    ),
                decreases n - idx,
            {
                proof {
                    assert(host.links@.skip(idx as int)[0] == host.links@[idx as int]);
                    assert(host.links@.skip(idx as int).drop_first() =~= host.links@.skip(
                        idx as int + 1,
                    ));
                }
                let ghost done = out@;
                if link_matches_selectors(&host.links[idx], &cmd.args) {
                    out.push(host.links[idx].clone());
                    proof {
                        assert(out@ == done + seq![host.links@[idx as int]]);
                        assert(done + (seq![host.links@[idx as int]] + filter_links_spec(
                            host.links@.skip(idx as int + 1),
                            cmd.args@,
                        )) =~= out@ + filter_links_spec(host.links@.skip(idx as int + 1), cmd.args@));
                    }
                }
                idx += 1;
            }
            proof {
                assert(host.links@.skip(n as int) =~= Seq::<LinkDefinition>::empty());
                assert(out@ + Seq::<LinkDefinition>::empty() =~= out@);
            }
            Ok(out)
        }
    }

    /// The task the exec subcommand runs for a host: the host's own literal
    /// definition of that name, else the global pool's.
    pub fn execute_exec_cmd(&self, cmd: ExecCmd) -> (r: Result<LiteralTaskDefinition, ExecError>)
        ensures
            match r {
                Ok(task) => exec_cmd_spec(self.config, cmd.hostname@, cmd.task_name@) == Ok::<
                    _,
                    PlanFailure,
                >(task),
                Err(e) => (exec_cmd_spec(self.config, cmd.hostname@, cmd.task_name@) matches Err(f)
                    && failure_matches(e, f)),
            },
    {
        let host = match self.get_config_host(cmd.hostname) {
            Ok(h) => h,
            Err(e) => {
                return Err(e);
            },
        };
        match self.find_host_or_global_config_task(host, cmd.task_name.clone()) {
            Some(task) => Ok(task),
            None => Err(ExecError::NoTaskFound(cmd.task_name)),
        }
    }

    /// Dispatches a subcommand to its planner.
    pub fn execute_cmd(&self, cmd: SubCommand) -> (r: Result<Plan, ExecError>)
        ensures
            match cmd {
                SubCommand::Install(c) => match r {
                    Ok(plan) => (plan matches Plan::Install(p) && install_spec(
                        self.config,
                        c.hostname@,
                    ) == Ok::<_, PlanFailure>((p.tasks@, p.links@))),
                    Err(e) => (install_spec(self.config, c.hostname@) matches Err(f)
                        && failure_matches(e, f)),
                },
                SubCommand::Link(c) => match r {
                    Ok(plan) => (plan matches Plan::Link(links) && link_cmd_spec(
                        self.config,
                        c.hostname@,
                        c.args@,
                    ) == Ok::<_, PlanFailure>(links@)),
                    Err(e) => (link_cmd_spec(self.config, c.hostname@, c.args@) matches Err(f)
                        && failure_matches(e, f)),
                },
                SubCommand::Exec(c) => match r {
                    Ok(plan) => (plan matches Plan::Exec(task) && exec_cmd_spec(
                        self.config,
                        c.hostname@,
                        c.task_name@,
                    ) == Ok::<_, PlanFailure>(task)),
                    Err(e) => (exec_cmd_spec(self.config, c.hostname@, c.task_name@) matches Err(f)
                        && failure_matches(e, f)),
                },
            },
    {
        match cmd {
            SubCommand::Install(c) => match self.execute_install_cmd(c) {
                Ok(p) => Ok(Plan::Install(p)),
                Err(e) => Err(e),
            },
            SubCommand::Link(c) => match self.execute_link_cmd(c) {
                Ok(links) => Ok(Plan::Link(links)),
                Err(e) => Err(e),
            },
            SubCommand::Exec(c) => match self.execute_exec_cmd(c) {
                Ok(task) => Ok(Plan::Exec(task)),
                Err(e) => Err(e),
            },
        }
    }

    /// The concrete command line a task runs: its command string with every
    /// variable placeholder resolved.
    pub fn prepare_task_command(&self, task: &LiteralTaskDefinition) -> (r: Result<
        String,
        VariableResolutionError,
    >)
        ensures
            match r {
                Ok(command) => resolve_spec(
                    self.config.vars@,
                    task.exec_command@,
                    MAX_RESOLVE_PASSES as nat,
                ) == ResolveOutcome::Resolved(command@),
                Err(e) => resolution_failed(self.config.vars@, task.exec_command@, e),
            },
    {
        self.config.resolve_variable_string(task.exec_command.clone())
    }

    /// The concrete filesystem operation a link declaration comes to: both
    /// paths resolved, and the declared kind, soft when none is declared.
    pub fn plan_link(&self, link: &LinkDefinition) -> (r: Result<
        LinkAction,
        VariableResolutionError,
    >)
        ensures
            ({
                let (rf, rt, k) = link_plan_spec(self.config.vars@, *link);
                match r {
                    Ok(action) => rf == ResolveOutcome::Resolved(action.from@) && rt
                        == ResolveOutcome::Resolved(action.to@) && action.kind == k,
                    Err(e) => resolution_failed(self.config.vars@, link.from@, e) || (rf
                        is Resolved && resolution_failed(self.config.vars@, link.to@, e)),
                }
            }),
    {
        let from = match self.config.resolve_variable_string(link.from.clone()) {
            Ok(s) => s,
            Err(e) => {
                return Err(e);
            },
        };
        let to = match self.config.resolve_variable_string(link.to.clone()) {
            Ok(s) => s,
            Err(e) => {
                return Err(e);
            },
        };
        let kind = match link.kind {
            Some(k) => k,
            None => LinkKind::Soft,
        };
        Ok(LinkAction { from, to, kind })
    }
}

} // verus!
