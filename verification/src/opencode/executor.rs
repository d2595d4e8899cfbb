//! The OpenCode agent as it is configured, and how it is started.
use vstd::prelude::*;
use vstd::string::*;

use crate::process;
use crate::text;

verus! {

/// An OpenCode agent. What is appended to prompts, what is changed of the command and what answers
/// requests for approval are of the caller's own types.
#[derive(Debug, PartialEq)]
pub struct Opencode<P, C, A> {
    pub append_prompt: P,
    pub model: Option<String>,
    pub mode: Option<String>,
    /// Whether everything that the agent wants to do is approved.
    pub auto_approve: bool,
    pub cmd: C,
    pub approvals: Option<A>,
}

/// What a session is run with.
#[derive(Debug, PartialEq)]
pub struct RunConfig<A> {
    pub base_url: String,
    pub directory: String,
    pub prompt: String,
    pub resume_session_id: Option<String>,
    pub model: Option<String>,
    pub agent: Option<String>,
    pub approvals: Option<A>,
    pub auto_approve: bool,
}

/// A command and its parameters.
#[derive(Debug, PartialEq)]
pub struct CommandLine {
    pub base: String,
    pub params: Vec<String>,
}

/// How the run of an agent ended.
#[derive(Debug, Clone, Copy, PartialEq, Eq, Structural)]
pub enum ExecutorExitResult {
    Success,
    Failure,
}

/// Whether an agent can be used.
#[derive(Debug, Clone, Copy, PartialEq, Eq, Structural)]
pub enum AvailabilityInfo {
    InstallationFound,
    NotFound,
}

/// Whether an optional value is a clone of another, and present exactly where it is.
pub open spec fn cloned_option<A: Clone>(from: Option<A>, to: Option<A>) -> bool {
    match from {
        Some(a) => to is Some && cloned(a, to->0),
        None => to is None,
    }
}

/// The parameters that the server is started with. The host name and the port are arguments of
/// their own, so that the server takes them for explicitly set.
pub open spec fn serve_params() -> Seq<Seq<char>> {
    seq!["serve"@, "--hostname"@, "127.0.0.1"@, "--port"@, "0"@]
}

impl<P, C, A> Opencode<P, C, A> {
    /// The command that starts the server, before anything of it is changed.
    pub fn build_command_builder(&self) -> (res: CommandLine)
        ensures
            res.base@ == "npx --yes opencode-ai@1.1.3"@,
            res.params.deep_view() == serve_params(),
    {
        let parts = vec!["serve", "--hostname", "127.0.0.1", "--port", "0"];
        let params = process::arguments(&parts);
        assert(params.deep_view() =~= serve_params());
        CommandLine { base: text::owned("npx --yes opencode-ai@1.1.3"), params }
    }

    /// What a session is run with, once the server listens. Where everything is approved, nothing
    /// is asked.
    pub fn run_config(
        &self,
        base_url: String,
        directory: String,
        combined_prompt: String,
        resume_session: Option<&str>,
    ) -> (res: RunConfig<A>) where A: Clone
        ensures
            res.base_url == base_url,
            res.directory == directory,
            res.prompt == combined_prompt,
            res.resume_session_id.deep_view() == resume_session.deep_view(),
            res.model == self.model,
            res.agent == self.mode,
            res.auto_approve == self.auto_approve,
            self.auto_approve ==> res.approvals is None,
            !self.auto_approve ==> cloned_option(self.approvals, res.approvals),
    {
        let approvals = if self.auto_approve {
            None
        } else {
            match &self.approvals {
                Some(a) => Some(a.clone()),
                None => None,
            }
        };
        let resume_session_id = match resume_session {
            Some(s) => Some(text::owned(s)),
            None => None,
        };
        RunConfig {
            base_url,
            directory,
            prompt: combined_prompt,
            resume_session_id,
            model: process::copy_opt(&self.model),
            agent: process::copy_opt(&self.mode),
            approvals,
            auto_approve: self.auto_approve,
        }
    }

    /// Sets what answers requests for approval.
    pub fn use_approvals(&mut self, approvals: A)
        ensures
            *final(self) == (Opencode { approvals: Some(approvals), ..*old(self) }),
    {
        self.approvals = Some(approvals);
    }

    /// Whether the agent can be used: its configuration, or its directory, was found.
    pub fn get_availability_info(
        &self,
        mcp_config_found: bool,
        installation_indicator_found: bool,
    ) -> (res: AvailabilityInfo)
        ensures
            res == if mcp_config_found || installation_indicator_found {
                AvailabilityInfo::InstallationFound
            } else {
                AvailabilityInfo::NotFound
            },
    {
        if mcp_config_found || installation_indicator_found {
            AvailabilityInfo::InstallationFound
        } else {
            AvailabilityInfo::NotFound
        }
    }
}

/// The variables that the server's environment has in any case.
pub fn server_env() -> (res: Vec<(String, String)>)
    ensures
        res.deep_view() == seq![("CI"@, "1"@), ("NODE_NO_WARNINGS"@, "1"@), ("NO_COLOR"@, "1"@)],
{
    let mut vars: Vec<(String, String)> = Vec::new();
    vars.push((text::owned("CI"), text::owned("1")));
    vars.push((text::owned("NODE_NO_WARNINGS"), text::owned("1")));
    vars.push((text::owned("NO_COLOR"), text::owned("1")));
    assert(vars.deep_view() =~= seq![
        ("CI"@, "1"@),
        ("NODE_NO_WARNINGS"@, "1"@),
        ("NO_COLOR"@, "1"@),
    ]);
    vars
}

/// How a run ended, and what is written to the log about it. `run` holds what the error says.
pub fn exit_result(run: Result<(), String>) -> (res: (ExecutorExitResult, Option<String>))
    ensures
        match run {
            Ok(_) => res == (ExecutorExitResult::Success, None::<String>),
            Err(e) => res.0 == ExecutorExitResult::Failure && res.1.deep_view() == Some(
                "OpenCode executor error: "@ + e@,
            ),
        },
{
    match run {
        Ok(_) => (ExecutorExitResult::Success, None),
        Err(e) => (
            ExecutorExitResult::Failure,
            Some(text::cat2("OpenCode executor error: ", e.as_str())),
        ),
    }
}

/// Everything is approved unless the configuration says otherwise.
pub fn default_to_true() -> (res: bool)
    ensures
        res,
{
    true
}

// ---------------------------------------------------------------------------
// The environment
// ---------------------------------------------------------------------------

/// The variables of an environment, each of them once.
#[derive(Debug, PartialEq)]
pub struct ExecutionEnv {
    vars: Vec<(String, String)>,
}

/// The position of a variable from `i` on, or the end.
pub open spec fn var_from(vars: Seq<(Seq<char>, Seq<char>)>, key: Seq<char>, i: int) -> int
    decreases vars.len() - i,
{
    if i >= vars.len() {
        vars.len() as int
    } else if vars[i].0 == key {
        i
    } else {
        var_from(vars, key, i + 1)
    }
}

/// The value of each variable.
pub open spec fn var_map(vars: Seq<(Seq<char>, Seq<char>)>) -> Map<Seq<char>, Seq<char>> {
    Map::new(
        |key: Seq<char>| 0 <= var_from(vars, key, 0) < vars.len(),
        |key: Seq<char>| vars[var_from(vars, key, 0)].1,
    )
}

proof fn lemma_var_from(vars: Seq<(Seq<char>, Seq<char>)>, key: Seq<char>, i: int)
    requires
        0 <= i <= vars.len(),
    ensures
        i <= var_from(vars, key, i) <= vars.len(),
        var_from(vars, key, i) < vars.len() ==> vars[var_from(vars, key, i)].0 == key,
        forall|j: int| i <= j < var_from(vars, key, i) ==> (#[trigger] vars[j]).0 != key,
    decreases vars.len() - i,
{
    if i < vars.len() && vars[i].0 != key {
        lemma_var_from(vars, key, i + 1);
    }
}

/// The position of a variable is the first at which it stands.
proof fn lemma_var_from_is(vars: Seq<(Seq<char>, Seq<char>)>, key: Seq<char>, k: int)
    requires
        0 <= k <= vars.len(),
        k < vars.len() ==> vars[k].0 == key,
        forall|j: int| 0 <= j < k ==> (#[trigger] vars[j]).0 != key,
    ensures
        var_from(vars, key, 0) == k,
{
    lemma_var_from(vars, key, 0);
    let f = var_from(vars, key, 0);
    if f < k {
        assert(vars[f].0 != key);
    } else if k < f {
        assert(vars[k].0 != key);
    }
}

/// Variables with a new value at the place of one of them, or with the variable at the end.
pub open spec fn var_set(
    vars: Seq<(Seq<char>, Seq<char>)>,
    key: Seq<char>,
    value: Seq<char>,
) -> Seq<(Seq<char>, Seq<char>)> {
    let at = var_from(vars, key, 0);
    if at < vars.len() {
        vars.update(at, (key, value))
    } else {
        vars.push((key, value))
    }
}

proof fn lemma_var_set_at(
    vars: Seq<(Seq<char>, Seq<char>)>,
    key: Seq<char>,
    value: Seq<char>,
    k: Seq<char>,
)
    ensures
        k == key ==> var_from(var_set(vars, key, value), k, 0) == var_from(vars, key, 0),
        k != key && var_from(vars, k, 0) < vars.len() ==> var_from(var_set(vars, key, value), k, 0)
            == var_from(vars, k, 0) && var_set(vars, key, value)[var_from(vars, k, 0)]
            == vars[var_from(vars, k, 0)],
        k != key && var_from(vars, k, 0) >= vars.len() ==> var_from(
            var_set(vars, key, value),
            k,
            0,
        ) == var_set(vars, key, value).len(),
        0 <= var_from(vars, k, 0) <= vars.len(),
        0 <= var_from(vars, key, 0) <= vars.len(),
{
    let changed = var_set(vars, key, value);
    lemma_var_from(vars, key, 0);
    lemma_var_from(vars, k, 0);
    let f = var_from(vars, k, 0);
    if k == key {
        lemma_var_from_is(changed, k, var_from(vars, key, 0));
    } else if f < vars.len() {
        assert(changed[f] == vars[f]);
        assert forall|j: int| 0 <= j < f implies (#[trigger] changed[j]).0 != k by {
            assert(vars[j].0 != k);
        }
        lemma_var_from_is(changed, k, f);
    } else {
        assert forall|j: int| 0 <= j < changed.len() implies (#[trigger] changed[j]).0 != k by {
            if j < vars.len() {
                assert(vars[j].0 != k);
            }
        }
        lemma_var_from_is(changed, k, changed.len() as int);
    }
}

/// Setting a variable leaves the others as they were.
proof fn lemma_var_set(vars: Seq<(Seq<char>, Seq<char>)>, key: Seq<char>, value: Seq<char>)
    ensures
        var_map(var_set(vars, key, value)) == var_map(vars).insert(key, value),
{
    let a = var_map(var_set(vars, key, value));
    let b = var_map(vars).insert(key, value);
    assert forall|k: Seq<char>| #[trigger] a.dom().contains(k) <==> b.dom().contains(k) by {
        lemma_var_set_at(vars, key, value, k);
    }
    assert forall|k: Seq<char>| #[trigger] a.dom().contains(k) implies a[k] == b[k] by {
        lemma_var_set_at(vars, key, value, k);
    }
    assert(a.dom() =~= b.dom());
    assert(a =~= b);
}

impl View for ExecutionEnv {
    type V = Map<Seq<char>, Seq<char>>;

    closed spec fn view(&self) -> Map<Seq<char>, Seq<char>> {
        var_map(self.vars.deep_view())
    }
}

impl ExecutionEnv {
    /// No variables.
    pub fn new() -> (res: Self)
        ensures
            res@ == Map::<Seq<char>, Seq<char>>::empty(),
    {
        let res = ExecutionEnv { vars: Vec::new() };
        assert(res@ =~= Map::<Seq<char>, Seq<char>>::empty());
        res
    }

    fn position(&self, key: &str) -> (res: usize)
        ensures
            res == var_from(self.vars.deep_view(), key@, 0),
            res <= self.vars@.len(),
    {
        let ghost all = self.vars.deep_view();
        let n: usize = self.vars.len();
        for i in 0..n
            invariant
                n == self.vars@.len(),
                all == self.vars.deep_view(),
                var_from(all, key@, 0) == var_from(all, key@, i as int),
        {
            assert(all[i as int].0 == self.vars@[i as int].0@);
            if text::str_eq(self.vars[i].0.as_str(), key) {
                return i;
            }
        }
        n
    }

    /// Whether a variable is set.
    pub fn contains_key(&self, key: &str) -> (res: bool)
        ensures
            res == self@.contains_key(key@),
    {
        proof {
            lemma_var_from(self.vars.deep_view(), key@, 0);
        }
        self.position(key) < self.vars.len()
    }

    /// The value of a variable.
    pub fn get(&self, key: &str) -> (res: Option<&str>)
        ensures
            res.deep_view() == if self@.contains_key(key@) {
                Some(self@[key@])
            } else {
                None
            },
    {
        proof {
            lemma_var_from(self.vars.deep_view(), key@, 0);
        }
        let at = self.position(key);
        if at < self.vars.len() {
            Some(self.vars[at].1.as_str())
        } else {
            None
        }
    }

    /// Sets a variable.
    pub fn insert(&mut self, key: &str, value: &str)
        ensures
            final(self)@ == old(self)@.insert(key@, value@),
    {
        let ghost before = self.vars.deep_view();
        let at = self.position(key);
        let var = (text::owned(key), text::owned(value));
        if at < self.vars.len() {
            self.vars[at] = var;
            assert(self.vars.deep_view() =~= before.update(at as int, (key@, value@)));
        } else {
            self.vars.push(var);
            assert(self.vars.deep_view() =~= before.push((key@, value@)));
        }
        proof {
            lemma_var_set(before, key@, value@);
        }
    }

    /// An environment with the same variables.
    pub fn copy(&self) -> (res: Self)
        ensures
            res@ == self@,
    {
        let mut vars: Vec<(String, String)> = Vec::new();
        for i in 0..self.vars.len()
            invariant
                vars@.len() == i,
                vars.deep_view() == self.vars.deep_view().take(i as int),
        {
            let ghost before = vars.deep_view();
            vars.push((self.vars[i].0.clone(), self.vars[i].1.clone()));
            assert(vars.deep_view() =~= before.push(self.vars.deep_view()[i as int]));
            assert(self.vars.deep_view().take(i + 1) =~= before.push(
                self.vars.deep_view()[i as int],
            ));
        }
        assert(self.vars.deep_view().take(self.vars@.len() as int) =~= self.vars.deep_view());
        ExecutionEnv { vars }
    }

    /// The variables and their values.
    pub fn variables(&self) -> (res: &Vec<(String, String)>)
        ensures
            var_map(res.deep_view()) == self@,
    {
        &self.vars
    }
}

/// The permissions for which the server is told to ask.
pub open spec fn ask_permissions() -> Seq<char> {
    "{\"edit\": \"ask\", \"bash\": \"ask\", \"webfetch\": \"ask\", \"doom_loop\": \"ask\", \"external_directory\": \"ask\"}"@
}

/// The environment of the server: where not everything is approved, the server is told to ask,
/// unless the environment already says what it is to ask for.
pub fn setup_approvals_env(auto_approve: bool, env: &ExecutionEnv) -> (res: ExecutionEnv)
    ensures
        res@ == if auto_approve || env@.contains_key("OPENCODE_PERMISSION"@) {
            env@
        } else {
            env@.insert("OPENCODE_PERMISSION"@, ask_permissions())
        },
{
    let mut out = env.copy();
    if !auto_approve && !out.contains_key("OPENCODE_PERMISSION") {
        out.insert(
            "OPENCODE_PERMISSION",
            "{\"edit\": \"ask\", \"bash\": \"ask\", \"webfetch\": \"ask\", \"doom_loop\": \"ask\", \"external_directory\": \"ask\"}",
        );
    }
    out
}

/// The server listens on the loopback address only, on a port that it picks itself.
pub proof fn lemma_server_stays_local()
    ensures
        serve_params()[0] == "serve"@,
        process::flagged(serve_params(), "--hostname"@, "127.0.0.1"@),
        process::flagged(serve_params(), "--port"@, "0"@),
        serve_params().len() == 5,
{
    process::lemma_flagged(serve_params(), 1);
    process::lemma_flagged(serve_params(), 3);
}

/// The server is told to ask before it edits, runs a command or fetches a page.
pub proof fn lemma_server_asks()
    ensures
        text::contains(ask_permissions(), "\"edit\": \"ask\""@),
        text::contains(ask_permissions(), "\"bash\": \"ask\""@),
        text::contains(ask_permissions(), "\"webfetch\": \"ask\""@),
{
    reveal_strlit(
        "{\"edit\": \"ask\", \"bash\": \"ask\", \"webfetch\": \"ask\", \"doom_loop\": \"ask\", \"external_directory\": \"ask\"}",
    );
    reveal_strlit("\"edit\": \"ask\"");
    reveal_strlit("\"bash\": \"ask\"");
    reveal_strlit("\"webfetch\": \"ask\"");
    assert(text::occurs_at(ask_permissions(), "\"edit\": \"ask\""@, 1));
    assert(text::occurs_at(ask_permissions(), "\"bash\": \"ask\""@, 16));
    assert(text::occurs_at(ask_permissions(), "\"webfetch\": \"ask\""@, 31));
}

} // verus!
