//! Where an MCP server runs: in the orchestrator itself or in a named
//! environment.
use vstd::prelude::*;

use crate::path_text::{is_absolute_as, is_absolute_path};

verus! {

// ---------------------------------------------------------------------------
// Configuration
// ---------------------------------------------------------------------------

/// A working directory, with whether the platform takes it as absolute.
pub struct WorkingDirectory {
    path: String,
    absolute: bool,
}

impl WorkingDirectory {
    /// The directory as it was configured.
    pub closed spec fn path(self) -> Seq<char> {
        self.path@
    }

    /// The directory does not depend on where a process runs.
    pub closed spec fn absolute(self) -> bool {
        self.absolute
    }

    /// The directory at `path`. Which paths are absolute is up to the
    /// platform.
    pub fn new(path: &str) -> (directory: Self)
        ensures
            directory.path() == path@,
            is_absolute_as(path@, directory.absolute()),
    {
        WorkingDirectory { path: path.to_string(), absolute: is_absolute_path(path) }
    }
}

/// How to talk to an MCP server.
pub enum McpServerTransportConfig {
    /// Over the standard streams of a process, started in `cwd`.
    Stdio { cwd: Option<WorkingDirectory> },
    /// Over HTTP.
    StreamableHttp,
}

/// The configuration of an MCP server, as far as it says where the server
/// runs.
pub struct McpServerConfig {
    pub transport: McpServerTransportConfig,
    /// The environment that the server is to run in.
    pub environment_id: String,
    /// That environment is the local one.
    pub local_environment: bool,
}

/// Effective runtime placement for one MCP server.
#[derive(Debug, PartialEq, Eq)]
pub enum McpServerRuntimePlacement {
    /// The orchestrator owns the transport directly.
    Orchestrator,
    /// The selected named environment owns the transport.
    Environment { environment_id: String },
}

/// The model of a placement.
pub enum PlacementView {
    Orchestrator,
    Environment { environment_id: Seq<char> },
}

impl View for McpServerRuntimePlacement {
    type V = PlacementView;

    open spec fn view(&self) -> PlacementView {
        match self {
            McpServerRuntimePlacement::Orchestrator => PlacementView::Orchestrator,
            McpServerRuntimePlacement::Environment { environment_id } => {
                PlacementView::Environment { environment_id: environment_id@ }
            },
        }
    }
}

impl Clone for McpServerRuntimePlacement {
    fn clone(&self) -> (copy: Self)
        ensures
            copy@ == self@,
    {
        match self {
            McpServerRuntimePlacement::Orchestrator => McpServerRuntimePlacement::Orchestrator,
            McpServerRuntimePlacement::Environment { environment_id } => {
                McpServerRuntimePlacement::Environment { environment_id: environment_id.clone() }
            },
        }
    }
}

/// Where `config` places its server.
pub open spec fn placement(config: McpServerConfig) -> PlacementView {
    if config.local_environment {
        PlacementView::Orchestrator
    } else {
        PlacementView::Environment { environment_id: config.environment_id@ }
    }
}

impl McpServerRuntimePlacement {
    /// Where `config` places its server.
    pub fn from_config(config: &McpServerConfig) -> (place: Self)
        ensures
            place@ == placement(*config),
    {
        if config.local_environment {
            McpServerRuntimePlacement::Orchestrator
        } else {
            McpServerRuntimePlacement::Environment { environment_id: config.environment_id.clone() }
        }
    }
}

// ---------------------------------------------------------------------------
// Environments
// ---------------------------------------------------------------------------

/// The environments that servers can run in, each behind a handle.
pub struct EnvironmentManager<E> {
    local: Option<E>,
    named: Vec<(String, E)>,
}

/// The first of `named` with the id `id`.
pub open spec fn first_named<E>(named: Seq<(String, E)>, id: Seq<char>) -> Option<E>
    decreases named.len(),
{
    if named.len() == 0 {
        None
    } else if named[0].0@ == id {
        Some(named[0].1)
    } else {
        first_named(named.drop_first(), id)
    }
}

impl<E> EnvironmentManager<E> {
    /// The local environment.
    pub closed spec fn local(self) -> Option<E> {
        self.local
    }

    /// The environment with the id `id`.
    pub closed spec fn environment(self, id: Seq<char>) -> Option<E> {
        first_named(self.named@, id)
    }

    /// The given environments. Of several with one id the first counts.
    pub fn new(local: Option<E>, named: Vec<(String, E)>) -> (manager: Self)
        ensures
            manager.local() == local,
            forall|id: Seq<char>| #[trigger]
                manager.environment(id) == first_named(named@, id),
    {
        EnvironmentManager { local, named }
    }

    /// No environment at all.
    pub fn without_environments() -> (manager: Self)
        ensures
            manager.local() is None,
            forall|id: Seq<char>| #[trigger] manager.environment(id) is None,
    {
        EnvironmentManager { local: None, named: Vec::new() }
    }

    /// The local environment.
    pub fn try_local_environment(&self) -> (local: Option<&E>)
        ensures
            match local {
                Some(local) => self.local() == Some(*local),
                None => self.local() is None,
            },
    {
        match &self.local {
            Some(local) => Some(local),
            None => None,
        }
    }

    /// The environment with the id `id`.
    pub fn get_environment(&self, id: &str) -> (environment: Option<&E>)
        ensures
            match environment {
                Some(environment) => self.environment(id@) == Some(*environment),
                None => self.environment(id@) is None,
            },
    {
        let wanted = id.to_string();
        let mut i: usize = 0;
        assert(self.named@.skip(0) =~= self.named@);
        while i < self.named.len()
            invariant
                wanted@ == id@,
                i <= self.named@.len(),
                self.environment(id@) == first_named(self.named@.skip(i as int), id@),
            decreases self.named@.len() - i,
        {
            assert(self.named@.skip(i as int)[0] == self.named@[i as int]);
            assert(self.named@.skip(i as int).drop_first() =~= self.named@.skip(i + 1));
            if self.named[i].0 == wanted {
                return Some(&self.named[i].1);
            }
            i = i + 1;
        }
        None
    }
}

/// Resolved runtime handle for one MCP server startup.
pub enum ResolvedMcpServerRuntime<'a, E> {
    Orchestrator,
    Environment(&'a E),
}

/// The model of a resolved runtime.
pub enum RuntimeView<E> {
    Orchestrator,
    Environment(E),
}

impl<'a, E> View for ResolvedMcpServerRuntime<'a, E> {
    type V = RuntimeView<E>;

    open spec fn view(&self) -> RuntimeView<E> {
        match self {
            ResolvedMcpServerRuntime::Orchestrator => RuntimeView::Orchestrator,
            ResolvedMcpServerRuntime::Environment(environment) => RuntimeView::Environment(
                **environment,
            ),
        }
    }
}

// ---------------------------------------------------------------------------
// Resolving
// ---------------------------------------------------------------------------

/// What is wrong with starting a server in a remote environment: a process
/// needs a working directory that means the same there.
pub open spec fn remote_cwd_error(server_name: Seq<char>, config: McpServerConfig) -> Option<
    Seq<char>,
> {
    match config.transport {
        McpServerTransportConfig::StreamableHttp => None,
        McpServerTransportConfig::Stdio { cwd: None } => Some(
            "remote stdio MCP server `"@ + server_name + "` requires an absolute cwd"@,
        ),
        McpServerTransportConfig::Stdio { cwd: Some(cwd) } => if cwd.absolute() {
            None
        } else {
            Some(
                "remote stdio MCP server `"@ + server_name + "` requires an absolute cwd, got `"@
                    + cwd.path() + "`"@,
            )
        },
    }
}

/// Where the server called `server_name` runs, or why it cannot.
pub open spec fn resolution<E>(
    environments: EnvironmentManager<E>,
    server_name: Seq<char>,
    config: McpServerConfig,
) -> Result<RuntimeView<E>, Seq<char>> {
    match placement(config) {
        PlacementView::Orchestrator => if environments.local() is None
            && config.transport is Stdio {
            Err("local stdio MCP server `"@ + server_name + "` requires a local environment"@)
        } else {
            Ok(RuntimeView::Orchestrator)
        },
        PlacementView::Environment { environment_id } => match environments.environment(
            environment_id,
        ) {
            None => Err(
                "MCP server `"@ + server_name + "` references unknown environment id `"@
                    + environment_id + "`"@,
            ),
            Some(environment) => match remote_cwd_error(server_name, config) {
                Some(error) => Err(error),
                None => Ok(RuntimeView::Environment(environment)),
            },
        },
    }
}

/// Checks that a server can be started in a remote environment.
pub fn ensure_remote_stdio_cwd(server_name: &str, config: &McpServerConfig) -> (checked: Result<
    (),
    String,
>)
    ensures
        match checked {
            Ok(_) => remote_cwd_error(server_name@, *config) is None,
            Err(error) => remote_cwd_error(server_name@, *config) == Some(error@),
        },
{
    match &config.transport {
        McpServerTransportConfig::StreamableHttp => Ok(()),
        McpServerTransportConfig::Stdio { cwd: None } => Err(
            "remote stdio MCP server `".to_string().concat(server_name).concat(
                "` requires an absolute cwd",
            ),
        ),
        McpServerTransportConfig::Stdio { cwd: Some(cwd) } => {
            if cwd.absolute {
                Ok(())
            } else {
                Err(
                    "remote stdio MCP server `".to_string().concat(server_name).concat(
                        "` requires an absolute cwd, got `",
                    ).concat(cwd.path.as_str()).concat("`"),
                )
            }
        },
    }
}

/// Runtime context used when resolving per-server MCP environment placement.
///
/// The configuration says which servers exist. This value carries the
/// environments there are and the working directory for a local stdio server
/// that names none.
pub struct McpRuntimeContext<E> {
    environment_manager: EnvironmentManager<E>,
    fallback_cwd: String,
}

impl<E> McpRuntimeContext<E> {
    /// The environments there are.
    pub closed spec fn environments(self) -> EnvironmentManager<E> {
        self.environment_manager
    }

    /// The working directory for a local stdio server that names none.
    pub closed spec fn fallback(self) -> Seq<char> {
        self.fallback_cwd@
    }

    /// A context of its parts.
    pub fn new(environment_manager: EnvironmentManager<E>, fallback_cwd: String) -> (context: Self)
        ensures
            context.environments() == environment_manager,
            context.fallback() == fallback_cwd@,
    {
        McpRuntimeContext { environment_manager, fallback_cwd }
    }

    /// The working directory for a local stdio server that names none.
    pub fn fallback_cwd(&self) -> (cwd: String)
        ensures
            cwd@ == self.fallback(),
    {
        self.fallback_cwd.clone()
    }

    /// Where the server called `server_name` runs.
    pub fn resolve_server_runtime(&self, server_name: &str, config: &McpServerConfig) -> (resolved:
        Result<ResolvedMcpServerRuntime<'_, E>, String>)
        ensures
            match resolved {
                Ok(runtime) => resolution(self.environments(), server_name@, *config) == Ok::<
                    RuntimeView<E>,
                    Seq<char>,
                >(runtime@),
                Err(error) => resolution(self.environments(), server_name@, *config) == Err::<
                    RuntimeView<E>,
                    Seq<char>,
                >(error@),
            },
    {
        match McpServerRuntimePlacement::from_config(config) {
            McpServerRuntimePlacement::Orchestrator => {
                let is_stdio = match &config.transport {
                    McpServerTransportConfig::Stdio { .. } => true,
                    McpServerTransportConfig::StreamableHttp => false,
                };
                if self.environment_manager.try_local_environment().is_none() && is_stdio {
                    return Err(
                        "local stdio MCP server `".to_string().concat(server_name).concat(
                            "` requires a local environment",
                        ),
                    );
                }
                Ok(ResolvedMcpServerRuntime::Orchestrator)
            },
            McpServerRuntimePlacement::Environment { environment_id } => {
                match self.environment_manager.get_environment(environment_id.as_str()) {
                    None => Err(
                        "MCP server `".to_string().concat(server_name).concat(
                            "` references unknown environment id `",
                        ).concat(environment_id.as_str()).concat("`"),
                    ),
                    Some(environment) => match ensure_remote_stdio_cwd(server_name, config) {
                        Ok(_) => Ok(ResolvedMcpServerRuntime::Environment(environment)),
                        Err(error) => Err(error),
                    },
                }
            },
        }
    }
}

// ---------------------------------------------------------------------------
// Laws
// ---------------------------------------------------------------------------

/// A server placed in a named environment runs in that environment or not at
/// all, and one placed in the orchestrator runs in no environment.
pub proof fn resolution_respects_placement<E>(
    environments: EnvironmentManager<E>,
    server_name: Seq<char>,
    config: McpServerConfig,
)
    ensures
        resolution(environments, server_name, config) matches Ok(runtime) ==> match placement(
            config,
        ) {
            PlacementView::Orchestrator => runtime is Orchestrator,
            PlacementView::Environment { environment_id } => {
                &&& runtime is Environment
                &&& environments.environment(environment_id) == Some(runtime->Environment_0)
            },
        },
{
}

/// A server over HTTP resolves wherever its environment is known; in the
/// orchestrator it needs no local environment.
pub proof fn http_needs_no_process<E>(
    environments: EnvironmentManager<E>,
    server_name: Seq<char>,
    config: McpServerConfig,
)
    requires
        config.transport is StreamableHttp,
    ensures
        resolution(environments, server_name, config) is Ok <==> config.local_environment
            || environments.environment(config.environment_id@) is Some,
{
}

/// A process is never started in a named environment without an absolute
/// working directory.
pub proof fn remote_process_has_absolute_cwd<E>(
    environments: EnvironmentManager<E>,
    server_name: Seq<char>,
    config: McpServerConfig,
)
    requires
        config.transport is Stdio,
        resolution(environments, server_name, config) matches Ok(runtime) && runtime is Environment,
    ensures
        config.transport->cwd is Some,
        (config.transport->cwd)->0.absolute(),
{
}

/// A server of the local environment runs in the orchestrator. One that is a
/// process does so exactly if there is a local environment, whatever working
/// directory it names or leaves out; one over HTTP always does.
pub proof fn local_servers_run_in_the_orchestrator<E>(
    environments: EnvironmentManager<E>,
    server_name: Seq<char>,
    config: McpServerConfig,
)
    requires
        config.local_environment,
    ensures
        config.transport is Stdio ==> (resolution(environments, server_name, config) is Ok
            <==> environments.local() is Some),
        config.transport is StreamableHttp ==> resolution(environments, server_name, config) is Ok,
        resolution(environments, server_name, config) matches Ok(runtime) ==> runtime
            is Orchestrator,
        resolution(environments, server_name, config) matches Err(error) ==> error
            == "local stdio MCP server `"@ + server_name + "` requires a local environment"@,
{
}

/// A server of another environment runs in the environment of that id, whether
/// or not there is a local one. It does so exactly if there is such an
/// environment and, where it is a process, it names an absolute working
/// directory.
pub proof fn remote_servers_run_in_their_environment<E>(
    environments: EnvironmentManager<E>,
    server_name: Seq<char>,
    config: McpServerConfig,
)
    requires
        !config.local_environment,
    ensures
        resolution(environments, server_name, config) is Ok <==> {
            &&& environments.environment(config.environment_id@) is Some
            &&& match config.transport {
                McpServerTransportConfig::StreamableHttp => true,
                McpServerTransportConfig::Stdio { cwd } => cwd is Some && cwd->0.absolute(),
            }
        },
        resolution(environments, server_name, config) matches Ok(runtime) ==> {
            &&& runtime is Environment
            &&& environments.environment(config.environment_id@) == Some(runtime->Environment_0)
        },
{
}

/// An error says what is missing: the environment first, by its id, then the
/// working directory, by what was named instead.
pub proof fn remote_errors_say_what_is_missing<E>(
    environments: EnvironmentManager<E>,
    server_name: Seq<char>,
    config: McpServerConfig,
    error: Seq<char>,
)
    requires
        !config.local_environment,
        resolution(environments, server_name, config) == Err::<RuntimeView<E>, Seq<char>>(error),
    ensures
        environments.environment(config.environment_id@) is None ==> error == "MCP server `"@
            + server_name + "` references unknown environment id `"@ + config.environment_id@
            + "`"@,
        environments.environment(config.environment_id@) is Some ==> match config.transport {
            McpServerTransportConfig::StreamableHttp => false,
            McpServerTransportConfig::Stdio { cwd: None } => error == "remote stdio MCP server `"@
                + server_name + "` requires an absolute cwd"@,
            McpServerTransportConfig::Stdio { cwd: Some(cwd) } => {
                &&& !cwd.absolute()
                &&& error == "remote stdio MCP server `"@ + server_name
                    + "` requires an absolute cwd, got `"@ + cwd.path() + "`"@
            },
        },
{
}

/// Whether a server can be started in a remote environment depends on how it is
/// talked to and where it starts, and on nothing else: a process needs an
/// absolute working directory, and HTTP needs none.
pub proof fn only_processes_need_a_directory(server_name: Seq<char>, config: McpServerConfig)
    ensures
        remote_cwd_error(server_name, config) is Some <==> match config.transport {
            McpServerTransportConfig::StreamableHttp => false,
            McpServerTransportConfig::Stdio { cwd } => cwd is None || !cwd->0.absolute(),
        },
{
}

/// An id means the first environment that was given under it; there is none
/// exactly if none was.
pub proof fn ids_mean_the_first_of_their_name<E>(
    named: Seq<(String, E)>,
    id: Seq<char>,
    i: int,
)
    ensures
        first_named(named, id) is Some <==> exists|k: int|
            0 <= k < named.len() && (#[trigger] named[k]).0@ == id,
        0 <= i < named.len() && named[i].0@ == id && (forall|k: int|
            0 <= k < i ==> (#[trigger] named[k]).0@ != id) ==> first_named(named, id) == Some(
            named[i].1,
        ),
    decreases named.len(),
{
    if named.len() > 0 {
        let rest = named.drop_first();
        ids_mean_the_first_of_their_name(rest, id, i - 1);
        if named[0].0@ != id {
            if first_named(rest, id) is Some {
                let k = choose|k: int| 0 <= k < rest.len() && (#[trigger] rest[k]).0@ == id;
                assert(named[k + 1] == rest[k]);
            }
            if exists|k: int| 0 <= k < named.len() && (#[trigger] named[k]).0@ == id {
                let k = choose|k: int| 0 <= k < named.len() && (#[trigger] named[k]).0@ == id;
                assert(rest[k - 1] == named[k]);
            }
            if 0 <= i < named.len() && named[i].0@ == id && (forall|k: int|
                0 <= k < i ==> (#[trigger] named[k]).0@ != id) {
                assert(rest[i - 1] == named[i]);
                assert forall|k: int| 0 <= k < i - 1 implies (#[trigger] rest[k]).0@ != id by {
                    assert(rest[k] == named[k + 1]);
                }
            }
        } else if 0 < i < named.len() {
            assert(named[0].0@ == id);
        }
    }
}

/// A server of the local environment is placed in the orchestrator, any other
/// in the environment that it names.
pub proof fn placement_goes_by_the_environment(config: McpServerConfig)
    ensures
        config.local_environment <==> placement(config) is Orchestrator,
        placement(config) matches PlacementView::Environment { environment_id } ==> environment_id
            == config.environment_id@,
{
}

} // verus!
