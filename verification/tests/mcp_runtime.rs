use codex_recall::mcp_runtime::{
    EnvironmentManager, McpRuntimeContext, McpServerConfig, McpServerRuntimePlacement,
    McpServerTransportConfig, ResolvedMcpServerRuntime, WorkingDirectory, ensure_remote_stdio_cwd,
};

const DEFAULT_MCP_SERVER_ENVIRONMENT_ID: &str = "local";

fn stdio_server(environment_id: &str) -> McpServerConfig {
    McpServerConfig {
        transport: McpServerTransportConfig::Stdio { cwd: None },
        environment_id: environment_id.to_string(),
        local_environment: environment_id == DEFAULT_MCP_SERVER_ENVIRONMENT_ID,
    }
}

fn http_server(environment_id: &str) -> McpServerConfig {
    McpServerConfig {
        transport: McpServerTransportConfig::StreamableHttp,
        ..stdio_server(environment_id)
    }
}

fn without_environments() -> McpRuntimeContext<String> {
    McpRuntimeContext::new(
        EnvironmentManager::without_environments(),
        "/tmp".to_string(),
    )
}

fn with_remote() -> McpRuntimeContext<String> {
    McpRuntimeContext::new(
        EnvironmentManager::new(
            None,
            vec![("remote".to_string(), "ws://127.0.0.1:8765".to_string())],
        ),
        "/tmp".to_string(),
    )
}

#[test]
fn local_stdio_requires_local_stdio_availability() {
    let runtime_context = without_environments();

    let error = match runtime_context
        .resolve_server_runtime("stdio", &stdio_server(DEFAULT_MCP_SERVER_ENVIRONMENT_ID))
    {
        Ok(_) => panic!("local stdio MCP should require a local environment"),
        Err(error) => error,
    };
    assert_eq!(
        error,
        "local stdio MCP server `stdio` requires a local environment"
    );
}

#[test]
fn local_http_does_not_require_local_stdio_availability() {
    let runtime_context = without_environments();

    let resolved_runtime = runtime_context
        .resolve_server_runtime("http", &http_server(DEFAULT_MCP_SERVER_ENVIRONMENT_ID))
        .expect("local HTTP MCP should resolve");
    assert!(matches!(
        resolved_runtime,
        ResolvedMcpServerRuntime::Orchestrator
    ));
}

#[test]
fn unknown_explicit_environment_is_rejected() {
    let runtime_context = without_environments();

    let error = match runtime_context.resolve_server_runtime("stdio", &stdio_server("remote")) {
        Ok(_) => panic!("unknown MCP environment should fail"),
        Err(error) => error,
    };
    assert_eq!(
        error,
        "MCP server `stdio` references unknown environment id `remote`"
    );
}

#[test]
fn explicit_remote_stdio_and_http_accept_named_environment() {
    let runtime_context = with_remote();

    let mut remote_stdio = stdio_server("remote");
    remote_stdio.transport = McpServerTransportConfig::Stdio {
        cwd: Some(WorkingDirectory::new("/tmp")),
    };
    for resolved_runtime in [
        runtime_context.resolve_server_runtime("stdio", &remote_stdio),
        runtime_context.resolve_server_runtime("http", &http_server("remote")),
    ] {
        let resolved_runtime = resolved_runtime.expect("remote MCP should resolve");
        match resolved_runtime {
            ResolvedMcpServerRuntime::Environment(environment) => {
                assert_eq!(environment, "ws://127.0.0.1:8765");
            }
            ResolvedMcpServerRuntime::Orchestrator => panic!("not in the orchestrator"),
        }
    }
}

#[test]
fn local_stdio_accepts_local_environment_when_available() {
    let runtime_context = McpRuntimeContext::new(
        EnvironmentManager::new(Some("here".to_string()), Vec::new()),
        "/tmp".to_string(),
    );

    let resolved_runtime = runtime_context
        .resolve_server_runtime("stdio", &stdio_server(DEFAULT_MCP_SERVER_ENVIRONMENT_ID))
        .expect("local stdio MCP should resolve");
    assert!(matches!(
        resolved_runtime,
        ResolvedMcpServerRuntime::Orchestrator
    ));
}

#[test]
fn remote_stdio_requires_absolute_cwd() {
    let runtime_context = with_remote();
    let mut remote_stdio = stdio_server("remote");
    remote_stdio.transport = McpServerTransportConfig::Stdio {
        cwd: Some(WorkingDirectory::new("relative")),
    };

    let error = match runtime_context.resolve_server_runtime("stdio", &remote_stdio) {
        Ok(_) => panic!("remote stdio MCP should require absolute cwd"),
        Err(error) => error,
    };
    assert_eq!(
        error,
        "remote stdio MCP server `stdio` requires an absolute cwd, got `relative`"
    );
}

#[test]
fn remote_stdio_accepts_directories_that_are_absolute_everywhere() {
    let runtime_context = with_remote();
    for cwd in ["//server/share/x", "//server/share/"] {
        let mut remote_stdio = stdio_server("remote");
        remote_stdio.transport = McpServerTransportConfig::Stdio {
            cwd: Some(WorkingDirectory::new(cwd)),
        };
        assert!(
            runtime_context
                .resolve_server_runtime("stdio", &remote_stdio)
                .is_ok()
        );
    }
    for cwd in ["", ".", "relative/x", "C:relative"] {
        let mut remote_stdio = stdio_server("remote");
        remote_stdio.transport = McpServerTransportConfig::Stdio {
            cwd: Some(WorkingDirectory::new(cwd)),
        };
        assert!(
            runtime_context
                .resolve_server_runtime("stdio", &remote_stdio)
                .is_err()
        );
    }
}

#[test]
fn remote_stdio_requires_a_cwd() {
    let error = ensure_remote_stdio_cwd("stdio", &stdio_server("remote"))
        .expect_err("a remote process needs a directory");
    assert_eq!(
        error,
        "remote stdio MCP server `stdio` requires an absolute cwd"
    );
    assert!(ensure_remote_stdio_cwd("http", &http_server("remote")).is_ok());
}

#[test]
fn placement_follows_the_configuration() {
    assert_eq!(
        McpServerRuntimePlacement::from_config(&stdio_server("local")),
        McpServerRuntimePlacement::Orchestrator
    );
    let remote = McpServerRuntimePlacement::from_config(&http_server("remote"));
    assert_eq!(
        remote,
        McpServerRuntimePlacement::Environment {
            environment_id: "remote".to_string()
        }
    );
    assert_eq!(remote.clone(), remote);
}

#[test]
fn environments_are_found_by_id() {
    let manager = EnvironmentManager::new(
        Some(0),
        vec![
            ("a".to_string(), 1),
            ("b".to_string(), 2),
            ("a".to_string(), 3),
        ],
    );
    assert_eq!(manager.try_local_environment(), Some(&0));
    assert_eq!(manager.get_environment("a"), Some(&1));
    assert_eq!(manager.get_environment("b"), Some(&2));
    assert_eq!(manager.get_environment("c"), None);
}

#[test]
fn fallback_directory_is_kept() {
    assert_eq!(without_environments().fallback_cwd(), "/tmp");
}
