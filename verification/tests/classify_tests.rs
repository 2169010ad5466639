use mcp_discovery::classify::{
    identify_lower, identify_mcp_server, is_candidate_lower, is_potential_mcp_server,
    parse_command_line,
};
use mcp_discovery::record::Source;

#[test]
fn azure_wins_over_npx() {
    let (name, source) = identify_mcp_server("npx -y @azure/mcp-server");
    assert!(name.contains("Azure"));
    assert_eq!(name, "Azure MCP Server");
    assert_eq!(source, Source::Copilot);
}

#[test]
fn filesystem_is_system() {
    let (name, source) = identify_mcp_server("node mcp-filesystem-server");
    assert!(name.contains("Filesystem"));
    assert_eq!(source, Source::System);
}

#[test]
fn every_rule_in_order() {
    assert_eq!(identify_mcp_server("mcp-kubernetes"), ("Kubernetes MCP Server".to_string(), Source::Copilot));
    assert_eq!(identify_mcp_server("x github y"), ("GitHub MCP Server".to_string(), Source::System));
    assert_eq!(identify_mcp_server("uvx mcp-sqlite"), ("SQLite MCP Server".to_string(), Source::System));
    assert_eq!(identify_mcp_server("mcp-postgres"), ("PostgreSQL MCP Server".to_string(), Source::System));
    assert_eq!(identify_mcp_server("mcp-brave-search"), ("Brave Search MCP Server".to_string(), Source::System));
    assert_eq!(identify_mcp_server("copilot-helper"), ("Copilot MCP Server".to_string(), Source::Copilot));
    assert_eq!(identify_mcp_server("npx some-mcp"), ("NPX MCP Server".to_string(), Source::Copilot));
    assert_eq!(identify_mcp_server("npx something"), ("Unknown MCP Server".to_string(), Source::Unknown));
    assert_eq!(identify_mcp_server(""), ("Unknown MCP Server".to_string(), Source::Unknown));
}

#[test]
fn github_wins_over_copilot() {
    assert_eq!(identify_mcp_server("github copilot"), ("GitHub MCP Server".to_string(), Source::System));
    assert_eq!(identify_mcp_server("kubernetes on azure"), ("Azure MCP Server".to_string(), Source::Copilot));
}

#[test]
fn classification_ignores_case() {
    assert_eq!(identify_mcp_server("NODE MCP-FileSystem"), ("Filesystem MCP Server".to_string(), Source::System));
    assert_eq!(identify_lower("NODE MCP-FileSystem"), ("Unknown MCP Server".to_string(), Source::Unknown));
}

#[test]
fn candidates() {
    assert!(!is_potential_mcp_server("bash --login"));
    assert!(is_potential_mcp_server("uvx mcp-sqlite"));
    assert!(is_potential_mcp_server("/usr/bin/MCP-Server --stdio"));
    assert!(is_potential_mcp_server("tool --mcp"));
    assert!(!is_potential_mcp_server("node server.js mcp"));
    assert!(!is_potential_mcp_server(""));
    assert!(!is_candidate_lower("UVX"));
    assert!(is_candidate_lower("uvx"));
}

#[test]
fn command_line_is_split_at_white_space() {
    let (command, args) = parse_command_line("  node   server.js\t--port 80 ");
    assert_eq!(command, "node");
    assert_eq!(args, vec!["server.js".to_string(), "--port".to_string(), "80".to_string()]);
}

#[test]
fn empty_command_line() {
    assert_eq!(parse_command_line(""), (String::new(), Vec::<String>::new()));
    assert_eq!(parse_command_line("   "), (String::new(), Vec::<String>::new()));
    assert_eq!(parse_command_line("one"), ("one".to_string(), Vec::<String>::new()));
}

#[test]
fn quotes_do_not_group() {
    let (command, args) = parse_command_line("run --path \"/My Documents/\"");
    assert_eq!(command, "run");
    assert_eq!(args, vec!["--path".to_string(), "\"/My".to_string(), "Documents/\"".to_string()]);
}
