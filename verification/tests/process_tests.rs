use mcp_discovery::discover::{detect_copilot_mcp_servers, get_all_mcp_servers, get_claude_mcp_servers};
use mcp_discovery::paths::{get_copilot_config_paths, user_settings_path, workspace_roots};
use mcp_discovery::process::{detect_running_mcp_servers, get_process_info, join_fields, scan_line};
use mcp_discovery::record::Source;

const TABLE: &str = "USER       PID  %CPU %MEM      VSZ    RSS   TT  STAT STARTED      TIME COMMAND\n\
me       12345   0.0  0.1  4000000  10000   ??  S     9:00AM   0:01.00 npx -y @azure/mcp-server start\n\
short line here\n\
me         777   0.0  0.1  4000000  10000   ??  S     9:00AM   0:00.10 bash --login\n\
root        42   1.0  0.2  4000000  10000 s001  S+    9:01AM   0:02.00 /usr/bin/node   mcp-filesystem-server /tmp\n\
me         abc   0.0  0.1  4000000  10000   ??  S     9:00AM   0:01.00 uvx mcp-sqlite\n";

#[test]
fn running_servers_of_a_table() {
    let servers = detect_running_mcp_servers(TABLE);
    assert_eq!(servers.len(), 2);
    assert_eq!(servers[0].name, "Azure MCP Server");
    assert_eq!(servers[0].pid, 12345);
    assert_eq!(servers[0].command, "npx");
    assert_eq!(servers[0].args, vec!["-y".to_string(), "@azure/mcp-server".to_string(), "start".to_string()]);
    assert_eq!(servers[0].source, Source::Copilot);
    assert_eq!(servers[0].config_path, None);
    assert_eq!(servers[1].name, "Filesystem MCP Server");
    assert_eq!(servers[1].pid, 42);
    assert_eq!(servers[1].command, "/usr/bin/node");
    assert_eq!(servers[1].args, vec!["mcp-filesystem-server".to_string(), "/tmp".to_string()]);
    assert_eq!(servers[1].source, Source::System);
}

#[test]
fn short_line_gives_no_record_and_the_scan_goes_on() {
    let with = "a b c uvx\nu 5 c d e f g h i j uvx mcp-sqlite\n";
    let without = "u 5 c d e f g h i j uvx mcp-sqlite\n";
    assert!(scan_line("a b c uvx").is_none());
    assert!(scan_line("a 1 c d e f g h i uvx").is_none());
    let a = detect_running_mcp_servers(with);
    let b = detect_running_mcp_servers(without);
    assert_eq!(a.len(), 1);
    assert_eq!(b.len(), 1);
    assert_eq!(a[0].pid, 5);
    assert_eq!(a[0].name, b[0].name);
    assert_eq!(a[0].command, "uvx");
}

#[test]
fn lines_that_give_no_record() {
    assert!(scan_line("").is_none());
    assert!(scan_line("USER 1 c d e f g h i j uvx PID").is_none());
    assert!(scan_line("u x c d e f g h i j uvx").is_none());
    assert!(scan_line("u -1 c d e f g h i j uvx").is_none());
    assert!(scan_line("u 0 c d e f g h i j uvx").is_none());
    assert!(scan_line("u 1 c d e f g h i j uvx").is_some());
    assert!(scan_line("u 4294967296 c d e f g h i j uvx").is_none());
    assert!(scan_line("u 1 c d e f g h i j vim notes.txt").is_none());
    assert!(detect_running_mcp_servers("").is_empty());
}

#[test]
fn line_with_exactly_eleven_fields() {
    let s = scan_line("u 4294967295 c d e f g h i j UVX").unwrap();
    assert_eq!(s.pid, 4294967295);
    assert_eq!(s.command, "UVX");
    assert!(s.args.is_empty());
    assert_eq!(s.name, "Unknown MCP Server");
    assert_eq!(s.source, Source::Unknown);
}

#[test]
fn windows_line_ends() {
    let servers = detect_running_mcp_servers("u 9 c d e f g h i j uvx a\r\nu 8 c d e f g h i j uvx b");
    assert_eq!(servers.len(), 2);
    assert_eq!(servers[0].args, vec!["a".to_string()]);
    assert_eq!(servers[1].pid, 8);
}

#[test]
fn fields_are_joined_with_one_space() {
    let parts = vec!["a".to_string(), "b".to_string(), "c".to_string()];
    assert_eq!(join_fields(&parts, 0), "a b c");
    assert_eq!(join_fields(&parts, 1), "b c");
    assert_eq!(join_fields(&parts, 2), "c");
    assert_eq!(join_fields(&parts, 3), "");
    assert_eq!(join_fields(&parts, 9), "");
}

#[test]
fn process_info_of_a_listing() {
    let info = get_process_info(42, "  PID  PPID USER     COMMAND\n   42     1 root     /usr/bin/node  server.js --x\n").unwrap();
    assert_eq!(info.pid, 42);
    assert_eq!(info.ppid, "1");
    assert_eq!(info.user, "root");
    assert_eq!(info.command, "/usr/bin/node server.js --x");
    assert!(get_process_info(42, "  PID  PPID USER     COMMAND\n").is_none());
    assert!(get_process_info(42, "").is_none());
    assert!(get_process_info(42, "h\n42 1 root\n").is_none());
}

#[test]
fn configured_servers_of_texts() {
    let settings = vec![
        "{\"mcp\": {\"servers\": {\"a\": {\"command\": \"x\"}}}}".to_string(),
        "broken".to_string(),
        "{ // c\n \"mcp\": {\"servers\": {\"b\": {}}}, }".to_string(),
    ];
    let files = vec![
        ("/h/.gitconfig".to_string(), "[core]".to_string()),
        ("/h/hosts.json".to_string(), "{\"c\": {\"command\": \"y\"}}".to_string()),
    ];
    let servers = detect_copilot_mcp_servers(&settings, &files);
    assert_eq!(servers.len(), 3);
    assert_eq!(servers[0].name, "a");
    assert_eq!(servers[0].config_path, None);
    assert_eq!(servers[1].name, "b");
    assert_eq!(servers[1].command, "");
    assert_eq!(servers[2].name, "c");
    assert_eq!(servers[2].config_path, Some("/h/hosts.json".to_string()));
    assert!(servers.iter().all(|s| s.pid == 0 && s.source == Source::Copilot));
    assert!(detect_copilot_mcp_servers(&Vec::new(), &Vec::new()).is_empty());
}

#[test]
fn report_has_no_claude_servers() {
    let settings = vec!["{\"mcp\": {\"servers\": {\"desk\": {\"command\": \"desk\"}}}}".to_string()];
    let files = vec![("/p".to_string(), "{\"desk\": {\"command\": \"desk\"}}".to_string())];
    let report = get_all_mcp_servers(TABLE, &settings, &files);
    assert_eq!(report.running_servers.len(), 2);
    assert_eq!(report.copilot_servers.len(), 2);
    assert!(report.claude_servers.is_empty());
    assert!(get_claude_mcp_servers().is_empty());
    let empty = get_all_mcp_servers("", &Vec::new(), &Vec::new());
    assert!(empty.running_servers.is_empty());
    assert!(empty.copilot_servers.is_empty());
    assert!(empty.claude_servers.is_empty());
}

#[test]
fn paths_below_home() {
    assert_eq!(user_settings_path("/Users/u"), "/Users/u/Library/Application Support/Code/User/settings.json");
    assert_eq!(
        workspace_roots("/h"),
        vec!["/h/Desktop".to_string(), "/h/Documents".to_string(), "/h/Projects".to_string(), "/h/workspace".to_string(), "/h/dev".to_string()]
    );
    assert_eq!(
        get_copilot_config_paths("/h"),
        vec![
            "/h/.config/github-copilot/hosts.json".to_string(),
            "/h/.gitconfig".to_string(),
            "/h/Library/Application Support/Code/User/globalStorage/github.copilot".to_string()
        ]
    );
}
