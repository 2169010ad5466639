//! The heuristics that tell a server's command line from others, give it a
//! name and a source, and split it into program and arguments.

use vstd::prelude::*;
use crate::record::Source;
use crate::text::{contains, fields_of, has_sub, lower, lowercase, split_fields, texts};

verus! {

/// A lower-case command line holds one of the indicators of a server.
pub open spec fn candidate_text(l: Seq<char>) -> bool {
    has_sub(l, "mcp-server"@) || has_sub(l, "mcp_server"@) || has_sub(l, "mcp-kubernetes"@)
        || has_sub(l, "@azure/mcp"@) || has_sub(l, "npx.*@azure/mcp"@) || has_sub(l, "--mcp"@)
        || has_sub(l, "model-context-protocol"@) || has_sub(l, "stdio-server"@) || has_sub(
        l,
        "mcp-filesystem"@,
    ) || has_sub(l, "mcp-github"@) || has_sub(l, "mcp-sqlite"@) || has_sub(l, "mcp-postgres"@)
        || has_sub(l, "mcp-brave-search"@) || has_sub(l, "mcp-everything"@) || has_sub(l, "uvx"@)
        || has_sub(l, "python -m.*mcp"@) || has_sub(l, "node.*mcp"@) || has_sub(
        l,
        "/mcp-kubernetes/mcp-kubernetes"@,
    )
}

/// The name and the source for a lower-case command line: the first rule
/// that matches decides.
pub open spec fn classified(l: Seq<char>) -> (Seq<char>, Source) {
    if has_sub(l, "@azure/mcp"@) || has_sub(l, "azure"@) {
        ("Azure MCP Server"@, Source::Copilot)
    } else if has_sub(l, "mcp-kubernetes"@) || has_sub(l, "kubernetes"@) {
        ("Kubernetes MCP Server"@, Source::Copilot)
    } else if has_sub(l, "filesystem"@) {
        ("Filesystem MCP Server"@, Source::System)
    } else if has_sub(l, "github"@) {
        ("GitHub MCP Server"@, Source::System)
    } else if has_sub(l, "sqlite"@) {
        ("SQLite MCP Server"@, Source::System)
    } else if has_sub(l, "postgres"@) {
        ("PostgreSQL MCP Server"@, Source::System)
    } else if has_sub(l, "brave"@) {
        ("Brave Search MCP Server"@, Source::System)
    } else if has_sub(l, "copilot"@) {
        ("Copilot MCP Server"@, Source::Copilot)
    } else if has_sub(l, "npx"@) && has_sub(l, "mcp"@) {
        ("NPX MCP Server"@, Source::Copilot)
    } else {
        ("Unknown MCP Server"@, Source::Unknown)
    }
}

/// The program of a command line: its first field, or nothing.
pub open spec fn program_of(line: Seq<char>) -> Seq<char> {
    let f = fields_of(line);
    if f.len() == 0 {
        Seq::empty()
    } else {
        f[0]
    }
}

/// The arguments of a command line: its fields behind the first.
pub open spec fn arguments_of(line: Seq<char>) -> Seq<Seq<char>> {
    let f = fields_of(line);
    if f.len() == 0 {
        Seq::empty()
    } else {
        f.subrange(1, f.len() as int)
    }
}

/// Tells whether a command line that is already in lower case holds an indicator.
pub fn is_candidate_lower(command_lower: &str) -> (r: bool)
    ensures
        r == candidate_text(command_lower@),
{
    let l = command_lower;
    contains(l, "mcp-server") || contains(l, "mcp_server") || contains(l, "mcp-kubernetes")
        || contains(l, "@azure/mcp") || contains(l, "npx.*@azure/mcp") || contains(l, "--mcp")
        || contains(l, "model-context-protocol") || contains(l, "stdio-server") || contains(
        l,
        "mcp-filesystem",
    ) || contains(l, "mcp-github") || contains(l, "mcp-sqlite") || contains(l, "mcp-postgres")
        || contains(l, "mcp-brave-search") || contains(l, "mcp-everything") || contains(l, "uvx")
        || contains(l, "python -m.*mcp") || contains(l, "node.*mcp") || contains(
        l,
        "/mcp-kubernetes/mcp-kubernetes",
    )
}

/// Tells whether a command line may be that of a server: in lower case it
/// holds at least one indicator.
pub fn is_potential_mcp_server(command_line: &str) -> (r: bool)
    ensures
        r == candidate_text(lowercase(command_line@)),
{
    let command_lower = lower(command_line);
    is_candidate_lower(command_lower.as_str())
}

/// Names a command line that is already in lower case, and gives its source.
pub fn identify_lower(command_lower: &str) -> (r: (String, Source))
    ensures
        r.0@ == classified(command_lower@).0,
        r.1 == classified(command_lower@).1,
{
    let l = command_lower;
    if contains(l, "@azure/mcp") || contains(l, "azure") {
        (String::from_str("Azure MCP Server"), Source::Copilot)
    } else if contains(l, "mcp-kubernetes") || contains(l, "kubernetes") {
        (String::from_str("Kubernetes MCP Server"), Source::Copilot)
    } else if contains(l, "filesystem") {
        (String::from_str("Filesystem MCP Server"), Source::System)
    } else if contains(l, "github") {
        (String::from_str("GitHub MCP Server"), Source::System)
    } else if contains(l, "sqlite") {
        (String::from_str("SQLite MCP Server"), Source::System)
    } else if contains(l, "postgres") {
        (String::from_str("PostgreSQL MCP Server"), Source::System)
    } else if contains(l, "brave") {
        (String::from_str("Brave Search MCP Server"), Source::System)
    } else if contains(l, "copilot") {
        (String::from_str("Copilot MCP Server"), Source::Copilot)
    } else if contains(l, "npx") && contains(l, "mcp") {
        (String::from_str("NPX MCP Server"), Source::Copilot)
    } else {
        (String::from_str("Unknown MCP Server"), Source::Unknown)
    }
}

/// Names the server behind a command line and gives its source, by the first
/// rule that its lower-case form matches.
pub fn identify_mcp_server(command_line: &str) -> (r: (String, Source))
    ensures
        r.0@ == classified(lowercase(command_line@)).0,
        r.1 == classified(lowercase(command_line@)).1,
{
    let command_lower = lower(command_line);
    identify_lower(command_lower.as_str())
}

/// Splits a command line at white space into the program and its arguments.
/// Quotes have no meaning: a quoted argument with a space in it is split.
pub fn parse_command_line(command_line: &str) -> (r: (String, Vec<String>))
    ensures
        r.0@ == program_of(command_line@),
        texts(r.1@) == arguments_of(command_line@),
{
    let parts = split_fields(command_line);
    let n = parts.len();
    let mut args: Vec<String> = Vec::new();
    if n == 0 {
        assert(texts(parts@).len() == 0);
        assert(texts(args@) =~= Seq::<Seq<char>>::empty());
        return (String::new(), args);
    }
    assert(texts(parts@)[0] == parts@[0]@);
    let command = parts[0].clone();
    let mut k: usize = 1;
    while k < n
        invariant
            1 <= k <= n,
            n == parts.len(),
            texts(args@) == texts(parts@).subrange(1, k as int),
        decreases n - k,
    {
        let ghost before = texts(args@);
        args.push(parts[k].clone());
        assert(texts(args@) =~= before.push(parts@[k as int]@));
        assert(texts(args@) =~= texts(parts@).subrange(1, k + 1));
        k = k + 1;
    }
    (command, args)
}

} // verus!
