//! The extractors: from a parsed settings document to the servers that it
//! configures.

use vstd::prelude::*;
use crate::json::{
    array_items, entry_models, items_of, member, member_of, object_entries, object_of,
    parse_document, parsed_json, string_value, text_of, Json,
};
use crate::record::{all_configured, models, RunningMcpServer, ServerModel, Source};
use crate::sanitize::{sanitized, strip_json_comments};
use crate::text::texts;

verus! {

/// The view of a text that may be absent.
pub open spec fn opt_text(o: Option<String>) -> Option<Seq<char>> {
    match o {
        Some(s) => Some(s@),
        None => None,
    }
}

/// The texts of the strings among the first `n` elements, in order.
pub open spec fn string_items(items: Seq<Json>, n: int) -> Seq<Seq<char>>
    decreases n,
{
    if n <= 0 || n > items.len() {
        Seq::empty()
    } else {
        match text_of(items[n - 1]) {
            Some(t) => string_items(items, n - 1).push(t),
            None => string_items(items, n - 1),
        }
    }
}

/// The arguments that a server definition gives: the strings of its array
/// `args`, and none where it has no such array.
pub open spec fn args_of(definition: Json) -> Seq<Seq<char>> {
    match member_of(definition, "args"@) {
        Some(a) => match items_of(a) {
            Some(items) => string_items(items, items.len() as int),
            None => Seq::empty(),
        },
        None => Seq::empty(),
    }
}

/// The command that a server definition gives, where its `command` is a string.
pub open spec fn command_of(definition: Json) -> Option<Seq<char>> {
    match member_of(definition, "command"@) {
        Some(c) => text_of(c),
        None => None,
    }
}

/// The record of a configured server: its process id is 0.
pub open spec fn configured(
    name: Seq<char>,
    command: Seq<char>,
    args: Seq<Seq<char>>,
    source: Source,
    path: Option<Seq<char>>,
) -> ServerModel {
    ServerModel { name, pid: 0, command, args, source, config_path: path }
}

/// The records of the first `n` entries of a server map. An entry without a
/// command gives a record only where `lenient` is set, with an empty command.
pub open spec fn entry_records(
    es: Seq<(Seq<char>, Json)>,
    source: Source,
    path: Option<Seq<char>>,
    lenient: bool,
    n: int,
) -> Seq<ServerModel>
    decreases n,
{
    if n <= 0 || n > es.len() {
        Seq::empty()
    } else {
        let before = entry_records(es, source, path, lenient, n - 1);
        let e = es[n - 1];
        match command_of(e.1) {
            Some(c) => before.push(configured(e.0, c, args_of(e.1), source, path)),
            None => if lenient {
                before.push(configured(e.0, Seq::empty(), args_of(e.1), source, path))
            } else {
                before
            },
        }
    }
}

/// The records of a server map: one for each entry, in the map's order; none
/// for a value that is no object.
pub open spec fn map_records(
    config: Json,
    source: Source,
    path: Option<Seq<char>>,
    lenient: bool,
) -> Seq<ServerModel> {
    match object_of(config) {
        Some(es) => entry_records(es, source, path, lenient, es.len() as int),
        None => Seq::empty(),
    }
}

/// The servers under `mcp.servers` of an editor's settings.
pub open spec fn direct_records(json: Json) -> Seq<ServerModel> {
    match member_of(json, "mcp"@) {
        Some(m) => match member_of(m, "servers"@) {
            Some(s) => map_records(s, Source::Copilot, None, true),
            None => Seq::empty(),
        },
        None => Seq::empty(),
    }
}

/// The servers under `mcp` of the member `github.copilot.advanced` of an
/// editor's settings.
pub open spec fn advanced_records(json: Json) -> Seq<ServerModel> {
    match member_of(json, "github.copilot.advanced"@) {
        Some(a) => match member_of(a, "mcp"@) {
            Some(m) => map_records(m, Source::Copilot, None, false),
            None => Seq::empty(),
        },
        None => Seq::empty(),
    }
}

/// The servers that an editor's settings configure.
pub open spec fn editor_records(json: Json) -> Seq<ServerModel> {
    direct_records(json) + advanced_records(json)
}

/// The servers that the text of an editor's settings configures: none where
/// the sanitized text does not parse.
pub open spec fn settings_records(content: Seq<char>) -> Seq<ServerModel> {
    match parsed_json(sanitized(content)) {
        Some(json) => editor_records(json),
        None => Seq::empty(),
    }
}

/// The servers that the text of a stand-alone configuration file at `path`
/// configures: none where the sanitized text does not parse.
pub open spec fn standalone_records(content: Seq<char>, path: Seq<char>) -> Seq<ServerModel> {
    match parsed_json(sanitized(content)) {
        Some(json) => map_records(json, Source::Copilot, Some(path), false),
        None => Seq::empty(),
    }
}

/// Every record of a server map has the process id 0.
pub proof fn lemma_entries_configured(
    es: Seq<(Seq<char>, Json)>,
    source: Source,
    path: Option<Seq<char>>,
    lenient: bool,
    n: int,
)
    ensures
        all_configured(entry_records(es, source, path, lenient, n)),
    decreases n,
{
    if 0 < n <= es.len() {
        lemma_entries_configured(es, source, path, lenient, n - 1);
    }
}

/// Every record that a settings text or a stand-alone file gives has the
/// process id 0.
pub proof fn lemma_texts_configured(content: Seq<char>, path: Seq<char>)
    ensures
        all_configured(settings_records(content)),
        all_configured(standalone_records(content, path)),
{
    match parsed_json(sanitized(content)) {
        Some(json) => {
            lemma_map_configured(json, Source::Copilot, Some(path), false);
            match member_of(json, "mcp"@) {
                Some(m) => match member_of(m, "servers"@) {
                    Some(s) => {
                        lemma_map_configured(s, Source::Copilot, None, true);
                    },
                    None => {},
                },
                None => {},
            }
            match member_of(json, "github.copilot.advanced"@) {
                Some(a) => match member_of(a, "mcp"@) {
                    Some(m) => {
                        lemma_map_configured(m, Source::Copilot, None, false);
                    },
                    None => {},
                },
                None => {},
            }
        },
        None => {},
    }
}

/// Every record of a server map has the process id 0.
pub proof fn lemma_map_configured(
    config: Json,
    source: Source,
    path: Option<Seq<char>>,
    lenient: bool,
)
    ensures
        all_configured(map_records(config, source, path, lenient)),
{
    match object_of(config) {
        Some(es) => {
            lemma_entries_configured(es, source, path, lenient, es.len() as int);
        },
        None => {},
    }
}

/// Builds the record of a configured server.
pub fn configured_server(
    name: String,
    command: String,
    args: Vec<String>,
    source: Source,
    config_path: Option<String>,
) -> (r: RunningMcpServer)
    ensures
        r@ == configured(name@, command@, texts(args@), source, opt_text(config_path)),
{
    RunningMcpServer { name, pid: 0, command, args, source, config_path }
}

/// The strings among the elements of an array, in order.
pub fn string_elements(items: &Vec<Json>) -> (r: Vec<String>)
    ensures
        texts(r@) == string_items(items@, items@.len() as int),
{
    let mut out: Vec<String> = Vec::new();
    let n = items.len();
    let mut k: usize = 0;
    assert(texts(out@) =~= string_items(items@, 0));
    while k < n
        invariant
            k <= n,
            n == items.len(),
            texts(out@) == string_items(items@, k as int),
        decreases n - k,
    {
        let ghost before = texts(out@);
        match string_value(&items[k]) {
            Some(s) => {
                out.push(s.clone());
                assert(texts(out@) =~= before.push(s@));
            },
            None => {},
        }
        k = k + 1;
    }
    out
}

/// The arguments of a server definition.
pub fn definition_args(definition: &Json) -> (r: Vec<String>)
    ensures
        texts(r@) == args_of(*definition),
{
    let mut out: Vec<String> = Vec::new();
    assert(texts(out@) =~= Seq::<Seq<char>>::empty());
    match member(definition, "args") {
        Some(a) => match array_items(a) {
            Some(items) => {
                out = string_elements(items);
            },
            None => {},
        },
        None => {},
    }
    out
}

/// The command of a server definition, where it has one that is a string.
pub fn definition_command(definition: &Json) -> (r: Option<String>)
    ensures
        opt_text(r) == command_of(*definition),
{
    match member(definition, "command") {
        Some(c) => match string_value(c) {
            Some(s) => Some(s.clone()),
            None => None,
        },
        None => None,
    }
}

fn copy_path(path: &Option<String>) -> (r: Option<String>)
    ensures
        opt_text(r) == opt_text(*path),
{
    match path {
        Some(p) => Some(p.clone()),
        None => None,
    }
}

/// Appends the records of a server map to `out`.
fn collect_records(
    out: &mut Vec<RunningMcpServer>,
    config: &Json,
    source: Source,
    path: &Option<String>,
    lenient: bool,
)
    ensures
        models(final(out)@) == models(old(out)@) + map_records(
            *config,
            source,
            opt_text(*path),
            lenient,
        ),
{
    let ghost start = models(out@);
    match object_entries(config) {
        Some(entries) => {
            let ghost es = entry_models(entries@);
            let n = entries.len();
            let mut k: usize = 0;
            assert(models(out@) =~= start + entry_records(es, source, opt_text(*path), lenient, 0));
            while k < n
                invariant
                    k <= n,
                    n == entries.len(),
                    es == entry_models(entries@),
                    models(out@) == start + entry_records(
                        es,
                        source,
                        opt_text(*path),
                        lenient,
                        k as int,
                    ),
                decreases n - k,
            {
                let ghost before = models(out@);
                let ghost sofar = entry_records(es, source, opt_text(*path), lenient, k as int);
                let definition = &entries[k].1;
                assert(es[k as int] == (entries@[k as int].0@, entries@[k as int].1));
                let command = definition_command(definition);
                let found = command.is_some();
                if found || lenient {
                    let text = match command {
                        Some(c) => c,
                        None => String::new(),
                    };
                    let server = configured_server(
                        entries[k].0.clone(),
                        text,
                        definition_args(definition),
                        source,
                        copy_path(path),
                    );
                    out.push(server);
                    assert(models(out@) =~= before.push(server@));
                    assert(before.push(server@) =~= start + sofar.push(server@));
                }
                k = k + 1;
            }
            assert(n == es.len());
        },
        None => {
            assert(models(out@) =~= start + Seq::<ServerModel>::empty());
        },
    }
}

/// `None` for no records, as a hint that the document had no known shape.
pub fn some_if_any(servers: Vec<RunningMcpServer>) -> (r: Option<Vec<RunningMcpServer>>)
    ensures
        r == if servers@.len() == 0 {
            None
        } else {
            Some(servers)
        },
{
    if servers.len() == 0 {
        None
    } else {
        Some(servers)
    }
}

/// The servers of a map from names to server definitions. An entry without a
/// command that is a string gives no record. Each record has the process id 0
/// and no path. The result is `None` where there is no record.
pub fn extract_mcp_servers_from_config(config: &Json, source: Source) -> (r: Option<
    Vec<RunningMcpServer>,
>)
    ensures
        r.is_none() <==> map_records(*config, source, None, false).len() == 0,
        r matches Some(v) ==> models(v@) == map_records(*config, source, None, false),
{
    let mut servers: Vec<RunningMcpServer> = Vec::new();
    let ghost start = models(servers@);
    collect_records(&mut servers, config, source, &None, false);
    assert(start + map_records(*config, source, None, false) =~= map_records(
        *config,
        source,
        None,
        false,
    ));
    some_if_any(servers)
}

/// The servers that an editor's settings configure: those under
/// `mcp.servers`, each with the command and arguments that its definition
/// gives (an empty command where it gives none), then those under `mcp` of
/// `github.copilot.advanced`. All are tagged `copilot`. The result is `None`
/// where there is no record.
pub fn extract_copilot_mcp_config(json: &Json) -> (r: Option<Vec<RunningMcpServer>>)
    ensures
        r.is_none() <==> editor_records(*json).len() == 0,
        r matches Some(v) ==> models(v@) == editor_records(*json),
{
    let mut servers: Vec<RunningMcpServer> = Vec::new();
    assert(models(servers@) =~= Seq::<ServerModel>::empty());
    match member(json, "mcp") {
        Some(m) => match member(m, "servers") {
            Some(s) => {
                collect_records(&mut servers, s, Source::Copilot, &None, true);
            },
            None => {},
        },
        None => {},
    }
    assert(models(servers@) =~= direct_records(*json));
    let ghost direct = models(servers@);
    match member(json, "github.copilot.advanced") {
        Some(a) => match member(a, "mcp") {
            Some(m) => {
                collect_records(&mut servers, m, Source::Copilot, &None, false);
            },
            None => {},
        },
        None => {},
    }
    assert(models(servers@) =~= direct + advanced_records(*json));
    some_if_any(servers)
}

/// The servers that the text of an editor's settings file configures. The
/// text is sanitized and parsed; a text that does not parse gives none.
pub fn settings_servers(content: &str) -> (r: Vec<RunningMcpServer>)
    ensures
        models(r@) == settings_records(content@),
{
    let cleaned = strip_json_comments(content);
    let empty: Vec<RunningMcpServer> = Vec::new();
    assert(models(empty@) =~= Seq::<ServerModel>::empty());
    match parse_document(cleaned.as_str()) {
        Some(json) => match extract_copilot_mcp_config(&json) {
            Some(v) => v,
            None => {
                assert(editor_records(json) =~= Seq::<ServerModel>::empty());
                empty
            },
        },
        None => empty,
    }
}

/// The servers that the text of a stand-alone configuration file configures,
/// each with the file's path. The text is sanitized and parsed; a text that
/// does not parse gives none.
pub fn standalone_servers(content: &str, config_path: &str) -> (r: Vec<RunningMcpServer>)
    ensures
        models(r@) == standalone_records(content@, config_path@),
{
    let cleaned = strip_json_comments(content);
    let mut servers: Vec<RunningMcpServer> = Vec::new();
    assert(models(servers@) =~= Seq::<ServerModel>::empty());
    match parse_document(cleaned.as_str()) {
        Some(json) => {
            let path = Some(String::from_str(config_path));
            collect_records(&mut servers, &json, Source::Copilot, &path, false);
            assert(models(servers@) =~= standalone_records(content@, config_path@));
        },
        None => {},
    }
    servers
}

} // verus!
