//! The whole query: running servers, servers that settings configure, and the
//! report that holds both.

use vstd::prelude::*;
use crate::extract::{
    lemma_texts_configured, settings_records, settings_servers, standalone_records,
    standalone_servers,
};
use crate::process::{detect_running_mcp_servers, running_records};
use crate::record::{
    all_configured, all_live, models, RunningMcpServer, ServerModel, SystemMcpServers,
};
use crate::text::texts;

verus! {

/// The views of a sequence of files, each a path and a content.
pub open spec fn file_texts(files: Seq<(String, String)>) -> Seq<(Seq<char>, Seq<char>)> {
    Seq::new(files.len(), |i: int| (files[i].0@, files[i].1@))
}

/// The servers that the first `n` settings texts configure, in order.
pub open spec fn all_settings(settings: Seq<Seq<char>>, n: int) -> Seq<ServerModel>
    decreases n,
{
    if n <= 0 || n > settings.len() {
        Seq::empty()
    } else {
        all_settings(settings, n - 1) + settings_records(settings[n - 1])
    }
}

/// The servers that the first `n` stand-alone files configure, in order.
pub open spec fn all_standalone(files: Seq<(Seq<char>, Seq<char>)>, n: int) -> Seq<ServerModel>
    decreases n,
{
    if n <= 0 || n > files.len() {
        Seq::empty()
    } else {
        all_standalone(files, n - 1) + standalone_records(files[n - 1].1, files[n - 1].0)
    }
}

/// The servers that settings and stand-alone files configure: those of the
/// settings first.
pub open spec fn copilot_records(
    settings: Seq<Seq<char>>,
    files: Seq<(Seq<char>, Seq<char>)>,
) -> Seq<ServerModel> {
    all_settings(settings, settings.len() as int) + all_standalone(files, files.len() as int)
}

/// Every record that settings and stand-alone files give has the process id 0.
pub proof fn lemma_configured_have_no_pid(
    settings: Seq<Seq<char>>,
    files: Seq<(Seq<char>, Seq<char>)>,
)
    ensures
        all_configured(copilot_records(settings, files)),
{
    lemma_settings_configured(settings, settings.len() as int);
    lemma_standalone_configured(files, files.len() as int);
}

/// Every record of the first `n` settings texts has the process id 0.
pub proof fn lemma_settings_configured(settings: Seq<Seq<char>>, n: int)
    ensures
        all_configured(all_settings(settings, n)),
    decreases n,
{
    if 0 < n <= settings.len() {
        lemma_settings_configured(settings, n - 1);
        lemma_texts_configured(settings[n - 1], Seq::empty());
    }
}

/// Every record of the first `n` stand-alone files has the process id 0.
pub proof fn lemma_standalone_configured(files: Seq<(Seq<char>, Seq<char>)>, n: int)
    ensures
        all_configured(all_standalone(files, n)),
    decreases n,
{
    if 0 < n <= files.len() {
        lemma_standalone_configured(files, n - 1);
        lemma_texts_configured(files[n - 1].1, files[n - 1].0);
    }
}

/// The servers that the given texts configure. `settings` holds the contents
/// of the editor settings files that could be read; `files` holds, for each
/// stand-alone configuration file that could be read, its path and its
/// content. A text that does not parse gives no server; nothing is merged.
pub fn detect_copilot_mcp_servers(settings: &Vec<String>, files: &Vec<(String, String)>) -> (r:
    Vec<RunningMcpServer>)
    ensures
        models(r@) == copilot_records(texts(settings@), file_texts(files@)),
        all_configured(models(r@)),
{
    proof {
        lemma_configured_have_no_pid(texts(settings@), file_texts(files@));
    }
    let mut copilot_servers: Vec<RunningMcpServer> = Vec::new();
    let n = settings.len();
    let mut k: usize = 0;
    assert(models(copilot_servers@) =~= all_settings(texts(settings@), 0));
    while k < n
        invariant
            k <= n,
            n == settings.len(),
            models(copilot_servers@) == all_settings(texts(settings@), k as int),
        decreases n - k,
    {
        let ghost before = models(copilot_servers@);
        assert(texts(settings@)[k as int] == settings@[k as int]@);
        let mut found = settings_servers(settings[k].as_str());
        let ghost added = models(found@);
        copilot_servers.append(&mut found);
        assert(models(copilot_servers@) =~= before + added);
        k = k + 1;
    }
    let ghost first = models(copilot_servers@);
    let m = files.len();
    let mut j: usize = 0;
    assert(models(copilot_servers@) =~= first + all_standalone(file_texts(files@), 0));
    while j < m
        invariant
            j <= m,
            m == files.len(),
            models(copilot_servers@) == first + all_standalone(file_texts(files@), j as int),
        decreases m - j,
    {
        let ghost before = models(copilot_servers@);
        assert(file_texts(files@)[j as int] == (files@[j as int].0@, files@[j as int].1@));
        let mut found = standalone_servers(files[j].1.as_str(), files[j].0.as_str());
        let ghost added = models(found@);
        copilot_servers.append(&mut found);
        assert(models(copilot_servers@) =~= before + added);
        assert(before + added =~= first + all_standalone(file_texts(files@), j + 1));
        j = j + 1;
    }
    copilot_servers
}

/// The servers of the legacy desktop source. That source is switched off:
/// there are none.
pub fn get_claude_mcp_servers() -> (r: Vec<RunningMcpServer>)
    ensures
        r@.len() == 0,
{
    Vec::new()
}

/// The report of one query: the running servers of the process table, the
/// servers that the given texts configure, and no server of the legacy
/// desktop source, whatever the inputs hold. A record has the process id 0
/// if and only if it is that of a configured server.
pub fn get_all_mcp_servers(
    process_table: &str,
    settings: &Vec<String>,
    files: &Vec<(String, String)>,
) -> (r: SystemMcpServers)
    ensures
        models(r.running_servers@) == running_records(process_table@),
        models(r.copilot_servers@) == copilot_records(texts(settings@), file_texts(files@)),
        r.claude_servers@.len() == 0,
        all_live(models(r.running_servers@)),
        all_configured(models(r.copilot_servers@)),
{
    let running_servers = detect_running_mcp_servers(process_table);
    let copilot_servers = detect_copilot_mcp_servers(settings, files);
    let claude_servers = get_claude_mcp_servers();
    SystemMcpServers { running_servers, copilot_servers, claude_servers }
}

} // verus!
