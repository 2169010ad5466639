//! Reading the process table: from the text that the process lister printed
//! to the servers that run.

use vstd::prelude::*;
use crate::classify::{
    arguments_of, candidate_text, classified, identify_mcp_server, is_potential_mcp_server,
    parse_command_line, program_of,
};
use crate::record::{all_live, models, RunningMcpServer, ServerModel};
use crate::text::{
    contains, fields_of, has_sub, lines_of, lowercase, parse_u32, parsed_u32, split_fields,
    split_lines, texts,
};

verus! {

/// The fields `from` to `n - 1`, with one space between two neighbours.
pub open spec fn joined(f: Seq<Seq<char>>, from: int, n: int) -> Seq<char>
    decreases n,
{
    if from < 0 || n <= from || n > f.len() {
        Seq::empty()
    } else if n == from + 1 {
        f[from]
    } else {
        joined(f, from, n - 1) + seq![' '] + f[n - 1]
    }
}

/// The line is the heading of the table.
pub open spec fn is_heading(line: Seq<char>) -> bool {
    has_sub(line, "USER"@) && has_sub(line, "PID"@)
}

/// The record that a line of the process table gives. The command line starts
/// at the eleventh field and the process id is the second. There is no record
/// for the heading, for a line of fewer than eleven fields, for a command line
/// without an indicator, and for a process id that is no number or is 0, which
/// stands for a server that does not run.
pub open spec fn line_record(line: Seq<char>) -> Option<ServerModel> {
    let f = fields_of(line);
    let command_line = joined(f, 10, f.len() as int);
    let low = lowercase(command_line);
    if is_heading(line) || f.len() < 11 || !candidate_text(low) {
        None
    } else {
        match parsed_u32(f[1]) {
            Some(pid) => if pid == 0 {
                None
            } else {
                Some(
                    ServerModel {
                        name: classified(low).0,
                        pid,
                        command: program_of(command_line),
                        args: arguments_of(command_line),
                        source: classified(low).1,
                        config_path: None,
                    },
                )
            },
            None => None,
        }
    }
}

/// The records of the first `n` lines, in order.
pub open spec fn table_records(lines: Seq<Seq<char>>, n: int) -> Seq<ServerModel>
    decreases n,
{
    if n <= 0 || n > lines.len() {
        Seq::empty()
    } else {
        match line_record(lines[n - 1]) {
            Some(r) => table_records(lines, n - 1).push(r),
            None => table_records(lines, n - 1),
        }
    }
}

/// The records of all lines of a process table.
pub open spec fn running_records(table: Seq<char>) -> Seq<ServerModel> {
    table_records(lines_of(table), lines_of(table).len() as int)
}

/// What is known of one process.
#[derive(Clone, Debug)]
pub struct ProcessInfo {
    pub pid: u32,
    pub ppid: String,
    pub user: String,
    pub command: String,
}

/// What a `ProcessInfo` says, as plain sequences.
pub struct InfoModel {
    pub pid: u32,
    pub ppid: Seq<char>,
    pub user: Seq<char>,
    pub command: Seq<char>,
}

impl View for ProcessInfo {
    type V = InfoModel;

    open spec fn view(&self) -> InfoModel {
        InfoModel { pid: self.pid, ppid: self.ppid@, user: self.user@, command: self.command@ }
    }
}

/// What the listing of one process says of it: the second line holds the
/// parent's id in its second field, the user in the third and the command
/// from the fourth on. Nothing where the listing has fewer than two lines or
/// the line fewer than four fields.
pub open spec fn info_of(pid: u32, listing: Seq<char>) -> Option<InfoModel> {
    let lines = lines_of(listing);
    if lines.len() < 2 {
        None
    } else {
        let f = fields_of(lines[1]);
        if f.len() < 4 {
            None
        } else {
            Some(InfoModel { pid, ppid: f[1], user: f[2], command: joined(f, 3, f.len() as int) })
        }
    }
}

/// Every record of a process table has a process id other than 0.
pub proof fn lemma_running_are_live(lines: Seq<Seq<char>>, n: int)
    ensures
        all_live(table_records(lines, n)),
    decreases n,
{
    if 0 < n <= lines.len() {
        lemma_running_are_live(lines, n - 1);
    }
}

/// The records of the first `n` lines depend on those lines only.
pub proof fn lemma_records_of_prefix(x: Seq<Seq<char>>, y: Seq<Seq<char>>, n: int)
    requires
        0 <= n <= x.len(),
        n <= y.len(),
        forall|k: int| 0 <= k < n ==> x[k] == y[k],
    ensures
        table_records(x, n) == table_records(y, n),
    decreases n,
{
    if n > 0 {
        lemma_records_of_prefix(x, y, n - 1);
    }
}

/// The records of two tables, one behind the other, are the records of the
/// first followed by those of the second: each line is read by itself.
pub proof fn lemma_records_of_both(a: Seq<Seq<char>>, b: Seq<Seq<char>>)
    ensures
        table_records(a + b, (a + b).len() as int) == table_records(a, a.len() as int)
            + table_records(b, b.len() as int),
    decreases b.len(),
{
    let all = a + b;
    if b.len() == 0 {
        assert(all =~= a);
        assert(table_records(a, a.len() as int) + table_records(b, 0) =~= table_records(
            a,
            a.len() as int,
        ));
    } else {
        let shorter = a + b.drop_last();
        let m = all.len() - 1;
        lemma_records_of_both(a, b.drop_last());
        lemma_records_of_prefix(all, shorter, m);
        lemma_records_of_prefix(b, b.drop_last(), b.len() - 1);
        assert(all[m] == b[b.len() - 1]);
        let front = table_records(a, a.len() as int);
        let back = table_records(b, b.len() - 1);
        match line_record(b[b.len() - 1]) {
            Some(r) => {
                assert((front + back).push(r) =~= front + back.push(r));
            },
            None => {},
        }
    }
}

/// A line of fewer than eleven fields gives no record and changes nothing
/// for the lines around it: the table with the line has the records of the
/// table without it.
pub proof fn lemma_short_line_skipped(before: Seq<Seq<char>>, line: Seq<char>, after: Seq<Seq<char>>)
    requires
        fields_of(line).len() < 11,
    ensures
        line_record(line).is_none(),
        table_records(
            before + seq![line] + after,
            (before + seq![line] + after).len() as int,
        ) == table_records(before + after, (before + after).len() as int),
{
    let one = seq![line];
    lemma_records_of_both(before + one, after);
    lemma_records_of_both(before, one);
    lemma_records_of_both(before, after);
    assert(table_records(one, 0) =~= Seq::<ServerModel>::empty());
    assert(table_records(one, 1) =~= Seq::<ServerModel>::empty());
    assert(table_records(before, before.len() as int) + Seq::<ServerModel>::empty()
        =~= table_records(before, before.len() as int));
}

/// Joins the fields from `from` on with single spaces.
pub fn join_fields(parts: &Vec<String>, from: usize) -> (r: String)
    ensures
        r@ == joined(texts(parts@), from as int, parts@.len() as int),
{
    let n = parts.len();
    let mut out = String::new();
    if from >= n {
        return out;
    }
    let mut k: usize = from;
    while k < n
        invariant
            from <= k <= n,
            n == parts.len(),
            out@ == joined(texts(parts@), from as int, k as int),
        decreases n - k,
    {
        let ghost before = out@;
        if k > from {
            proof {
                reveal_strlit(" ");
            }
            out.append(" ");
            assert(" "@ =~= seq![' ']);
        }
        out.append(parts[k].as_str());
        assert(texts(parts@)[k as int] == parts@[k as int]@);
        assert(out@ =~= joined(texts(parts@), from as int, k + 1));
        k = k + 1;
    }
    out
}

/// The record that one line of the process table gives, if any.
pub fn scan_line(line: &str) -> (r: Option<RunningMcpServer>)
    ensures
        match r {
            Some(server) => line_record(line@) == Some(server@),
            None => line_record(line@).is_none(),
        },
{
    if contains(line, "USER") && contains(line, "PID") {
        return None;
    }
    let parts = split_fields(line);
    if parts.len() < 11 {
        return None;
    }
    let command_line = join_fields(&parts, 10);
    if !is_potential_mcp_server(command_line.as_str()) {
        return None;
    }
    assert(texts(parts@)[1] == parts@[1]@);
    match parse_u32(parts[1].as_str()) {
        Some(pid) => {
            if pid == 0 {
                return None;
            }
            let (name, source) = identify_mcp_server(command_line.as_str());
            let (command, args) = parse_command_line(command_line.as_str());
            Some(RunningMcpServer { name, pid, command, args, source, config_path: None })
        },
        None => None,
    }
}

/// The servers among the processes of a process table, in the table's order.
/// A line that gives no record is passed over, and the lines behind it are
/// still read.
pub fn detect_running_mcp_servers(process_table: &str) -> (r: Vec<RunningMcpServer>)
    ensures
        models(r@) == running_records(process_table@),
        all_live(models(r@)),
{
    let lines = split_lines(process_table);
    let n = lines.len();
    let mut running_servers: Vec<RunningMcpServer> = Vec::new();
    let mut k: usize = 0;
    assert(models(running_servers@) =~= table_records(texts(lines@), 0));
    while k < n
        invariant
            k <= n,
            n == lines.len(),
            models(running_servers@) == table_records(texts(lines@), k as int),
        decreases n - k,
    {
        let ghost before = models(running_servers@);
        assert(texts(lines@)[k as int] == lines@[k as int]@);
        match scan_line(lines[k].as_str()) {
            Some(server) => {
                running_servers.push(server);
                assert(models(running_servers@) =~= before.push(server@));
            },
            None => {},
        }
        k = k + 1;
    }
    proof {
        lemma_running_are_live(texts(lines@), n as int);
    }
    running_servers
}

/// What the listing of the process `pid` says of it.
pub fn get_process_info(pid: u32, listing: &str) -> (r: Option<ProcessInfo>)
    ensures
        match r {
            Some(info) => info_of(pid, listing@) == Some(info@),
            None => info_of(pid, listing@).is_none(),
        },
{
    let lines = split_lines(listing);
    if lines.len() < 2 {
        return None;
    }
    assert(texts(lines@)[1] == lines@[1]@);
    let parts = split_fields(lines[1].as_str());
    if parts.len() < 4 {
        return None;
    }
    assert(texts(parts@)[1] == parts@[1]@);
    assert(texts(parts@)[2] == parts@[2]@);
    Some(
        ProcessInfo {
            pid,
            ppid: parts[1].clone(),
            user: parts[2].clone(),
            command: join_fields(&parts, 3),
        },
    )
}

} // verus!
