//! The tabular listings that agents return: rows of fields separated by
//! `|||` under a header row, parsed into records keyed by the header names.
use vstd::prelude::*;
use crate::assoc::assoc_map;
use crate::client::ClientError;
use crate::record::{pair_views, Record};
use crate::text::{contains_spec, split, split_once, split_once_spec, split_spec, views};

verus! {

/// The characters with the Unicode `White_Space` property, the ones
/// `char::is_whitespace` accepts.
pub open spec fn is_whitespace_char(c: char) -> bool {
    ('\u{9}' <= c && c <= '\u{d}') || c == ' ' || c == '\u{85}' || c == '\u{a0}' || c == '\u{1680}'
        || ('\u{2000}' <= c && c <= '\u{200a}') || c == '\u{2028}' || c == '\u{2029}' || c == '\u{202f}'
        || c == '\u{205f}' || c == '\u{3000}'
}

/// Whether `c` is a whitespace character.
pub fn is_whitespace(c: char) -> (r: bool)
    ensures
        r == is_whitespace_char(c),
{
    ('\u{9}' <= c && c <= '\u{d}') || c == ' ' || c == '\u{85}' || c == '\u{a0}' || c == '\u{1680}'
        || ('\u{2000}' <= c && c <= '\u{200a}') || c == '\u{2028}' || c == '\u{2029}' || c == '\u{202f}'
        || c == '\u{205f}' || c == '\u{3000}'
}

/// A line with nothing but whitespace in it.
pub open spec fn is_blank(s: Seq<char>) -> bool {
    forall|i: int| 0 <= i < s.len() ==> is_whitespace_char(#[trigger] s[i])
}

/// The lines that are not blank, in order.
pub open spec fn nonblank(lines: Seq<Seq<char>>) -> Seq<Seq<char>>
    decreases lines.len(),
{
    if lines.len() == 0 {
        seq![]
    } else if is_blank(lines.last()) {
        nonblank(lines.drop_last())
    } else {
        nonblank(lines.drop_last()).push(lines.last())
    }
}

/// The record that pairs each header with the field below it; surplus
/// headers or fields are left out, and a repeated header keeps its last field.
pub open spec fn zip_record(headers: Seq<Seq<char>>, fields: Seq<Seq<char>>) -> Map<Seq<char>, Seq<char>> {
    let n = if headers.len() < fields.len() { headers.len() } else { fields.len() };
    assoc_map(Seq::new(n, |k: int| (headers[k], fields[k])))
}

/// One record for each row after the header row.
pub open spec fn table_records(rows: Seq<Seq<char>>, delim: Seq<char>) -> Seq<Map<Seq<char>, Seq<char>>>
    recommends
        rows.len() > 0,
{
    Seq::new(
        (rows.len() - 1) as nat,
        |k: int| zip_record(split_spec(rows[0], delim), split_spec(rows[k + 1], delim)),
    )
}

pub open spec fn records_view(v: Seq<Record>) -> Seq<Map<Seq<char>, Seq<char>>> {
    v.map_values(|r: Record| r@)
}

pub open spec fn all_wf(v: Seq<Record>) -> bool {
    forall|i: int| 0 <= i < v.len() ==> (#[trigger] v[i]).wf()
}

/// Whether `line` holds nothing but whitespace.
pub fn line_is_blank(line: &str) -> (r: bool)
    ensures
        r == is_blank(line@),
{
    let n = line.unicode_len();
    let mut i: usize = 0;
    while i < n
        invariant
            n == line@.len(),
            i <= n,
            forall|j: int| 0 <= j < i ==> is_whitespace_char(#[trigger] line@[j]),
        decreases n - i,
    {
        if !is_whitespace(line.get_char(i)) {
            return false;
        }
        i = i + 1;
    }
    true
}

/// The record of one row under the given headers.
fn row_record(headers: &Vec<String>, fields: &Vec<String>) -> (r: Record)
    ensures
        r.wf(),
        r@ == zip_record(views(headers@), views(fields@)),
{
    let n = if headers.len() < fields.len() { headers.len() } else { fields.len() };
    let ghost pairs = Seq::new(n as nat, |k: int| (views(headers@)[k], views(fields@)[k]));
    let mut r = Record::new();
    let mut k: usize = 0;
    while k < n
        invariant
            n <= headers@.len(),
            n <= fields@.len(),
            pairs == Seq::new(n as nat, |k: int| (views(headers@)[k], views(fields@)[k])),
            k <= n,
            r.wf(),
            r@ == assoc_map(pairs.subrange(0, k as int)),
        decreases n - k,
    {
        assert(pairs.subrange(0, k + 1).drop_last() =~= pairs.subrange(0, k as int));
        r.insert(headers[k].clone(), fields[k].clone());
        k = k + 1;
    }
    assert(pairs.subrange(0, n as int) =~= pairs);
    r
}

/// Parses the rows of a table: the first row names the fields, and each
/// later row becomes a record of those names and its fields.
pub fn cvt_hashmap(v: Vec<String>, split_char: &str) -> (r: Vec<Record>)
    requires
        v@.len() > 0,
        split_char@.len() > 0,
    ensures
        all_wf(r@),
        records_view(r@) == table_records(views(v@), split_char@),
{
    let headers = split(v[0].as_str(), split_char);
    let mut out: Vec<Record> = Vec::new();
    let mut i: usize = 1;
    while i < v.len()
        invariant
            1 <= i <= v@.len(),
            views(headers@) == split_spec(v@[0]@, split_char@),
            split_char@.len() > 0,
            all_wf(out@),
            records_view(out@) =~= table_records(views(v@), split_char@).subrange(0, i - 1),
        decreases v@.len() - i,
    {
        let fields = split(v[i].as_str(), split_char);
        let rec = row_record(&headers, &fields);
        proof {
            assert(views(v@)[i as int] == v@[i as int]@);
            assert(views(v@)[0] == v@[0]@);
            assert(records_view(out@.push(rec)) =~= records_view(out@).push(rec@));
        }
        out.push(rec);
        proof {
            assert(records_view(out@) =~= table_records(views(v@), split_char@).subrange(0, i as int));
        }
        i = i + 1;
    }
    out
}

/// The rows of a table that are not blank lines.
pub open spec fn table_rows(text: Seq<char>) -> Seq<Seq<char>> {
    nonblank(split_spec(text, "\n"@))
}

/// Parses a table text: its non-blank lines are the header row and the
/// records' rows. A text without a header row is a `Serialization` error.
pub fn parse_table(text: &str, delim: &str) -> (r: Result<Vec<Record>, ClientError>)
    requires
        delim@.len() > 0,
    ensures
        table_rows(text@).len() == 0 ==> r matches Err(ClientError::Serialization(_)),
        table_rows(text@).len() > 0 ==> (r matches Ok(v) && all_wf(v@)
            && records_view(v@) == table_records(table_rows(text@), delim@)),
{
    proof {
        reveal_strlit("\n");
    }
    let lines = split(text, "\n");
    let ghost all = views(lines@);
    let mut rows: Vec<String> = Vec::new();
    let mut i: usize = 0;
    while i < lines.len()
        invariant
            all == views(lines@),
            all == split_spec(text@, "\n"@),
            i <= all.len(),
            views(rows@) == nonblank(all.subrange(0, i as int)),
        decreases all.len() - i,
    {
        assert(all.subrange(0, i + 1).drop_last() =~= all.subrange(0, i as int));
        if !line_is_blank(lines[i].as_str()) {
            let l = lines[i].clone();
            assert(views(rows@.push(l)) =~= views(rows@).push(l@));
            rows.push(l);
        }
        i = i + 1;
    }
    assert(all.subrange(0, all.len() as int) =~= all);
    if rows.len() == 0 {
        return Err(ClientError::Serialization(String::from_str("table has no header row")));
    }
    Ok(cvt_hashmap(rows, delim))
}

/// The record with each field `old` renamed `new`, pair by pair in order;
/// a renamed field replaces a field that already had the new name.
pub open spec fn renamed(m: Map<Seq<char>, Seq<char>>, names: Seq<(Seq<char>, Seq<char>)>) -> Map<Seq<char>, Seq<char>>
    decreases names.len(),
{
    if names.len() == 0 {
        m
    } else {
        let m1 = renamed(m, names.drop_last());
        let p = names.last();
        if m1.contains_key(p.0) {
            m1.remove(p.0).insert(p.1, m1[p.0])
        } else {
            m1
        }
    }
}

/// Renames the fields of `rec` as `renamed` says.
pub fn rename_fields(rec: &mut Record, names: &Vec<(String, String)>)
    requires
        old(rec).wf(),
    ensures
        final(rec).wf(),
        final(rec)@ == renamed(old(rec)@, pair_views(names@)),
{
    let ghost ns = pair_views(names@);
    let mut i: usize = 0;
    while i < names.len()
        invariant
            ns == pair_views(names@),
            i <= ns.len(),
            rec.wf(),
            rec@ == renamed(old(rec)@, ns.subrange(0, i as int)),
        decreases ns.len() - i,
    {
        assert(ns.subrange(0, i + 1).drop_last() =~= ns.subrange(0, i as int));
        if let Some(value) = rec.remove(names[i].0.as_str()) {
            rec.insert(names[i].1.clone(), value);
        } else {
            assert(rec@ == renamed(old(rec)@, ns.subrange(0, i + 1)));
        }
        i = i + 1;
    }
    assert(ns.subrange(0, ns.len() as int) =~= ns);
}

/// How the fields of a container listing are renamed.
pub open spec fn container_names() -> Seq<(Seq<char>, Seq<char>)> {
    seq![
        ("CONTAINER ID"@, "container_id"@),
        ("IMAGE"@, "image"@),
        ("COMMAND"@, "command"@),
        ("CREATED AT"@, "created_at"@),
        ("STATUS"@, "status"@),
        ("PORTS"@, "ports"@),
        ("NAMES"@, "names"@),
    ]
}

/// How the fields of a container statistics listing are renamed.
pub open spec fn stats_names() -> Seq<(Seq<char>, Seq<char>)> {
    seq![
        ("CONTAINER ID"@, "container_id"@),
        ("CONTAINER"@, "container"@),
        ("CPU %"@, "cpu_perc"@),
        ("MEM USAGE / LIMIT"@, "mem_usage_limit"@),
        ("MEM %"@, "mem_perc"@),
        ("NET I/O"@, "net_io"@),
        ("BLOCK I/O"@, "block_io"@),
        ("PIDS"@, "pids"@),
    ]
}

fn name_pair(a: &str, b: &str) -> (r: (String, String))
    ensures
        r.0@ == a@,
        r.1@ == b@,
{
    (String::from_str(a), String::from_str(b))
}

fn container_field_names() -> (r: Vec<(String, String)>)
    ensures
        pair_views(r@) == container_names(),
{
    let mut v: Vec<(String, String)> = Vec::new();
    v.push(name_pair("CONTAINER ID", "container_id"));
    v.push(name_pair("IMAGE", "image"));
    v.push(name_pair("COMMAND", "command"));
    v.push(name_pair("CREATED AT", "created_at"));
    v.push(name_pair("STATUS", "status"));
    v.push(name_pair("PORTS", "ports"));
    v.push(name_pair("NAMES", "names"));
    assert(pair_views(v@) =~= container_names());
    v
}

fn stats_field_names() -> (r: Vec<(String, String)>)
    ensures
        pair_views(r@) == stats_names(),
{
    let mut v: Vec<(String, String)> = Vec::new();
    v.push(name_pair("CONTAINER ID", "container_id"));
    v.push(name_pair("CONTAINER", "container"));
    v.push(name_pair("CPU %", "cpu_perc"));
    v.push(name_pair("MEM USAGE / LIMIT", "mem_usage_limit"));
    v.push(name_pair("MEM %", "mem_perc"));
    v.push(name_pair("NET I/O", "net_io"));
    v.push(name_pair("BLOCK I/O", "block_io"));
    v.push(name_pair("PIDS", "pids"));
    assert(pair_views(v@) =~= stats_names());
    v
}

/// The records of an agent listing whose fields are renamed by `names`, or
/// `None` where the text has no header row.
pub open spec fn listing(text: Seq<char>, names: Seq<(Seq<char>, Seq<char>)>) -> Option<Seq<Map<Seq<char>, Seq<char>>>> {
    if table_rows(text).len() == 0 {
        None
    } else {
        Some(table_records(table_rows(text), "|||"@).map_values(|m: Map<Seq<char>, Seq<char>>| renamed(m, names)))
    }
}

fn parse_listing(text: &str, names: &Vec<(String, String)>) -> (r: Result<Vec<Record>, ClientError>)
    ensures
        match listing(text@, pair_views(names@)) {
            Some(t) => r matches Ok(v) && all_wf(v@) && records_view(v@) == t,
            None => r matches Err(ClientError::Serialization(_)),
        },
{
    proof {
        reveal_strlit("|||");
    }
    let table = parse_table(text, "|||");
    match table {
        Ok(mut recs) => {
            let ghost t = records_view(recs@);
            let mut out: Vec<Record> = Vec::new();
            let mut i: usize = 0;
            while i < recs.len()
                invariant
                    i <= recs@.len(),
                    all_wf(recs@),
                    t == records_view(recs@),
                    all_wf(out@),
                    records_view(out@) =~= t.subrange(0, i as int).map_values(
                        |m: Map<Seq<char>, Seq<char>>| renamed(m, pair_views(names@)),
                    ),
                decreases recs@.len() - i,
            {
                let mut rec = recs[i].copy();
                rename_fields(&mut rec, names);
                proof {
                    assert(t[i as int] == recs@[i as int]@);
                    assert(records_view(out@.push(rec)) =~= records_view(out@).push(rec@));
                    assert(t.subrange(0, i + 1).map_values(|m: Map<Seq<char>, Seq<char>>| renamed(m, pair_views(names@)))
                        =~= t.subrange(0, i as int).map_values(|m: Map<Seq<char>, Seq<char>>| renamed(m, pair_views(names@))).push(
                        renamed(t[i as int], pair_views(names@))));
                }
                out.push(rec);
                i = i + 1;
            }
            assert(t.subrange(0, t.len() as int) =~= t);
            Ok(out)
        },
        Err(e) => Err(e),
    }
}

/// Parses a container listing; its fields are `container_id`, `image`,
/// `command`, `created_at`, `status`, `ports` and `names`.
pub fn parse_container_list(text: &str) -> (r: Result<Vec<Record>, ClientError>)
    ensures
        match listing(text@, container_names()) {
            Some(t) => r matches Ok(v) && all_wf(v@) && records_view(v@) == t,
            None => r matches Err(ClientError::Serialization(_)),
        },
{
    parse_listing(text, &container_field_names())
}

/// Parses a container statistics listing; its fields are `container_id`,
/// `container`, `cpu_perc`, `mem_usage_limit`, `mem_perc`, `net_io`,
/// `block_io` and `pids`.
pub fn parse_container_stats(text: &str) -> (r: Result<Vec<Record>, ClientError>)
    ensures
        match listing(text@, stats_names()) {
            Some(t) => r matches Ok(v) && all_wf(v@) && records_view(v@) == t,
            None => r matches Err(ClientError::Serialization(_)),
        },
{
    parse_listing(text, &stats_field_names())
}

/// The compact form `<host port>/<protocol>` of a port mapping of the shape
/// `<address>:::<host port>-><container port>/<protocol>`, such as
/// `0.0.0.0:::8080->80/tcp`; a mapping not of that shape is kept as it is.
pub open spec fn port_display(p: Seq<char>) -> Seq<char> {
    match split_once_spec(p, ":::"@) {
        None => p,
        Some((_, rest)) => match split_once_spec(rest, "->"@) {
            None => p,
            Some((host, target)) => match split_once_spec(target, "/"@) {
                None => p,
                Some((_, proto)) => host + "/"@ + proto,
            },
        },
    }
}

/// A port mapping without the separator `:::` is kept as it is.
pub proof fn port_without_separator_is_kept(p: Seq<char>)
    requires
        !contains_spec(p, ":::"@),
    ensures
        port_display(p) == p,
{
}

/// Rewrites a port mapping into its compact form.
pub fn parse_port_str(port: &str) -> (r: String)
    ensures
        r@ == port_display(port@),
{
    let rest = match split_once(port, ":::") {
        Some((_, rest)) => rest,
        None => return String::from_str(port),
    };
    let (host, target) = match split_once(rest.as_str(), "->") {
        Some(parts) => parts,
        None => return String::from_str(port),
    };
    let proto = match split_once(target.as_str(), "/") {
        Some((_, proto)) => proto,
        None => return String::from_str(port),
    };
    let mut out = host;
    out.append("/");
    out.append(proto.as_str());
    out
}

pub open spec fn id_field() -> Seq<char> {
    "container_id"@
}

/// Index of the first record at or after `from` whose `container_id` is `id`.
pub open spec fn first_with_id(rows: Seq<Map<Seq<char>, Seq<char>>>, id: Seq<char>, from: int) -> Option<int>
    decreases rows.len() - from,
{
    if from < 0 || from >= rows.len() {
        None
    } else if rows[from].contains_key(id_field()) && rows[from][id_field()] == id {
        Some(from)
    } else {
        first_with_id(rows, id, from + 1)
    }
}

proof fn lemma_first_with_id(rows: Seq<Map<Seq<char>, Seq<char>>>, id: Seq<char>, from: int)
    requires
        0 <= from,
    ensures
        first_with_id(rows, id, from) matches Some(j) ==> from <= j < rows.len(),
    decreases rows.len() - from,
{
    if from < rows.len() && !(rows[from].contains_key(id_field()) && rows[from][id_field()] == id) {
        lemma_first_with_id(rows, id, from + 1);
    }
}

/// The container records with each statistics record merged into the first
/// container record of the same `container_id`, statistics in order; a
/// statistics record without an identifier or without a match is dropped.
pub open spec fn joined(rows: Seq<Map<Seq<char>, Seq<char>>>, stats: Seq<Map<Seq<char>, Seq<char>>>) -> Seq<Map<Seq<char>, Seq<char>>>
    decreases stats.len(),
{
    if stats.len() == 0 {
        rows
    } else {
        let r1 = joined(rows, stats.drop_last());
        let st = stats.last();
        if st.contains_key(id_field()) {
            match first_with_id(r1, st[id_field()], 0) {
                Some(j) => r1.update(j, r1[j].union_prefer_right(st)),
                None => r1,
            }
        } else {
            r1
        }
    }
}

/// The record with its `ports` field, if any, in compact form.
pub open spec fn with_ports_compact(m: Map<Seq<char>, Seq<char>>) -> Map<Seq<char>, Seq<char>> {
    if m.contains_key("ports"@) {
        m.insert("ports"@, port_display(m["ports"@]))
    } else {
        m
    }
}

/// The combined view of a node's containers and their statistics.
pub open spec fn combined(rows: Seq<Map<Seq<char>, Seq<char>>>, stats: Option<Seq<Map<Seq<char>, Seq<char>>>>) -> Seq<Map<Seq<char>, Seq<char>>> {
    let merged = match stats {
        Some(s) => joined(rows, s),
        None => rows,
    };
    merged.map_values(|m: Map<Seq<char>, Seq<char>>| with_ports_compact(m))
}

/// Index of the first record whose `container_id` is `id`.
fn find_container(rows: &Vec<Record>, id: &String) -> (r: Option<usize>)
    requires
        all_wf(rows@),
    ensures
        r is None ==> first_with_id(records_view(rows@), id@, 0) is None,
        r matches Some(j) ==> first_with_id(records_view(rows@), id@, 0) == Some(j as int) && j < rows@.len(),
{
    let mut j: usize = 0;
    while j < rows.len()
        invariant
            all_wf(rows@),
            j <= rows@.len(),
            first_with_id(records_view(rows@), id@, 0) == first_with_id(records_view(rows@), id@, j as int),
        decreases rows@.len() - j,
    {
        assert(records_view(rows@)[j as int] == rows@[j as int]@);
        match rows[j].get("container_id") {
            Some(v) => {
                if *v == *id {
                    return Some(j);
                }
            },
            None => {},
        }
        j = j + 1;
    }
    None
}

/// Joins a node's container records with its statistics records, where the
/// statistics could be fetched, and puts each `ports` field in compact form.
pub fn merge_container_stats(list: Vec<Record>, stats: Option<Vec<Record>>) -> (r: Vec<Record>)
    requires
        all_wf(list@),
        stats matches Some(s) ==> all_wf(s@),
    ensures
        all_wf(r@),
        records_view(r@) == combined(records_view(list@), match stats {
            Some(s) => Some(records_view(s@)),
            None => None,
        }),
{
    proof {
        reveal_strlit("container_id");
        reveal_strlit("ports");
    }
    let ghost rows0 = records_view(list@);
    let mut result = list;
    let ghost merged: Seq<Map<Seq<char>, Seq<char>>> = rows0;
    match &stats {
        Some(st) => {
            let ghost sv = records_view(st@);
            let mut i: usize = 0;
            while i < st.len()
                invariant
                    sv == records_view(st@),
                    all_wf(st@),
                    i <= sv.len(),
                    all_wf(result@),
                    records_view(result@) == joined(rows0, sv.subrange(0, i as int)),
                decreases sv.len() - i,
            {
                let ghost before = records_view(result@);
                assert(sv.subrange(0, i + 1).drop_last() =~= sv.subrange(0, i as int));
                assert(sv[i as int] == st@[i as int]@);
                match st[i].get("container_id") {
                    Some(id) => {
                        proof {
                            lemma_first_with_id(before, id@, 0);
                        }
                        match find_container(&result, id) {
                            Some(j) => {
                                let mut rec = result.remove(j);
                                rec.extend(&st[i]);
                                result.insert(j, rec);
                                assert(records_view(result@) =~= before.update(j as int, before[j as int].union_prefer_right(sv[i as int])));
                            },
                            None => {},
                        }
                    },
                    None => {},
                }
                i = i + 1;
            }
            assert(sv.subrange(0, sv.len() as int) =~= sv);
            proof {
                merged = joined(rows0, sv);
            }
        },
        None => {},
    }
    let mut out: Vec<Record> = Vec::new();
    let mut k: usize = 0;
    while k < result.len()
        invariant
            all_wf(result@),
            records_view(result@) == merged,
            k <= result@.len(),
            all_wf(out@),
            records_view(out@) =~= merged.subrange(0, k as int).map_values(|m: Map<Seq<char>, Seq<char>>| with_ports_compact(m)),
        decreases result@.len() - k,
    {
        let mut rec = result[k].copy();
        let compact = match rec.get("ports") {
            Some(p) => Some(parse_port_str(p.as_str())),
            None => None,
        };
        match compact {
            Some(c) => rec.insert(String::from_str("ports"), c),
            None => {},
        }
        proof {
            assert(merged[k as int] == result@[k as int]@);
            assert(records_view(out@.push(rec)) =~= records_view(out@).push(rec@));
            assert(merged.subrange(0, k + 1).map_values(|m: Map<Seq<char>, Seq<char>>| with_ports_compact(m))
                =~= merged.subrange(0, k as int).map_values(|m: Map<Seq<char>, Seq<char>>| with_ports_compact(m)).push(
                with_ports_compact(merged[k as int])));
        }
        out.push(rec);
        k = k + 1;
    }
    assert(merged.subrange(0, merged.len() as int) =~= merged);
    out
}

} // verus!
