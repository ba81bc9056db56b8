use tynkerbase_client::record::Record;
use tynkerbase_client::table::{
    is_whitespace,
    cvt_hashmap, merge_container_stats, parse_container_list, parse_container_stats, parse_port_str, parse_table,
};
use tynkerbase_client::client::ClientError;

#[test]
fn tabular_parse_single_row() {
    let recs = parse_table("CONTAINER ID|||IMAGE|||STATUS\nabc123|||nginx|||Up", "|||").unwrap();
    assert_eq!(recs.len(), 1);
    assert_eq!(recs[0].get("CONTAINER ID").unwrap(), "abc123");
    assert_eq!(recs[0].get("IMAGE").unwrap(), "nginx");
    assert_eq!(recs[0].get("STATUS").unwrap(), "Up");
    assert!(recs[0].get("PORTS").is_none());
    assert_eq!(recs[0].len(), 3);
}

#[test]
fn tabular_parse_skips_blank_lines() {
    let recs = parse_table("\n  \nA|||B\n1|||2\n\t\u{3000}\u{a0}\n3|||4\n", "|||").unwrap();
    assert_eq!(recs.len(), 2);
    assert_eq!(recs[1].get("A").unwrap(), "3");
    assert_eq!(recs[1].get("B").unwrap(), "4");
}

#[test]
fn tabular_parse_without_header_fails() {
    assert!(matches!(parse_table(" \n\n", "|||"), Err(ClientError::Serialization(_))));
}

#[test]
fn cvt_hashmap_pairs_headers_and_fields() {
    let rows = vec!["H1|||H2".to_string(), "a|||b|||extra".to_string(), "only".to_string()];
    let recs = cvt_hashmap(rows, "|||");
    assert_eq!(recs.len(), 2);
    assert_eq!(recs[0].get("H2").unwrap(), "b");
    assert_eq!(recs[1].get("H1").unwrap(), "only");
    assert!(recs[1].get("H2").is_none());
}

#[test]
fn container_list_fields_are_renamed() {
    let text = "CONTAINER ID|||IMAGE|||COMMAND|||CREATED AT|||STATUS|||PORTS|||NAMES\n\
                c1|||nginx|||run|||today|||Up|||0.0.0.0:::8080->80/tcp|||web\n";
    let recs = parse_container_list(text).unwrap();
    assert_eq!(recs.len(), 1);
    assert_eq!(recs[0].get("container_id").unwrap(), "c1");
    assert_eq!(recs[0].get("created_at").unwrap(), "today");
    assert_eq!(recs[0].get("names").unwrap(), "web");
    assert!(recs[0].get("CONTAINER ID").is_none());
}

#[test]
fn stats_fields_are_renamed() {
    let text = "CONTAINER ID|||CONTAINER|||CPU %|||MEM USAGE / LIMIT|||MEM %|||NET I/O|||BLOCK I/O|||PIDS\n\
                c1|||web|||0.5%|||10MiB / 1GiB|||1%|||1kB / 2kB|||0B / 0B|||3\n";
    let recs = parse_container_stats(text).unwrap();
    assert_eq!(recs[0].get("cpu_perc").unwrap(), "0.5%");
    assert_eq!(recs[0].get("pids").unwrap(), "3");
    assert_eq!(recs[0].get("container").unwrap(), "web");
}

#[test]
fn port_string_rewrite() {
    assert_eq!(parse_port_str("0.0.0.0:::8080->80/tcp"), "8080/tcp");
    assert_eq!(parse_port_str("80/tcp"), "80/tcp");
    assert_eq!(parse_port_str(""), "");
    assert_eq!(parse_port_str("0.0.0.0:::8080"), "0.0.0.0:::8080");
    assert_eq!(parse_port_str("a:::/->"), "a:::/->");
    assert_eq!(parse_port_str("0.0.0.0:::8080->80"), "0.0.0.0:::8080->80");
    assert_eq!(parse_port_str(":::443->443/udp"), "443/udp");
}

fn rec(pairs: &[(&str, &str)]) -> Record {
    let mut r = Record::new();
    for (k, v) in pairs {
        r.insert(k.to_string(), v.to_string());
    }
    r
}

#[test]
fn stats_join_on_container_id() {
    let list = vec![
        rec(&[("container_id", "a"), ("ports", "0.0.0.0:::8080->80/tcp")]),
        rec(&[("container_id", "b"), ("ports", "")]),
    ];
    let stats = vec![rec(&[("container_id", "b"), ("cpu_perc", "2%")]), rec(&[("container_id", "zz"), ("cpu_perc", "9%")])];
    let out = merge_container_stats(list, Some(stats));
    assert_eq!(out.len(), 2);
    assert_eq!(out[0].get("ports").unwrap(), "8080/tcp");
    assert!(out[0].get("cpu_perc").is_none());
    assert_eq!(out[1].get("cpu_perc").unwrap(), "2%");
    assert_eq!(out[1].get("container_id").unwrap(), "b");
}

#[test]
fn stats_join_without_stats_still_rewrites_ports() {
    let list = vec![rec(&[("container_id", "a"), ("ports", "0.0.0.0:::9000->90/udp")])];
    let out = merge_container_stats(list, None);
    assert_eq!(out[0].get("ports").unwrap(), "9000/udp");
}

#[test]
fn record_operations() {
    let mut r = Record::new();
    r.insert("k".to_string(), "1".to_string());
    r.insert("k".to_string(), "2".to_string());
    assert_eq!(r.get("k").unwrap(), "2");
    assert!(r.contains_key("k"));
    assert_eq!(r.remove("k"), Some("2".to_string()));
    assert_eq!(r.remove("k"), None);
    assert!(!r.contains_key("k"));
    let mut a = rec(&[("x", "1"), ("y", "2")]);
    a.extend(&rec(&[("y", "3"), ("z", "4")]));
    assert_eq!(a.get("x").unwrap(), "1");
    assert_eq!(a.get("y").unwrap(), "3");
    assert_eq!(a.get("z").unwrap(), "4");
}

#[test]
fn whitespace_matches_std() {
    for c in ['\t', '\n', '\r', ' ', '\u{85}', '\u{a0}', '\u{2003}', '\u{3000}', 'a', '0', '\u{200b}', '|'] {
        assert_eq!(is_whitespace(c), c.is_whitespace());
    }
}
