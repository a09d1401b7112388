use portless::hosts::{replace_block, HostsBlock, HostsLine, BLOCK_BEGIN, BLOCK_END, BLOCK_NOTE};

#[test]
fn parse_line_basic() {
    let l = HostsLine::parse("127.0.0.1 myapp.localhost api.myapp.localhost").unwrap();
    assert_eq!(l.ip, "127.0.0.1");
    assert_eq!(l.hostnames, vec!["myapp.localhost", "api.myapp.localhost"]);
}

#[test]
fn parse_line_ignores_comments() {
    let l = HostsLine::parse("127.0.0.1 myapp.localhost # comment").unwrap();
    assert_eq!(l.hostnames, vec!["myapp.localhost"]);
}

#[test]
fn parse_line_rejects_blank_and_comment_only() {
    assert!(HostsLine::parse("").is_none());
    assert!(HostsLine::parse("   # only a comment").is_none());
    assert!(HostsLine::parse("127.0.0.1").is_none());
}

#[test]
fn format_round_trip() {
    let l = HostsLine { ip: "127.0.0.1".into(), hostnames: vec!["a".into(), "b".into()] };
    let s = l.format();
    let p = HostsLine::parse(&s).unwrap();
    assert_eq!(p, l);
}

#[test]
fn format_joins_with_spaces() {
    let l = HostsLine { ip: "::1".into(), hostnames: vec!["a.localhost".into()] };
    assert_eq!(l.format(), "::1 a.localhost");
}

#[test]
fn extract_block() {
    let content = format!(
        "127.0.0.1 localhost\n{}\n127.0.0.1 myapp # myapp\n{}\n",
        BLOCK_BEGIN, BLOCK_END
    );
    let (_s, _e, block) = HostsBlock::extract(&content).unwrap();
    assert_eq!(block.lines.len(), 1);
    assert_eq!(block.lines[0].ip, "127.0.0.1");
}

#[test]
fn extract_without_markers_is_none() {
    assert!(HostsBlock::extract("127.0.0.1 localhost\n").is_none());
}

#[test]
fn replace_block_empty() {
    let content = "127.0.0.1 localhost\n";
    let new = replace_block(content, &[]);
    assert_eq!(new, content);
}

#[test]
fn replace_block_insert() {
    let content = "127.0.0.1 localhost\n";
    let entries =
        vec![HostsLine { ip: "127.0.0.1".into(), hostnames: vec!["myapp.localhost".into()] }];
    let new = replace_block(content, &entries);
    assert!(new.contains(BLOCK_BEGIN));
    assert!(new.contains("myapp.localhost"));
    assert_eq!(
        new,
        format!(
            "127.0.0.1 localhost\n\n{}\n{}\n127.0.0.1 myapp.localhost\n{}\n",
            BLOCK_BEGIN, BLOCK_NOTE, BLOCK_END
        )
    );
}

#[test]
fn replace_block_remove() {
    let content = format!("127.0.0.1 localhost\n{}\n127.0.0.1 myapp\n{}\n", BLOCK_BEGIN, BLOCK_END);
    let new = replace_block(&content, &[]);
    assert!(!new.contains(BLOCK_BEGIN));
    assert!(new.contains("127.0.0.1 localhost"));
}

#[test]
fn replace_then_extract_reads_entries_back() {
    let entries = vec![
        HostsLine { ip: "127.0.0.1".into(), hostnames: vec!["a.localhost".into()] },
        HostsLine {
            ip: "::1".into(),
            hostnames: vec!["b.localhost".into(), "c.b.localhost".into()],
        },
    ];
    // Into a file without a block.
    let fresh = replace_block("127.0.0.1 localhost\n", &entries);
    let (_, _, block) = HostsBlock::extract(&fresh).unwrap();
    assert_eq!(block.lines, entries);
    // Over an existing block.
    let old = format!("10.0.0.1 x\n{}\n127.0.0.1 gone\n{}\n# tail\n", BLOCK_BEGIN, BLOCK_END);
    let updated = replace_block(&old, &entries);
    let (_, _, block) = HostsBlock::extract(&updated).unwrap();
    assert_eq!(block.lines, entries);
    assert!(updated.ends_with("# tail\n"));
}

#[test]
fn render_then_extract_reads_lines_back() {
    let lines = vec![
        HostsLine { ip: "127.0.0.1".into(), hostnames: vec!["x.localhost".into()] },
        HostsLine { ip: "127.0.0.1".into(), hostnames: vec!["y.localhost".into(), "z.y.localhost".into()] },
    ];
    let text = HostsBlock { lines: lines.clone() }.render();
    let (start, _end, block) = HostsBlock::extract(&text).unwrap();
    assert_eq!(start, 0);
    assert_eq!(block.lines, lines);
}

#[test]
fn resync_leaves_file_unchanged_and_clean_restores_it() {
    let content = "127.0.0.1 localhost\n";
    let entries = vec![HostsLine { ip: "127.0.0.1".into(), hostnames: vec!["a.localhost".into()] }];
    let once = replace_block(content, &entries);
    let twice = replace_block(&once, &entries);
    assert_eq!(twice, once);
    assert_eq!(replace_block(&twice, &entries), once);
    assert_eq!(replace_block(&once, &[]), content);
}

#[test]
fn extract_block_between_other_text() {
    let lines = vec![HostsLine { ip: "127.0.0.1".into(), hostnames: vec!["a.localhost".into()] }];
    let rendered = HostsBlock { lines: lines.clone() }.render();
    let before = "127.0.0.1 localhost\n";
    let text = format!("{before}{rendered}# after\n");
    let (start, end, block) = HostsBlock::extract(&text).unwrap();
    assert_eq!(start, before.len());
    assert_eq!(end, before.len() + rendered.len() - 1);
    assert_eq!(block.lines, lines);
}
