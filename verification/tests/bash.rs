use rhio::parser::bash::{
    parse, stanzas_from_nodes, top_level_stanzas, BashError, StanzaKind, SyntaxNode,
};

#[test]
fn parses_empty_input() {
    let tree = parse("").unwrap();
    assert_eq!(tree.root_node().kind(), "program");
}

#[test]
fn parses_simple_assignment() {
    let stanzas = top_level_stanzas("FOO=bar\n").unwrap();
    assert_eq!(stanzas.len(), 1);
    assert_eq!(
        stanzas[0].kind,
        StanzaKind::Assignment {
            name: "FOO".to_string()
        }
    );
}

#[test]
fn parses_function_definition() {
    let stanzas = top_level_stanzas("myfn() { echo hi; }\n").unwrap();
    assert_eq!(stanzas.len(), 1);
    assert_eq!(
        stanzas[0].kind,
        StanzaKind::Function {
            name: "myfn".to_string()
        }
    );
}

#[test]
fn parses_multiple_top_level_statements() {
    let source = "FOO=bar\nalias gs='git status'\nBAR=baz\n";
    let stanzas = top_level_stanzas(source).unwrap();
    assert_eq!(stanzas.len(), 3);
    assert!(matches!(
        stanzas[0].kind,
        StanzaKind::Assignment { ref name } if name == "FOO"
    ));
    assert!(matches!(stanzas[1].kind, StanzaKind::Other));
    assert!(matches!(
        stanzas[2].kind,
        StanzaKind::Assignment { ref name } if name == "BAR"
    ));
}

#[test]
fn assignment_text_is_preserved() {
    let source = "  FOO=bar  \n";
    let stanzas = top_level_stanzas(source).unwrap();
    assert_eq!(stanzas.len(), 1);
    // Text reflects the byte range of the node, which excludes leading
    // whitespace tokens but includes the assignment itself.
    assert!(stanzas[0].text.contains("FOO=bar"));
}

#[test]
fn stanza_text_and_range_follow_the_source() {
    let source = "FOO=bar\nmyfn() { echo hi; }\n";
    let stanzas = top_level_stanzas(source).unwrap();
    assert_eq!(stanzas.len(), 2);
    assert_eq!(stanzas[0].text, "FOO=bar");
    assert_eq!(stanzas[0].byte_range, 0..7);
    assert_eq!(stanzas[1].text, "myfn() { echo hi; }");
    assert_eq!(stanzas[1].byte_range, 8..27);
    for s in &stanzas {
        assert_eq!(&source[s.byte_range.clone()], s.text);
    }
}

#[test]
fn non_ascii_source_keeps_characters_whole() {
    let source = "GREETING=héllo\n";
    let stanzas = top_level_stanzas(source).unwrap();
    assert_eq!(stanzas.len(), 1);
    assert_eq!(stanzas[0].text, "GREETING=héllo");
    assert_eq!(
        stanzas[0].kind,
        StanzaKind::Assignment {
            name: "GREETING".to_string()
        }
    );
}

fn node(kind: &str, start: usize, end: usize, field: Option<(usize, usize)>) -> SyntaxNode {
    SyntaxNode {
        kind: kind.to_string(),
        start,
        end,
        field,
    }
}

#[test]
fn nodes_become_stanzas_in_order() {
    let source = "FOO=bar\nf() { :; }\nls\n";
    let nodes = vec![
        node("variable_assignment", 0, 7, Some((0, 3))),
        node("function_definition", 8, 18, Some((8, 9))),
        node("command", 19, 21, None),
    ];
    let stanzas = stanzas_from_nodes(source, &nodes).unwrap();
    assert_eq!(stanzas.len(), 3);
    assert_eq!(stanzas[0].kind, StanzaKind::Assignment { name: "FOO".to_string() });
    assert_eq!(stanzas[0].text, "FOO=bar");
    assert_eq!(stanzas[0].byte_range, 0..7);
    assert_eq!(stanzas[1].kind, StanzaKind::Function { name: "f".to_string() });
    assert_eq!(stanzas[1].text, "f() { :; }");
    assert_eq!(stanzas[2].kind, StanzaKind::Other);
    assert_eq!(stanzas[2].text, "ls");
}

#[test]
fn assignment_without_name_is_other() {
    let source = "X=1\n";
    let nodes = vec![node("variable_assignment", 0, 3, None)];
    let stanzas = stanzas_from_nodes(source, &nodes).unwrap();
    assert_eq!(stanzas[0].kind, StanzaKind::Other);
}

#[test]
fn name_field_of_other_kinds_is_ignored() {
    let source = "ls -l\n";
    let nodes = vec![node("command", 0, 5, Some((0, 2)))];
    let stanzas = stanzas_from_nodes(source, &nodes).unwrap();
    assert_eq!(stanzas[0].kind, StanzaKind::Other);
}

#[test]
fn range_inside_a_character_is_refused() {
    // 'é' takes two bytes: offset 1 falls inside it.
    let source = "é=1\n";
    let nodes = vec![node("command", 0, 1, None)];
    assert_eq!(stanzas_from_nodes(source, &nodes), Err(BashError::RangeOutsideSource));
    let nodes = vec![node("variable_assignment", 0, 4, Some((0, 1)))];
    assert_eq!(stanzas_from_nodes(source, &nodes), Err(BashError::RangeOutsideSource));
}

#[test]
fn range_past_the_end_is_refused() {
    let nodes = vec![node("command", 0, 10, None)];
    assert_eq!(stanzas_from_nodes("ls\n", &nodes), Err(BashError::RangeOutsideSource));
    let nodes = vec![node("command", 3, 2, None)];
    assert_eq!(stanzas_from_nodes("ls\n", &nodes), Err(BashError::RangeOutsideSource));
}

#[test]
fn no_nodes_no_stanzas() {
    assert_eq!(stanzas_from_nodes("", &Vec::new()), Ok(Vec::new()));
}

#[test]
fn syntax_errors_still_give_a_tree() {
    let tree = parse("myfn() {\n").unwrap();
    assert!(tree.root_node().has_error());
    assert!(top_level_stanzas("myfn() {\n").is_ok());
}

#[test]
fn parsing_is_deterministic() {
    let source = "FOO=bar\nalias gs='git status'\nmyfn() { echo hi; }\n";
    assert_eq!(top_level_stanzas(source), top_level_stanzas(source));
    let a = parse(source).unwrap();
    let b = parse(source).unwrap();
    assert_eq!(a.root_node().to_sexp(), b.root_node().to_sexp());
}

#[test]
fn empty_source_has_no_stanzas() {
    assert_eq!(top_level_stanzas(""), Ok(Vec::new()));
    assert_eq!(parse("").unwrap().root_node().child_count(), 0);
}

#[test]
fn stanzas_come_in_source_order() {
    let source = "A=1\nb() { :; }\necho x\nC=3\n";
    let stanzas = top_level_stanzas(source).unwrap();
    assert_eq!(stanzas.len(), 4);
    for w in stanzas.windows(2) {
        assert!(w[0].byte_range.end <= w[1].byte_range.start);
    }
}
