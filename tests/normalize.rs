use xml_pull::{normalize_events, Normalizer, ParserConfig, XmlEvent};

fn chars(s: &str) -> XmlEvent {
    XmlEvent::Characters(s.to_string())
}

fn ws(s: &str) -> XmlEvent {
    XmlEvent::Whitespace(s.to_string())
}

fn cdata(s: &str) -> XmlEvent {
    XmlEvent::CData(s.to_string())
}

fn comment(s: &str) -> XmlEvent {
    XmlEvent::Comment(s.to_string())
}

fn start(s: &str) -> XmlEvent {
    XmlEvent::StartElement { name: s.to_string() }
}

fn end(s: &str) -> XmlEvent {
    XmlEvent::EndElement { name: s.to_string() }
}

fn spaced() -> Vec<XmlEvent> {
    vec![ws("  "), chars("hi"), ws("  ")]
}

#[test]
fn scenario_whitespace_kept() {
    let cfg = ParserConfig::new().trim_whitespace(false).whitespace_to_characters(false);
    assert_eq!(normalize_events(cfg, spaced()), spaced());
}

#[test]
fn scenario_whitespace_merged() {
    let cfg = ParserConfig::new()
        .whitespace_to_characters(true)
        .merge_sequential_characters(true)
        .trim_whitespace(false);
    assert_eq!(normalize_events(cfg, spaced()), vec![chars("  hi  ")]);
}

#[test]
fn scenario_whitespace_merged_and_trimmed() {
    let cfg = ParserConfig::new()
        .whitespace_to_characters(true)
        .trim_whitespace(true)
        .merge_sequential_characters(true);
    assert_eq!(normalize_events(cfg, spaced()), vec![chars("hi")]);
}

#[test]
fn scenario_comment_dropped_then_merged() {
    let cfg = ParserConfig::new().ignore_comments(true).merge_sequential_characters(true);
    let input = vec![chars("a"), comment("x"), chars("b")];
    assert_eq!(normalize_events(cfg, input), vec![chars("ab")]);
}

#[test]
fn scenario_standalone_whitespace_trimmed_away() {
    let cfg = ParserConfig::new().trim_whitespace(true).whitespace_to_characters(false);
    assert_eq!(normalize_events(cfg, vec![ws("   ")]), Vec::<XmlEvent>::new());
}

#[test]
fn empty_stream() {
    assert_eq!(normalize_events(ParserConfig::new(), Vec::new()), Vec::<XmlEvent>::new());
}

#[test]
fn comments_kept_when_not_ignored() {
    let cfg = ParserConfig::new().ignore_comments(false);
    let input = vec![chars("a"), comment("x"), chars("b")];
    assert_eq!(normalize_events(cfg, input.clone()), input);
}

#[test]
fn no_comment_when_ignored() {
    let input = vec![start("r"), comment("x"), comment("y"), end("r")];
    let out = normalize_events(ParserConfig::new(), input);
    assert_eq!(out, vec![start("r"), end("r")]);
    assert!(!out.iter().any(|e| matches!(e, XmlEvent::Comment(_))));
}

#[test]
fn no_whitespace_when_converted() {
    let cfg = ParserConfig::new().whitespace_to_characters(true).merge_sequential_characters(false);
    let input = vec![start("r"), ws(" \n"), end("r")];
    let out = normalize_events(cfg, input);
    assert_eq!(out, vec![start("r"), chars(" \n"), end("r")]);
    assert!(!out.iter().any(|e| matches!(e, XmlEvent::Whitespace(_))));
}

#[test]
fn cdata_kept_without_conversion() {
    let input = vec![start("r"), cdata("  x  "), end("r")];
    let cfg = ParserConfig::new().trim_whitespace(true);
    assert_eq!(normalize_events(cfg, input.clone()), input);
}

#[test]
fn cdata_converted_and_trimmed() {
    let cfg = ParserConfig::new().cdata_to_characters(true).trim_whitespace(true);
    let input = vec![chars(" a"), cdata(" <b> "), end("r")];
    let out = normalize_events(cfg, input);
    assert_eq!(out, vec![chars("a <b>"), end("r")]);
    assert!(!out.iter().any(|e| matches!(e, XmlEvent::CData(_))));
}

#[test]
fn cdata_converted_not_merged() {
    let cfg = ParserConfig::new().cdata_to_characters(true).merge_sequential_characters(false);
    let input = vec![chars("a"), cdata("b"), chars("")];
    assert_eq!(normalize_events(cfg, input), vec![chars("a"), chars("b")]);
}

#[test]
fn empty_characters_dropped() {
    let input = vec![start("r"), chars(""), end("r"), chars("")];
    assert_eq!(normalize_events(ParserConfig::new(), input), vec![start("r"), end("r")]);
    let cfg = ParserConfig::new().merge_sequential_characters(false);
    let input = vec![chars(""), start("r"), chars("")];
    assert_eq!(normalize_events(cfg, input), vec![start("r")]);
}

#[test]
fn trim_without_merge_trims_each() {
    let cfg = ParserConfig::new()
        .trim_whitespace(true)
        .whitespace_to_characters(true)
        .merge_sequential_characters(false);
    let input = vec![chars(" a "), ws("  "), chars(" b ")];
    assert_eq!(normalize_events(cfg, input), vec![chars("a"), chars("b")]);
}

#[test]
fn merge_keeps_inner_space() {
    let cfg = ParserConfig::new().trim_whitespace(true).whitespace_to_characters(true);
    let input = vec![chars(" a "), ws("  "), chars(" b ")];
    assert_eq!(normalize_events(cfg, input), vec![chars("a    b")]);
}

#[test]
fn dropped_whitespace_does_not_split_a_run() {
    let cfg = ParserConfig::new().trim_whitespace(true);
    let input = vec![chars("a"), ws(" "), chars("b")];
    assert_eq!(normalize_events(cfg, input), vec![chars("ab")]);
}

#[test]
fn merge_stops_at_markup() {
    let cfg = ParserConfig::new().cdata_to_characters(true);
    let input = vec![chars("a"), cdata("b"), start("x"), chars("c"), comment("k"), chars("d")];
    let out = normalize_events(cfg, input);
    assert_eq!(out, vec![chars("ab"), start("x"), chars("cd")]);
    for w in out.windows(2) {
        assert!(!(matches!(w[0], XmlEvent::Characters(_)) && matches!(w[1], XmlEvent::Characters(_))));
    }
}

#[test]
fn without_merge_characters_stay_apart() {
    let cfg = ParserConfig::new().merge_sequential_characters(false);
    let input = vec![chars("a"), comment("x"), chars("b")];
    assert_eq!(normalize_events(cfg, input), vec![chars("a"), chars("b")]);
}

#[test]
fn structural_events_pass_through() {
    let input = vec![
        XmlEvent::StartDocument,
        XmlEvent::ProcessingInstruction { name: "pi".to_string(), data: " d ".to_string() },
        start("r"),
        end("r"),
        XmlEvent::EndDocument,
    ];
    let cfg = ParserConfig::new().trim_whitespace(true).whitespace_to_characters(true);
    assert_eq!(normalize_events(cfg, input.clone()), input);
}

#[test]
fn normalizing_twice_changes_nothing() {
    let input = vec![
        XmlEvent::StartDocument,
        ws(" "),
        chars(" a "),
        comment("c"),
        cdata(" b "),
        start("x"),
        ws("\n"),
        end("x"),
        chars(""),
        XmlEvent::EndDocument,
    ];
    let mut configs = Vec::new();
    for bits in 0u8..32 {
        configs.push(
            ParserConfig::new()
                .trim_whitespace(bits & 1 != 0)
                .whitespace_to_characters(bits & 2 != 0)
                .cdata_to_characters(bits & 4 != 0)
                .ignore_comments(bits & 8 != 0)
                .merge_sequential_characters(bits & 16 != 0),
        );
    }
    for cfg in configs {
        let once = normalize_events(cfg, input.clone());
        let twice = normalize_events(cfg, once.clone());
        assert_eq!(once, twice);
        assert!(!once.iter().any(|e| matches!(e, XmlEvent::Characters(t) if t.is_empty())));
    }
}

#[test]
fn streaming_matches_batch() {
    let cfg = ParserConfig::new().whitespace_to_characters(true);
    let input = vec![start("r"), chars("a"), ws(" "), comment("c"), chars("b"), end("r"), chars("t")];
    let mut n = Normalizer::new(cfg);
    let mut out = Vec::new();
    for e in input.clone() {
        out.extend(n.feed(e));
    }
    out.extend(n.finish());
    assert_eq!(out, normalize_events(cfg, input));
    assert_eq!(out, vec![start("r"), chars("a b"), end("r"), chars("t")]);
}

#[test]
fn feed_holds_text_until_markup() {
    let mut n = Normalizer::new(ParserConfig::new());
    assert!(n.feed(chars("a")).is_empty());
    assert!(n.feed(chars("b")).is_empty());
    assert_eq!(n.feed(start("x")), vec![chars("ab"), start("x")]);
    assert_eq!(n.finish(), None);
    assert!(n.feed(chars("c")).is_empty());
    assert_eq!(n.finish(), Some(chars("c")));
    assert_eq!(n.finish(), None);
}

#[test]
fn feed_without_merge_emits_at_once() {
    let cfg = ParserConfig::new().merge_sequential_characters(false).trim_whitespace(true);
    let mut n = Normalizer::new(cfg);
    assert_eq!(n.feed(chars(" a ")), vec![chars("a")]);
    assert!(n.feed(chars("  ")).is_empty());
    assert!(n.feed(ws("  ")).is_empty());
    assert_eq!(n.feed(end("x")), vec![end("x")]);
    assert_eq!(n.finish(), None);
}

#[test]
fn accept_passes_errors_through() {
    let mut n = Normalizer::new(ParserConfig::new());
    let r: Result<Vec<XmlEvent>, String> = n.accept(Ok(Some(chars("a"))));
    assert_eq!(r, Ok(vec![]));
    let r: Result<Vec<XmlEvent>, String> = n.accept(Err("bad token".to_string()));
    assert_eq!(r, Err("bad token".to_string()));
    let r: Result<Vec<XmlEvent>, String> = n.accept(Ok(Some(chars("b"))));
    assert_eq!(r, Ok(vec![]));
    let r: Result<Vec<XmlEvent>, String> = n.accept(Ok(None));
    assert_eq!(r, Ok(vec![chars("ab")]));
    let r: Result<Vec<XmlEvent>, String> = n.accept(Ok(None));
    assert_eq!(r, Ok(vec![]));
}
