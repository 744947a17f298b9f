use ainc_mac::markdown::{parse, read_events, segments, Block, Inline, MdEvent, Style};

#[test]
fn overlapping_spans_split_into_ordered_segments() {
    let inline = Inline {
        text: "abcdef".into(),
        spans: vec![(0..4, Style::Italic), (2..6, Style::Bold)],
    };
    let segments = segments(&inline);
    assert_eq!(segments[0], (0..2, vec![Style::Italic]));
    assert_eq!(segments[1], (2..4, vec![Style::Italic, Style::Bold]));
    assert_eq!(segments[2], (4..6, vec![Style::Bold]));
}

#[test]
fn segments_skip_gaps_and_cuts_inside_characters() {
    let inline = Inline {
        text: "café au lait".into(),
        spans: vec![(0..4, Style::Bold), (9..13, Style::Code), (7..9, Style::Link)],
    };
    let runs = segments(&inline);
    assert_eq!(
        runs,
        vec![
            (7..9, vec![Style::Link]),
            (9..13, vec![Style::Code]),
        ]
    );
    let plain = Inline { text: "plain".into(), spans: vec![] };
    assert!(segments(&plain).is_empty());
    let past_end = Inline { text: "ab".into(), spans: vec![(0..9, Style::Italic)] };
    assert!(segments(&past_end).is_empty());
}


#[test]
fn parses_reply_structure_with_inline_styles() {
    let blocks = parse(
        "# Plan\n\nStart with **bold** and `code` now.\n\n- one\n- two *soft*\n\n1. first\n\n```rust\nfn x() {}\n```\n\n> quoted\n\n---\n",
    );
    assert_eq!(blocks.len(), 7);
    assert!(matches!(&blocks[0], Block::Heading(1, inline) if inline.text == "Plan"));
    let Block::Paragraph(inline) = &blocks[1] else {
        panic!("paragraph")
    };
    assert_eq!(inline.text, "Start with bold and code now.");
    assert_eq!(inline.spans[0], (11..15, Style::Bold));
    assert_eq!(inline.spans[1], (20..24, Style::Code));
    let Block::List { ordered, items } = &blocks[2] else {
        panic!("list")
    };
    assert!(!ordered);
    assert_eq!(items.len(), 2);
    assert_eq!(items[1].text.trim(), "two soft");
    assert_eq!(items[1].spans[0].1, Style::Italic);
    assert!(matches!(&blocks[3], Block::List { ordered: true, .. }));
    assert_eq!(
        &blocks[4],
        &Block::Code { language: Some("rust".into()), text: "fn x() {}".into() }
    );
    assert!(matches!(&blocks[5], Block::Quote(inline) if inline.text == "quoted"));
    assert_eq!(blocks[6], Block::Rule);
}

#[test]
fn plain_text_and_partial_markdown_stay_readable() {
    assert_eq!(parse("").len(), 0);
    let blocks = parse("Streaming **bo");
    let Block::Paragraph(inline) = &blocks[0] else {
        panic!("paragraph")
    };
    assert_eq!(inline.text, "Streaming **bo");
    let blocks = parse("```\nunterminated");
    assert_eq!(blocks, vec![Block::Code { language: None, text: "unterminated".into() }]);
}

#[test]
fn nested_list_items_join_their_parent_indented() {
    let blocks = parse("- top\n  - inner **b**\n- next\n");
    let Block::List { ordered, items } = &blocks[0] else {
        panic!("list")
    };
    assert!(!ordered);
    assert_eq!(items.len(), 3);
    assert_eq!(items[0].text.trim(), "top");
    assert_eq!(items[1].text, "  inner b");
    assert_eq!(items[1].spans, vec![(8..9, Style::Bold)]);
    assert_eq!(items[2].text.trim(), "next");
}

#[test]
fn events_read_as_blocks() {
    let events = vec![
        MdEvent::StartHeading(2),
        MdEvent::Text("Title".into()),
        MdEvent::EndHeading,
        MdEvent::StartQuote,
        MdEvent::Text("said".into()),
        MdEvent::HardBreak,
        MdEvent::Text("twice".into()),
        MdEvent::EndParagraph,
        MdEvent::EndQuote,
        MdEvent::StartList(Some(1)),
        MdEvent::TaskListMarker(true),
        MdEvent::Text("done".into()),
        MdEvent::EndItem,
        MdEvent::EndList,
        MdEvent::StartCodeBlock(Some("  py  ".into())),
        MdEvent::Text("x = 1\n\n".into()),
        MdEvent::StartStrong,
        MdEvent::EndCodeBlock,
        MdEvent::Text("   ".into()),
        MdEvent::EndParagraph,
        MdEvent::Rule,
    ];
    let blocks = read_events(&events);
    assert_eq!(blocks.len(), 5);
    assert!(matches!(&blocks[0], Block::Heading(2, inline) if inline.text == "Title"));
    assert!(matches!(&blocks[1], Block::Quote(inline) if inline.text == "said\ntwice"));
    let Block::List { ordered, items } = &blocks[2] else {
        panic!("list")
    };
    assert!(*ordered);
    assert_eq!(items[0].text, "☑ done");
    assert_eq!(blocks[3], Block::Code { language: Some("py".into()), text: "x = 1".into() });
    assert_eq!(blocks[4], Block::Rule);
}
