use pagezest::render::{
    blocks_would_panic, handle_custom_tag, json_custom_tags, json_to_html, render_inlines, Block,
    InlineToken, ListItem, PluginOutcome, TableCell,
};

fn t(s: &str) -> InlineToken {
    InlineToken::Text { text: s.to_string() }
}

fn para(s: &str) -> Block {
    Block::Paragraph { text: s.to_string(), tokens: vec![t(s)] }
}

#[test]
fn inline_elements() {
    let tokens = vec![
        t("a&b"),
        InlineToken::Strong { tokens: vec![t("s")] },
        InlineToken::Em { tokens: vec![t("e")] },
        InlineToken::Codespan { text: "<c>".to_string() },
        InlineToken::Link { href: "h".to_string(), title: Some("ti".to_string()), tokens: vec![t("l")] },
        InlineToken::Link { href: "h2".to_string(), title: None, tokens: vec![] },
        InlineToken::Other,
    ];
    assert_eq!(
        render_inlines(&tokens),
        "a&amp;b<strong>s</strong><em>e</em><code>&lt;c&gt;</code><a href=\"h\" title=\"ti\">l</a><a href=\"h2\"></a>"
    );
}

#[test]
fn page_with_blocks() {
    let blocks = vec![
        Block::Heading { depth: 3, text: "H".to_string(), tokens: vec![t("H")] },
        para("p"),
        Block::Space,
        Block::List {
            ordered: false,
            items: vec![
                ListItem { text: "a".to_string(), tokens: vec![t("a")] },
                ListItem { text: "b".to_string(), tokens: vec![t("b")] },
            ],
        },
        Block::ListItem { text: "i".to_string(), tokens: vec![t("i")] },
        Block::Code { text: "x<".to_string(), lang: None },
        Block::Code { text: "y".to_string(), lang: Some("rs".to_string()) },
        Block::Blockquote { tokens: vec![para("q1"), para("q2")] },
        Block::Hr,
        Block::Html { text: "<div/>".to_string() },
        Block::Table {
            header: vec![TableCell { text: "h<".to_string() }],
            rows: vec![vec![TableCell { text: "1".to_string() }], vec![TableCell { text: "2".to_string() }]],
        },
        Block::Other,
    ];
    let html = json_to_html(&blocks, "CSS", &vec![]);
    let expected = [
        "<html><head><style>CSS</style></head><body>",
        "<h3>H</h3>\n",
        "<p>p</p>\n",
        "\n",
        "<ul>\n<li>a</li>\n<li>b</li>\n</ul>\n",
        "<li>i</li>\n",
        "<pre><code>x&lt;</code></pre>\n",
        "<pre><code class=\"language-rs\">y</code></pre>\n",
        "<blockquote>\n<p>q1</p>\n\n<p>q2</p>\n</blockquote>\n",
        "<hr />\n",
        "<div/>\n",
        "<table><thead><tr><th>h&lt;</th></tr></thead><tbody><tr><td>1</td></tr>\n<tr><td>2</td></tr></tbody></table>\n",
        "</body></html>",
    ]
    .join("");
    assert_eq!(html, expected);
}

#[test]
fn custom_tags_take_outcomes_in_order() {
    let blocks = vec![
        para("[[a]]x[[/a]]"),
        Block::Blockquote { tokens: vec![para("[[b]]y[[/b]]")] },
        Block::Heading { depth: 1, text: "[[c]]z<[[/c]]".to_string(), tokens: vec![] },
        para("[[custom-html]]<raw>[[/custom-html]]"),
    ];
    let tags = json_custom_tags(&blocks);
    let names: Vec<&str> = tags.iter().map(|t| t.name.as_str()).collect();
    assert_eq!(names, vec!["a", "b", "c", "custom-html"]);
    let outs = vec![PluginOutcome::Output("A".to_string()), PluginOutcome::Failed];
    let html = json_to_html(&blocks, "", &outs);
    assert_eq!(
        html,
        "<html><head><style></style></head><body>A<blockquote>\nPlugin error</blockquote>\ncustom tag[c]: z&lt;<raw></body></html>"
    );
}

#[test]
fn custom_tag_outcomes() {
    let blocks = vec![para("[[t]]c&[[/t]]")];
    let tag = &json_custom_tags(&blocks)[0];
    assert_eq!(handle_custom_tag(tag, &PluginOutcome::NoHandler), "custom tag[t]: c&amp;");
    assert_eq!(handle_custom_tag(tag, &PluginOutcome::NotCallable), "could not call function");
    assert_eq!(handle_custom_tag(tag, &PluginOutcome::Failed), "Plugin error");
    assert_eq!(handle_custom_tag(tag, &PluginOutcome::Output("o".to_string())), "o");
}

#[test]
fn backwards_tags_are_reported() {
    assert!(blocks_would_panic(&vec![Block::Blockquote { tokens: vec![para("]] [[x")] }]));
    assert!(!blocks_would_panic(&vec![para("[[x]]ok[[/x]]")]));
}

#[test]
fn inlines_render_one_by_one() {
    let a = vec![t("a<"), InlineToken::Codespan { text: "x".to_string() }];
    let b = vec![InlineToken::Strong { tokens: vec![t("b")] }, InlineToken::Other];
    let ab: Vec<InlineToken> = vec![
        t("a<"),
        InlineToken::Codespan { text: "x".to_string() },
        InlineToken::Strong { tokens: vec![t("b")] },
        InlineToken::Other,
    ];
    assert_eq!(render_inlines(&ab), render_inlines(&a) + &render_inlines(&b));
    assert_eq!(render_inlines(&vec![]), "");
}
