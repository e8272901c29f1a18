use pagezest::custom_tag::CustomTag;
use pagezest::post::BlogPost;
use pagezest::render_flatbuffers::{
    custom_tag_action, custom_tag_request, flatbuffers_prerender, flatbuffers_to_html,
    plugin_result_html, pre_render_token, recent_posts_html, render_inlines, render_list_item,
    render_token, CustomTagAction, Document, ListItem, RenderTokenResult, TableCell, TableRow,
    Token,
};

fn text(s: &str) -> Token {
    Token::Text { text: s.to_string(), tokens: vec![] }
}

fn para(s: &str, tokens: Vec<Token>) -> Token {
    Token::Paragraph { text: s.to_string(), tokens }
}

fn html_of(r: RenderTokenResult) -> String {
    match r {
        RenderTokenResult::HTML(h) => h,
        RenderTokenResult::CustomTag => panic!("unexpected custom tag"),
    }
}

#[test]
fn inlines_escape_text_and_nest() {
    let tokens = vec![
        text("a<b"),
        Token::Strong { tokens: vec![text("x")] },
        Token::Em { tokens: vec![text("y")] },
        Token::Del { tokens: vec![text("z")] },
    ];
    assert_eq!(render_inlines(&tokens), "a&lt;b<strong>x</strong><em>y</em><del>z</del>");
}

#[test]
fn inline_text_with_children_renders_children_only() {
    let t = Token::Text { text: "ignored".to_string(), tokens: vec![text("kid")] };
    assert_eq!(render_inlines(&vec![t]), "kid");
}

#[test]
fn inline_links_and_images() {
    let link = Token::Link {
        href: "/a?b=1&c".to_string(),
        title: Some("T\"".to_string()),
        tokens: vec![text("go")],
    };
    let plain = Token::Link { href: "x".to_string(), title: None, tokens: vec![text("y")] };
    assert_eq!(
        render_inlines(&vec![link, plain]),
        "<a href=\"/a?b=1&amp;c\" title=\"T&quot;\">go</a><a href=\"x\">y</a>"
    );
    let img = Token::Image { href: "p.png".to_string(), title: None, tokens: vec![] };
    assert_eq!(render_inlines(&vec![img]), "<img src=\"p.png\" />");
    let img2 = Token::Image {
        href: "p.png".to_string(),
        title: Some("t".to_string()),
        tokens: vec![text("alt")],
    };
    assert_eq!(render_inlines(&vec![img2]), "<img src=\"p.png\" title=\"t\" alt=\"alt\"</>");
}

#[test]
fn inline_odd_kinds() {
    assert_eq!(render_inlines(&vec![Token::Unknown]), "<h2>UNKNOWN</h2>");
    assert_eq!(render_inlines(&vec![Token::Space]), "TODO: SPACE");
    assert_eq!(
        render_inlines(&vec![Token::Heading { depth: 1, text: "h".to_string(), tokens: vec![] }]),
        "TODO: HEADING"
    );
    let item = ListItem { task: false, checked: false, tokens: vec![] };
    assert_eq!(render_inlines(&vec![Token::ListItem(item)]), "<h1>LIST ITEM</h1>");
    assert_eq!(
        render_inlines(&vec![Token::Codespan { text: "<>".to_string() }]),
        "<code>&lt;&gt;</code>\n"
    );
    assert_eq!(render_inlines(&vec![Token::Hr, Token::Br]), "<hr/><br/>");
}

#[test]
fn list_items_with_tasks() {
    let done = ListItem { task: true, checked: true, tokens: vec![text("a")] };
    let open = ListItem { task: true, checked: false, tokens: vec![text("b")] };
    let plain = ListItem { task: false, checked: true, tokens: vec![text("c")] };
    assert_eq!(render_list_item(&done), "<li><input type=\"checkbox\" checked/>a</li>");
    assert_eq!(render_list_item(&open), "<li><input type=\"checkbox\" />b</li>");
    assert_eq!(render_list_item(&plain), "<li>c</li>");
}

#[test]
fn block_kinds() {
    let h = Token::Heading { depth: 12, text: "t".to_string(), tokens: vec![text("T")] };
    assert_eq!(html_of(pre_render_token(&h)), "<h12>T</h12>\n");
    let list = Token::List {
        ordered: true,
        items: vec![
            ListItem { task: false, checked: false, tokens: vec![text("1")] },
            ListItem { task: false, checked: false, tokens: vec![text("2")] },
        ],
    };
    assert_eq!(html_of(pre_render_token(&list)), "<ol>\n<li>1</li>\n<li>2</li>\n</ol>\n");
    let code = Token::Code { lang: "rs".to_string(), text: "a<b".to_string() };
    assert_eq!(
        html_of(pre_render_token(&code)),
        "<pre><code class=\"language-rs\">a&lt;b</code></pre>\n"
    );
    let table = Token::Table {
        header: vec![TableCell { tokens: vec![text("H")] }],
        rows: vec![
            TableRow { cells: vec![TableCell { tokens: vec![text("a")] }] },
            TableRow { cells: vec![TableCell { tokens: vec![text("b")] }] },
        ],
    };
    assert_eq!(
        html_of(pre_render_token(&table)),
        "<table><thead><tr><th>H</th></tr></thead><tbody><tr><td>a</td></tr>\n<tr><td>b</td></tr></tbody></table>\n"
    );
    assert_eq!(html_of(pre_render_token(&Token::Space)), "\n");
    assert_eq!(html_of(pre_render_token(&Token::Html { text: "<i>".to_string() })), "<i>");
    assert_eq!(html_of(pre_render_token(&text("x"))), "<pre>TODO N/A****: TEXT</pre>");
    let quote = Token::BlockQuote { tokens: vec![text("q")] };
    assert_eq!(html_of(pre_render_token(&quote)), "<blockquote>q</blockquote>\n");
}

#[test]
fn paragraphs_and_custom_tags() {
    let p = para("hello", vec![text("hello")]);
    assert_eq!(html_of(pre_render_token(&p)), "<p>hello</p>\n");
    let c = para("  [[toc]] [[/toc]]", vec![]);
    assert!(matches!(pre_render_token(&c), RenderTokenResult::CustomTag));
    // both markers are enough to be marked, even without a closing tag
    let half = para("[[x]]", vec![]);
    assert!(matches!(pre_render_token(&half), RenderTokenResult::CustomTag));
    assert_eq!(render_token(&c, &Some("TOC".to_string())), "TOC");
    assert_eq!(render_token(&p, &None), "<p>hello</p>\n");
    // a resolved string is only used for paragraphs
    assert_eq!(render_token(&Token::Hr, &Some("no".to_string())), "<hr/>");
}

#[test]
fn prerender_splits_at_custom_tags() {
    let doc = Document {
        tokens: Some(vec![
            Token::Heading { depth: 1, text: "T".to_string(), tokens: vec![text("T")] },
            para("[[toc]][[/toc]]", vec![text("ignored")]),
            Token::Space,
        ]),
    };
    let pre = flatbuffers_prerender(&doc);
    let tokens = pre.tokens.expect("tokens");
    assert_eq!(tokens.len(), 3);
    match &tokens[0] {
        Token::Paragraph { text, tokens } => {
            assert_eq!(text, "[[toc]][[/toc]]");
            assert!(tokens.is_empty());
        },
        _ => panic!("expected the custom tag first"),
    }
    match &tokens[1] {
        Token::Html { text } => assert_eq!(text, "<h1>T</h1>\n"),
        _ => panic!("expected html"),
    }
    match &tokens[2] {
        Token::Html { text } => assert_eq!(text, "\n"),
        _ => panic!("expected html"),
    }
}

#[test]
fn prerender_of_empty_document() {
    let pre = flatbuffers_prerender(&Document { tokens: None });
    assert_eq!(pre.tokens.map(|t| t.len()), Some(0));
}

#[test]
fn prerendered_page_equals_original_without_custom_tags() {
    let doc = Document {
        tokens: Some(vec![
            Token::Heading { depth: 2, text: "T".to_string(), tokens: vec![text("T")] },
            para("body", vec![text("body")]),
        ]),
    };
    let pre = flatbuffers_prerender(&doc);
    let a = flatbuffers_to_html("Title", &doc, &vec![]);
    let b = flatbuffers_to_html("Title", &pre, &vec![]);
    assert_eq!(a, b);
}

#[test]
fn full_page() {
    let doc = Document { tokens: Some(vec![para("[[x]]c[[/x]]", vec![]), Token::Br]) };
    let page = flatbuffers_to_html("A&B", &doc, &vec![Some("X".to_string())]);
    assert_eq!(
        page,
        "<html><head><meta charset=\"utf-8\"/><title>A&amp;B</title><link rel=\"stylesheet\" href=\"/assets/milligram.min.css\"></head><body>X<br/></body></html>"
    );
}

fn post(slug: &str, title: &str, created: &str) -> BlogPost {
    let mut p = BlogPost::new_with_id(1, slug, title, "", vec![]).unwrap();
    p.created_at = created.to_string();
    p
}

#[test]
fn custom_tag_actions() {
    let t = custom_tag_request(&para("[[custom-html]]<b>x</b>[[/custom-html]]", vec![])).unwrap();
    match custom_tag_action(&t) {
        CustomTagAction::Content(c) => assert_eq!(c, "<b>x</b>"),
        _ => panic!("expected content"),
    }
    let t = custom_tag_request(&para("[[posts]][[/posts]]", vec![])).unwrap();
    assert!(matches!(custom_tag_action(&t), CustomTagAction::RecentPosts));
    let t: CustomTag = custom_tag_request(&para("[[toc]][[/toc]]", vec![])).unwrap();
    assert!(matches!(custom_tag_action(&t), CustomTagAction::Plugin));
    assert!(custom_tag_request(&Token::Hr).is_none());
    assert!(custom_tag_request(&para("no tag", vec![])).is_none());
}

#[test]
fn recent_posts_list() {
    let posts = vec![post("a<", "T", "2024"), post("", "skipped", "x"), post("b", "U&", "2025")];
    assert_eq!(
        recent_posts_html(&Ok(posts)),
        "<h1>Recent Posts</h1><ul><li><a href='/a&lt;'> T | 2024 </a></li><li><a href='/b'> U&amp; | 2025 </a></li></ul>"
    );
    assert_eq!(
        recent_posts_html(&Err("db down".to_string())),
        "<h1>Recent Posts</h1><ul>Error getting posts: db down</ul>"
    );
}

#[test]
fn plugin_results() {
    assert_eq!(plugin_result_html(&Ok("out".to_string())), "out");
    assert_eq!(plugin_result_html(&Err("boom".to_string())), "plugin error boom");
}

#[test]
fn prerender_keeps_tags_and_html_in_order() {
    let doc = Document {
        tokens: Some(vec![
            para("intro", vec![text("intro")]),
            para("[[a]]x[[/a]]", vec![]),
            para("mid", vec![text("mid")]),
            para("[[b]][[/b]]", vec![]),
            Token::Hr,
        ]),
    };
    let pre = flatbuffers_prerender(&doc);
    let tokens = pre.tokens.expect("tokens");
    let mut tags = Vec::new();
    let mut html = String::new();
    for t in &tokens {
        match t {
            Token::Paragraph { text, .. } => tags.push(text.clone()),
            Token::Html { text } => html.push_str(text),
            _ => panic!("unexpected token"),
        }
    }
    assert_eq!(tags, vec!["[[a]]x[[/a]]".to_string(), "[[b]][[/b]]".to_string()]);
    assert_eq!(html, "<p>intro</p>\n<p>mid</p>\n<hr/>");
    assert_eq!(tokens.len(), 5);
    // Each custom tag comes before the HTML gathered since the previous one.
    assert!(matches!(&tokens[0], Token::Paragraph { .. }));
    assert!(matches!(&tokens[1], Token::Html { text } if text == "<p>intro</p>\n"));
}

#[test]
fn token_inlines_render_one_by_one() {
    let a = vec![text("x&"), Token::Em { tokens: vec![text("y")] }];
    let b = vec![Token::Br, text("z")];
    let ab = vec![text("x&"), Token::Em { tokens: vec![text("y")] }, Token::Br, text("z")];
    assert_eq!(render_inlines(&ab), render_inlines(&a) + &render_inlines(&b));
    assert_eq!(render_inlines(&vec![]), "");
}
