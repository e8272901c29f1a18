//! Rendering of markdown blocks, as a markdown lexer describes them, to an HTML page, with the
//! custom tags of paragraphs and headings resolved by plugins.
use vstd::prelude::*;
use crate::custom_tag::{custom_tag_panics, parse_custom_tag, spec_custom_tag, CustomTag};
use crate::html::{push_digits, push_escaped, spec_decimal, spec_html_escape};

verus! {

/// An inline element.
pub enum InlineToken {
    Text { text: String },
    Strong { tokens: Vec<InlineToken> },
    Em { tokens: Vec<InlineToken> },
    Codespan { text: String },
    Link { href: String, title: Option<String>, tokens: Vec<InlineToken> },
    Other,
}

/// An item of a list.
pub struct ListItem {
    pub text: String,
    pub tokens: Vec<InlineToken>,
}

/// A cell of a table.
pub struct TableCell {
    pub text: String,
}

/// A row of a table.
pub struct TableRow {
    pub cells: Vec<TableCell>,
}

/// A block element.
pub enum Block {
    Space,
    Paragraph { text: String, tokens: Vec<InlineToken> },
    Heading { depth: u8, text: String, tokens: Vec<InlineToken> },
    List { ordered: bool, items: Vec<ListItem> },
    ListItem { text: String, tokens: Vec<InlineToken> },
    Code { text: String, lang: Option<String> },
    Blockquote { tokens: Vec<Block> },
    Hr,
    Html { text: String },
    Table { header: Vec<TableCell>, rows: Vec<Vec<TableCell>> },
    Other,
}

/// What became of handing a custom tag to the plugins.
pub enum PluginOutcome {
    /// No plugin is registered for the tag.
    NoHandler,
    /// A plugin is registered but could not be reached.
    NotCallable,
    /// The plugin returned this output.
    Output(String),
    /// The plugin call failed.
    Failed,
}

/// The HTML of an inline element.
pub open spec fn inline_html(t: InlineToken) -> Seq<char>
    decreases t,
{
    match t {
        InlineToken::Text { text } => spec_html_escape(text@),
        InlineToken::Strong { tokens } => "<strong>"@ + inlines_html(tokens@) + "</strong>"@,
        InlineToken::Em { tokens } => "<em>"@ + inlines_html(tokens@) + "</em>"@,
        InlineToken::Codespan { text } => "<code>"@ + spec_html_escape(text@) + "</code>"@,
        InlineToken::Link { href, title, tokens } => match title {
            Some(title) => "<a href=\""@ + spec_html_escape(href@) + "\" title=\""@
                + spec_html_escape(title@) + "\">"@ + inlines_html(tokens@) + "</a>"@,
            None => "<a href=\""@ + spec_html_escape(href@) + "\">"@ + inlines_html(tokens@)
                + "</a>"@,
        },
        InlineToken::Other => Seq::empty(),
    }
}

/// The HTML of a run of inline elements, one after the other.
pub open spec fn inlines_html(ts: Seq<InlineToken>) -> Seq<char>
    decreases ts,
{
    if ts.len() == 0 {
        Seq::empty()
    } else {
        inlines_html(ts.drop_last()) + inline_html(ts.last())
    }
}

fn push_inline(out: &mut String, t: &InlineToken)
    ensures
        final(out)@ == old(out)@ + inline_html(*t),
    decreases t,
{
    match t {
        InlineToken::Text { text } => push_escaped(out, text.as_str()),
        InlineToken::Strong { tokens } => {
            out.append("<strong>");
            push_inlines(out, tokens);
            out.append("</strong>");
        },
        InlineToken::Em { tokens } => {
            out.append("<em>");
            push_inlines(out, tokens);
            out.append("</em>");
        },
        InlineToken::Codespan { text } => {
            out.append("<code>");
            push_escaped(out, text.as_str());
            out.append("</code>");
        },
        InlineToken::Link { href, title, tokens } => {
            out.append("<a href=\"");
            push_escaped(out, href.as_str());
            match title {
                Some(title) => {
                    out.append("\" title=\"");
                    push_escaped(out, title.as_str());
                },
                None => {},
            }
            out.append("\">");
            push_inlines(out, tokens);
            out.append("</a>");
        },
        InlineToken::Other => {},
    }
}

fn push_inlines(out: &mut String, ts: &Vec<InlineToken>)
    ensures
        final(out)@ == old(out)@ + inlines_html(ts@),
    decreases ts,
{
    let ghost start = out@;
    let n = ts.len();
    let mut i: usize = 0;
    while i < n
        invariant
            n == ts@.len(),
            i <= n,
            out@ == start + inlines_html(ts@.take(i as int)),
        decreases n - i,
    {
        proof {
            let next = ts@.take(i + 1);
            assert(next.drop_last() == ts@.take(i as int));
            assert(next.last() == ts@[i as int]);
        }
        push_inline(out, &ts[i]);
        i = i + 1;
    }
    assert(ts@.take(n as int) == ts@);
}

/// The HTML of a run of inline elements.
pub fn render_inlines(tokens: &Vec<InlineToken>) -> (r: String)
    ensures
        r@ == inlines_html(tokens@),
{
    let mut r = String::new();
    push_inlines(&mut r, tokens);
    r
}

} // verus!
verus! {

/// What a custom tag in a paragraph or heading becomes: `custom-html` its content, as it is;
/// any other tag what the plugins made of it, or, with no plugin for it, its name and its
/// escaped content.
pub open spec fn custom_output(
    tag: (Seq<char>, Map<Seq<char>, Seq<char>>, Seq<char>),
    outcome: PluginOutcome,
) -> Seq<char> {
    if tag.0 == "custom-html"@ {
        tag.2
    } else {
        match outcome {
            PluginOutcome::Output(v) => v@,
            PluginOutcome::Failed => "Plugin error"@,
            PluginOutcome::NotCallable => "could not call function"@,
            PluginOutcome::NoHandler => "custom tag["@ + tag.0 + "]: "@ + spec_html_escape(tag.2),
        }
    }
}

/// Resolves a custom tag with what the plugins made of it.
pub fn handle_custom_tag(tag: &CustomTag, outcome: &PluginOutcome) -> (r: String)
    ensures
        r@ == custom_output((tag.name@, tag.attributes@, tag.content@), *outcome),
{
    let custom_html = "custom-html".to_owned();
    if tag.name == custom_html {
        return tag.content.clone();
    }
    match outcome {
        PluginOutcome::Output(v) => v.clone(),
        PluginOutcome::Failed => "Plugin error".to_owned(),
        PluginOutcome::NotCallable => "could not call function".to_owned(),
        PluginOutcome::NoHandler => {
            let mut r = String::new();
            r.append("custom tag[");
            r.append(tag.name.as_str());
            r.append("]: ");
            push_escaped(&mut r, tag.content.as_str());
            r
        },
    }
}

/// The outcome at `pos`, or `NoHandler` past the end.
pub open spec fn outcome_at(outs: Seq<PluginOutcome>, pos: int) -> PluginOutcome {
    if 0 <= pos < outs.len() {
        outs[pos]
    } else {
        PluginOutcome::NoHandler
    }
}

/// The next position after using the outcome at `pos` (it stays at the end once there).
pub open spec fn next_pos(outs: Seq<PluginOutcome>, pos: int) -> int {
    if pos < outs.len() {
        pos + 1
    } else {
        pos
    }
}

/// No paragraph or heading, at any depth, holds text that cutting a custom tag out of would
/// slice backwards.
pub open spec fn block_safe(b: Block) -> bool
    decreases b,
{
    match b {
        Block::Paragraph { text, .. } => !custom_tag_panics(text@),
        Block::Heading { text, .. } => !custom_tag_panics(text@),
        Block::Blockquote { tokens } => blocks_safe(tokens@),
        _ => true,
    }
}

/// Every block is `block_safe`.
pub open spec fn blocks_safe(bs: Seq<Block>) -> bool
    decreases bs,
{
    if bs.len() == 0 {
        true
    } else {
        blocks_safe(bs.drop_last()) && block_safe(bs.last())
    }
}

/// `<li>` with the item's inline HTML; the items separated by line breaks.
pub open spec fn items_html(items: Seq<ListItem>) -> Seq<char>
    decreases items.len(),
{
    if items.len() == 0 {
        Seq::empty()
    } else if items.len() == 1 {
        "<li>"@ + inlines_html(items[0].tokens@) + "</li>"@
    } else {
        items_html(items.drop_last()) + "\n"@ + "<li>"@ + inlines_html(items.last().tokens@)
            + "</li>"@
    }
}

/// Each cell's escaped text between `open` and `close`.
pub open spec fn cells_html(cells: Seq<TableCell>, open: Seq<char>, close: Seq<char>) -> Seq<char>
    decreases cells.len(),
{
    if cells.len() == 0 {
        Seq::empty()
    } else {
        cells_html(cells.drop_last(), open, close) + open + spec_html_escape(cells.last().text@)
            + close
    }
}

/// Each row as `<tr>` with `<td>` cells, rows separated by line breaks.
pub open spec fn rows_html(rows: Seq<Vec<TableCell>>) -> Seq<char>
    decreases rows.len(),
{
    if rows.len() == 0 {
        Seq::empty()
    } else if rows.len() == 1 {
        "<tr>"@ + cells_html(rows[0]@, "<td>"@, "</td>"@) + "</tr>"@
    } else {
        rows_html(rows.drop_last()) + "\n"@ + "<tr>"@ + cells_html(rows.last()@, "<td>"@, "</td>"@)
            + "</tr>"@
    }
}

/// A paragraph: its custom tag resolved with the outcome at `pos`, or `<p>` with its inline
/// HTML.
pub open spec fn text_block_html(
    text: Seq<char>,
    plain: Seq<char>,
    outs: Seq<PluginOutcome>,
    pos: int,
) -> (Seq<char>, int) {
    match spec_custom_tag(text) {
        Some(tag) => (custom_output(tag, outcome_at(outs, pos)), next_pos(outs, pos)),
        None => (plain, pos),
    }
}

/// The HTML of a block, given the plugin outcomes of the custom tags in document order from
/// `pos` on, and the position after the custom tags that the block holds.
pub open spec fn block_html(b: Block, outs: Seq<PluginOutcome>, pos: int) -> (Seq<char>, int)
    decreases b,
{
    match b {
        Block::Space => ("\n"@, pos),
        Block::Paragraph { text, tokens } => text_block_html(
            text@,
            "<p>"@ + inlines_html(tokens@) + "</p>\n"@,
            outs,
            pos,
        ),
        Block::Heading { depth, text, tokens } => text_block_html(
            text@,
            "<h"@ + spec_decimal(depth as nat) + ">"@ + inlines_html(tokens@) + "</h"@
                + spec_decimal(depth as nat) + ">\n"@,
            outs,
            pos,
        ),
        Block::List { ordered, items } => {
            let tag = if ordered {
                "ol"@
            } else {
                "ul"@
            };
            ("<"@ + tag + ">\n"@ + items_html(items@) + "\n</"@ + tag + ">\n"@, pos)
        },
        Block::ListItem { tokens, .. } => ("<li>"@ + inlines_html(tokens@) + "</li>\n"@, pos),
        Block::Code { text, lang } => (
            match lang {
                Some(lang) => "<pre><code class=\"language-"@ + spec_html_escape(lang@) + "\">"@
                    + spec_html_escape(text@) + "</code></pre>\n"@,
                None => "<pre><code>"@ + spec_html_escape(text@) + "</code></pre>\n"@,
            },
            pos,
        ),
        Block::Blockquote { tokens } => {
            let (content, p) = blocks_html(tokens@, outs, pos);
            ("<blockquote>\n"@ + content + "</blockquote>\n"@, p)
        },
        Block::Hr => ("<hr />\n"@, pos),
        Block::Html { text } => (text@ + "\n"@, pos),
        Block::Table { header, rows } => (
            "<table><thead><tr>"@ + cells_html(header@, "<th>"@, "</th>"@)
                + "</tr></thead><tbody>"@ + rows_html(rows@) + "</tbody></table>\n"@,
            pos,
        ),
        Block::Other => (Seq::empty(), pos),
    }
}

/// The HTML of blocks separated by line breaks, and the position after their custom tags.
pub open spec fn blocks_html(bs: Seq<Block>, outs: Seq<PluginOutcome>, pos: int) -> (
    Seq<char>,
    int,
)
    decreases bs,
{
    if bs.len() == 0 {
        (Seq::empty(), pos)
    } else if bs.len() == 1 {
        block_html(bs[0], outs, pos)
    } else {
        let (a, p) = blocks_html(bs.drop_last(), outs, pos);
        let (b, q) = block_html(bs.last(), outs, p);
        (a + "\n"@ + b, q)
    }
}

} // verus!
verus! {

pub proof fn lemma_blocks_safe_index(bs: Seq<Block>, i: int)
    requires
        blocks_safe(bs),
        0 <= i < bs.len(),
    ensures
        block_safe(bs[i]),
    decreases bs.len(),
{
    if i < bs.len() - 1 {
        lemma_blocks_safe_index(bs.drop_last(), i);
    }
}

fn push_text_block(
    out: &mut String,
    text: &String,
    plain: &String,
    outs: &Vec<PluginOutcome>,
    pos: usize,
) -> (r: usize)
    requires
        !custom_tag_panics(text@),
        pos <= outs@.len(),
    ensures
        final(out)@ == old(out)@ + text_block_html(text@, plain@, outs@, pos as int).0,
        r == text_block_html(text@, plain@, outs@, pos as int).1,
        r <= outs@.len(),
{
    match parse_custom_tag(text.as_str()) {
        Some(tag) => {
            let h = if pos < outs.len() {
                handle_custom_tag(&tag, &outs[pos])
            } else {
                handle_custom_tag(&tag, &PluginOutcome::NoHandler)
            };
            out.append(h.as_str());
            if pos < outs.len() {
                pos + 1
            } else {
                pos
            }
        },
        None => {
            out.append(plain.as_str());
            pos
        },
    }
}

fn push_items(out: &mut String, items: &Vec<ListItem>)
    ensures
        final(out)@ == old(out)@ + items_html(items@),
{
    let ghost start = out@;
    let n = items.len();
    let mut i: usize = 0;
    while i < n
        invariant
            n == items@.len(),
            i <= n,
            out@ == start + items_html(items@.take(i as int)),
        decreases n - i,
    {
        proof {
            let next = items@.take(i + 1);
            assert(next.drop_last() == items@.take(i as int));
            assert(next.last() == items@[i as int]);
        }
        if i > 0 {
            out.append("\n");
        }
        out.append("<li>");
        push_inlines(out, &items[i].tokens);
        out.append("</li>");
        i = i + 1;
    }
    assert(items@.take(n as int) == items@);
}

fn push_cells(out: &mut String, cells: &Vec<TableCell>, open: &str, close: &str)
    ensures
        final(out)@ == old(out)@ + cells_html(cells@, open@, close@),
{
    let ghost start = out@;
    let n = cells.len();
    let mut i: usize = 0;
    while i < n
        invariant
            n == cells@.len(),
            i <= n,
            out@ == start + cells_html(cells@.take(i as int), open@, close@),
        decreases n - i,
    {
        proof {
            let next = cells@.take(i + 1);
            assert(next.drop_last() == cells@.take(i as int));
            assert(next.last() == cells@[i as int]);
        }
        out.append(open);
        push_escaped(out, cells[i].text.as_str());
        out.append(close);
        i = i + 1;
    }
    assert(cells@.take(n as int) == cells@);
}

fn push_rows(out: &mut String, rows: &Vec<Vec<TableCell>>)
    ensures
        final(out)@ == old(out)@ + rows_html(rows@),
{
    let ghost start = out@;
    let n = rows.len();
    let mut i: usize = 0;
    while i < n
        invariant
            n == rows@.len(),
            i <= n,
            out@ == start + rows_html(rows@.take(i as int)),
        decreases n - i,
    {
        proof {
            let next = rows@.take(i + 1);
            assert(next.drop_last() == rows@.take(i as int));
            assert(next.last() == rows@[i as int]);
        }
        if i > 0 {
            out.append("\n");
        }
        out.append("<tr>");
        push_cells(out, &rows[i], "<td>", "</td>");
        out.append("</tr>");
        i = i + 1;
    }
    assert(rows@.take(n as int) == rows@);
}

fn push_block(out: &mut String, b: &Block, outs: &Vec<PluginOutcome>, pos: usize) -> (r: usize)
    requires
        block_safe(*b),
        pos <= outs@.len(),
    ensures
        final(out)@ == old(out)@ + block_html(*b, outs@, pos as int).0,
        r == block_html(*b, outs@, pos as int).1,
        r <= outs@.len(),
    decreases b,
{
    match b {
        Block::Space => {
            out.append("\n");
            pos
        },
        Block::Paragraph { text, tokens } => {
            let mut plain = String::new();
            plain.append("<p>");
            push_inlines(&mut plain, tokens);
            plain.append("</p>\n");
            push_text_block(out, text, &plain, outs, pos)
        },
        Block::Heading { depth, text, tokens } => {
            let mut plain = String::new();
            plain.append("<h");
            push_digits(&mut plain, *depth as u64, 10);
            plain.append(">");
            push_inlines(&mut plain, tokens);
            plain.append("</h");
            push_digits(&mut plain, *depth as u64, 10);
            plain.append(">\n");
            push_text_block(out, text, &plain, outs, pos)
        },
        Block::List { ordered, items } => {
            let tag = if *ordered {
                "ol"
            } else {
                "ul"
            };
            out.append("<");
            out.append(tag);
            out.append(">\n");
            push_items(out, items);
            out.append("\n</");
            out.append(tag);
            out.append(">\n");
            pos
        },
        Block::ListItem { tokens, .. } => {
            out.append("<li>");
            push_inlines(out, tokens);
            out.append("</li>\n");
            pos
        },
        Block::Code { text, lang } => {
            match lang {
                Some(lang) => {
                    out.append("<pre><code class=\"language-");
                    push_escaped(out, lang.as_str());
                    out.append("\">");
                },
                None => {
                    out.append("<pre><code>");
                },
            }
            push_escaped(out, text.as_str());
            out.append("</code></pre>\n");
            proof {
                reveal_strlit("<pre><code>");
            }
            pos
        },
        Block::Blockquote { tokens } => {
            out.append("<blockquote>\n");
            let p = push_blocks(out, tokens, outs, pos);
            out.append("</blockquote>\n");
            p
        },
        Block::Hr => {
            out.append("<hr />\n");
            pos
        },
        Block::Html { text } => {
            out.append(text.as_str());
            out.append("\n");
            pos
        },
        Block::Table { header, rows } => {
            out.append("<table><thead><tr>");
            push_cells(out, header, "<th>", "</th>");
            out.append("</tr></thead><tbody>");
            push_rows(out, rows);
            out.append("</tbody></table>\n");
            pos
        },
        Block::Other => pos,
    }
}

fn push_blocks(out: &mut String, bs: &Vec<Block>, outs: &Vec<PluginOutcome>, pos: usize) -> (r:
    usize)
    requires
        blocks_safe(bs@),
        pos <= outs@.len(),
    ensures
        final(out)@ == old(out)@ + blocks_html(bs@, outs@, pos as int).0,
        r == blocks_html(bs@, outs@, pos as int).1,
        r <= outs@.len(),
    decreases bs,
{
    let ghost start = out@;
    let n = bs.len();
    let mut i: usize = 0;
    let mut p = pos;
    while i < n
        invariant
            n == bs@.len(),
            i <= n,
            blocks_safe(bs@),
            p <= outs@.len(),
            out@ == start + blocks_html(bs@.take(i as int), outs@, pos as int).0,
            p == blocks_html(bs@.take(i as int), outs@, pos as int).1,
        decreases n - i,
    {
        proof {
            let next = bs@.take(i + 1);
            assert(next.drop_last() == bs@.take(i as int));
            assert(next.last() == bs@[i as int]);
            lemma_blocks_safe_index(bs@, i as int);
            if i == 0 {
                assert(next.len() == 1 && next[0] == bs@[0]);
            }
        }
        if i > 0 {
            out.append("\n");
        }
        p = push_block(out, &bs[i], outs, p);
        i = i + 1;
    }
    assert(bs@.take(n as int) == bs@);
    p
}

} // verus!
verus! {

/// The top-level blocks of a page, one after the other, and the position after their custom
/// tags.
pub open spec fn page_blocks_html(bs: Seq<Block>, outs: Seq<PluginOutcome>) -> (Seq<char>, int)
    decreases bs.len(),
{
    if bs.len() == 0 {
        (Seq::empty(), 0)
    } else {
        let (a, p) = page_blocks_html(bs.drop_last(), outs);
        let (b, q) = block_html(bs.last(), outs, p);
        (a + b, q)
    }
}

/// A page: the style sheet inlined in the head, the blocks in the body.
pub open spec fn json_page_html(bs: Seq<Block>, style: Seq<char>, outs: Seq<PluginOutcome>) -> Seq<
    char,
> {
    "<html><head><style>"@ + style + "</style></head><body>"@ + page_blocks_html(bs, outs).0
        + "</body></html>"@
}

/// Renders blocks as a page with the style sheet `style`; `outcomes[i]` is what the plugins
/// made of the `i`-th custom tag in document order (see `json_custom_tags`); custom tags past
/// the end of `outcomes` are taken to have no plugin.
pub fn json_to_html(blocks: &Vec<Block>, style: &str, outcomes: &Vec<PluginOutcome>) -> (r:
    String)
    requires
        blocks_safe(blocks@),
    ensures
        r@ == json_page_html(blocks@, style@, outcomes@),
{
    let mut html = String::new();
    html.append("<html>");
    html.append("<head>");
    html.append("<style>");
    html.append(style);
    html.append("</style>");
    html.append("</head>");
    html.append("<body>");
    let ghost head = html@;
    let n = blocks.len();
    let mut i: usize = 0;
    let mut p: usize = 0;
    while i < n
        invariant
            n == blocks@.len(),
            i <= n,
            blocks_safe(blocks@),
            p <= outcomes@.len(),
            html@ == head + page_blocks_html(blocks@.take(i as int), outcomes@).0,
            p == page_blocks_html(blocks@.take(i as int), outcomes@).1,
        decreases n - i,
    {
        proof {
            let next = blocks@.take(i + 1);
            assert(next.drop_last() == blocks@.take(i as int));
            assert(next.last() == blocks@[i as int]);
            lemma_blocks_safe_index(blocks@, i as int);
        }
        p = push_block(&mut html, &blocks[i], outcomes, p);
        i = i + 1;
    }
    assert(blocks@.take(n as int) == blocks@);
    html.append("</body>");
    html.append("</html>");
    proof {
        reveal_strlit("<html>");
        reveal_strlit("<head>");
        reveal_strlit("<style>");
        reveal_strlit("<html><head><style>");
        reveal_strlit("</style>");
        reveal_strlit("</head>");
        reveal_strlit("<body>");
        reveal_strlit("</style></head><body>");
        reveal_strlit("</body>");
        reveal_strlit("</html>");
        reveal_strlit("</body></html>");
    }
    html
}

/// The custom tags of a block, in document order.
pub open spec fn block_tags(b: Block) -> Seq<(Seq<char>, Map<Seq<char>, Seq<char>>, Seq<char>)>
    decreases b,
{
    match b {
        Block::Paragraph { text, .. } => match spec_custom_tag(text@) {
            Some(t) => seq![t],
            None => Seq::empty(),
        },
        Block::Heading { text, .. } => match spec_custom_tag(text@) {
            Some(t) => seq![t],
            None => Seq::empty(),
        },
        Block::Blockquote { tokens } => blocks_tags(tokens@),
        _ => Seq::empty(),
    }
}

/// The custom tags of blocks, in document order.
pub open spec fn blocks_tags(bs: Seq<Block>) -> Seq<(Seq<char>, Map<Seq<char>, Seq<char>>, Seq<char>)>
    decreases bs,
{
    if bs.len() == 0 {
        Seq::empty()
    } else {
        blocks_tags(bs.drop_last()) + block_tags(bs.last())
    }
}

/// The views of parsed custom tags.
pub open spec fn tag_views(ts: Seq<CustomTag>) -> Seq<(Seq<char>, Map<Seq<char>, Seq<char>>, Seq<char>)> {
    ts.map_values(|t: CustomTag| (t.name@, t.attributes@, t.content@))
}

fn push_tag_of(acc: &mut Vec<CustomTag>, text: &String)
    requires
        !custom_tag_panics(text@),
    ensures
        tag_views(final(acc)@) == tag_views(old(acc)@) + match spec_custom_tag(text@) {
            Some(t) => seq![t],
            None => Seq::empty(),
        },
{
    let ghost before = acc@;
    match parse_custom_tag(text.as_str()) {
        Some(t) => {
            acc.push(t);
            assert(tag_views(acc@) =~= tag_views(before) + seq![tag_views(acc@).last()]);
        },
        None => {
            assert(tag_views(acc@) =~= tag_views(before) + Seq::empty());
        },
    }
}

fn collect_block_tags(acc: &mut Vec<CustomTag>, b: &Block)
    requires
        block_safe(*b),
    ensures
        tag_views(final(acc)@) == tag_views(old(acc)@) + block_tags(*b),
    decreases b,
{
    match b {
        Block::Paragraph { text, .. } => push_tag_of(acc, text),
        Block::Heading { text, .. } => push_tag_of(acc, text),
        Block::Blockquote { tokens } => collect_blocks_tags(acc, tokens),
        _ => {
            assert(tag_views(acc@) =~= tag_views(acc@) + block_tags(*b));
        },
    }
}

fn collect_blocks_tags(acc: &mut Vec<CustomTag>, bs: &Vec<Block>)
    requires
        blocks_safe(bs@),
    ensures
        tag_views(final(acc)@) == tag_views(old(acc)@) + blocks_tags(bs@),
    decreases bs,
{
    let ghost start = tag_views(acc@);
    let n = bs.len();
    let mut i: usize = 0;
    while i < n
        invariant
            n == bs@.len(),
            i <= n,
            blocks_safe(bs@),
            tag_views(acc@) == start + blocks_tags(bs@.take(i as int)),
        decreases n - i,
    {
        proof {
            let next = bs@.take(i + 1);
            assert(next.drop_last() == bs@.take(i as int));
            assert(next.last() == bs@[i as int]);
            lemma_blocks_safe_index(bs@, i as int);
        }
        collect_block_tags(acc, &bs[i]);
        i = i + 1;
    }
    assert(bs@.take(n as int) == bs@);
}

/// The custom tags of the blocks' paragraphs and headings (also inside block quotes), in
/// document order: the order in which `json_to_html` takes their plugin outcomes.
pub fn json_custom_tags(blocks: &Vec<Block>) -> (r: Vec<CustomTag>)
    requires
        blocks_safe(blocks@),
    ensures
        tag_views(r@) == blocks_tags(blocks@),
{
    let mut acc: Vec<CustomTag> = Vec::new();
    assert(tag_views(acc@) =~= Seq::empty());
    collect_blocks_tags(&mut acc, blocks);
    acc
}

fn block_is_safe(b: &Block) -> (r: bool)
    ensures
        r == block_safe(*b),
    decreases b,
{
    match b {
        Block::Paragraph { text, .. } => !crate::custom_tag::custom_tag_would_panic(text.as_str()),
        Block::Heading { text, .. } => !crate::custom_tag::custom_tag_would_panic(text.as_str()),
        Block::Blockquote { tokens } => blocks_are_safe(tokens),
        _ => true,
    }
}

fn blocks_are_safe(bs: &Vec<Block>) -> (r: bool)
    ensures
        r == blocks_safe(bs@),
    decreases bs,
{
    let n = bs.len();
    let mut i: usize = 0;
    while i < n
        invariant
            n == bs@.len(),
            i <= n,
            blocks_safe(bs@.take(i as int)),
        decreases n - i,
    {
        proof {
            let next = bs@.take(i + 1);
            assert(next.drop_last() == bs@.take(i as int));
            assert(next.last() == bs@[i as int]);
        }
        if !block_is_safe(&bs[i]) {
            proof {
                if blocks_safe(bs@) {
                    lemma_blocks_safe_prefix(bs@, i + 1);
                }
            }
            return false;
        }
        i = i + 1;
    }
    assert(bs@.take(n as int) == bs@);
    true
}

pub proof fn lemma_blocks_safe_prefix(bs: Seq<Block>, k: int)
    requires
        blocks_safe(bs),
        0 <= k <= bs.len(),
    ensures
        blocks_safe(bs.take(k)),
    decreases bs.len() - k,
{
    if k < bs.len() {
        lemma_blocks_safe_prefix(bs, k + 1);
        assert(bs.take(k + 1).drop_last() == bs.take(k));
    } else {
        assert(bs.take(k) == bs);
    }
}

/// Whether rendering the blocks would cut some custom tag backwards (see `custom_tag_panics`).
pub fn blocks_would_panic(blocks: &Vec<Block>) -> (r: bool)
    ensures
        r == !blocks_safe(blocks@),
{
    !blocks_are_safe(blocks)
}

} // verus!
verus! {

/// The smaller of two integers.
pub open spec fn min_int(a: int, b: int) -> int {
    if a <= b {
        a
    } else {
        b
    }
}

/// Rendering a block takes one plugin outcome for each of its custom tags (as far as there
/// are outcomes left).
pub proof fn lemma_block_consumes(b: Block, outs: Seq<PluginOutcome>, pos: int)
    requires
        0 <= pos <= outs.len(),
    ensures
        block_html(b, outs, pos).1 == min_int(pos + block_tags(b).len(), outs.len() as int),
    decreases b,
{
    match b {
        Block::Blockquote { tokens } => {
            lemma_blocks_consume(tokens@, outs, pos);
        },
        _ => {},
    }
}

/// Rendering blocks takes one plugin outcome for each of their custom tags (as far as there
/// are outcomes left).
pub proof fn lemma_blocks_consume(bs: Seq<Block>, outs: Seq<PluginOutcome>, pos: int)
    requires
        0 <= pos <= outs.len(),
    ensures
        blocks_html(bs, outs, pos).1 == min_int(pos + blocks_tags(bs).len(), outs.len() as int),
    decreases bs,
{
    if bs.len() == 0 {
    } else if bs.len() == 1 {
        assert(bs.drop_last().len() == 0);
        assert(blocks_tags(bs.drop_last()) == Seq::<(Seq<char>, Map<Seq<char>, Seq<char>>, Seq<char>)>::empty());
        assert(bs.last() == bs[0]);
        lemma_block_consumes(bs[0], outs, pos);
    } else {
        lemma_blocks_consume(bs.drop_last(), outs, pos);
        let p = blocks_html(bs.drop_last(), outs, pos).1;
        lemma_block_consumes(bs.last(), outs, p);
    }
}

/// A page takes one plugin outcome for each custom tag that `json_custom_tags` lists: with as
/// many outcomes as tags, all of them are used.
pub proof fn lemma_page_consumes(bs: Seq<Block>, outs: Seq<PluginOutcome>)
    ensures
        page_blocks_html(bs, outs).1 == min_int(blocks_tags(bs).len() as int, outs.len() as int),
    decreases bs.len(),
{
    if bs.len() > 0 {
        lemma_page_consumes(bs.drop_last(), outs);
        let p = page_blocks_html(bs.drop_last(), outs).1;
        lemma_block_consumes(bs.last(), outs, p);
    }
}

/// Inline elements are rendered one by one and joined with nothing between them: rendering a
/// concatenation gives the concatenation of the renderings, and no elements give no text.
pub proof fn lemma_inlines_concat(a: Seq<InlineToken>, b: Seq<InlineToken>)
    ensures
        inlines_html(a + b) == inlines_html(a) + inlines_html(b),
        inlines_html(Seq::<InlineToken>::empty()) == Seq::<char>::empty(),
    decreases b.len(),
{
    if b.len() == 0 {
        assert(a + b =~= a);
        assert(inlines_html(a) + inlines_html(b) =~= inlines_html(a));
    } else {
        lemma_inlines_concat(a, b.drop_last());
        assert((a + b).drop_last() =~= a + b.drop_last());
        assert((a + b).last() == b.last());
        assert(inlines_html(a) + inlines_html(b) =~= inlines_html(a) + inlines_html(b.drop_last())
            + inline_html(b.last()));
    }
}

/// A list block renders between `<ol>` and `</ol>` when it is ordered and between `<ul>` and
/// `</ul>` when it is not, so an ordered and an unordered list of the same items never render
/// alike.
pub proof fn lemma_list_tags(items: Vec<ListItem>, outs: Seq<PluginOutcome>, pos: int)
    ensures
        ({
            let h = block_html(Block::List { ordered: true, items }, outs, pos).0;
            h.len() >= 11 && h.subrange(0, 4) == "<ol>"@ && h.subrange(h.len() - 6, h.len() as int)
                == "</ol>\n"@
        }),
        ({
            let h = block_html(Block::List { ordered: false, items }, outs, pos).0;
            h.len() >= 11 && h.subrange(0, 4) == "<ul>"@ && h.subrange(h.len() - 6, h.len() as int)
                == "</ul>\n"@
        }),
        block_html(Block::List { ordered: true, items }, outs, pos).0 != block_html(
            Block::List { ordered: false, items },
            outs,
            pos,
        ).0,
{
    reveal_strlit("<");
    reveal_strlit("ol");
    reveal_strlit("ul");
    reveal_strlit(">\n");
    reveal_strlit("\n</");
    reveal_strlit("<ol>");
    reveal_strlit("<ul>");
    reveal_strlit("</ol>\n");
    reveal_strlit("</ul>\n");
    let h1 = block_html(Block::List { ordered: true, items }, outs, pos).0;
    let h2 = block_html(Block::List { ordered: false, items }, outs, pos).0;
    let mid = items_html(items@);
    assert(h1 =~= "<"@ + "ol"@ + ">\n"@ + mid + "\n</"@ + "ol"@ + ">\n"@);
    assert(h2 =~= "<"@ + "ul"@ + ">\n"@ + mid + "\n</"@ + "ul"@ + ">\n"@);
    assert(h1.subrange(0, 4) =~= "<ol>"@);
    assert(h1.subrange(h1.len() - 6, h1.len() as int) =~= "</ol>\n"@);
    assert(h2.subrange(0, 4) =~= "<ul>"@);
    assert(h2.subrange(h2.len() - 6, h2.len() as int) =~= "</ul>\n"@);
    assert(h1[1] != h2[1]);
}

} // verus!
