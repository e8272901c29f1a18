//! Rendering of a parsed markdown document (a tree of tokens) to HTML, and the pre-rendering
//! that folds every run of tokens without custom tags into one HTML token.
use vstd::prelude::*;
use crate::custom_tag::{
    custom_tag_panics, is_custom_tag, parse_custom_tag, spec_custom_tag, spec_is_custom_tag, CustomTag,
};
use crate::post::BlogPost;
use crate::html::{push_digits, push_escaped, spec_decimal, spec_html_escape};

verus! {

/// An item of a list.
pub struct ListItem {
    pub task: bool,
    pub checked: bool,
    pub tokens: Vec<Token>,
}

/// A cell of a table.
pub struct TableCell {
    pub tokens: Vec<Token>,
}

/// A row of a table.
pub struct TableRow {
    pub cells: Vec<TableCell>,
}

/// A markdown token: a block or an inline element, with its children.
pub enum Token {
    Paragraph { text: String, tokens: Vec<Token> },
    BlockQuote { tokens: Vec<Token> },
    Heading { depth: u8, text: String, tokens: Vec<Token> },
    List { ordered: bool, items: Vec<ListItem> },
    ListItem(ListItem),
    Space,
    Code { lang: String, text: String },
    Codespan { text: String },
    Html { text: String },
    Table { header: Vec<TableCell>, rows: Vec<TableRow> },
    Hr,
    Br,
    Text { text: String, tokens: Vec<Token> },
    Strong { tokens: Vec<Token> },
    Del { tokens: Vec<Token> },
    Em { tokens: Vec<Token> },
    Link { href: String, title: Option<String>, tokens: Vec<Token> },
    Image { href: String, title: Option<String>, tokens: Vec<Token> },
    Unknown,
}

/// A document: its top-level tokens, if it has any.
pub struct Document {
    pub tokens: Option<Vec<Token>>,
}

/// What pre-rendering a top-level token gives: its HTML, or the mark of a custom tag that is
/// resolved only when the page is served.
pub enum RenderTokenResult {
    HTML(String),
    CustomTag,
}

/// The name of a token's type, as its debug form prints it.
pub open spec fn kind_name(t: Token) -> Seq<char> {
    match t {
        Token::Paragraph { .. } => "PARAGRAPH"@,
        Token::BlockQuote { .. } => "BLOCKQUOTE"@,
        Token::Heading { .. } => "HEADING"@,
        Token::List { .. } => "LIST"@,
        Token::ListItem(_) => "LIST_ITEM"@,
        Token::Space => "SPACE"@,
        Token::Code { .. } => "CODE"@,
        Token::Codespan { .. } => "CODESPAN"@,
        Token::Html { .. } => "HTML"@,
        Token::Table { .. } => "TABLE"@,
        Token::Hr => "HR"@,
        Token::Br => "BR"@,
        Token::Text { .. } => "TEXT"@,
        Token::Strong { .. } => "STRONG"@,
        Token::Del { .. } => "DEL"@,
        Token::Em { .. } => "EM"@,
        Token::Link { .. } => "LINK"@,
        Token::Image { .. } => "IMAGE"@,
        Token::Unknown => "UNKNOWN"@,
    }
}

fn push_kind_name(out: &mut String, t: &Token)
    ensures
        final(out)@ == old(out)@ + kind_name(*t),
{
    match t {
        Token::Paragraph { .. } => out.append("PARAGRAPH"),
        Token::BlockQuote { .. } => out.append("BLOCKQUOTE"),
        Token::Heading { .. } => out.append("HEADING"),
        Token::List { .. } => out.append("LIST"),
        Token::ListItem(_) => out.append("LIST_ITEM"),
        Token::Space => out.append("SPACE"),
        Token::Code { .. } => out.append("CODE"),
        Token::Codespan { .. } => out.append("CODESPAN"),
        Token::Html { .. } => out.append("HTML"),
        Token::Table { .. } => out.append("TABLE"),
        Token::Hr => out.append("HR"),
        Token::Br => out.append("BR"),
        Token::Text { .. } => out.append("TEXT"),
        Token::Strong { .. } => out.append("STRONG"),
        Token::Del { .. } => out.append("DEL"),
        Token::Em { .. } => out.append("EM"),
        Token::Link { .. } => out.append("LINK"),
        Token::Image { .. } => out.append("IMAGE"),
        Token::Unknown => out.append("UNKNOWN"),
    }
}

/// `<pre><code class="language-LANG">TEXT</code></pre>` and a line break, both escaped.
pub open spec fn code_html(lang: Seq<char>, text: Seq<char>) -> Seq<char> {
    "<pre><code class=\"language-"@ + spec_html_escape(lang) + "\">"@ + spec_html_escape(text)
        + "</code></pre>\n"@
}

/// `<code>TEXT</code>` and a line break.
pub open spec fn codespan_html(text: Seq<char>) -> Seq<char> {
    "<code>"@ + spec_html_escape(text) + "</code>\n"@
}

/// The HTML of a token inside a run of inline tokens.
pub open spec fn inline_html(t: Token) -> Seq<char>
    decreases t,
{
    match t {
        Token::Text { text, tokens } => if tokens@.len() > 0 {
            inlines_html(tokens@)
        } else {
            spec_html_escape(text@)
        },
        Token::Strong { tokens } => "<strong>"@ + inlines_html(tokens@) + "</strong>"@,
        Token::Del { tokens } => "<del>"@ + inlines_html(tokens@) + "</del>"@,
        Token::Em { tokens } => "<em>"@ + inlines_html(tokens@) + "</em>"@,
        Token::Code { lang, text } => code_html(lang@, text@),
        Token::Codespan { text } => codespan_html(text@),
        Token::Link { href, title, tokens } => match title {
            Some(title) => "<a href=\""@ + spec_html_escape(href@) + "\" title=\""@
                + spec_html_escape(title@) + "\">"@ + inlines_html(tokens@) + "</a>"@,
            None => "<a href=\""@ + spec_html_escape(href@) + "\">"@ + inlines_html(tokens@)
                + "</a>"@,
        },
        Token::Html { text } => text@,
        Token::Image { href, title, tokens } => match title {
            Some(title) => "<img src=\""@ + spec_html_escape(href@) + "\" title=\""@
                + spec_html_escape(title@) + "\" alt=\""@ + inlines_html(tokens@) + "\"</>"@,
            None => "<img src=\""@ + spec_html_escape(href@) + "\" />"@,
        },
        Token::Unknown => "<h2>UNKNOWN</h2>"@,
        Token::Table { header, rows } => "<table><thead><tr>"@ + cells_html(
            header@,
            "<th>"@,
            "</th>"@,
        ) + "</tr></thead><tbody>"@ + rows_html(rows@) + "</tbody></table>\n"@,
        Token::List { ordered, items } => "<"@ + list_tag(ordered) + ">\n"@ + list_items_html(
            items@,
        ) + "\n</"@ + list_tag(ordered) + ">\n"@,
        Token::Hr => "<hr/>"@,
        Token::Br => "<br/>"@,
        Token::ListItem(_) => "<h1>LIST ITEM</h1>"@,
        Token::Paragraph { tokens, .. } => "<p>"@ + inlines_html(tokens@) + "</p>\n"@,
        Token::BlockQuote { tokens } => "<blockquote>"@ + inlines_html(tokens@)
            + "</blockquote>\n"@,
        _ => "TODO: "@ + kind_name(t),
    }
}

/// The HTML of a run of inline tokens: their HTML, one after the other.
pub open spec fn inlines_html(ts: Seq<Token>) -> Seq<char>
    decreases ts,
{
    if ts.len() == 0 {
        Seq::empty()
    } else {
        inlines_html(ts.drop_last()) + inline_html(ts.last())
    }
}

/// `<li>`, a checkbox for a task item, the item's inline HTML, `</li>`.
pub open spec fn list_item_html(item: ListItem) -> Seq<char>
    decreases item,
{
    let task_input = if item.task {
        "<input type=\"checkbox\" "@ + (if item.checked {
            "checked"@
        } else {
            Seq::empty()
        }) + "/>"@
    } else {
        Seq::empty()
    };
    "<li>"@ + task_input + inlines_html(item.tokens@) + "</li>"@
}

/// The items of a list, separated by line breaks.
pub open spec fn list_items_html(items: Seq<ListItem>) -> Seq<char>
    decreases items,
{
    if items.len() == 0 {
        Seq::empty()
    } else if items.len() == 1 {
        list_item_html(items[0])
    } else {
        list_items_html(items.drop_last()) + "\n"@ + list_item_html(items.last())
    }
}

/// `<ol>` or `<ul>` around the items, each tag on a line of its own.
pub open spec fn list_html(ordered: bool, items: Seq<ListItem>) -> Seq<char> {
    "<"@ + list_tag(ordered) + ">\n"@ + list_items_html(items) + "\n</"@ + list_tag(ordered)
        + ">\n"@
}

/// `ol` for an ordered list, `ul` otherwise.
pub open spec fn list_tag(ordered: bool) -> Seq<char> {
    if ordered {
        "ol"@
    } else {
        "ul"@
    }
}

/// Each cell's inline HTML between `open` and `close`.
pub open spec fn cells_html(cells: Seq<TableCell>, open: Seq<char>, close: Seq<char>) -> Seq<char>
    decreases cells,
{
    if cells.len() == 0 {
        Seq::empty()
    } else {
        cells_html(cells.drop_last(), open, close) + open + inlines_html(cells.last().tokens@)
            + close
    }
}

/// Each row as `<tr>` with `<td>` cells, rows separated by line breaks.
pub open spec fn rows_html(rows: Seq<TableRow>) -> Seq<char>
    decreases rows,
{
    if rows.len() == 0 {
        Seq::empty()
    } else if rows.len() == 1 {
        "<tr>"@ + cells_html(rows[0].cells@, "<td>"@, "</td>"@) + "</tr>"@
    } else {
        rows_html(rows.drop_last()) + "\n"@ + "<tr>"@ + cells_html(
            rows.last().cells@,
            "<td>"@,
            "</td>"@,
        ) + "</tr>"@
    }
}

/// A table: a head row of `<th>` cells and a body of rows.
pub open spec fn table_html(header: Seq<TableCell>, rows: Seq<TableRow>) -> Seq<char> {
    "<table><thead><tr>"@ + cells_html(header, "<th>"@, "</th>"@) + "</tr></thead><tbody>"@
        + rows_html(rows) + "</tbody></table>\n"@
}

} // verus!
verus! {

fn push_code(out: &mut String, lang: &String, text: &String)
    ensures
        final(out)@ == old(out)@ + code_html(lang@, text@),
{
    out.append("<pre><code class=\"language-");
    push_escaped(out, lang.as_str());
    out.append("\">");
    push_escaped(out, text.as_str());
    out.append("</code></pre>\n");
}

fn push_codespan(out: &mut String, text: &String)
    ensures
        final(out)@ == old(out)@ + codespan_html(text@),
{
    out.append("<code>");
    push_escaped(out, text.as_str());
    out.append("</code>\n");
}

fn push_inline(out: &mut String, t: &Token)
    ensures
        final(out)@ == old(out)@ + inline_html(*t),
    decreases t,
{
    let ghost start = out@;
    match t {
        Token::Text { text, tokens } => {
            if tokens.len() > 0 {
                push_inlines(out, tokens);
            } else {
                push_escaped(out, text.as_str());
            }
        },
        Token::Strong { tokens } => {
            out.append("<strong>");
            push_inlines(out, tokens);
            out.append("</strong>");
        },
        Token::Del { tokens } => {
            out.append("<del>");
            push_inlines(out, tokens);
            out.append("</del>");
        },
        Token::Em { tokens } => {
            out.append("<em>");
            push_inlines(out, tokens);
            out.append("</em>");
        },
        Token::Code { lang, text } => push_code(out, lang, text),
        Token::Codespan { text } => push_codespan(out, text),
        Token::Link { href, title, tokens } => {
            out.append("<a href=\"");
            push_escaped(out, href.as_str());
            match title {
                Some(title) => {
                    out.append("\" title=\"");
                    push_escaped(out, title.as_str());
                },
                None => {},
            }
            out.append("\">");
            push_inlines(out, tokens);
            out.append("</a>");
            proof {
                reveal_strlit("\" title=\"");
                reveal_strlit("\">");
            }
        },
        Token::Html { text } => out.append(text.as_str()),
        Token::Image { href, title, tokens } => {
            out.append("<img src=\"");
            push_escaped(out, href.as_str());
            match title {
                Some(title) => {
                    out.append("\" title=\"");
                    push_escaped(out, title.as_str());
                    out.append("\" alt=\"");
                    push_inlines(out, tokens);
                    out.append("\"</>");
                },
                None => {
                    out.append("\" />");
                },
            }
        },
        Token::Unknown => out.append("<h2>UNKNOWN</h2>"),
        Token::Table { header, rows } => {
            out.append("<table><thead><tr>");
            push_cells(out, header, "<th>", "</th>");
            out.append("</tr></thead><tbody>");
            push_rows(out, rows);
            out.append("</tbody></table>\n");
        },
        Token::List { ordered, items } => {
            let tag = if *ordered {
                "ol"
            } else {
                "ul"
            };
            out.append("<");
            out.append(tag);
            out.append(">\n");
            push_list_items(out, items);
            out.append("\n</");
            out.append(tag);
            out.append(">\n");
        },
        Token::Hr => out.append("<hr/>"),
        Token::Br => out.append("<br/>"),
        Token::ListItem(_) => out.append("<h1>LIST ITEM</h1>"),
        Token::Paragraph { tokens, .. } => {
            out.append("<p>");
            push_inlines(out, tokens);
            out.append("</p>\n");
        },
        Token::BlockQuote { tokens } => {
            out.append("<blockquote>");
            push_inlines(out, tokens);
            out.append("</blockquote>\n");
        },
        _ => {
            out.append("TODO: ");
            push_kind_name(out, t);
        },
    }
}

fn push_inlines(out: &mut String, ts: &Vec<Token>)
    ensures
        final(out)@ == old(out)@ + inlines_html(ts@),
    decreases ts,
{
    let ghost start = out@;
    let n = ts.len();
    let mut i: usize = 0;
    while i < n
        invariant
            n == ts@.len(),
            i <= n,
            out@ == start + inlines_html(ts@.take(i as int)),
        decreases n - i,
    {
        proof {
            let next = ts@.take(i + 1);
            assert(next.drop_last() == ts@.take(i as int));
            assert(next.last() == ts@[i as int]);
        }
        push_inline(out, &ts[i]);
        i = i + 1;
    }
    assert(ts@.take(n as int) == ts@);
}

fn push_list_item(out: &mut String, item: &ListItem)
    ensures
        final(out)@ == old(out)@ + list_item_html(*item),
    decreases item,
{
    out.append("<li>");
    if item.task {
        out.append("<input type=\"checkbox\" ");
        if item.checked {
            out.append("checked");
        }
        out.append("/>");
    }
    push_inlines(out, &item.tokens);
    out.append("</li>");
}

fn push_list_items(out: &mut String, items: &Vec<ListItem>)
    ensures
        final(out)@ == old(out)@ + list_items_html(items@),
    decreases items,
{
    let ghost start = out@;
    let n = items.len();
    let mut i: usize = 0;
    while i < n
        invariant
            n == items@.len(),
            i <= n,
            out@ == start + list_items_html(items@.take(i as int)),
        decreases n - i,
    {
        proof {
            let next = items@.take(i + 1);
            assert(next.drop_last() == items@.take(i as int));
            assert(next.last() == items@[i as int]);
        }
        if i > 0 {
            out.append("\n");
        }
        push_list_item(out, &items[i]);
        i = i + 1;
    }
    assert(items@.take(n as int) == items@);
}

fn push_list(out: &mut String, ordered: bool, items: &Vec<ListItem>)
    ensures
        final(out)@ == old(out)@ + "<"@ + list_tag(ordered) + ">\n"@ + list_items_html(items@)
            + "\n</"@ + list_tag(ordered) + ">\n"@,
{
    let tag = if ordered {
        "ol"
    } else {
        "ul"
    };
    out.append("<");
    out.append(tag);
    out.append(">\n");
    push_list_items(out, items);
    out.append("\n</");
    out.append(tag);
    out.append(">\n");
}

fn push_cells(out: &mut String, cells: &Vec<TableCell>, open: &str, close: &str)
    ensures
        final(out)@ == old(out)@ + cells_html(cells@, open@, close@),
    decreases cells,
{
    let ghost start = out@;
    let n = cells.len();
    let mut i: usize = 0;
    while i < n
        invariant
            n == cells@.len(),
            i <= n,
            out@ == start + cells_html(cells@.take(i as int), open@, close@),
        decreases n - i,
    {
        proof {
            let next = cells@.take(i + 1);
            assert(next.drop_last() == cells@.take(i as int));
            assert(next.last() == cells@[i as int]);
        }
        out.append(open);
        push_inlines(out, &cells[i].tokens);
        out.append(close);
        i = i + 1;
    }
    assert(cells@.take(n as int) == cells@);
}

fn push_rows(out: &mut String, rows: &Vec<TableRow>)
    ensures
        final(out)@ == old(out)@ + rows_html(rows@),
    decreases rows,
{
    let ghost start = out@;
    let n = rows.len();
    let mut i: usize = 0;
    while i < n
        invariant
            n == rows@.len(),
            i <= n,
            out@ == start + rows_html(rows@.take(i as int)),
        decreases n - i,
    {
        proof {
            let next = rows@.take(i + 1);
            assert(next.drop_last() == rows@.take(i as int));
            assert(next.last() == rows@[i as int]);
        }
        if i > 0 {
            out.append("\n");
        }
        out.append("<tr>");
        push_cells(out, &rows[i].cells, "<td>", "</td>");
        out.append("</tr>");
        i = i + 1;
    }
    assert(rows@.take(n as int) == rows@);
}

fn push_table(out: &mut String, header: &Vec<TableCell>, rows: &Vec<TableRow>)
    ensures
        final(out)@ == old(out)@ + "<table><thead><tr>"@ + cells_html(header@, "<th>"@, "</th>"@)
            + "</tr></thead><tbody>"@ + rows_html(rows@) + "</tbody></table>\n"@,
{
    out.append("<table><thead><tr>");
    push_cells(out, header, "<th>", "</th>");
    out.append("</tr></thead><tbody>");
    push_rows(out, rows);
    out.append("</tbody></table>\n");
}

} // verus!
verus! {

/// The HTML of a top-level token when no custom tag is involved.
pub open spec fn block_html(t: Token) -> Seq<char> {
    match t {
        Token::Paragraph { tokens, .. } => "<p>"@ + inlines_html(tokens@) + "</p>\n"@,
        Token::BlockQuote { tokens } => "<blockquote>"@ + inlines_html(tokens@)
            + "</blockquote>\n"@,
        Token::Heading { depth, tokens, .. } => "<h"@ + spec_decimal(depth as nat) + ">"@
            + inlines_html(tokens@) + "</h"@ + spec_decimal(depth as nat) + ">\n"@,
        Token::List { ordered, items } => list_html(ordered, items@),
        Token::Space => "\n"@,
        Token::Code { lang, text } => code_html(lang@, text@),
        Token::Codespan { text } => codespan_html(text@),
        Token::Html { text } => text@,
        Token::Table { header, rows } => table_html(header@, rows@),
        Token::Hr => "<hr/>"@,
        Token::Br => "<br/>"@,
        _ => "<pre>TODO N/A****: "@ + kind_name(t) + "</pre>"@,
    }
}

/// A paragraph whose trimmed text holds both `[[` and `]]`.
pub open spec fn is_custom_paragraph(t: Token) -> bool {
    t matches Token::Paragraph { text, .. } && spec_is_custom_tag(text@)
}

fn push_block(out: &mut String, t: &Token)
    ensures
        final(out)@ == old(out)@ + block_html(*t),
{
    match t {
        Token::Paragraph { tokens, .. } => {
            out.append("<p>");
            push_inlines(out, tokens);
            out.append("</p>\n");
        },
        Token::BlockQuote { tokens } => {
            out.append("<blockquote>");
            push_inlines(out, tokens);
            out.append("</blockquote>\n");
        },
        Token::Heading { depth, tokens, .. } => {
            out.append("<h");
            push_digits(out, *depth as u64, 10);
            out.append(">");
            push_inlines(out, tokens);
            out.append("</h");
            push_digits(out, *depth as u64, 10);
            out.append(">\n");
        },
        Token::List { ordered, items } => push_list(out, *ordered, items),
        Token::Space => out.append("\n"),
        Token::Code { lang, text } => push_code(out, lang, text),
        Token::Codespan { text } => push_codespan(out, text),
        Token::Html { text } => out.append(text.as_str()),
        Token::Table { header, rows } => push_table(out, header, rows),
        Token::Hr => out.append("<hr/>"),
        Token::Br => out.append("<br/>"),
        _ => {
            out.append("<pre>TODO N/A****: ");
            push_kind_name(out, t);
            out.append("</pre>");
        },
    }
}

/// The HTML of a run of inline tokens.
pub fn render_inlines(tokens: &Vec<Token>) -> (r: String)
    ensures
        r@ == inlines_html(tokens@),
{
    let mut r = String::new();
    push_inlines(&mut r, tokens);
    r
}

/// The HTML of a list item: `<li>`, a checkbox for a task item, its inline HTML, `</li>`.
pub fn render_list_item(item: &ListItem) -> (r: String)
    ensures
        r@ == list_item_html(*item),
{
    let mut r = String::new();
    push_list_item(&mut r, item);
    r
}

/// Pre-renders a top-level token: a paragraph that looks like a custom tag is marked as one,
/// every other token becomes its HTML.
pub fn pre_render_token(token: &Token) -> (r: RenderTokenResult)
    ensures
        match r {
            RenderTokenResult::CustomTag => is_custom_paragraph(*token),
            RenderTokenResult::HTML(h) => !is_custom_paragraph(*token) && h@ == block_html(*token),
        },
{
    if let Token::Paragraph { text, .. } = token {
        if is_custom_tag(text.as_str()) {
            return RenderTokenResult::CustomTag;
        }
    }
    let mut h = String::new();
    push_block(&mut h, token);
    RenderTokenResult::HTML(h)
}

/// The view of an optional string.
pub open spec fn opt_view(o: Option<String>) -> Option<Seq<char>> {
    match o {
        Some(s) => Some(s@),
        None => None,
    }
}

/// The HTML of a top-level token on a served page: a paragraph with a resolved custom tag
/// becomes what the tag resolved to, every other token its HTML.
pub open spec fn token_page_html(t: Token, custom: Option<Seq<char>>) -> Seq<char> {
    if t is Paragraph && custom is Some {
        custom->0
    } else {
        block_html(t)
    }
}

/// Renders a top-level token on a served page; `custom` is what the paragraph's custom tag
/// resolved to, if it has one.
pub fn render_token(token: &Token, custom: &Option<String>) -> (r: String)
    ensures
        r@ == token_page_html(*token, opt_view(*custom)),
{
    if let Token::Paragraph { .. } = token {
        if let Some(c) = custom {
            return c.clone();
        }
    }
    let mut h = String::new();
    push_block(&mut h, token);
    h
}

/// The link to the style sheet in the head of each page.
pub open spec fn style_html() -> Seq<char> {
    "<link rel=\"stylesheet\" href=\"/assets/milligram.min.css\">"@
}

/// The resolved custom tag of the `i`-th token, if one was given.
pub open spec fn custom_at(customs: Seq<Option<String>>, i: int) -> Option<Seq<char>> {
    if 0 <= i < customs.len() {
        opt_view(customs[i])
    } else {
        None
    }
}

/// The HTML of the top-level tokens of a served page, one after the other.
pub open spec fn tokens_page_html(ts: Seq<Token>, customs: Seq<Option<String>>) -> Seq<char>
    decreases ts.len(),
{
    if ts.len() == 0 {
        Seq::empty()
    } else {
        tokens_page_html(ts.drop_last(), customs) + token_page_html(
            ts.last(),
            custom_at(customs, ts.len() - 1),
        )
    }
}

/// The tokens of a document (none when it has none).
pub open spec fn doc_tokens(doc: Document) -> Seq<Token> {
    match doc.tokens {
        Some(ts) => ts@,
        None => Seq::empty(),
    }
}

/// A served page: a head with the escaped title and the style sheet, and a body with the
/// document's tokens.
pub open spec fn page_html(title: Seq<char>, doc: Document, customs: Seq<Option<String>>) -> Seq<
    char,
> {
    "<html><head><meta charset=\"utf-8\"/><title>"@ + spec_html_escape(title) + "</title>"@
        + style_html() + "</head><body>"@ + tokens_page_html(doc_tokens(doc), customs)
        + "</body></html>"@
}

/// Renders a document as a page; `customs[i]` is what the custom tag of the `i`-th top-level
/// token resolved to, if it has one.
pub fn flatbuffers_to_html(title: &str, doc: &Document, customs: &Vec<Option<String>>) -> (r:
    String)
    ensures
        r@ == page_html(title@, *doc, customs@),
{
    let mut html = String::new();
    html.append("<html>");
    html.append("<head>");
    html.append("<meta charset=\"utf-8\"/>");
    html.append("<title>");
    push_escaped(&mut html, title);
    html.append("</title>");
    html.append("<link rel=\"stylesheet\" href=\"/assets/milligram.min.css\">");
    html.append("</head>");
    html.append("<body>");
    let ghost head = html@;
    if let Some(tokens) = &doc.tokens {
        let n = tokens.len();
        let mut i: usize = 0;
        while i < n
            invariant
                n == tokens@.len(),
                i <= n,
                html@ == head + tokens_page_html(tokens@.take(i as int), customs@),
            decreases n - i,
        {
            proof {
                let next = tokens@.take(i + 1);
                assert(next.drop_last() == tokens@.take(i as int));
                assert(next.last() == tokens@[i as int]);
            }
            let custom = if i < customs.len() {
                &customs[i]
            } else {
                &None
            };
            let h = render_token(&tokens[i], custom);
            html.append(h.as_str());
            i = i + 1;
        }
        assert(tokens@.take(n as int) == tokens@);
    }
    html.append("</body>");
    html.append("</html>");
    proof {
        reveal_strlit("<html>");
        reveal_strlit("<head>");
        reveal_strlit("<meta charset=\"utf-8\"/>");
        reveal_strlit("<title>");
        reveal_strlit("<html><head><meta charset=\"utf-8\"/><title>");
        reveal_strlit("</head>");
        reveal_strlit("<body>");
        reveal_strlit("</head><body>");
        reveal_strlit("</body>");
        reveal_strlit("</html>");
        reveal_strlit("</body></html>");
    }
    html
}

} // verus!
verus! {

/// Pre-rendering, token by token: the output so far, as `(is_custom_tag, text)` pairs
/// (a custom-tag paragraph with its text, or an HTML token with its HTML), and the HTML not
/// yet put out.
pub open spec fn prerender_state(ts: Seq<Token>) -> (Seq<(bool, Seq<char>)>, Seq<char>)
    decreases ts.len(),
{
    if ts.len() == 0 {
        (Seq::empty(), Seq::empty())
    } else {
        let (out, curr) = prerender_state(ts.drop_last());
        let t = ts.last();
        if is_custom_paragraph(t) {
            (out.push((true, t->Paragraph_text@)).push((false, curr)), Seq::empty())
        } else {
            (out, curr + block_html(t))
        }
    }
}

/// The tokens of a pre-rendered document: each custom-tag paragraph is put out followed by
/// one HTML token with everything rendered since the previous custom tag; what is left at
/// the end, if anything, becomes a last HTML token.
pub open spec fn spec_prerender(ts: Seq<Token>) -> Seq<(bool, Seq<char>)> {
    let (out, curr) = prerender_state(ts);
    if curr.len() > 0 {
        out.push((false, curr))
    } else {
        out
    }
}

/// `t` is the token that `p` describes: a paragraph with text and no inline tokens, or an
/// HTML token.
pub open spec fn prerendered_as(t: Token, p: (bool, Seq<char>)) -> bool {
    if p.0 {
        t matches Token::Paragraph { text, tokens } && text@ == p.1 && tokens@.len() == 0
    } else {
        t matches Token::Html { text } && text@ == p.1
    }
}

/// The tokens `out` are those that `spec` describes, in order.
pub open spec fn prerendered_tokens(out: Seq<Token>, spec: Seq<(bool, Seq<char>)>) -> bool {
    out.len() == spec.len() && forall|i: int| 0 <= i < out.len() ==> prerendered_as(#[trigger] out[i], spec[i])
}

fn html_token(h: String) -> (t: Token)
    ensures
        prerendered_as(t, (false, h@)),
{
    Token::Html { text: h }
}

/// Pre-renders a document: renders everything but the custom tags once, so that serving a page
/// only has to resolve the custom tags.
pub fn flatbuffers_prerender(doc: &Document) -> (r: Document)
    ensures
        r.tokens is Some,
        prerendered_tokens(r.tokens->0@, spec_prerender(doc_tokens(*doc))),
{
    let mut out: Vec<Token> = Vec::new();
    let mut curr = String::new();
    let ghost ts = doc_tokens(*doc);
    if let Some(tokens) = &doc.tokens {
        let n = tokens.len();
        let mut i: usize = 0;
        while i < n
            invariant
                n == tokens@.len(),
                ts == tokens@,
                i <= n,
                prerendered_tokens(out@, prerender_state(ts.take(i as int)).0),
                curr@ == prerender_state(ts.take(i as int)).1,
            decreases n - i,
        {
            proof {
                let next = ts.take(i + 1);
                assert(next.drop_last() == ts.take(i as int));
                assert(next.last() == ts[i as int]);
            }
            let ghost out0 = out@;
            match pre_render_token(&tokens[i]) {
                RenderTokenResult::HTML(h) => {
                    curr.append(h.as_str());
                },
                RenderTokenResult::CustomTag => {
                    let text = match &tokens[i] {
                        Token::Paragraph { text, .. } => text.clone(),
                        _ => String::new(),
                    };
                    out.push(Token::Paragraph { text, tokens: Vec::new() });
                    let mut h = String::new();
                    std::mem::swap(&mut h, &mut curr);
                    out.push(html_token(h));
                    proof {
                        let st = prerender_state(ts.take(i as int)).0;
                        let st2 = prerender_state(ts.take(i + 1)).0;
                        assert forall|j: int| 0 <= j < out@.len() implies prerendered_as(
                            #[trigger] out@[j],
                            st2[j],
                        ) by {
                            if j < out0.len() {
                                assert(out@[j] == out0[j]);
                            }
                        }
                    }
                },
            }
            i = i + 1;
        }
        assert(ts.take(n as int) == ts);
    } else {
        assert(ts == Seq::<Token>::empty());
    }
    if !curr.as_str().is_empty() {
        let ghost out0 = out@;
        let ghost st = prerender_state(ts);
        out.push(html_token(curr));
        proof {
            assert forall|j: int| 0 <= j < out@.len() implies prerendered_as(
                #[trigger] out@[j],
                spec_prerender(ts)[j],
            ) by {
                if j < out0.len() {
                    assert(out@[j] == out0[j]);
                }
            }
        }
    }
    Document { tokens: Some(out) }
}

} // verus!
verus! {

/// The custom tag of a top-level token: only a paragraph can hold one.
pub fn custom_tag_request(token: &Token) -> (r: Option<CustomTag>)
    requires
        token matches Token::Paragraph { text, .. } ==> !custom_tag_panics(text@),
    ensures
        match r {
            Some(tag) => token matches Token::Paragraph { text, .. } && spec_custom_tag(text@)
                == Some((tag.name@, tag.attributes@, tag.content@)),
            None => token matches Token::Paragraph { text, .. } ==> spec_custom_tag(text@) is None,
        },
{
    match token {
        Token::Paragraph { text, .. } => parse_custom_tag(text.as_str()),
        _ => None,
    }
}

/// What serving a page does with a custom tag.
pub enum CustomTagAction {
    /// `custom-html`: the tag stands for its content, as it is.
    Content(String),
    /// `posts`: the tag stands for a list of the stored posts.
    RecentPosts,
    /// Any other tag is handed to the plugin registered for its name.
    Plugin,
}

/// What a custom tag is resolved by: `custom-html` by its content, `posts` by the list of
/// posts, any other name by a plugin.
pub fn custom_tag_action(tag: &CustomTag) -> (r: CustomTagAction)
    ensures
        match r {
            CustomTagAction::Content(c) => tag.name@ == "custom-html"@ && c@ == tag.content@,
            CustomTagAction::RecentPosts => tag.name@ != "custom-html"@ && tag.name@ == "posts"@,
            CustomTagAction::Plugin => tag.name@ != "custom-html"@ && tag.name@ != "posts"@,
        },
{
    let custom_html = "custom-html".to_owned();
    let posts = "posts".to_owned();
    if tag.name == custom_html {
        CustomTagAction::Content(tag.content.clone())
    } else if tag.name == posts {
        CustomTagAction::RecentPosts
    } else {
        CustomTagAction::Plugin
    }
}

/// One post in the list of recent posts: a link to its slug with its title and date, escaped.
pub open spec fn post_line(p: BlogPost) -> Seq<char> {
    "<li><a href='/"@ + spec_html_escape(p.slug@) + "'> "@ + spec_html_escape(p.title@) + " | "@
        + spec_html_escape(p.created_at@) + " </a></li>"@
}

/// The lines of the posts that have a slug, in order.
pub open spec fn post_lines(ps: Seq<BlogPost>) -> Seq<char>
    decreases ps.len(),
{
    if ps.len() == 0 {
        Seq::empty()
    } else if ps.last().slug@.len() == 0 {
        post_lines(ps.drop_last())
    } else {
        post_lines(ps.drop_last()) + post_line(ps.last())
    }
}

/// The list of recent posts, or the error that reading them gave.
pub open spec fn recent_posts_spec(posts: Result<Vec<BlogPost>, String>) -> Seq<char> {
    "<h1>Recent Posts</h1><ul>"@ + match posts {
        Ok(ps) => post_lines(ps@),
        Err(e) => "Error getting posts: "@ + e@,
    } + "</ul>"@
}

/// What a `posts` tag resolves to, given the stored posts (or the error reading them gave).
pub fn recent_posts_html(posts: &Result<Vec<BlogPost>, String>) -> (r: String)
    ensures
        r@ == recent_posts_spec(*posts),
{
    let mut r = String::new();
    r.append("<h1>Recent Posts</h1>");
    r.append("<ul>");
    let ghost head = r@;
    match posts {
        Ok(ps) => {
            let n = ps.len();
            let mut i: usize = 0;
            while i < n
                invariant
                    n == ps@.len(),
                    i <= n,
                    r@ == head + post_lines(ps@.take(i as int)),
                decreases n - i,
            {
                proof {
                    let next = ps@.take(i + 1);
                    assert(next.drop_last() == ps@.take(i as int));
                    assert(next.last() == ps@[i as int]);
                }
                let p = &ps[i];
                if !p.slug.as_str().is_empty() {
                    r.append("<li><a href='/");
                    push_escaped(&mut r, p.slug.as_str());
                    r.append("'> ");
                    push_escaped(&mut r, p.title.as_str());
                    r.append(" | ");
                    push_escaped(&mut r, p.created_at.as_str());
                    r.append(" </a></li>");
                }
                i = i + 1;
            }
            assert(ps@.take(n as int) == ps@);
        },
        Err(e) => {
            r.append("Error getting posts: ");
            r.append(e.as_str());
        },
    }
    r.append("</ul>");
    proof {
        reveal_strlit("<h1>Recent Posts</h1>");
        reveal_strlit("<ul>");
        reveal_strlit("<h1>Recent Posts</h1><ul>");
    }
    r
}

/// What a tag handed to a plugin resolves to: the plugin's output, or `plugin error ` and the
/// error's message.
pub fn plugin_result_html(result: &Result<String, String>) -> (r: String)
    ensures
        r@ == match *result {
            Ok(s) => s@,
            Err(e) => "plugin error "@ + e@,
        },
{
    match result {
        Ok(s) => s.clone(),
        Err(e) => {
            let mut r = String::new();
            r.append("plugin error ");
            r.append(e.as_str());
            r
        },
    }
}

} // verus!
verus! {

proof fn lemma_prerender_state_plain(ts: Seq<Token>)
    requires
        forall|i: int| 0 <= i < ts.len() ==> !is_custom_paragraph(#[trigger] ts[i]),
    ensures
        prerender_state(ts).0 == Seq::<(bool, Seq<char>)>::empty(),
        prerender_state(ts).1 == tokens_page_html(ts, Seq::empty()),
    decreases ts.len(),
{
    if ts.len() > 0 {
        let init = ts.drop_last();
        assert forall|i: int| 0 <= i < init.len() implies !is_custom_paragraph(#[trigger] init[i]) by {
            assert(init[i] == ts[i]);
        }
        lemma_prerender_state_plain(init);
        assert(!is_custom_paragraph(ts[ts.len() - 1]));
        assert(custom_at(Seq::empty(), ts.len() - 1) is None);
    }
}

/// Pre-rendering does not change a page without custom tags: serving the pre-rendered
/// document gives the page that the document itself gives.
pub proof fn lemma_prerender_preserves_page(title: Seq<char>, doc: Document, pre: Document)
    requires
        forall|i: int| 0 <= i < doc_tokens(doc).len() ==> !is_custom_paragraph(
            #[trigger] doc_tokens(doc)[i],
        ),
        pre.tokens is Some,
        prerendered_tokens(pre.tokens->0@, spec_prerender(doc_tokens(doc))),
    ensures
        page_html(title, pre, Seq::empty()) == page_html(title, doc, Seq::empty()),
{
    let ts = doc_tokens(doc);
    lemma_prerender_state_plain(ts);
    let curr = prerender_state(ts).1;
    let out = pre.tokens->0@;
    if curr.len() > 0 {
        assert(out.len() == 1);
        assert(prerendered_as(out[0], (false, curr)));
        assert(out.drop_last() =~= Seq::<Token>::empty());
        assert(tokens_page_html(out.drop_last(), Seq::empty()) == Seq::<char>::empty());
        assert(tokens_page_html(out, Seq::empty()) =~= curr);
    } else {
        assert(out.len() == 0);
        assert(curr =~= Seq::<char>::empty());
    }
}


/// The texts of the custom-tag paragraphs among `ts`, in order.
pub open spec fn custom_texts(ts: Seq<Token>) -> Seq<Seq<char>>
    decreases ts.len(),
{
    if ts.len() == 0 {
        Seq::empty()
    } else if is_custom_paragraph(ts.last()) {
        custom_texts(ts.drop_last()).push(ts.last()->Paragraph_text@)
    } else {
        custom_texts(ts.drop_last())
    }
}

/// The HTML of the tokens among `ts` that are not custom-tag paragraphs, one after the other.
pub open spec fn static_html(ts: Seq<Token>) -> Seq<char>
    decreases ts.len(),
{
    if ts.len() == 0 {
        Seq::empty()
    } else if is_custom_paragraph(ts.last()) {
        static_html(ts.drop_last())
    } else {
        static_html(ts.drop_last()) + block_html(ts.last())
    }
}

/// The texts of the custom tags that a pre-rendered document describes, in order.
pub open spec fn marked_texts(p: Seq<(bool, Seq<char>)>) -> Seq<Seq<char>>
    decreases p.len(),
{
    if p.len() == 0 {
        Seq::empty()
    } else if p.last().0 {
        marked_texts(p.drop_last()).push(p.last().1)
    } else {
        marked_texts(p.drop_last())
    }
}

/// The HTML tokens that a pre-rendered document describes, one after the other.
pub open spec fn unmarked_html(p: Seq<(bool, Seq<char>)>) -> Seq<char>
    decreases p.len(),
{
    if p.len() == 0 {
        Seq::empty()
    } else if p.last().0 {
        unmarked_html(p.drop_last())
    } else {
        unmarked_html(p.drop_last()) + p.last().1
    }
}

proof fn lemma_prerender_state_keeps(ts: Seq<Token>)
    ensures
        marked_texts(prerender_state(ts).0) == custom_texts(ts),
        unmarked_html(prerender_state(ts).0) + prerender_state(ts).1 == static_html(ts),
    decreases ts.len(),
{
    if ts.len() > 0 {
        let init = ts.drop_last();
        lemma_prerender_state_keeps(init);
        let (out, curr) = prerender_state(init);
        let t = ts.last();
        if is_custom_paragraph(t) {
            let a = out.push((true, t->Paragraph_text@));
            let b = a.push((false, curr));
            assert(a.drop_last() =~= out);
            assert(b.drop_last() =~= a);
            assert(prerender_state(ts) == (b, Seq::<char>::empty()));
            assert(marked_texts(b) == marked_texts(a));
            assert(marked_texts(a) == marked_texts(out).push(t->Paragraph_text@));
            assert(unmarked_html(a) == unmarked_html(out));
            assert(unmarked_html(b) == unmarked_html(out) + curr);
            assert(unmarked_html(b) + Seq::<char>::empty() =~= unmarked_html(b));
        } else {
            assert(prerender_state(ts) == (out, curr + block_html(t)));
            assert(unmarked_html(out) + (curr + block_html(t)) =~= (unmarked_html(out) + curr)
                + block_html(t));
        }
    } else {
        assert(unmarked_html(prerender_state(ts).0) + prerender_state(ts).1 =~= Seq::<char>::empty());
    }
}

/// Pre-rendering keeps every custom tag and all the HTML of the other tokens, each in order:
/// it only gathers the HTML between custom tags into single tokens.
pub proof fn lemma_prerender_keeps_content(ts: Seq<Token>)
    ensures
        marked_texts(spec_prerender(ts)) == custom_texts(ts),
        unmarked_html(spec_prerender(ts)) == static_html(ts),
{
    lemma_prerender_state_keeps(ts);
    let (out, curr) = prerender_state(ts);
    if curr.len() > 0 {
        let p = out.push((false, curr));
        assert(p.drop_last() =~= out);
    } else {
        assert(curr =~= Seq::<char>::empty());
        assert(unmarked_html(out) + curr =~= unmarked_html(out));
    }
}

/// Inline elements are rendered one by one and joined with nothing between them: rendering a
/// concatenation gives the concatenation of the renderings, and no elements give no text.
pub proof fn lemma_inlines_concat(a: Seq<Token>, b: Seq<Token>)
    ensures
        inlines_html(a + b) == inlines_html(a) + inlines_html(b),
        inlines_html(Seq::<Token>::empty()) == Seq::<char>::empty(),
    decreases b.len(),
{
    if b.len() == 0 {
        assert(a + b =~= a);
        assert(inlines_html(a) + inlines_html(b) =~= inlines_html(a));
    } else {
        lemma_inlines_concat(a, b.drop_last());
        assert((a + b).drop_last() =~= a + b.drop_last());
        assert((a + b).last() == b.last());
        assert(inlines_html(a) + inlines_html(b) =~= inlines_html(a) + inlines_html(b.drop_last())
            + inline_html(b.last()));
    }
}

/// The texts of the HTML tokens among `ts`, one after the other.
pub open spec fn html_token_texts(ts: Seq<Token>) -> Seq<char>
    decreases ts.len(),
{
    if ts.len() == 0 {
        Seq::empty()
    } else {
        match ts.last() {
            Token::Html { text } => html_token_texts(ts.drop_last()) + text@,
            _ => html_token_texts(ts.drop_last()),
        }
    }
}

/// The texts of the paragraphs among `ts`, in order.
pub open spec fn paragraph_texts(ts: Seq<Token>) -> Seq<Seq<char>>
    decreases ts.len(),
{
    if ts.len() == 0 {
        Seq::empty()
    } else {
        match ts.last() {
            Token::Paragraph { text, .. } => paragraph_texts(ts.drop_last()).push(text@),
            _ => paragraph_texts(ts.drop_last()),
        }
    }
}

proof fn lemma_prerendered_texts(out: Seq<Token>, p: Seq<(bool, Seq<char>)>)
    requires
        prerendered_tokens(out, p),
    ensures
        html_token_texts(out) == unmarked_html(p),
        paragraph_texts(out) == marked_texts(p),
    decreases out.len(),
{
    if out.len() > 0 {
        let n = out.len() - 1;
        assert forall|i: int| 0 <= i < out.drop_last().len() implies prerendered_as(
            #[trigger] out.drop_last()[i],
            p.drop_last()[i],
        ) by {
            assert(prerendered_as(out[i], p[i]));
        }
        lemma_prerendered_texts(out.drop_last(), p.drop_last());
        assert(prerendered_as(out[n], p[n]));
    }
}

/// The tokens that pre-rendering a document gives are paragraphs and HTML tokens only; the
/// paragraphs are the document's custom tags, in order, and the HTML tokens hold, in order, the
/// HTML of all its other tokens.
pub proof fn lemma_prerender_output(doc: Document, pre: Document)
    requires
        pre.tokens is Some,
        prerendered_tokens(pre.tokens->0@, spec_prerender(doc_tokens(doc))),
    ensures
        forall|i: int|
            0 <= i < pre.tokens->0@.len() ==> (#[trigger] pre.tokens->0@[i] is Paragraph
                || pre.tokens->0@[i] is Html),
        paragraph_texts(pre.tokens->0@) == custom_texts(doc_tokens(doc)),
        html_token_texts(pre.tokens->0@) == static_html(doc_tokens(doc)),
{
    let out = pre.tokens->0@;
    let p = spec_prerender(doc_tokens(doc));
    assert forall|i: int| 0 <= i < out.len() implies (#[trigger] out[i] is Paragraph || out[i] is Html) by {
        assert(prerendered_as(out[i], p[i]));
    }
    lemma_prerendered_texts(out, p);
    lemma_prerender_keeps_content(doc_tokens(doc));
}

/// A list renders between `<ol>` and `</ol>` when it is ordered and between `<ul>` and `</ul>`
/// when it is not, as a block and inside inline content alike, so an ordered and an unordered
/// list of the same items never render alike.
pub proof fn lemma_list_tags(items: Vec<ListItem>)
    ensures
        ({
            let h = block_html(Token::List { ordered: true, items });
            h.len() >= 11 && h.subrange(0, 4) == "<ol>"@ && h.subrange(h.len() - 6, h.len() as int)
                == "</ol>\n"@ && inline_html(Token::List { ordered: true, items }) == h
        }),
        ({
            let h = block_html(Token::List { ordered: false, items });
            h.len() >= 11 && h.subrange(0, 4) == "<ul>"@ && h.subrange(h.len() - 6, h.len() as int)
                == "</ul>\n"@ && inline_html(Token::List { ordered: false, items }) == h
        }),
        block_html(Token::List { ordered: true, items }) != block_html(
            Token::List { ordered: false, items },
        ),
{
    reveal_strlit("<");
    reveal_strlit("ol");
    reveal_strlit("ul");
    reveal_strlit(">\n");
    reveal_strlit("\n</");
    reveal_strlit("<ol>");
    reveal_strlit("<ul>");
    reveal_strlit("</ol>\n");
    reveal_strlit("</ul>\n");
    let h1 = block_html(Token::List { ordered: true, items });
    let h2 = block_html(Token::List { ordered: false, items });
    let mid = list_items_html(items@);
    assert(h1 =~= "<"@ + "ol"@ + ">\n"@ + mid + "\n</"@ + "ol"@ + ">\n"@);
    assert(h2 =~= "<"@ + "ul"@ + ">\n"@ + mid + "\n</"@ + "ul"@ + ">\n"@);
    assert(h1.subrange(0, 4) =~= "<ol>"@);
    assert(h1.subrange(h1.len() - 6, h1.len() as int) =~= "</ol>\n"@);
    assert(h2.subrange(0, 4) =~= "<ul>"@);
    assert(h2.subrange(h2.len() - 6, h2.len() as int) =~= "</ul>\n"@);
    assert(h1[1] != h2[1]);
}

/// On a served page, the `i`-th top-level token shows what its own custom tag resolved to,
/// `customs[i]`, when it is a paragraph with a resolved tag, and its own HTML otherwise: the
/// page is the tokens' pieces one after the other, each piece depending on its token and its
/// own entry of `customs` only.
pub proof fn lemma_page_piece(ts: Seq<Token>, customs: Seq<Option<String>>, i: int)
    requires
        0 <= i < ts.len(),
    ensures
        tokens_page_html(ts.take(i + 1), customs) == tokens_page_html(ts.take(i), customs) + (if i
            < customs.len() && ts[i] is Paragraph && customs[i] is Some {
            customs[i]->0@
        } else {
            block_html(ts[i])
        }),
{
    let t = ts.take(i + 1);
    assert(t.drop_last() =~= ts.take(i));
    assert(t.last() == ts[i]);
    assert(t.len() - 1 == i);
}

} // verus!
