//! The logic of the bundled plugins: a table of contents, a random value, and a footer that
//! echoes its tag.
use vstd::prelude::*;
use vstd::wrapping::u32_specs;
use crate::html::{push_digits, spec_decimal};
use crate::render_flatbuffers::{doc_tokens, Document, Token};

verus! {

/// The text of a first-level heading, if `t` is one.
pub open spec fn top_heading(t: Token) -> Option<Seq<char>> {
    match t {
        Token::Heading { depth, text, .. } => if depth == 1 {
            Some(text@)
        } else {
            None
        },
        _ => None,
    }
}

/// `<li>TEXT</li>` for each first-level heading, separated by line breaks.
pub open spec fn toc_items(ts: Seq<Token>) -> Seq<char>
    decreases ts.len(),
{
    if ts.len() == 0 {
        Seq::empty()
    } else {
        let rest = toc_items(ts.drop_last());
        match top_heading(ts.last()) {
            Some(text) => if toc_count(ts.drop_last()) == 0 {
                "<li>"@ + text + "</li>"@
            } else {
                rest + "\n"@ + "<li>"@ + text + "</li>"@
            },
            None => rest,
        }
    }
}

/// The number of first-level headings.
pub open spec fn toc_count(ts: Seq<Token>) -> nat
    decreases ts.len(),
{
    if ts.len() == 0 {
        0
    } else if top_heading(ts.last()) is Some {
        toc_count(ts.drop_last()) + 1
    } else {
        toc_count(ts.drop_last())
    }
}

proof fn lemma_toc_items_empty(ts: Seq<Token>)
    ensures
        toc_count(ts) == 0 ==> toc_items(ts) == Seq::<char>::empty(),
    decreases ts.len(),
{
    if ts.len() > 0 {
        lemma_toc_items_empty(ts.drop_last());
    }
}

/// The table of contents of a document: a title, then a list of its first-level headings.
pub open spec fn toc_html(doc: Document) -> Seq<char> {
    "<h1>Table of content</h1><ul>"@ + toc_items(doc_tokens(doc)) + "</ul>"@
}

/// `s` holds no NUL character (the plugins hand their output back as a C string).
pub open spec fn no_nul(s: Seq<char>) -> bool {
    forall|i: int| 0 <= i < s.len() ==> s[i] != '\0'
}

/// The table of contents of a document; its first-level headings must hold no NUL, which the
/// output, a C string, cannot carry.
pub fn toc(doc: &Document) -> (r: String)
    requires
        forall|i: int|
            0 <= i < doc_tokens(*doc).len() ==> (#[trigger] top_heading(doc_tokens(*doc)[i]) matches Some(
                t,
            ) ==> no_nul(t)),
    ensures
        r@ == toc_html(*doc),
{
    let mut r = String::new();
    r.append("<h1>Table of content</h1><ul>");
    let ghost head = r@;
    let ghost ts = doc_tokens(*doc);
    if let Some(tokens) = &doc.tokens {
        let n = tokens.len();
        let mut i: usize = 0;
        let mut count: usize = 0;
        while i < n
            invariant
                n == tokens@.len(),
                ts == tokens@,
                i <= n,
                count <= i,
                count == toc_count(ts.take(i as int)),
                r@ == head + toc_items(ts.take(i as int)),
            decreases n - i,
        {
            proof {
                let next = ts.take(i + 1);
                assert(next.drop_last() == ts.take(i as int));
                assert(next.last() == ts[i as int]);
            }
            let ghost r0 = r@;
            if let Token::Heading { depth, text, .. } = &tokens[i] {
                if *depth == 1 {
                    if count > 0 {
                        r.append("\n");
                    }
                    r.append("<li>");
                    r.append(text.as_str());
                    r.append("</li>");
                    count = count + 1;
                    proof {
                        let next = ts.take(i + 1);
                        assert(top_heading(next.last()) == Some(text@));
                        if count > 1 {
                            assert(r@ =~= r0 + ("\n"@ + "<li>"@ + text@ + "</li>"@));
                        } else {
                            assert(r@ =~= r0 + ("<li>"@ + text@ + "</li>"@));
                        }
                    }
                }
            }
            proof {
                let next = ts.take(i + 1);
                let prev = ts.take(i as int);
                if top_heading(next.last()) is Some {
                    let text = top_heading(next.last())->0;
                    if toc_count(prev) == 0 {
                        lemma_toc_items_empty(prev);
                        assert(toc_items(next) == "<li>"@ + text + "</li>"@);
                    } else {
                        assert(toc_items(next) == toc_items(prev) + "\n"@ + "<li>"@ + text + "</li>"@);
                    }
                } else {
                    assert(toc_items(next) == toc_items(prev));
                    assert(r@ == r0);
                }
            }
            i = i + 1;
        }
        assert(ts.take(n as int) == ts);
    } else {
        assert(ts == Seq::<Token>::empty());
    }
    r.append("</ul>");
    r
}

/// The next state of the linear congruential generator (`seed * 1664525 + 1013904223`,
/// wrapping at 32 bits).
pub open spec fn next_seed(seed: u32) -> u32 {
    u32_specs::wrapping_add(u32_specs::wrapping_mul(seed, 1664525), 1013904223)
}

/// The seed the generator starts from.
pub const INITIAL_SEED: u32 = 0x1234ABCD;

/// Advances the generator and returns its new state.
pub fn simple_random_u32(seed: &mut u32) -> (r: u32)
    ensures
        *final(seed) == next_seed(*old(seed)),
        r == *final(seed),
{
    *seed = seed.wrapping_mul(1664525).wrapping_add(1013904223);
    *seed
}

/// The output of the `time` plugin: `random value ` and the generator's next value.
pub fn time(seed: &mut u32) -> (r: String)
    ensures
        *final(seed) == next_seed(*old(seed)),
        r@ == "random value "@ + spec_decimal(*final(seed) as nat),
{
    let n = simple_random_u32(seed);
    let mut r = "random value ".to_owned();
    push_digits(&mut r, n as u64, 10);
    r
}

/// What the `footer` plugin is handed: the custom tag it renders.
pub struct PluginInput {
    pub tag: String,
}

/// The output of the `footer` plugin: the tag it was called for, which must hold no NUL.
pub fn footer(input: &PluginInput) -> (r: String)
    requires
        no_nul(input.tag@),
    ensures
        r@ == input.tag@,
{
    input.tag.clone()
}

} // verus!
