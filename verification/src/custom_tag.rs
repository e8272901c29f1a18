//! Custom tags embedded in paragraphs: `[[name key="value" ...]]content[[/name]]`.
use vstd::prelude::*;
use crate::assoc::{assoc_get, assoc_insert, assoc_map, keys_distinct, lemma_assoc_map_len};
use crate::text::{
    char_index_from, char_is_whitespace, chars_of, find, lemma_char_index_bounds, lemma_find_from,
    lemma_ws_end_bounds, lemma_word_end_bounds, is_whitespace, spec_find, spec_trim, string_from_range,
    trim, word_end, ws_end,
};

verus! {

/// The attributes of a custom tag: keys map to values, each key at most once.
pub struct Attributes {
    entries: Vec<(String, String)>,
}

impl View for Attributes {
    type V = Map<Seq<char>, Seq<char>>;

    closed spec fn view(&self) -> Map<Seq<char>, Seq<char>> {
        assoc_map(self.entries@).map_values(|v: String| v@)
    }
}

impl Attributes {
    #[verifier::type_invariant]
    closed spec fn inv(self) -> bool {
        keys_distinct(self.entries@)
    }

    /// No attributes.
    pub fn new() -> (a: Attributes)
        ensures
            a@ == Map::<Seq<char>, Seq<char>>::empty(),
    {
        let a = Attributes { entries: Vec::new() };
        assert(a@ =~= Map::<Seq<char>, Seq<char>>::empty());
        a
    }

    /// Sets `key` to `value`, replacing an earlier value of `key`.
    pub fn insert(&mut self, key: String, value: String)
        ensures
            final(self)@ == old(self)@.insert(key@, value@),
    {
        proof {
            use_type_invariant(&*self);
        }
        let ghost before = self.entries@;
        let mut entries: Vec<(String, String)> = Vec::new();
        std::mem::swap(&mut entries, &mut self.entries);
        let ghost k = key@;
        let ghost v = value@;
        assoc_insert(&mut entries, key, value);
        self.entries = entries;
        proof {
            let m0 = assoc_map(before);
            let m1 = assoc_map(self.entries@);
            assert(m1.map_values(|v: String| v@) =~= m0.map_values(|v: String| v@).insert(k, v));
        }
    }

    /// The value of `key`, if it is set.
    pub fn get(&self, key: &String) -> (r: Option<&String>)
        ensures
            match r {
                Some(v) => self@.contains_key(key@) && self@[key@] == v@,
                None => !self@.contains_key(key@),
            },
    {
        proof {
            use_type_invariant(self);
        }
        assoc_get(&self.entries, key)
    }

    /// The number of attributes.
    pub fn len(&self) -> (n: usize)
        ensures
            n == self@.len(),
    {
        proof {
            use_type_invariant(self);
            lemma_assoc_map_len(self.entries@);
            assert(self@.dom() =~= assoc_map(self.entries@).dom());
        }
        self.entries.len()
    }

    /// The attributes as `(key, value)` pairs, each key once, in the order they were first set.
    pub fn entries(&self) -> (r: &Vec<(String, String)>)
        ensures
            keys_distinct(r@),
            assoc_map(r@).map_values(|v: String| v@) == self@,
    {
        proof {
            use_type_invariant(self);
        }
        &self.entries
    }
}

/// A parsed custom tag: its name, its attributes and the text between the opening and the
/// closing tag.
pub struct CustomTag {
    pub name: String,
    pub attributes: Attributes,
    pub content: String,
}

/// `[[`
pub open spec fn open_marker() -> Seq<char> {
    seq!['[', '[']
}

/// `]]`
pub open spec fn close_marker() -> Seq<char> {
    seq![']', ']']
}

/// `[[/name]]`
pub open spec fn closing_tag(name: Seq<char>) -> Seq<char> {
    seq!['[', '[', '/'] + name + seq![']', ']']
}

/// The attribute list of a tag, read from position `i` on into `acc`.
pub open spec fn parse_attrs(s: Seq<char>, i: int, acc: Map<Seq<char>, Seq<char>>) -> Map<
    Seq<char>,
    Seq<char>,
>
    decreases s.len() - i,
{
    if i < 0 || i >= s.len() {
        acc
    } else {
        let eq = char_index_from(s, '=', i);
        let key = s.subrange(i, eq);
        let vstart = if eq < s.len() {
            eq + 1
        } else {
            eq
        };
        let quoted = vstart < s.len() && s[vstart] == '"';
        let q = char_index_from(s, '"', vstart + 1);
        let value = if quoted {
            s.subrange(vstart + 1, q)
        } else {
            Seq::empty()
        };
        let next = if quoted {
            if q < s.len() {
                q + 1
            } else {
                q
            }
        } else {
            vstart
        };
        let acc2 = if key.len() > 0 {
            acc.insert(key, value)
        } else {
            acc
        };
        proof {
            lemma_char_index_bounds(s, '=', i);
            if quoted {
                lemma_char_index_bounds(s, '"', vstart + 1);
            }
            lemma_ws_end_bounds(s, next);
        }
        parse_attrs(s, ws_end(s, next), acc2)
    }
}

/// The name and the attributes of an opening tag (the text between `[[` and `]]`):
/// the name runs up to the first white space; the attributes are `key="value"` pairs,
/// a later value of a key replacing an earlier one.
pub open spec fn spec_parse_tag(s: Seq<char>) -> (Seq<char>, Map<Seq<char>, Seq<char>>) {
    let n = word_end(s, 0);
    (s.subrange(0, n), parse_attrs(s, ws_end(s, n), Map::empty()))
}

/// The trimmed text with the positions of its first `[[` and of its first `]]`.
pub open spec fn marker_positions(text: Seq<char>) -> Option<(Seq<char>, int, int)> {
    let t = spec_trim(text);
    match (spec_find(t, open_marker()), spec_find(t, close_marker())) {
        (Some(st), Some(en)) => Some((t, st, en)),
        _ => None,
    }
}

/// The name of the tag that starts after `st` and ends at `en` in `t`.
pub open spec fn tag_name_at(t: Seq<char>, st: int, en: int) -> Seq<char> {
    spec_parse_tag(t.subrange(st + 2, en)).0
}

/// Cutting the tag out of `text` would slice backwards: the first `]]` comes before the first
/// `[[`, or the first `[[/name]]` starts before the first `]]` ends.
pub open spec fn custom_tag_panics(text: Seq<char>) -> bool {
    match marker_positions(text) {
        Some((t, st, en)) => en < st + 2 || (spec_find(t, closing_tag(tag_name_at(t, st, en)))
            matches Some(cs) && cs < en + 2),
        None => false,
    }
}

/// The custom tag in `text`, as (name, attributes, content): after trimming, the opening tag
/// lies between the first `[[` and the first `]]`, and the content runs from there to the
/// first `[[/name]]`; there is no tag if either marker or the closing tag is missing.
pub open spec fn spec_custom_tag(text: Seq<char>) -> Option<
    (Seq<char>, Map<Seq<char>, Seq<char>>, Seq<char>),
> {
    match marker_positions(text) {
        Some((t, st, en)) => {
            let (name, attrs) = spec_parse_tag(t.subrange(st + 2, en));
            match spec_find(t, closing_tag(name)) {
                Some(cs) => Some((name, attrs, t.subrange(en + 2, cs))),
                None => None,
            }
        },
        None => None,
    }
}

/// Whether the trimmed `text` contains both `[[` and `]]`.
pub open spec fn spec_is_custom_tag(text: Seq<char>) -> bool {
    let t = spec_trim(text);
    spec_find(t, open_marker()) is Some && spec_find(t, close_marker()) is Some
}

fn parse_attributes_from(s: &Vec<char>, start: usize) -> (a: Attributes)
    requires
        start <= s@.len(),
    ensures
        a@ == parse_attrs(s@, start as int, Map::empty()),
{
    let n = s.len();
    let mut attrs = Attributes::new();
    let mut i = start;
    while i < n
        invariant
            n == s@.len(),
            i <= n,
            parse_attrs(s@, start as int, Map::empty()) == parse_attrs(s@, i as int, attrs@),
        decreases n - i,
    {
        let ghost i0 = i as int;
        let ghost acc0 = attrs@;
        proof {
            lemma_char_index_bounds(s@, '=', i0);
        }
        let mut eq = i;
        while eq < n && s[eq] != '='
            invariant
                n == s@.len(),
                i <= eq <= n,
                char_index_from(s@, '=', i as int) == char_index_from(s@, '=', eq as int),
            decreases n - eq,
        {
            eq = eq + 1;
        }
        let key = string_from_range(s, i, eq);
        let vstart = if eq < n {
            eq + 1
        } else {
            eq
        };
        let mut value = String::new();
        let mut next = vstart;
        if vstart < n && s[vstart] == '"' {
            proof {
                lemma_char_index_bounds(s@, '"', vstart + 1);
            }
            let mut q = vstart + 1;
            while q < n && s[q] != '"'
                invariant
                    n == s@.len(),
                    vstart + 1 <= q <= n,
                    char_index_from(s@, '"', vstart + 1) == char_index_from(s@, '"', q as int),
                decreases n - q,
            {
                q = q + 1;
            }
            value = string_from_range(s, vstart + 1, q);
            next = if q < n {
                q + 1
            } else {
                q
            };
        }
        if !key.as_str().is_empty() {
            attrs.insert(key, value);
        }
        let mut j = next;
        while j < n && char_is_whitespace(s[j])
            invariant
                n == s@.len(),
                next <= j <= n,
                ws_end(s@, next as int) == ws_end(s@, j as int),
            decreases n - j,
        {
            j = j + 1;
        }
        assert(parse_attrs(s@, i0, acc0) == parse_attrs(s@, j as int, attrs@));
        i = j;
    }
    attrs
}

/// Splits an opening tag into its name and its attributes.
pub fn parse_tag_and_attributes(tag: &str) -> (r: (String, Attributes))
    ensures
        (r.0@, r.1@) == spec_parse_tag(tag@),
{
    let s = chars_of(tag);
    let n = s.len();
    let mut w: usize = 0;
    while w < n && !char_is_whitespace(s[w])
        invariant
            n == s@.len(),
            w <= n,
            word_end(s@, 0) == word_end(s@, w as int),
        decreases n - w,
    {
        w = w + 1;
    }
    let name = string_from_range(&s, 0, w);
    let mut j = w;
    while j < n && char_is_whitespace(s[j])
        invariant
            n == s@.len(),
            w <= j <= n,
            ws_end(s@, w as int) == ws_end(s@, j as int),
        decreases n - j,
    {
        j = j + 1;
    }
    let attrs = parse_attributes_from(&s, j);
    (name, attrs)
}

} // verus!
verus! {

/// `[[/name]]` as characters.
fn closing_tag_chars(name: &String) -> (v: Vec<char>)
    ensures
        v@ == closing_tag(name@),
{
    let mut v = vec!['[', '[', '/'];
    let cs = chars_of(name.as_str());
    let n = cs.len();
    let mut i: usize = 0;
    while i < n
        invariant
            n == cs@.len(),
            i <= n,
            v@ == seq!['[', '[', '/'] + cs@.take(i as int),
        decreases n - i,
    {
        v.push(cs[i]);
        assert(cs@.take(i + 1) == cs@.take(i as int).push(cs@[i as int]));
        i = i + 1;
    }
    assert(cs@.take(n as int) == cs@);
    v.push(']');
    v.push(']');
    assert(v@ =~= closing_tag(name@));
    v
}

/// The trimmed text and the positions of its first `[[` and first `]]`.
fn locate_markers(text: &str) -> (r: Option<(Vec<char>, usize, usize)>)
    ensures
        match r {
            Some((t, st, en)) => marker_positions(text@) == Some((t@, st as int, en as int))
                && st + 2 <= t@.len() && en + 2 <= t@.len(),
            None => marker_positions(text@) is None,
        },
{
    let cs = chars_of(text);
    let t = trim(&cs);
    let open = vec!['[', '['];
    let close = vec![']', ']'];
    let st = match find(&t, &open) {
        Some(st) => st,
        None => return None,
    };
    let en = match find(&t, &close) {
        Some(en) => en,
        None => return None,
    };
    proof {
        lemma_find_from(t@, open@, 0);
        lemma_find_from(t@, close@, 0);
    }
    Some((t, st, en))
}

/// The name of the tag between `[[` at `st` and `]]` at `en`, and the position of its closing
/// tag.
fn locate_closing(t: &Vec<char>, st: usize, en: usize) -> (r: (String, Attributes, Option<usize>))
    requires
        st + 2 <= en <= t@.len(),
    ensures
        (r.0@, r.1@) == spec_parse_tag(t@.subrange(st + 2, en as int)),
        match r.2 {
            Some(c) => spec_find(t@, closing_tag(r.0@)) == Some(c as int) && c + r.0@.len() + 5
                <= t@.len(),
            None => spec_find(t@, closing_tag(r.0@)) is None,
        },
{
    let open_text = string_from_range(t, st + 2, en);
    let (name, attrs) = parse_tag_and_attributes(open_text.as_str());
    let ct = closing_tag_chars(&name);
    let c = find(t, &ct);
    proof {
        lemma_find_from(t@, ct@, 0);
    }
    (name, attrs, c)
}

/// Whether cutting the custom tag out of `text` would slice backwards (see
/// `custom_tag_panics`).
pub fn custom_tag_would_panic(text: &str) -> (b: bool)
    ensures
        b == custom_tag_panics(text@),
{
    match locate_markers(text) {
        None => false,
        Some((t, st, en)) => {
            if en < st || en - st < 2 {
                true
            } else {
                let (_, _, c) = locate_closing(&t, st, en);
                match c {
                    Some(cs) => cs < en || cs - en < 2,
                    None => false,
                }
            }
        },
    }
}

/// The custom tag in `text`: the name and attributes between the first `[[` and the first
/// `]]` of the trimmed text, and the content up to the first `[[/name]]`.
pub fn parse_custom_tag(text: &str) -> (r: Option<CustomTag>)
    requires
        !custom_tag_panics(text@),
    ensures
        match r {
            Some(tag) => spec_custom_tag(text@) == Some((tag.name@, tag.attributes@, tag.content@)),
            None => spec_custom_tag(text@) is None,
        },
{
    match locate_markers(text) {
        None => None,
        Some((t, st, en)) => {
            let (name, attributes, c) = locate_closing(&t, st, en);
            match c {
                Some(cs) => {
                    let content = string_from_range(&t, en + 2, cs);
                    Some(CustomTag { name, attributes, content })
                },
                None => None,
            }
        },
    }
}

/// Whether the trimmed `text` contains both `[[` and `]]`.
pub fn is_custom_tag(text: &str) -> (b: bool)
    ensures
        b == spec_is_custom_tag(text@),
{
    let cs = chars_of(text);
    let t = trim(&cs);
    let open = vec!['[', '['];
    let close = vec![']', ']'];
    find(&t, &open).is_some() && find(&t, &close).is_some()
}

} // verus!
verus! {

/// A paragraph whose custom tag is resolved when a page is served was marked as a custom tag
/// when the document was pre-rendered: a parsed tag needs both markers.
pub proof fn lemma_parsed_tag_is_marked(text: Seq<char>)
    ensures
        spec_custom_tag(text) is Some ==> spec_is_custom_tag(text),
{
}

/// An opening tag `name key="value"`: a name without white space, one space, a key that does
/// not start with white space and holds no `=`, and a value without a double quote.
pub open spec fn quoted_attribute_tag(name: Seq<char>, key: Seq<char>, value: Seq<char>) -> Seq<char> {
    name + seq![' '] + key + seq!['=', '"'] + value + seq!['"']
}

proof fn lemma_char_index_is(s: Seq<char>, c: char, i: int, j: int)
    requires
        0 <= i <= j <= s.len(),
        forall|k: int| i <= k < j ==> s[k] != c,
        j < s.len() ==> s[j] == c,
    ensures
        char_index_from(s, c, i) == j,
{
    lemma_char_index_bounds(s, c, i);
    let x = char_index_from(s, c, i);
    if x < j {
        assert(s[x] != c);
    }
}

/// Parsing the opening tag `name key="value"` gives the name and exactly one attribute: `key`
/// with the whole quoted `value`, spaces and all.
pub proof fn lemma_quoted_attribute(name: Seq<char>, key: Seq<char>, value: Seq<char>)
    requires
        forall|i: int| 0 <= i < name.len() ==> !is_whitespace(#[trigger] name[i]),
        key.len() > 0,
        !is_whitespace(key[0]),
        forall|i: int| 0 <= i < key.len() ==> #[trigger] key[i] != '=',
        forall|i: int| 0 <= i < value.len() ==> #[trigger] value[i] != '"',
    ensures
        spec_parse_tag(quoted_attribute_tag(name, key, value)) == (name, map![key => value]),
{
    let s = quoted_attribute_tag(name, key, value);
    let nl = name.len() as int;
    let kl = key.len() as int;
    let vl = value.len() as int;
    assert(s.len() == nl + kl + vl + 4);
    assert forall|i: int| 0 <= i < nl implies s[i] == name[i] by {}
    assert(s[nl] == ' ');
    assert forall|i: int| 0 <= i < kl implies s[nl + 1 + i] == key[i] by {}
    assert(s[nl + 1 + kl] == '=');
    assert(s[nl + 2 + kl] == '"');
    assert forall|i: int| 0 <= i < vl implies s[nl + 3 + kl + i] == value[i] by {}
    assert(s[nl + 3 + kl + vl] == '"');
    // The name ends at the space.
    lemma_word_end_bounds(s, 0);
    let w = word_end(s, 0);
    if w < nl {
        assert(is_whitespace(s[w]));
        assert(s[w] == name[w]);
    }
    if w > nl {
        assert(!is_whitespace(s[nl]));
        assert(is_whitespace(' ')) by {
            assert((' ' as u32) == 0x20);
        }
    }
    assert(w == nl);
    // The attributes start at the key.
    let a = nl + 1;
    lemma_ws_end_bounds(s, nl);
    assert(is_whitespace(s[nl])) by {
        assert((' ' as u32) == 0x20);
    }
    assert(ws_end(s, nl) == ws_end(s, nl + 1));
    assert(s[a] == key[0]);
    assert(ws_end(s, a) == a);
    // The key runs to the `=`.
    assert forall|k: int| a <= k < a + kl implies s[k] != '=' by {
        assert(s[k] == key[k - a]);
    }
    lemma_char_index_is(s, '=', a, a + kl);
    let eq = a + kl;
    assert(s.subrange(a, eq) =~= key);
    let vstart = eq + 1;
    // The value runs to the next double quote.
    assert forall|k: int| vstart + 1 <= k < vstart + 1 + vl implies s[k] != '"' by {
        assert(s[k] == value[k - vstart - 1]);
    }
    lemma_char_index_is(s, '"', vstart + 1, vstart + 1 + vl);
    let q = vstart + 1 + vl;
    assert(s.subrange(vstart + 1, q) =~= value);
    assert(q + 1 == s.len());
    assert(ws_end(s, q + 1) == q + 1);
    assert(parse_attrs(s, q + 1, Map::empty().insert(key, value)) == Map::empty().insert(key, value));
    assert(parse_attrs(s, a, Map::empty()) == parse_attrs(s, q + 1, Map::empty().insert(key, value)));
    assert(s.subrange(0, nl) =~= name);
    assert(map![key => value] =~= Map::<Seq<char>, Seq<char>>::empty().insert(key, value));
}

} // verus!
