//! HTML escaping and the formatting of numbers.
use vstd::prelude::*;
use crate::text::push_char;

verus! {

/// What one character becomes in escaped HTML.
pub open spec fn escape_char(c: char) -> Seq<char> {
    if c == '&' {
        "&amp;"@
    } else if c == '<' {
        "&lt;"@
    } else if c == '>' {
        "&gt;"@
    } else if c == '"' {
        "&quot;"@
    } else if c == '\'' {
        "&#39;"@
    } else {
        seq![c]
    }
}

/// `s` with `&`, `<`, `>`, `"` and `'` replaced by their character references.
pub open spec fn spec_html_escape(s: Seq<char>) -> Seq<char>
    decreases s.len(),
{
    if s.len() == 0 {
        Seq::empty()
    } else {
        spec_html_escape(s.drop_last()) + escape_char(s.last())
    }
}

/// Appends the escaped form of `input` to `out`.
pub fn push_escaped(out: &mut String, input: &str)
    ensures
        final(out)@ == old(out)@ + spec_html_escape(input@),
{
    let ghost start = out@;
    let mut i: usize = 0;
    let ghost mut done: Seq<char> = Seq::empty();
    for c in it: input.chars()
        invariant
            it.seq() == input@,
            done == it.seq().take(it.index() as int),
            out@ == start + spec_html_escape(done),
    {
        proof {
            let next = it.seq().take(it.index() + 1);
            assert(next.drop_last() == done);
            assert(next.last() == c);
        }
        if c == '&' {
            out.append("&amp;");
        } else if c == '<' {
            out.append("&lt;");
        } else if c == '>' {
            out.append("&gt;");
        } else if c == '"' {
            out.append("&quot;");
        } else if c == '\'' {
            out.append("&#39;");
        } else {
            push_char(out, c);
        }
        proof {
            let d2 = done.push(c);
            assert(d2.drop_last() == done);
            assert(spec_html_escape(d2) == spec_html_escape(done) + escape_char(c));
            assert(out@ =~= start + spec_html_escape(d2));
            done = d2;
        }
    }
    proof {
        assert(done == input@);
    }
}

/// `input` with `&`, `<`, `>`, `"` and `'` replaced by `&amp;`, `&lt;`, `&gt;`, `&quot;`
/// and `&#39;`.
pub fn html_escape(input: &str) -> (r: String)
    ensures
        r@ == spec_html_escape(input@),
{
    let mut r = String::new();
    push_escaped(&mut r, input);
    r
}

/// The characters that escaping removes.
pub open spec fn is_html_special(c: char) -> bool {
    c == '<' || c == '>' || c == '"' || c == '\''
}

/// Escaped text holds no `<`, `>`, `"` or `'`, so it cannot open a tag or end an attribute.
pub proof fn lemma_escape_removes_specials(s: Seq<char>)
    ensures
        forall|i: int| 0 <= i < spec_html_escape(s).len() ==> !is_html_special(#[trigger] spec_html_escape(s)[i]),
    decreases s.len(),
{
    reveal_strlit("&amp;");
    reveal_strlit("&lt;");
    reveal_strlit("&gt;");
    reveal_strlit("&quot;");
    reveal_strlit("&#39;");
    if s.len() > 0 {
        lemma_escape_removes_specials(s.drop_last());
        let a = spec_html_escape(s.drop_last());
        let b = escape_char(s.last());
        assert forall|i: int| 0 <= i < (a + b).len() implies !is_html_special((a + b)[i]) by {
            if i >= a.len() {
                assert((a + b)[i] == b[i - a.len()]);
            }
        }
    }
}

/// Text without `&`, `<`, `>`, `"` and `'` is left as it is.
pub proof fn lemma_escape_plain_text(s: Seq<char>)
    requires
        forall|i: int| 0 <= i < s.len() ==> !is_html_special(#[trigger] s[i]) && s[i] != '&',
    ensures
        spec_html_escape(s) == s,
    decreases s.len(),
{
    if s.len() > 0 {
        lemma_escape_plain_text(s.drop_last());
        assert(s.drop_last().push(s.last()) == s);
    }
}

/// The digit for `d` in base 16, lower case (also the decimal digits).
pub open spec fn digit_char(d: nat) -> char {
    if d == 0 { '0' } else if d == 1 { '1' } else if d == 2 { '2' } else if d == 3 { '3' }
    else if d == 4 { '4' } else if d == 5 { '5' } else if d == 6 { '6' } else if d == 7 { '7' }
    else if d == 8 { '8' } else if d == 9 { '9' } else if d == 10 { 'a' } else if d == 11 { 'b' }
    else if d == 12 { 'c' } else if d == 13 { 'd' } else if d == 14 { 'e' } else { 'f' }
}

fn digit(d: u64) -> (c: char)
    requires
        d < 16,
    ensures
        c == digit_char(d as nat),
{
    if d == 0 { '0' } else if d == 1 { '1' } else if d == 2 { '2' } else if d == 3 { '3' }
    else if d == 4 { '4' } else if d == 5 { '5' } else if d == 6 { '6' } else if d == 7 { '7' }
    else if d == 8 { '8' } else if d == 9 { '9' } else if d == 10 { 'a' } else if d == 11 { 'b' }
    else if d == 12 { 'c' } else if d == 13 { 'd' } else if d == 14 { 'e' } else { 'f' }
}

/// The digits of `n` in base `b` (2 to 16), most significant first, without leading zeros
/// (`0` for zero).
pub open spec fn spec_digits(n: nat, b: nat) -> Seq<char>
    decreases n,
{
    if n < b || b < 2 {
        seq![digit_char(n)]
    } else {
        proof {
            assert(n / b < n) by (nonlinear_arith)
                requires
                    n >= b,
                    b >= 2,
            ;
        }
        spec_digits(n / b, b).push(digit_char(n % b))
    }
}

/// `n` in decimal, as `{}` formats it.
pub open spec fn spec_decimal(n: nat) -> Seq<char> {
    spec_digits(n, 10)
}

/// `n` in lower-case hexadecimal, as `{:x}` formats it.
pub open spec fn spec_hex(n: nat) -> Seq<char> {
    spec_digits(n, 16)
}

/// Appends the digits of `n` in base `b`.
pub fn push_digits(out: &mut String, n: u64, b: u64)
    requires
        2 <= b <= 16,
    ensures
        final(out)@ == old(out)@ + spec_digits(n as nat, b as nat),
    decreases n,
{
    if n >= b {
        assert(n / b < n) by (nonlinear_arith)
            requires
                n >= b,
                b >= 2,
        ;
        push_digits(out, n / b, b);
    } else {
        assert(n % b == n) by (nonlinear_arith)
            requires
                n < b,
        ;
    }
    push_char(out, digit(n % b));
}

/// `n` in decimal.
pub fn decimal_string(n: u64) -> (s: String)
    ensures
        s@ == spec_decimal(n as nat),
{
    let mut s = String::new();
    push_digits(&mut s, n, 10);
    s
}

/// `n` in lower-case hexadecimal.
pub fn hex_string(n: u64) -> (s: String)
    ensures
        s@ == spec_hex(n as nat),
{
    let mut s = String::new();
    push_digits(&mut s, n, 16);
    s
}

/// `n` in decimal with a leading `-` when it is negative.
pub open spec fn spec_signed_decimal(n: int) -> Seq<char> {
    if n < 0 {
        seq!['-'] + spec_decimal((-n) as nat)
    } else {
        spec_decimal(n as nat)
    }
}

/// `n` in decimal, as `i32::to_string` gives it.
pub fn i32_string(n: i32) -> (s: String)
    ensures
        s@ == spec_signed_decimal(n as int),
{
    let mut s = String::new();
    if n < 0 {
        push_char(&mut s, '-');
        let m: u64 = (0i64 - (n as i64)) as u64;
        push_digits(&mut s, m, 10);
    } else {
        push_digits(&mut s, n as u64, 10);
    }
    s
}

} // verus!
