//! Identifiers in the form of version-4 UUIDs, made from the clock.
use vstd::prelude::*;
use crate::html::{push_digits, spec_hex};
use crate::text::push_char;

verus! {

/// Sixteen bytes, printed as a UUID with the version and variant bits set.
pub struct UUID(pub [u8; 16]);

/// The nanoseconds since the Unix epoch, or `None` when the clock reads earlier (std's
/// `SystemTime::now().duration_since(UNIX_EPOCH)`). Trusted; it reads the clock, so nothing
/// is stated of the result.
#[verifier::external_body]
pub(crate) fn nanos_since_epoch() -> Option<u128> {
    match std::time::SystemTime::now().duration_since(std::time::UNIX_EPOCH) {
        Ok(d) => Some(d.as_nanos()),
        Err(_) => None,
    }
}

/// Byte `i` (from the least significant) of `n`.
pub open spec fn byte_of(n: u128, i: int) -> u8 {
    ((n >> (8 * i) as u128) & 0xff) as u8
}

fn byte_at(n: u128, i: u32) -> (b: u8)
    requires
        i < 16,
    ensures
        b == byte_of(n, i as int),
{
    ((n >> (8 * i)) & 0xff) as u8
}

/// `u`'s byte `i` is byte `i` of `n`, least significant first.
pub open spec fn made_from(u: UUID, n: u128) -> bool {
    forall|i: int| 0 <= i < 16 ==> #[trigger] u.0@[i] == byte_of(n, i)
}

/// The UUID whose byte `i` is byte `i` of `n`, least significant first.
pub fn uuid_from_nanos(n: u128) -> (u: UUID)
    ensures
        made_from(u, n),
{
    UUID(
        [
            byte_at(n, 0),
            byte_at(n, 1),
            byte_at(n, 2),
            byte_at(n, 3),
            byte_at(n, 4),
            byte_at(n, 5),
            byte_at(n, 6),
            byte_at(n, 7),
            byte_at(n, 8),
            byte_at(n, 9),
            byte_at(n, 10),
            byte_at(n, 11),
            byte_at(n, 12),
            byte_at(n, 13),
            byte_at(n, 14),
            byte_at(n, 15),
        ],
    )
}

/// A UUID made from the current time in nanoseconds (see `uuid_from_nanos`), or `None` when
/// the clock reads earlier than the Unix epoch.
pub fn generate_uuid() -> (r: Option<UUID>)
    ensures
        r matches Some(u) ==> exists|n: u128| #[trigger] made_from(u, n),
{
    match nanos_since_epoch() {
        Some(n) => {
            let u = uuid_from_nanos(n);
            assert(made_from(u, n));
            assert(exists|m: u128| #[trigger] made_from(u, m));
            let r = Some(u);
            assert(r matches Some(x) && x == u);
            r
        },
        None => None,
    }
}

/// The five groups of a UUID's text: bytes 0-3; 4-5; 6-7 with the version nibble set to 4;
/// 8-9 with the variant bits set to `10`; 10-15, read as the top six bytes of a 64-bit number.
pub open spec fn uuid_groups(b: Seq<u8>) -> (nat, nat, nat, nat, nat) {
    (
        (b[0] * 0x1000000 + b[1] * 0x10000 + b[2] * 0x100 + b[3]) as nat,
        (b[4] * 0x100 + b[5]) as nat,
        ((b[6] % 16 + 0x40) * 0x100 + b[7]) as nat,
        ((b[8] % 64 + 0x80) * 0x100 + b[9]) as nat,
        (b[10] * 0x100000000000000 + b[11] * 0x1000000000000 + b[12] * 0x10000000000 + b[13]
            * 0x100000000 + b[14] * 0x1000000 + b[15] * 0x10000) as nat,
    )
}

/// The text of a UUID: its five groups in lower-case hexadecimal without leading zeros,
/// separated by `-`.
pub open spec fn uuid_text(b: Seq<u8>) -> Seq<char> {
    let g = uuid_groups(b);
    spec_hex(g.0) + seq!['-'] + spec_hex(g.1) + seq!['-'] + spec_hex(g.2) + seq!['-'] + spec_hex(
        g.3,
    ) + seq!['-'] + spec_hex(g.4)
}

impl UUID {
    /// The UUID's text (see `uuid_text`).
    pub fn to_string(&self) -> (s: String)
        ensures
            s@ == uuid_text(self.0@),
    {
        let b = &self.0;
        let g1: u64 = (b[0] as u64) * 0x1000000 + (b[1] as u64) * 0x10000 + (b[2] as u64) * 0x100
            + (b[3] as u64);
        let g2: u64 = (b[4] as u64) * 0x100 + (b[5] as u64);
        let b6: u8 = b[6];
        let v: u8 = b6 & 0x0f | 0x40;
        assert(b6 & 0x0f | 0x40 == b6 % 16 + 0x40) by (bit_vector);
        let g3: u64 = (v as u64) * 0x100 + (b[7] as u64);
        let b8: u8 = b[8];
        let w: u8 = b8 & 0x3f | 0x80;
        assert(b8 & 0x3f | 0x80 == b8 % 64 + 0x80) by (bit_vector);
        let g4: u64 = (w as u64) * 0x100 + (b[9] as u64);
        let g5: u64 = (b[10] as u64) * 0x100000000000000 + (b[11] as u64) * 0x1000000000000
            + (b[12] as u64) * 0x10000000000 + (b[13] as u64) * 0x100000000 + (b[14] as u64)
            * 0x1000000 + (b[15] as u64) * 0x10000;
        let mut s = String::new();
        push_digits(&mut s, g1, 16);
        push_char(&mut s, '-');
        push_digits(&mut s, g2, 16);
        push_char(&mut s, '-');
        push_digits(&mut s, g3, 16);
        push_char(&mut s, '-');
        push_digits(&mut s, g4, 16);
        push_char(&mut s, '-');
        push_digits(&mut s, g5, 16);
        s
    }
}

} // verus!
verus! {

/// A number of four hexadecimal digits starts with the digit of `n / 0x1000`.
pub proof fn lemma_hex_four_digits(n: nat)
    requires
        0x1000 <= n < 0x10000,
    ensures
        spec_hex(n).len() == 4,
        spec_hex(n)[0] == crate::html::digit_char(n / 0x1000),
{
    let a = n / 16;
    let b = a / 16;
    let c = b / 16;
    assert(a >= 16 && b >= 16 && 1 <= c < 16 && c == n / 0x1000) by (nonlinear_arith)
        requires
            0x1000 <= n < 0x10000,
            a == n / 16,
            b == a / 16,
            c == b / 16,
    ;
    assert(n >= 16);
    assert(spec_hex(c).len() == 1 && spec_hex(c)[0] == crate::html::digit_char(c));
    assert(spec_hex(b) == spec_hex(c).push(crate::html::digit_char(b % 16)));
    assert(spec_hex(a) == spec_hex(b).push(crate::html::digit_char(a % 16)));
    assert(spec_hex(n) == spec_hex(a).push(crate::html::digit_char(n % 16)));
}

/// The third group of a UUID's text is four digits starting with `4` (version 4), and the
/// fourth is four digits starting with `8`, `9`, `a` or `b` (the RFC 4122 variant).
pub proof fn lemma_uuid_version_and_variant(b: Seq<u8>)
    requires
        b.len() == 16,
    ensures
        spec_hex(uuid_groups(b).2).len() == 4,
        spec_hex(uuid_groups(b).2)[0] == '4',
        spec_hex(uuid_groups(b).3).len() == 4,
        spec_hex(uuid_groups(b).3)[0] == '8' || spec_hex(uuid_groups(b).3)[0] == '9'
            || spec_hex(uuid_groups(b).3)[0] == 'a' || spec_hex(uuid_groups(b).3)[0] == 'b',
{
    let g3 = uuid_groups(b).2;
    let g4 = uuid_groups(b).3;
    let b6 = b[6] as nat;
    let b7 = b[7] as nat;
    let b8 = b[8] as nat;
    let b9 = b[9] as nat;
    assert(0x4000 <= g3 < 0x5000 && g3 / 0x1000 == 4) by (nonlinear_arith)
        requires
            g3 == (b6 % 16 + 0x40) * 0x100 + b7,
            b6 < 256,
            b7 < 256,
    ;
    assert(0x8000 <= g4 < 0xc000 && 8 <= g4 / 0x1000 < 12) by (nonlinear_arith)
        requires
            g4 == (b8 % 64 + 0x80) * 0x100 + b9,
            b8 < 256,
            b9 < 256,
    ;
    lemma_hex_four_digits(g3);
    lemma_hex_four_digits(g4);
}

} // verus!
