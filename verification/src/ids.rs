//! Identifiers.

use vstd::prelude::*;

verus! {

/// A lower-case hexadecimal digit.
pub open spec fn is_hex_digit(c: char) -> bool {
    '0' <= c <= '9' || 'a' <= c <= 'f'
}

/// The text of a random UUID without hyphens: 32 hexadecimal digits, of which the
/// thirteenth gives the version and the seventeenth the variant.
pub open spec fn is_random_id(s: Seq<char>) -> bool {
    &&& s.len() == 32
    &&& forall|i: int| 0 <= i < 32 ==> is_hex_digit(#[trigger] s[i])
    &&& s[12] == '4'
    &&& (s[16] == '8' || s[16] == '9' || s[16] == 'a' || s[16] == 'b')
}

/// `uuid::Uuid::new_v4`, written with `simple`. Which of these texts comes is left to
/// chance.
#[verifier::external_body]
pub(crate) fn random_id() -> (r: String)
    ensures
        is_random_id(r@),
{
    uuid::Uuid::new_v4().simple().to_string()
}

/// All of these are texts of random UUIDs.
pub open spec fn are_random_ids(ids: Seq<Seq<char>>) -> bool {
    forall|i: int| 0 <= i < ids.len() ==> is_random_id(#[trigger] ids[i])
}

/// Draws `n` random identifiers.
pub fn random_ids(n: usize) -> (r: Vec<String>)
    ensures
        r@.len() == n,
        are_random_ids(crate::text::texts(r@)),
{
    let mut out: Vec<String> = Vec::new();
    for i in 0..n
        invariant
            out@.len() == i,
            forall|j: int| 0 <= j < i ==> is_random_id((#[trigger] out@[j])@),
    {
        out.push(random_id());
    }
    out
}

/// One hexadecimal digit.
pub open spec fn hex_digit(d: nat) -> char {
    if d < 10 {
        ('0' as u32 + d) as char
    } else {
        ('a' as u32 + (d - 10)) as char
    }
}

/// The last `len` hexadecimal digits of a number.
pub open spec fn hex(n: nat, len: nat) -> Seq<char>
    decreases len,
{
    if len == 0 {
        Seq::empty()
    } else {
        hex(n / 16, (len - 1) as nat).push(hex_digit(n % 16))
    }
}

/// The hyphenated text of the UUID with this number: groups of 8, 4, 4, 4 and 12 of its
/// 32 hexadecimal digits.
pub open spec fn uuid_text(n: u128) -> Seq<char> {
    let h = hex(n as nat, 32);
    h.subrange(0, 8) + seq!['-'] + h.subrange(8, 12) + seq!['-'] + h.subrange(12, 16) + seq!['-']
        + h.subrange(16, 20) + seq!['-'] + h.subrange(20, 32)
}

/// `uuid::Uuid::from_u128`, written with `to_string`: the hyphenated text in lower case.
#[verifier::external_body]
pub(crate) fn write_uuid(n: u128) -> (r: String)
    ensures
        r@ == uuid_text(n),
{
    uuid::Uuid::from_u128(n).to_string()
}

/// Sixteen to the power of `len`.
spec fn pow16(len: nat) -> nat
    decreases len,
{
    if len == 0 {
        1
    } else {
        16 * pow16((len - 1) as nat)
    }
}

proof fn lemma_hex_len(n: nat, len: nat)
    ensures
        hex(n, len).len() == len,
    decreases len,
{
    if len > 0 {
        lemma_hex_len(n / 16, (len - 1) as nat);
    }
}

proof fn lemma_hex_digit_injective(a: nat, b: nat)
    requires
        a < 16,
        b < 16,
        hex_digit(a) == hex_digit(b),
    ensures
        a == b,
{
}

/// Numbers that fit are told apart by their digits.
proof fn lemma_hex_injective(a: nat, b: nat, len: nat)
    requires
        a < pow16(len),
        b < pow16(len),
        hex(a, len) == hex(b, len),
    ensures
        a == b,
    decreases len,
{
    if len > 0 {
        let shorter = (len - 1) as nat;
        lemma_hex_len(a / 16, shorter);
        lemma_hex_len(b / 16, shorter);
        assert(hex(a, len).drop_last() =~= hex(a / 16, shorter));
        assert(hex(b, len).drop_last() =~= hex(b / 16, shorter));
        assert(hex(a, len).last() == hex_digit(a % 16));
        assert(hex(b, len).last() == hex_digit(b % 16));
        lemma_hex_digit_injective(a % 16, b % 16);
        lemma_hex_injective(a / 16, b / 16, shorter);
    }
}

/// UUIDs are told apart by their texts, which are all of one length.
pub proof fn lemma_uuid_text(a: u128, b: u128)
    ensures
        uuid_text(a).len() == 36,
        uuid_text(a) == uuid_text(b) ==> a == b,
{
    let x = hex(a as nat, 32);
    let y = hex(b as nat, 32);
    lemma_hex_len(a as nat, 32);
    lemma_hex_len(b as nat, 32);
    if uuid_text(a) == uuid_text(b) {
        let s = uuid_text(a);
        let t = uuid_text(b);
        assert forall|i: int| 0 <= i < 32 implies x[i] == y[i] by {
            let at = if i < 8 {
                i
            } else if i < 12 {
                i + 1
            } else if i < 16 {
                i + 2
            } else if i < 20 {
                i + 3
            } else {
                i + 4
            };
            assert(s[at] == x[i]);
            assert(t[at] == y[i]);
        }
        assert(x =~= y);
        reveal_with_fuel(pow16, 33);
        assert(pow16(32) == 0x1_0000_0000_0000_0000_0000_0000_0000_0000);
        lemma_hex_injective(a as nat, b as nat, 32);
    }
}

} // verus!
