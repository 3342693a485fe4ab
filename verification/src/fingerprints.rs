//! What holds of the fingerprint by which an edit of a file is noticed.
use crate::campaign_config::{
    block, changed_since, counting, document, fingerprint_of, fnv, print_of, Agreement, FNV_PRIME,
};
use crate::numeral::{digit_char, hex_digits};
use crate::readback::{kept, law_edits_are_noticed};
use vstd::prelude::*;
use vstd::string::*;
use vstd::utf8::{encode_scalar, encode_utf8};

verus! {

/// Multiplying by the prime loses nothing: it has an inverse among the numbers of 64 bits.
proof fn lemma_prime_keeps_apart(u: u64, v: u64)
    requires
        u.wrapping_mul(FNV_PRIME) == v.wrapping_mul(FNV_PRIME),
    ensures
        u == v,
{
    let m: int = 0x1_0000_0000_0000_0000;
    let p: int = 0x100_0000_01b3;
    let q: int = 0xce96_5057_aff6_957b;
    let k: int = 887285111055;
    let a = u as int * p;
    let b = v as int * p;
    assert(a % m == b % m);
    vstd::arithmetic::div_mod::lemma_fundamental_div_mod(a, m);
    vstd::arithmetic::div_mod::lemma_fundamental_div_mod(b, m);
    let t = a / m - b / m;
    let d = u as int - v as int;
    assert(d * p == m * t) by (nonlinear_arith)
        requires
            a == u as int * p,
            b == v as int * p,
            d == u as int - v as int,
            a == m * (a / m) + a % m,
            b == m * (b / m) + b % m,
            a % m == b % m,
            t == a / m - b / m,
    ;
    assert(p * q == 1 + k * m);
    let w = t * q - d * k;
    assert(d == m * w) by (nonlinear_arith)
        requires
            d * p == m * t,
            p * q == 1 + k * m,
            w == t * q - d * k,
    ;
    assert(w == 0) by (nonlinear_arith)
        requires
            d == m * w,
            -m < d < m,
            m > 0,
    ;
}

/// Texts hash alike with the same bytes behind them if and only if they do without.
proof fn lemma_hashed_alike(p: Seq<u8>, q: Seq<u8>, s: Seq<u8>)
    ensures
        fnv(p + s) == fnv(q + s) <==> fnv(p) == fnv(q),
    decreases s.len(),
{
    if s.len() == 0 {
        assert(p + s =~= p);
        assert(q + s =~= q);
    } else {
        lemma_hashed_alike(p, q, s.drop_last());
        assert((p + s).drop_last() =~= p + s.drop_last());
        assert((q + s).drop_last() =~= q + s.drop_last());
        let g = fnv(p + s.drop_last());
        let h = fnv(q + s.drop_last());
        let b = s.last() as u64;
        assert(g != h ==> g ^ b != h ^ b) by (bit_vector);
        if fnv(p + s) == fnv(q + s) {
            lemma_prime_keeps_apart(g ^ b, h ^ b);
        }
    }
}

/// Two texts of bytes that differ in one place hash apart.
pub proof fn law_one_changed_byte_changes_the_hash(p: Seq<u8>, x: u8, y: u8, s: Seq<u8>)
    requires
        x != y,
    ensures
        fnv(p.push(x) + s) != fnv(p.push(y) + s),
{
    let h = fnv(p);
    let b = x as u64;
    let c = y as u64;
    assert(p.push(x).drop_last() =~= p);
    assert(p.push(y).drop_last() =~= p);
    assert(b != c ==> h ^ b != h ^ c) by (bit_vector);
    if fnv(p.push(x)) == fnv(p.push(y)) {
        lemma_prime_keeps_apart(h ^ b, h ^ c);
    }
    lemma_hashed_alike(p.push(x), p.push(y), s);
}

proof fn lemma_encoded_both(a: Seq<char>, b: Seq<char>)
    ensures
        encode_utf8(a + b) == encode_utf8(a) + encode_utf8(b),
    decreases a.len(),
{
    if a.len() == 0 {
        assert(a + b =~= b);
        assert(encode_utf8(a) + encode_utf8(b) =~= encode_utf8(b));
    } else {
        assert((a + b).drop_first() =~= a.drop_first() + b);
        lemma_encoded_both(a.drop_first(), b);
        assert(encode_scalar(a[0] as u32) + (encode_utf8(a.drop_first()) + encode_utf8(b))
            =~= encode_scalar(a[0] as u32) + encode_utf8(a.drop_first()) + encode_utf8(b));
    }
}

/// The one byte of a character of ASCII.
spec fn byte_of(c: char) -> u8 {
    encode_scalar(c as u32)[0]
}

proof fn lemma_encoded_one(c: char)
    requires
        (c as u32) < 0x80,
    ensures
        encode_utf8(seq![c]) == seq![byte_of(c)],
{
    let one = seq![c];
    assert(one.drop_first() =~= Seq::empty());
    reveal_with_fuel(encode_utf8, 2);
    assert(encode_utf8(one) =~= seq![byte_of(c)]);
}

proof fn lemma_bytes_apart(x: char, y: char)
    requires
        (x as u32) < 0x80,
        (y as u32) < 0x80,
        x != y,
    ensures
        byte_of(x) != byte_of(y),
{
    let a = x as u32;
    let b = y as u32;
    assert((a & 0x7f) as u8 != (b & 0x7f) as u8) by (bit_vector)
        requires
            a < 0x80,
            b < 0x80,
            a != b,
    ;
}

/// How many values some hexadecimal digits tell apart.
spec fn reach(n: nat) -> nat
    decreases n,
{
    if n == 0 {
        1
    } else {
        16 * reach((n - 1) as nat)
    }
}

proof fn lemma_hex_apart(v: nat, w: nat, n: nat)
    requires
        v < reach(n),
        w < reach(n),
        hex_digits(v, n) == hex_digits(w, n),
    ensures
        v == w,
    decreases n,
{
    if n > 0 {
        let a = hex_digits(v, n);
        let b = hex_digits(w, n);
        let m = (n - 1) as nat;
        assert(a.drop_last() =~= hex_digits(v / 16, m));
        assert(b.drop_last() =~= hex_digits(w / 16, m));
        assert(a.last() == digit_char((v % 16) as int));
        assert(b.last() == digit_char((w % 16) as int));
        lemma_hex_apart(v / 16, w / 16, m);
    }
}

/// Two texts have the same fingerprint if and only if they hash alike.
proof fn lemma_print_shows_the_hash(a: Seq<char>, b: Seq<char>)
    ensures
        print_of(a) == print_of(b) <==> fnv(encode_utf8(a)) == fnv(encode_utf8(b)),
{
    let v = fnv(encode_utf8(a)) as nat;
    let w = fnv(encode_utf8(b)) as nat;
    if print_of(a) == print_of(b) {
        let k = "fnv1a64:"@.len() as int;
        assert(print_of(a).skip(k) =~= hex_digits(v, 16));
        assert(print_of(b).skip(k) =~= hex_digits(w, 16));
        reveal_with_fuel(reach, 17);
        lemma_hex_apart(v, w, 16);
    }
}

/// Changing one character of ASCII in a text changes its fingerprint.
pub proof fn law_one_changed_character_changes_the_fingerprint(
    p: Seq<char>,
    x: char,
    y: char,
    s: Seq<char>,
)
    requires
        (x as u32) < 0x80,
        (y as u32) < 0x80,
        x != y,
    ensures
        print_of(p + seq![x] + s) != print_of(p + seq![y] + s),
{
    let head = encode_utf8(p);
    let tail = encode_utf8(s);
    lemma_encoded_both(p + seq![x], s);
    lemma_encoded_both(p, seq![x]);
    lemma_encoded_both(p + seq![y], s);
    lemma_encoded_both(p, seq![y]);
    lemma_encoded_one(x);
    lemma_encoded_one(y);
    lemma_bytes_apart(x, y);
    assert(head + seq![byte_of(x)] =~= head.push(byte_of(x)));
    assert(head + seq![byte_of(y)] =~= head.push(byte_of(y)));
    law_one_changed_byte_changes_the_hash(head, byte_of(x), byte_of(y), tail);
    lemma_print_shows_the_hash(p + seq![x] + s, p + seq![y] + s);
}

/// A file that counted as unchanged counts as changed once a character of ASCII in what
/// counts of it was replaced by another.
pub proof fn law_a_changed_character_is_noticed(
    a: Agreement,
    contents: Seq<char>,
    edited: Seq<char>,
    p: Seq<char>,
    x: char,
    y: char,
    s: Seq<char>,
)
    requires
        kept(a, contents),
        block(edited, "configured"@) == block(contents, "configured"@),
        counting(contents) == Ok::<_, Seq<char>>(p + seq![x] + s),
        counting(edited) == Ok::<_, Seq<char>>(p + seq![y] + s),
        (x as u32) < 0x80,
        (y as u32) < 0x80,
        x != y,
    ensures
        changed_since(document(edited, "configured"@), fingerprint_of(edited)),
{
    law_one_changed_character_changes_the_fingerprint(p, x, y, s);
    law_edits_are_noticed(a, contents, edited);
}

/// Replacing one passage of a text by another changes its fingerprint if and only if the
/// text up to the end of the one and up to the end of the other hash apart. What comes
/// behind the passage neither hides the edit nor shows it.
pub proof fn law_a_replaced_passage_shows_where_it_ends(
    p: Seq<char>,
    x: Seq<char>,
    y: Seq<char>,
    s: Seq<char>,
)
    ensures
        print_of(p + x + s) != print_of(p + y + s) <==> fnv(encode_utf8(p + x)) != fnv(
            encode_utf8(p + y),
        ),
{
    lemma_encoded_both(p + x, s);
    lemma_encoded_both(p + y, s);
    lemma_hashed_alike(encode_utf8(p + x), encode_utf8(p + y), encode_utf8(s));
    lemma_print_shows_the_hash(p + x + s, p + y + s);
}

/// A file that counted as unchanged counts as changed, once a passage in what counts of it
/// was replaced by another, if and only if the two hash apart where they end.
pub proof fn law_a_replaced_passage_is_noticed(
    a: Agreement,
    contents: Seq<char>,
    edited: Seq<char>,
    p: Seq<char>,
    x: Seq<char>,
    y: Seq<char>,
    s: Seq<char>,
)
    requires
        kept(a, contents),
        block(edited, "configured"@) == block(contents, "configured"@),
        counting(contents) == Ok::<_, Seq<char>>(p + x + s),
        counting(edited) == Ok::<_, Seq<char>>(p + y + s),
    ensures
        changed_since(document(edited, "configured"@), fingerprint_of(edited)) <==> fnv(
            encode_utf8(p + x),
        ) != fnv(encode_utf8(p + y)),
{
    law_a_replaced_passage_shows_where_it_ends(p, x, y, s);
    law_edits_are_noticed(a, contents, edited);
}

} // verus!
