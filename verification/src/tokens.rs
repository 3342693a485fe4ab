//! What holds of the numbers of tokens that a user writes.
use crate::cli::{token_count, token_parts, token_text};
use crate::numeral::{all_digits, decimal_value};
use crate::text::{
    digit, drop_spaces, ends, find_from, lemma_find_from, lower_char, lowered, occurs_at,
    replaced_from, skip_spaces, space, trimmed, trimmed_end, trimmed_start,
};
use vstd::prelude::*;
use vstd::string::*;

verus! {

/// Whether a text holds white space only.
pub open spec fn blank(s: Seq<char>) -> bool {
    forall|i: int| 0 <= i < s.len() ==> space(#[trigger] s[i])
}

/// Whether a text holds digits and underscores only, and a digit.
pub open spec fn grouped(s: Seq<char>) -> bool {
    &&& forall|i: int| 0 <= i < s.len() ==> digit(#[trigger] s[i]) || s[i] == '_'
    &&& ungrouped(s).len() > 0
}

/// A text without its underscores.
pub open spec fn ungrouped(s: Seq<char>) -> Seq<char>
    decreases s.len(),
{
    if s.len() == 0 {
        s
    } else if s.last() == '_' {
        ungrouped(s.drop_last())
    } else {
        ungrouped(s.drop_last()).push(s.last())
    }
}

/// What a suffix multiplies a number by: nothing, `k` and `m` in either case.
pub open spec fn unit(suffix: Seq<char>) -> Option<nat> {
    if suffix.len() == 0 {
        Some(1)
    } else if suffix == seq!['k'] || suffix == seq!['K'] {
        Some(1_024)
    } else if suffix == seq!['m'] || suffix == seq!['M'] {
        Some(1_048_576)
    } else {
        None
    }
}

proof fn lemma_skip_blank(s: Seq<char>, n: int, pos: int)
    requires
        0 <= pos <= n <= s.len(),
        blank(s.take(n)),
        n < s.len() ==> !space(s[n]),
    ensures
        skip_spaces(s, pos) == n,
    decreases n - pos,
{
    if pos < n {
        assert(s.take(n)[pos] == s[pos]);
        lemma_skip_blank(s, n, pos + 1);
    }
}

proof fn lemma_drop_blank(s: Seq<char>, n: int, end: int)
    requires
        0 <= n <= end <= s.len(),
        blank(s.skip(n)),
        n > 0 ==> !space(s[n - 1]),
    ensures
        drop_spaces(s, end) == n,
    decreases end - n,
{
    if end > n {
        assert(s.skip(n)[end - 1 - n] == s[end - 1]);
        lemma_drop_blank(s, n, end - 1);
    }
}

/// Trimming takes white space away from both ends, and nothing else.
pub proof fn lemma_trimmed_between(before: Seq<char>, s: Seq<char>, after: Seq<char>)
    requires
        blank(before),
        blank(after),
        s.len() > 0,
        !space(s[0]),
        !space(s.last()),
    ensures
        trimmed(before + s + after) == s,
{
    let whole = before + s + after;
    let n = before.len() as int;
    assert(whole.take(n) =~= before);
    assert(whole[n] == s[0]);
    lemma_skip_blank(whole, n, 0);
    let rest = s + after;
    assert(trimmed_start(whole) =~= rest);
    let m = s.len() as int;
    assert(rest.skip(m) =~= after);
    assert(rest[m - 1] == s.last());
    lemma_drop_blank(rest, m, rest.len() as int);
    assert(trimmed_end(rest) =~= s);
}

proof fn lemma_ungrouped_add(a: Seq<char>, b: Seq<char>)
    ensures
        ungrouped(a + b) == ungrouped(a) + ungrouped(b),
    decreases b.len(),
{
    if b.len() == 0 {
        assert(a + b =~= a);
        assert(ungrouped(a) + ungrouped(b) =~= ungrouped(a));
    } else {
        assert((a + b).drop_last() =~= a + b.drop_last());
        assert((a + b).last() == b.last());
        lemma_ungrouped_add(a, b.drop_last());
        assert(ungrouped(a) + ungrouped(b.drop_last()).push(b.last()) =~= (ungrouped(a)
            + ungrouped(b.drop_last())).push(b.last()));
    }
}

proof fn lemma_ungrouped_same(s: Seq<char>)
    requires
        forall|i: int| 0 <= i < s.len() ==> #[trigger] s[i] != '_',
    ensures
        ungrouped(s) == s,
    decreases s.len(),
{
    if s.len() > 0 {
        assert(s.last() == s[s.len() - 1]);
        lemma_ungrouped_same(s.drop_last());
        assert(s.drop_last().push(s.last()) =~= s);
    }
}

/// Taking the underscores out is replacing them by nothing.
proof fn lemma_replaced_underscores(s: Seq<char>, pos: int)
    requires
        0 <= pos <= s.len(),
    ensures
        replaced_from(s, "_"@, ""@, pos) == ungrouped(s.skip(pos)),
    decreases s.len() - pos,
{
    reveal_strlit("_");
    reveal_strlit("");
    assert(""@ =~= Seq::<char>::empty());
    lemma_find_from(s, "_"@, pos);
    match find_from(s, "_"@, pos) {
        Some(i) => {
            let part = s.subrange(pos, i);
            assert(s.subrange(i, i + 1)[0] == "_"@[0]);
            assert forall|k: int| 0 <= k < part.len() implies #[trigger] part[k] != '_' by {
                if part[k] == '_' {
                    assert(s.subrange(pos + k, pos + k + 1) =~= "_"@);
                    assert(occurs_at(s, "_"@, pos + k));
                }
            }
            lemma_ungrouped_same(part);
            lemma_replaced_underscores(s, i + 1);
            let mark = s.subrange(i, i + 1);
            assert(s.skip(pos) =~= part + mark + s.skip(i + 1));
            lemma_ungrouped_add(part + mark, s.skip(i + 1));
            lemma_ungrouped_add(part, mark);
            assert(mark.drop_last() =~= Seq::<char>::empty());
            assert(mark.last() == '_');
            assert(ungrouped(mark) =~= Seq::<char>::empty()) by {
                reveal_with_fuel(ungrouped, 2);
            }
            assert(part + Seq::<char>::empty() =~= part);
            assert(part + ""@ =~= part);
        },
        None => {
            let part = s.skip(pos);
            assert(s.subrange(pos, s.len() as int) =~= part);
            assert forall|k: int| 0 <= k < part.len() implies #[trigger] part[k] != '_' by {
                if part[k] == '_' {
                    assert(s.subrange(pos + k, pos + k + 1) =~= "_"@);
                    assert(occurs_at(s, "_"@, pos + k));
                }
            }
            lemma_ungrouped_same(part);
        },
    }
}

proof fn lemma_ungrouped_digits(s: Seq<char>)
    requires
        forall|i: int| 0 <= i < s.len() ==> digit(#[trigger] s[i]) || s[i] == '_',
    ensures
        all_digits(ungrouped(s)),
    decreases s.len(),
{
    if s.len() > 0 {
        assert(s.last() == s[s.len() - 1]);
        lemma_ungrouped_digits(s.drop_last());
    }
}

/// What is read of digits with a suffix.
proof fn lemma_token_text(before: Seq<char>, digits: Seq<char>, suffix: Seq<char>, after: Seq<char>)
    requires
        blank(before),
        blank(after),
        grouped(digits),
        unit(suffix) is Some,
    ensures
        token_text(before + digits + suffix + after) == ungrouped(digits) + lowered(suffix),
{
    let s = digits + suffix;
    assert(digits.len() > 0);
    assert(before + digits + suffix + after =~= before + s + after);
    assert(s[0] == digits[0]);
    assert(s.last() == if suffix.len() == 0 { digits[digits.len() - 1] } else { suffix[0] });
    lemma_trimmed_between(before, s, after);
    lemma_replaced_underscores(s, 0);
    assert(s.skip(0) =~= s);
    lemma_ungrouped_add(digits, suffix);
    lemma_ungrouped_same(suffix);
    lemma_ungrouped_digits(digits);
    assert(lowered(ungrouped(digits) + suffix) =~= ungrouped(digits) + lowered(suffix));
}

/// A number of tokens is its digits times its unit: 1024 for `k`, 1048576 for `m`, and 1
/// without a suffix. It is read if and only if that is above zero and fits in 64 bits.
/// White space round it, underscores among its digits and the case of its suffix do not
/// matter.
pub proof fn law_token_counts_are_digits_with_a_unit(
    before: Seq<char>,
    digits: Seq<char>,
    suffix: Seq<char>,
    after: Seq<char>,
)
    requires
        blank(before),
        blank(after),
        grouped(digits),
        unit(suffix) is Some,
    ensures
        ({
            let n = decimal_value(ungrouped(digits)) * unit(suffix)->0;
            match token_count(before + digits + suffix + after) {
                Ok(count) => 0 < n <= u64::MAX && count == n,
                Err(_) => n == 0 || n > u64::MAX,
            }
        }),
{
    reveal_strlit("k");
    reveal_strlit("m");
    reveal_strlit("%");
    let plain = ungrouped(digits);
    lemma_token_text(before, digits, suffix, after);
    lemma_ungrouped_digits(digits);
    let text = plain + lowered(suffix);
    let last = text.subrange(text.len() - 1, text.len() as int);
    assert(last[0] == text.last());
    assert(digit(plain[plain.len() - 1]));
    assert(plain[0] != '+');
    if suffix.len() == 0 {
        assert(text =~= plain);
        assert(text.last() == plain[plain.len() - 1]);
        assert(token_parts(text) == (plain, 1nat));
    } else {
        assert(text.last() == lower_char(suffix[0]));
        assert(text.subrange(0, text.len() - 1) =~= plain);
        if unit(suffix) == Some(1_024nat) {
            assert(text.last() == 'k');
            assert(last =~= "k"@);
        } else {
            assert(text.last() == 'm');
            assert(last =~= "m"@);
        }
        assert(token_parts(text) == (plain, unit(suffix)->0));
    }
    assert(!ends(text, "%"@));
    let value = decimal_value(plain);
    let by = unit(suffix)->0;
    assert(value <= value * by) by (nonlinear_arith)
        requires
            by >= 1,
    ;
}

/// A percentage is no number of tokens.
pub proof fn law_percentages_are_no_token_counts(before: Seq<char>, s: Seq<char>, after: Seq<char>)
    requires
        blank(before),
        blank(after),
        s.len() == 0 || !space(s[0]),
    ensures
        token_count(before + s.push('%') + after) is Err,
{
    reveal_strlit("%");
    let whole = s.push('%');
    lemma_trimmed_between(before, whole, after);
    lemma_replaced_underscores(whole, 0);
    assert(whole.skip(0) =~= whole);
    assert(whole.drop_last() =~= s);
    let text = lowered(ungrouped(whole));
    assert(text.last() == '%');
    assert(text.subrange(text.len() - 1, text.len() as int) =~= "%"@);
}

} // verus!
