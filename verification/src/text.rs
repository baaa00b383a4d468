//! Verified text primitives: substring predicates, joining, decimal
//! rendering, identifier escaping and lexicographic ordering, each exec
//! function pinned to a spec function over `Seq<char>`.

use vstd::prelude::*;

verus! {

use vstd::string::StrSliceExecFns;
use vstd::string::StringExecFns;

/// `n` is a prefix of `h`.
pub open spec fn is_prefix_of(n: Seq<char>, h: Seq<char>) -> bool
    decreases n.len(),
{
    n.len() == 0 || (h.len() > 0 && n[0] == h[0] && is_prefix_of(n.drop_first(), h.drop_first()))
}

/// `n` occurs as a contiguous substring of `h`.
pub open spec fn contains_sub(h: Seq<char>, n: Seq<char>) -> bool
    decreases h.len(),
{
    is_prefix_of(n, h) || (h.len() > 0 && contains_sub(h.drop_first(), n))
}

pub proof fn lemma_prefix_refl(n: Seq<char>)
    ensures
        is_prefix_of(n, n),
    decreases n.len(),
{
    if n.len() > 0 {
        lemma_prefix_refl(n.drop_first());
    }
}

pub proof fn lemma_prefix_extend(n: Seq<char>, a: Seq<char>, b: Seq<char>)
    requires
        is_prefix_of(n, a),
    ensures
        is_prefix_of(n, a + b),
    decreases n.len(),
{
    if n.len() == 0 {
    } else {
        assert(a.len() > 0);
        assert((a + b)[0] == a[0]);
        assert((a + b).len() > 0);
        assert((a + b).drop_first() =~= a.drop_first() + b);
        lemma_prefix_extend(n.drop_first(), a.drop_first(), b);
    }
}

/// A sequence is a prefix of itself followed by anything.
pub proof fn lemma_prefix_of_concat(a: Seq<char>, b: Seq<char>)
    ensures
        is_prefix_of(a, a + b),
{
    lemma_prefix_refl(a);
    lemma_prefix_extend(a, a, b);
}

pub proof fn lemma_contains_self(s: Seq<char>)
    ensures
        contains_sub(s, s),
{
    lemma_prefix_refl(s);
}

/// A substring of the right part is a substring of the whole.
pub proof fn lemma_contains_concat_r(a: Seq<char>, b: Seq<char>, n: Seq<char>)
    requires
        contains_sub(b, n),
    ensures
        contains_sub(a + b, n),
    decreases a.len(),
{
    if a.len() == 0 {
        assert(a + b =~= b);
    } else {
        lemma_contains_concat_r(a.drop_first(), b, n);
        assert((a + b).drop_first() =~= a.drop_first() + b);
        assert((a + b).len() > 0);
    }
}

/// A substring of the left part is a substring of the whole.
pub proof fn lemma_contains_concat_l(a: Seq<char>, b: Seq<char>, n: Seq<char>)
    requires
        contains_sub(a, n),
    ensures
        contains_sub(a + b, n),
    decreases a.len(),
{
    if is_prefix_of(n, a) {
        lemma_prefix_extend(n, a, b);
    } else {
        assert(a.len() > 0);
        lemma_contains_concat_l(a.drop_first(), b, n);
        assert((a + b).drop_first() =~= a.drop_first() + b);
        assert((a + b).len() > 0);
    }
}

/// A substring of one part is a substring of the joined whole.
pub proof fn lemma_contains_join(parts: Seq<Seq<char>>, sep: Seq<char>, k: int, n: Seq<char>)
    requires
        0 <= k < parts.len(),
        contains_sub(parts[k], n),
    ensures
        contains_sub(join_with(parts, sep), n),
    decreases parts.len(),
{
    if parts.len() == 1 {
        assert(join_with(parts, sep) == parts[0]);
    } else if k == parts.len() - 1 {
        lemma_contains_concat_r(join_with(parts.drop_last(), sep) + sep, parts.last(), n);
        assert(join_with(parts, sep) =~= (join_with(parts.drop_last(), sep) + sep) + parts.last());
    } else {
        assert(parts.drop_last()[k] == parts[k]);
        lemma_contains_join(parts.drop_last(), sep, k, n);
        lemma_contains_concat_l(join_with(parts.drop_last(), sep), sep, n);
        lemma_contains_concat_l(join_with(parts.drop_last(), sep) + sep, parts.last(), n);
        assert(join_with(parts, sep) =~= (join_with(parts.drop_last(), sep) + sep) + parts.last());
    }
}

/// `c` occurs somewhere in `s`.
pub open spec fn in_seq(c: char, s: Seq<char>) -> bool {
    exists|k: int| 0 <= k < s.len() && s[k] == c
}

pub proof fn lemma_prefix_index(n: Seq<char>, h: Seq<char>)
    requires
        is_prefix_of(n, h),
    ensures
        n.len() <= h.len(),
        forall|i: int| 0 <= i < n.len() ==> n[i] == h[i],
    decreases n.len(),
{
    if n.len() > 0 {
        lemma_prefix_index(n.drop_first(), h.drop_first());
        assert forall|i: int| 0 <= i < n.len() implies n[i] == h[i] by {
            if i > 0 {
                assert(n.drop_first()[i - 1] == h.drop_first()[i - 1]);
            }
        }
    }
}

/// Every character of a substring occurs in the text that holds it.
pub proof fn lemma_contains_chars(h: Seq<char>, n: Seq<char>)
    requires
        contains_sub(h, n),
    ensures
        forall|i: int| 0 <= i < n.len() ==> in_seq(#[trigger] n[i], h),
    decreases h.len(),
{
    if is_prefix_of(n, h) {
        lemma_prefix_index(n, h);
        assert forall|i: int| 0 <= i < n.len() implies in_seq(#[trigger] n[i], h) by {
            assert(h[i] == n[i]);
        }
    } else {
        lemma_contains_chars(h.drop_first(), n);
        assert forall|i: int| 0 <= i < n.len() implies in_seq(#[trigger] n[i], h) by {
            let k = choose|k: int| 0 <= k < h.drop_first().len() && h.drop_first()[k] == n[i];
            assert(h[k + 1] == n[i]);
        }
    }
}

/// A text missing some character of `n` cannot hold `n`.
pub proof fn lemma_missing_char_free(h: Seq<char>, n: Seq<char>, ci: int)
    requires
        0 <= ci < n.len(),
        !in_seq(n[ci], h),
    ensures
        !contains_sub(h, n),
{
    if contains_sub(h, n) {
        lemma_contains_chars(h, n);
    }
}

/// Concatenation keeps a text free of `n` when the boundary cannot
/// start or finish an occurrence: one of the two adjacent characters
/// does not occur in `n` at all.
pub proof fn lemma_append_free(a: Seq<char>, b: Seq<char>, n: Seq<char>)
    requires
        !contains_sub(a, n),
        !contains_sub(b, n),
        n.len() > 0,
        a.len() == 0 || b.len() == 0 || !in_seq(a.last(), n) || !in_seq(b.first(), n),
    ensures
        !contains_sub(a + b, n),
    decreases a.len(),
{
    if a.len() == 0 {
        assert(a + b =~= b);
    } else {
        assert(!contains_sub(a.drop_first(), n));
        if a.len() > 1 {
            assert(a.drop_first().last() == a.last());
        }
        lemma_append_free(a.drop_first(), b, n);
        assert((a + b).drop_first() =~= a.drop_first() + b);
        if is_prefix_of(n, a + b) {
            lemma_prefix_index(n, a + b);
            if n.len() <= a.len() {
                assert(a.len() > 0);
                assert forall|i: int| 0 <= i < n.len() implies n[i] == a[i] by {
                    assert(n[i] == (a + b)[i]);
                }
                lemma_prefix_from_index(n, a);
                assert(contains_sub(a, n));
                assert(false);
            } else {
                assert(b.len() > 0);
                assert(a.last() == (a + b)[a.len() - 1]);
                assert(n[a.len() - 1] == (a + b)[a.len() - 1]);
                assert(in_seq(a.last(), n));
                assert(b.first() == (a + b)[a.len() as int]);
                assert(n[a.len() as int] == (a + b)[a.len() as int]);
                assert(in_seq(b.first(), n));
                assert(false);
            }
        }
    }
}

/// Pointwise equality of a short sequence with the front of a longer
/// one makes it a prefix.
pub proof fn lemma_prefix_from_index(n: Seq<char>, h: Seq<char>)
    requires
        n.len() <= h.len(),
        forall|i: int| 0 <= i < n.len() ==> n[i] == h[i],
    ensures
        is_prefix_of(n, h),
    decreases n.len(),
{
    if n.len() > 0 {
        assert forall|i: int| 0 <= i < n.drop_first().len() implies n.drop_first()[i]
            == h.drop_first()[i] by {
            assert(n[i + 1] == h[i + 1]);
        }
        lemma_prefix_from_index(n.drop_first(), h.drop_first());
    }
}

/// Joining needle-free parts with a needle-free separator whose end
/// characters do not occur in the needle keeps the text free of it.
pub proof fn lemma_join_free(parts: Seq<Seq<char>>, sep: Seq<char>, n: Seq<char>)
    requires
        forall|j: int| 0 <= j < parts.len() ==> !contains_sub(#[trigger] parts[j], n),
        !contains_sub(sep, n),
        n.len() > 0,
        sep.len() > 0,
        !in_seq(sep.first(), n),
        !in_seq(sep.last(), n),
    ensures
        !contains_sub(join_with(parts, sep), n),
    decreases parts.len(),
{
    if parts.len() == 0 {
    } else if parts.len() == 1 {
        assert(join_with(parts, sep) == parts[0]);
    } else {
        assert forall|j: int| 0 <= j < parts.drop_last().len() implies !contains_sub(
            #[trigger] parts.drop_last()[j],
            n,
        ) by {
            assert(parts.drop_last()[j] == parts[j]);
        }
        lemma_join_free(parts.drop_last(), sep, n);
        lemma_append_free(join_with(parts.drop_last(), sep), sep, n);
        if sep.len() > 0 {
            assert((join_with(parts.drop_last(), sep) + sep).last() == sep.last());
        }
        lemma_append_free(join_with(parts.drop_last(), sep) + sep, parts.last(), n);
    }
}

/// The parts joined with `sep` between consecutive parts.
pub open spec fn join_with(parts: Seq<Seq<char>>, sep: Seq<char>) -> Seq<char>
    decreases parts.len(),
{
    if parts.len() == 0 {
        Seq::empty()
    } else if parts.len() == 1 {
        parts[0]
    } else {
        join_with(parts.drop_last(), sep) + sep + parts.last()
    }
}

/// The single decimal digit for `d < 10`.
pub open spec fn dec_digit(d: nat) -> Seq<char> {
    if d == 0 {
        "0"@
    } else if d == 1 {
        "1"@
    } else if d == 2 {
        "2"@
    } else if d == 3 {
        "3"@
    } else if d == 4 {
        "4"@
    } else if d == 5 {
        "5"@
    } else if d == 6 {
        "6"@
    } else if d == 7 {
        "7"@
    } else if d == 8 {
        "8"@
    } else {
        "9"@
    }
}

/// Decimal rendering of `n`, most significant digit first, no leading zeros.
pub open spec fn dec_str(n: nat) -> Seq<char>
    decreases n,
{
    if n < 10 {
        dec_digit(n)
    } else {
        dec_str(n / 10) + dec_digit(n % 10)
    }
}

/// The numeric value of a decimal digit character.
pub open spec fn digit_val(c: char) -> nat {
    if c == '1' {
        1
    } else if c == '2' {
        2
    } else if c == '3' {
        3
    } else if c == '4' {
        4
    } else if c == '5' {
        5
    } else if c == '6' {
        6
    } else if c == '7' {
        7
    } else if c == '8' {
        8
    } else if c == '9' {
        9
    } else {
        0
    }
}

/// The number a digit sequence denotes.
pub open spec fn dec_val(s: Seq<char>) -> nat
    decreases s.len(),
{
    if s.len() == 0 {
        0
    } else {
        dec_val(s.drop_last()) * 10 + digit_val(s.last())
    }
}

pub proof fn lemma_dec_digit_props(d: nat)
    requires
        d < 10,
    ensures
        dec_digit(d).len() == 1,
        digit_val(dec_digit(d)[0]) == d,
{
    reveal_strlit("0");
    reveal_strlit("1");
    reveal_strlit("2");
    reveal_strlit("3");
    reveal_strlit("4");
    reveal_strlit("5");
    reveal_strlit("6");
    reveal_strlit("7");
    reveal_strlit("8");
    reveal_strlit("9");
}

/// Parsing back a decimal rendering recovers the number.
pub proof fn lemma_dec_val_inverse(n: nat)
    ensures
        dec_val(dec_str(n)) == n,
        dec_str(n).len() >= 1,
    decreases n,
{
    if n < 10 {
        lemma_dec_digit_props(n);
        assert(dec_str(n) == dec_digit(n));
        assert(dec_str(n).len() == 1);
        assert(dec_str(n).drop_last() =~= Seq::<char>::empty());
        assert(dec_val(Seq::<char>::empty()) == 0);
        assert(dec_val(dec_str(n).drop_last()) == 0);
        assert(dec_str(n).last() == dec_digit(n)[0]);
        assert(dec_val(dec_str(n)) == 0 * 10 + digit_val(dec_str(n).last()));
    } else {
        lemma_dec_val_inverse(n / 10);
        lemma_dec_digit_props(n % 10);
        let a = dec_str(n / 10);
        let w = a + dec_digit(n % 10);
        assert(dec_str(n) == w);
        assert(w.drop_last() =~= a);
        assert(w.last() == dec_digit(n % 10)[0]);
        assert(dec_val(w) == dec_val(a) * 10 + (n % 10));
        assert((n / 10) * 10 + n % 10 == n) by {
            vstd::arithmetic::div_mod::lemma_fundamental_div_mod(n as int, 10);
        }
    }
}

/// Decimal renderings of distinct numbers are distinct.
pub proof fn lemma_dec_str_injective(m: nat, n: nat)
    requires
        dec_str(m) == dec_str(n),
    ensures
        m == n,
{
    lemma_dec_val_inverse(m);
    lemma_dec_val_inverse(n);
}

/// The character-level rewrite applied to column aliases: `"` doubles,
/// `_` becomes `-`, anything else stays.
pub open spec fn alias_chunk(c: char) -> Seq<char> {
    if c == '"' {
        "\"\""@
    } else if c == '_' {
        "-"@
    } else {
        seq![c]
    }
}

/// Alias escaping applied to a whole name.
pub open spec fn alias_escape(s: Seq<char>) -> Seq<char>
    decreases s.len(),
{
    if s.len() == 0 {
        Seq::empty()
    } else {
        alias_escape(s.drop_last()) + alias_chunk(s.last())
    }
}

/// The character-level rewrite inside SQL string literals: `'` doubles.
pub open spec fn squote_chunk(c: char) -> Seq<char> {
    if c == '\'' {
        "''"@
    } else {
        seq![c]
    }
}

/// Single-quote doubling applied to a whole string.
pub open spec fn squote_escape(s: Seq<char>) -> Seq<char>
    decreases s.len(),
{
    if s.len() == 0 {
        Seq::empty()
    } else {
        squote_escape(s.drop_last()) + squote_chunk(s.last())
    }
}

/// A name begins with the two-character internal prefix `__`.
pub open spec fn starts_internal(s: Seq<char>) -> bool {
    s.len() >= 2 && s[0] == '_' && s[1] == '_'
}

/// `a` is at most `b` in lexicographic order over unicode scalar values.
pub open spec fn lex_leq(a: Seq<char>, b: Seq<char>) -> bool
    decreases a.len(),
{
    if a.len() == 0 {
        true
    } else if b.len() == 0 {
        false
    } else if a[0] != b[0] {
        (a[0] as u32) < (b[0] as u32)
    } else {
        lex_leq(a.drop_first(), b.drop_first())
    }
}

pub proof fn lemma_lex_connected(a: Seq<char>, b: Seq<char>)
    ensures
        lex_leq(a, b) || lex_leq(b, a),
    decreases a.len(),
{
    if a.len() == 0 || b.len() == 0 {
    } else if a[0] != b[0] {
        vstd::utf8::char_u32_cast(a[0], a[0] as u32);
        vstd::utf8::char_u32_cast(b[0], b[0] as u32);
        assert((a[0] as u32) != (b[0] as u32));
    } else {
        lemma_lex_connected(a.drop_first(), b.drop_first());
    }
}

pub proof fn lemma_lex_antisym(a: Seq<char>, b: Seq<char>)
    requires
        lex_leq(a, b),
        lex_leq(b, a),
    ensures
        a == b,
    decreases a.len(),
{
    if a.len() == 0 {
        assert(b.len() == 0);
        assert(a =~= b);
    } else {
        assert(b.len() > 0);
        assert(a[0] == b[0]);
        lemma_lex_antisym(a.drop_first(), b.drop_first());
        assert(a =~= b) by {
            assert(a.drop_first() =~= b.drop_first());
            assert(a.drop_first().len() == a.len() - 1);
            assert(b.drop_first().len() == b.len() - 1);
            assert(a.len() == b.len());
            assert forall|i: int| 0 <= i < a.len() implies a[i] == b[i] by {
                if i > 0 {
                    assert(a[i] == a.drop_first()[i - 1]);
                    assert(b[i] == b.drop_first()[i - 1]);
                }
            }
        }
    }
}

pub proof fn lemma_lex_trans(a: Seq<char>, b: Seq<char>, c: Seq<char>)
    requires
        lex_leq(a, b),
        lex_leq(b, c),
    ensures
        lex_leq(a, c),
    decreases a.len(),
{
    if a.len() == 0 {
    } else {
        assert(b.len() > 0);
        assert(c.len() > 0);
        if a[0] == b[0] && b[0] == c[0] {
            lemma_lex_trans(a.drop_first(), b.drop_first(), c.drop_first());
        } else {
            broadcast use vstd::utf8::char_u32_cast;

            if a[0] != b[0] {
                assert((a[0] as u32) < (b[0] as u32));
            }
            if b[0] != c[0] {
                assert((b[0] as u32) < (c[0] as u32));
            }
            assert((a[0] as u32) < (c[0] as u32));
            assert(a[0] != c[0]);
        }
    }
}

/// `lex_leq` as a binary relation value, for sorting.
pub open spec fn lex_leq_fn() -> spec_fn(Seq<char>, Seq<char>) -> bool {
    |x: Seq<char>, y: Seq<char>| lex_leq(x, y)
}

/// `lex_leq` reversed, for descending sorts.
pub open spec fn lex_geq_fn() -> spec_fn(Seq<char>, Seq<char>) -> bool {
    |x: Seq<char>, y: Seq<char>| lex_leq(y, x)
}

pub proof fn lemma_lex_total_ordering()
    ensures
        vstd::relations::total_ordering(lex_leq_fn()),
        vstd::relations::total_ordering(lex_geq_fn()),
{
    assert forall|a: Seq<char>, b: Seq<char>| #[trigger] lex_leq(a, b) && lex_leq(b, a) implies a
        == b by {
        lemma_lex_antisym(a, b);
    }
    assert forall|a: Seq<char>, b: Seq<char>, c: Seq<char>|
        #[trigger] lex_leq(a, b) && #[trigger] lex_leq(b, c) implies lex_leq(a, c) by {
        lemma_lex_trans(a, b, c);
    }
    assert forall|a: Seq<char>, b: Seq<char>| true implies #[trigger] lex_leq(a, b) || lex_leq(
        b,
        a,
    ) by {
        lemma_lex_connected(a, b);
    }
}

/// Renders one decimal digit.
pub fn digit_str(d: usize) -> (r: &'static str)
    requires
        d < 10,
    ensures
        r@ == dec_digit(d as nat),
{
    if d == 0 {
        "0"
    } else if d == 1 {
        "1"
    } else if d == 2 {
        "2"
    } else if d == 3 {
        "3"
    } else if d == 4 {
        "4"
    } else if d == 5 {
        "5"
    } else if d == 6 {
        "6"
    } else if d == 7 {
        "7"
    } else if d == 8 {
        "8"
    } else {
        "9"
    }
}

/// Renders `n` in decimal.
pub fn usize_to_string(n: usize) -> (r: String)
    ensures
        r@ == dec_str(n as nat),
    decreases n,
{
    if n < 10 {
        digit_str(n).to_owned()
    } else {
        assert(n / 10 < n);
        let mut s = usize_to_string(n / 10);
        s.append(digit_str(n % 10));
        s
    }
}

/// Appends the alias-escaped form of `s` to `out`.
pub fn append_alias_escaped(out: &mut String, s: &str)
    ensures
        final(out)@ == old(out)@ + alias_escape(s@),
{
    let n = s.unicode_len();
    let mut i: usize = 0;
    while i < n
        invariant
            n == s@.len(),
            i <= n,
            out@ == old(out)@ + alias_escape(s@.take(i as int)),
        decreases n - i,
    {
        let c = s.get_char(i);
        if c == '"' {
            out.append("\"\"");
        } else if c == '_' {
            out.append("-");
        } else {
            let piece = s.substring_char(i, i + 1);
            proof {
                assert(piece@ =~= seq![s@[i as int]]);
            }
            out.append(piece);
        }
        proof {
            assert(s@.take(i + 1).drop_last() =~= s@.take(i as int));
            assert(s@.take(i + 1).last() == s@[i as int]);
        }
        i = i + 1;
    }
    proof {
        assert(s@.take(n as int) =~= s@);
    }
}

/// Appends the single-quote-doubled form of `s` to `out`.
pub fn append_squote_escaped(out: &mut String, s: &str)
    ensures
        final(out)@ == old(out)@ + squote_escape(s@),
{
    let n = s.unicode_len();
    let mut i: usize = 0;
    while i < n
        invariant
            n == s@.len(),
            i <= n,
            out@ == old(out)@ + squote_escape(s@.take(i as int)),
        decreases n - i,
    {
        let c = s.get_char(i);
        if c == '\'' {
            out.append("''");
        } else {
            let piece = s.substring_char(i, i + 1);
            proof {
                assert(piece@ =~= seq![s@[i as int]]);
            }
            out.append(piece);
        }
        proof {
            assert(s@.take(i + 1).drop_last() =~= s@.take(i as int));
            assert(s@.take(i + 1).last() == s@[i as int]);
        }
        i = i + 1;
    }
    proof {
        assert(s@.take(n as int) =~= s@);
    }
}

/// Whether `s` begins with the internal `__` prefix.
pub fn is_internal_name(s: &str) -> (r: bool)
    ensures
        r == starts_internal(s@),
{
    let n = s.unicode_len();
    if n < 2 {
        false
    } else {
        s.get_char(0) == '_' && s.get_char(1) == '_'
    }
}

/// Character-for-character string equality.
pub fn str_eq(a: &str, b: &str) -> (r: bool)
    ensures
        r == (a@ == b@),
{
    let an = a.unicode_len();
    let bn = b.unicode_len();
    if an != bn {
        return false;
    }
    let mut i: usize = 0;
    while i < an
        invariant
            i <= an,
            an == a@.len(),
            an == b@.len(),
            forall|j: int| 0 <= j < i ==> a@[j] == b@[j],
        decreases an - i,
    {
        if a.get_char(i) != b.get_char(i) {
            return false;
        }
        i = i + 1;
    }
    proof {
        assert(a@ =~= b@);
    }
    true
}

/// Lexicographic comparison of two strings.
pub fn str_leq(a: &str, b: &str) -> (r: bool)
    ensures
        r == lex_leq(a@, b@),
{
    let an = a.unicode_len();
    let bn = b.unicode_len();
    let mut i: usize = 0;
    proof {
        assert(a@.skip(0) =~= a@);
        assert(b@.skip(0) =~= b@);
    }
    loop
        invariant
            i <= an,
            i <= bn,
            an == a@.len(),
            bn == b@.len(),
            lex_leq(a@, b@) == lex_leq(a@.skip(i as int), b@.skip(i as int)),
        decreases an - i,
    {
        if i >= an {
            return true;
        }
        if i >= bn {
            return false;
        }
        let ca = a.get_char(i);
        let cb = b.get_char(i);
        if ca != cb {
            proof {
                broadcast use vstd::utf8::char_u32_cast;

                assert((ca as u32) != (cb as u32));
            }
            return (ca as u32) < (cb as u32);
        }
        proof {
            assert(a@.skip(i as int).drop_first() =~= a@.skip(i + 1));
            assert(b@.skip(i as int).drop_first() =~= b@.skip(i + 1));
        }
        i = i + 1;
    }
}

/// Inserting `x` at a position bounded by its neighbours keeps a
/// sequence sorted.
proof fn lemma_insert_sorted(
    s: Seq<Seq<char>>,
    x: Seq<char>,
    p: int,
    leq: spec_fn(Seq<char>, Seq<char>) -> bool,
)
    requires
        vstd::relations::total_ordering(leq),
        vstd::relations::sorted_by(s, leq),
        0 <= p <= s.len(),
        forall|k: int| 0 <= k < p ==> #[trigger] leq(s[k], x),
        p < s.len() ==> leq(x, s[p]),
    ensures
        vstd::relations::sorted_by(s.insert(p, x), leq),
{
    let t = s.insert(p, x);
    assert forall|a: int, b: int| 0 <= a < b < t.len() implies #[trigger] leq(t[a], t[b]) by {
        assert(vstd::relations::transitive(leq));
        if b < p {
            assert(t[a] == s[a] && t[b] == s[b]);
        } else if a > p {
            assert(t[a] == s[a - 1] && t[b] == s[b - 1]);
        } else if a == p {
            assert(t[a] == x && t[b] == s[b - 1]);
            assert(leq(x, s[p]));
            if b - 1 > p {
                assert(leq(s[p], s[b - 1]));
                assert(leq(x, s[b - 1]));
            }
        } else if b == p {
            assert(t[a] == s[a] && t[b] == x);
            assert(leq(s[a], x));
        } else {
            assert(t[a] == s[a] && t[b] == s[b - 1]);
            assert(leq(s[a], x));
            assert(leq(x, s[p]));
            if b - 1 > p {
                assert(leq(s[p], s[b - 1]));
            }
            assert(leq(x, s[b - 1]));
            assert(leq(s[a], s[b - 1]) || leq(s[a], x));
            assert(leq(s[a], t[b]));
        }
    }
}

/// The first position whose element does not precede `x` in the chosen
/// direction.
fn insertion_point(out: &Vec<String>, x: &str, ascending: bool) -> (pos: usize)
    ensures
        pos <= out.len(),
        forall|k: int|
            0 <= k < pos ==> (if ascending {
                lex_leq(#[trigger] out.deep_view()[k], x@)
            } else {
                lex_leq(x@, #[trigger] out.deep_view()[k])
            }),
        pos < out.len() ==> (if ascending {
            !lex_leq(out.deep_view()[pos as int], x@)
        } else {
            !lex_leq(x@, out.deep_view()[pos as int])
        }),
{
    let mut pos: usize = 0;
    while pos < out.len()
        invariant
            pos <= out.len(),
            forall|k: int|
                0 <= k < pos ==> (if ascending {
                    lex_leq(#[trigger] out.deep_view()[k], x@)
                } else {
                    lex_leq(x@, #[trigger] out.deep_view()[k])
                }),
        decreases out.len() - pos,
    {
        let cmp = if ascending {
            str_leq(out[pos].as_str(), x)
        } else {
            str_leq(x, out[pos].as_str())
        };
        proof {
            assert(out.deep_view()[pos as int] == out[pos as int]@);
        }
        if !cmp {
            return pos;
        }
        pos = pos + 1;
    }
    pos
}

/// Sorts strings in lexicographic order, ascending or descending.
pub fn sort_strings(v: Vec<String>, ascending: bool) -> (r: Vec<String>)
    ensures
        ascending ==> r.deep_view() == v.deep_view().sort_by(lex_leq_fn()),
        !ascending ==> r.deep_view() == v.deep_view().sort_by(lex_geq_fn()),
{
    let ghost leq = if ascending {
        lex_leq_fn()
    } else {
        lex_geq_fn()
    };
    proof {
        lemma_lex_total_ordering();
    }
    let mut out: Vec<String> = Vec::new();
    let mut i: usize = 0;
    proof {
        assert(out.deep_view() =~= Seq::<Seq<char>>::empty());
        assert(v.deep_view().take(0) =~= Seq::<Seq<char>>::empty());
    }
    while i < v.len()
        invariant
            i <= v.len(),
            leq == (if ascending {
                lex_leq_fn()
            } else {
                lex_geq_fn()
            }),
            vstd::relations::total_ordering(leq),
            vstd::relations::sorted_by(out.deep_view(), leq),
            out.deep_view().to_multiset() == v.deep_view().take(i as int).to_multiset(),
        decreases v.len() - i,
    {
        let x = v[i].clone();
        let ghost xv = x@;
        let pos = insertion_point(&out, x.as_str(), ascending);
        proof {
            assert forall|k: int| 0 <= k < pos implies #[trigger] leq(out.deep_view()[k], xv) by {}
            if pos < out.deep_view().len() {
                lemma_lex_connected(out.deep_view()[pos as int], xv);
                assert(leq(xv, out.deep_view()[pos as int]));
            }
        }
        let ghost old_out = out.deep_view();
        out.insert(pos, x);
        proof {
            assert(out.deep_view() =~= old_out.insert(pos as int, xv));
            broadcast use vstd::seq_lib::to_multiset_insert;

            assert(out.deep_view().to_multiset() == old_out.to_multiset().insert(xv));
            assert(v.deep_view().take(i + 1).drop_last() =~= v.deep_view().take(i as int));
            assert(v.deep_view().take(i + 1) =~= v.deep_view().take(i as int).push(
                v.deep_view()[i as int],
            ));
            broadcast use vstd::seq_lib::to_multiset_build;

            assert(v.deep_view().take(i + 1).to_multiset() =~= v.deep_view().take(
                i as int,
            ).to_multiset().insert(xv));
            lemma_insert_sorted(old_out, xv, pos as int, leq);
        }
        i = i + 1;
    }
    proof {
        assert(v.deep_view().take(v.len() as int) =~= v.deep_view());
        v.deep_view().lemma_sort_by_ensures(leq);
        vstd::seq_lib::lemma_sorted_unique(
            out.deep_view(),
            v.deep_view().sort_by(leq),
            leq,
        );
    }
    out
}

/// Joins the first `n` strings of `v` with `sep`.
pub fn join_prefix(v: &Vec<String>, n: usize, sep: &str) -> (r: String)
    requires
        n <= v.len(),
    ensures
        r@ == join_with(v.deep_view().take(n as int), sep@),
{
    let mut r = String::new();
    let mut i: usize = 0;
    while i < n
        invariant
            i <= n <= v.len(),
            r@ == join_with(v.deep_view().take(i as int), sep@),
        decreases n - i,
    {
        if i > 0 {
            r.append(sep);
        }
        r.append(v[i].as_str());
        proof {
            let dv = v.deep_view();
            assert(dv.take(i + 1).drop_last() =~= dv.take(i as int));
            assert(dv.take(i + 1).last() == dv[i as int]);
            assert(dv[i as int] == v[i as int]@);
        }
        i = i + 1;
    }
    r
}

/// Joins the strings of `v` with `sep`.
pub fn join_strings(v: &Vec<String>, sep: &str) -> (r: String)
    ensures
        r@ == join_with(v.deep_view(), sep@),
{
    let n = v.len();
    let r = join_prefix(v, n, sep);
    proof {
        assert(v.deep_view().take(n as int) =~= v.deep_view());
    }
    r
}

/// Appends clones of the strings of `src` to `dst`.
pub fn extend_strings(dst: &mut Vec<String>, src: &Vec<String>)
    ensures
        final(dst).deep_view() == old(dst).deep_view() + src.deep_view(),
{
    let mut i: usize = 0;
    proof {
        assert(dst.deep_view() =~= old(dst).deep_view() + src.deep_view().take(0));
    }
    while i < src.len()
        invariant
            i <= src.len(),
            dst.deep_view() == old(dst).deep_view() + src.deep_view().take(i as int),
        decreases src.len() - i,
    {
        let ghost old_dv = dst.deep_view();
        dst.push(src[i].clone());
        proof {
            assert(dst.deep_view() =~= old_dv.push(src.deep_view()[i as int]));
            assert(src.deep_view()[i as int] == src[i as int]@);
            assert(src.deep_view().take(i + 1) =~= src.deep_view().take(i as int).push(
                src.deep_view()[i as int],
            ));
            assert(dst.deep_view() =~= old(dst).deep_view() + src.deep_view().take(i + 1));
        }
        i = i + 1;
    }
    proof {
        assert(src.deep_view().take(src.len() as int) =~= src.deep_view());
    }
}

} // verus!
