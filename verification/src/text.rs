//! Plain-text utilities: decimal digits, field splitting and joining, and
//! whitespace trimming, over character vectors.

use vstd::prelude::*;

verus! {

/// An ASCII decimal digit.
pub open spec fn is_digit(c: char) -> bool {
    '0' <= c <= '9'
}

/// The digit character for a value below ten.
pub open spec fn digit_char(d: int) -> char {
    seq!['0', '1', '2', '3', '4', '5', '6', '7', '8', '9'][d]
}

/// The value of a digit character; zero for anything else.
pub open spec fn char_digit(c: char) -> int {
    if c == '0' {
        0
    } else if c == '1' {
        1
    } else if c == '2' {
        2
    } else if c == '3' {
        3
    } else if c == '4' {
        4
    } else if c == '5' {
        5
    } else if c == '6' {
        6
    } else if c == '7' {
        7
    } else if c == '8' {
        8
    } else if c == '9' {
        9
    } else {
        0
    }
}

/// A non-empty run of decimal digits.
pub open spec fn all_digits(s: Seq<char>) -> bool {
    s.len() > 0 && forall|j: int| 0 <= j < s.len() ==> is_digit(#[trigger] s[j])
}

/// The number a digit run denotes.
pub open spec fn digits_val(s: Seq<char>) -> int
    decreases s.len(),
{
    if s.len() == 0 {
        0
    } else {
        digits_val(s.drop_last()) * 10 + char_digit(s.last())
    }
}

/// The canonical decimal rendering of a non-negative number.
pub open spec fn dec_rep(n: int) -> Seq<char>
    decreases n,
{
    if n < 10 {
        seq![digit_char(n)]
    } else {
        dec_rep(n / 10).push(digit_char(n % 10))
    }
}

/// The digit value never leaves `0..10`.
proof fn lemma_char_digit_bounds(c: char)
    ensures
        0 <= char_digit(c) < 10,
        is_digit(c) ==> digit_char(char_digit(c)) == c,
{
}

/// The rendering of a number is a digit run.
pub proof fn lemma_dec_rep_digits(n: int)
    requires
        n >= 0,
    ensures
        all_digits(dec_rep(n)),
    decreases n,
{
    if n >= 10 {
        lemma_dec_rep_digits(n / 10);
        assert forall|j: int| 0 <= j < dec_rep(n).len() implies is_digit(#[trigger] dec_rep(n)[j])
        by {
            if j < dec_rep(n / 10).len() {
                assert(dec_rep(n)[j] == dec_rep(n / 10)[j]);
            }
        }
    }
}

/// Reading the rendering back yields the number.
pub proof fn lemma_dec_rep_val(n: int)
    requires
        n >= 0,
    ensures
        digits_val(dec_rep(n)) == n,
    decreases n,
{
    if n < 10 {
        assert(dec_rep(n) == seq![digit_char(n)]);
        assert(dec_rep(n).drop_last() =~= Seq::<char>::empty());
        assert(dec_rep(n).last() == digit_char(n));
        assert(digits_val(Seq::<char>::empty()) == 0);
        assert(digits_val(dec_rep(n)) == digits_val(dec_rep(n).drop_last()) * 10 + char_digit(
            dec_rep(n).last(),
        ));
        lemma_digit_roundtrip(n);
    } else {
        lemma_dec_rep_val(n / 10);
        let x = dec_rep(n / 10);
        let d = digit_char(n % 10);
        assert(dec_rep(n) == x.push(d));
        assert(dec_rep(n).last() == d);
        assert(dec_rep(n).drop_last() =~= x);
        assert(digits_val(dec_rep(n)) == digits_val(x) * 10 + char_digit(d));
        lemma_digit_roundtrip(n % 10);
        vstd::arithmetic::div_mod::lemma_fundamental_div_mod(n, 10);
        assert(digits_val(dec_rep(n)) == n);
    }
}

/// A digit value survives the round trip through its character.
proof fn lemma_digit_roundtrip(d: int)
    requires
        0 <= d < 10,
    ensures
        char_digit(digit_char(d)) == d,
{
    if d == 0 {
        assert(digit_char(0) == '0');
    } else if d == 1 {
        assert(digit_char(1) == '1');
    } else if d == 2 {
        assert(digit_char(2) == '2');
    } else if d == 3 {
        assert(digit_char(3) == '3');
    } else if d == 4 {
        assert(digit_char(4) == '4');
    } else if d == 5 {
        assert(digit_char(5) == '5');
    } else if d == 6 {
        assert(digit_char(6) == '6');
    } else if d == 7 {
        assert(digit_char(7) == '7');
    } else if d == 8 {
        assert(digit_char(8) == '8');
    } else {
        assert(digit_char(9) == '9');
    }
}

/// Appending a digit multiplies the value by ten and adds the digit.
pub proof fn lemma_digits_val_push(s: Seq<char>, c: char)
    ensures
        digits_val(s.push(c)) == digits_val(s) * 10 + char_digit(c),
{
    assert(s.push(c).drop_last() =~= s);
}

/// The value of a digit run is never negative.
pub proof fn lemma_digits_val_nonneg(s: Seq<char>)
    ensures
        digits_val(s) >= 0,
    decreases s.len(),
{
    if s.len() > 0 {
        lemma_digits_val_nonneg(s.drop_last());
        lemma_char_digit_bounds(s.last());
    }
}

/// Extending a digit run never shrinks its value.
pub proof fn lemma_digits_val_prefix(s: Seq<char>, i: int)
    requires
        0 <= i <= s.len(),
    ensures
        digits_val(s) >= digits_val(s.subrange(0, i)),
    decreases s.len() - i,
{
    if i < s.len() {
        lemma_digits_val_prefix(s, i + 1);
        lemma_digits_val_push(s.subrange(0, i), s[i]);
        assert(s.subrange(0, i + 1) =~= s.subrange(0, i).push(s[i]));
        lemma_digits_val_nonneg(s.subrange(0, i));
        lemma_char_digit_bounds(s[i]);
    } else {
        assert(s.subrange(0, i) =~= s);
    }
}

/// The digit character for a value below ten.
pub fn digit_char_of(d: u32) -> (c: char)
    requires
        d < 10,
    ensures
        c == digit_char(d as int),
{
    match d {
        0 => '0',
        1 => '1',
        2 => '2',
        3 => '3',
        4 => '4',
        5 => '5',
        6 => '6',
        7 => '7',
        8 => '8',
        _ => '9',
    }
}

/// The value of a digit character; zero for anything else.
pub fn char_digit_of(c: char) -> (d: u32)
    ensures
        d == char_digit(c),
        d < 10,
{
    match c {
        '0' => 0,
        '1' => 1,
        '2' => 2,
        '3' => 3,
        '4' => 4,
        '5' => 5,
        '6' => 6,
        '7' => 7,
        '8' => 8,
        '9' => 9,
        _ => 0,
    }
}

/// Appends the decimal rendering of `n` to `out`.
pub fn push_dec(out: &mut Vec<char>, n: u32)
    ensures
        final(out)@ == old(out)@ + dec_rep(n as int),
    decreases n,
{
    if n < 10 {
        out.push(digit_char_of(n));
        proof {
            assert(out@ =~= old(out)@ + dec_rep(n as int));
        }
    } else {
        push_dec(out, n / 10);
        out.push(digit_char_of(n % 10));
        proof {
            assert(out@ =~= old(out)@ + dec_rep(n as int));
        }
    }
}

/// The value a digit field denotes, clamped to zero when it does not fit in
/// 32 bits.
pub open spec fn field_u32(s: Seq<char>) -> int {
    if digits_val(s) <= u32::MAX {
        digits_val(s)
    } else {
        0
    }
}

/// Parses a digit field, yielding zero when the value does not fit.
pub fn parse_field(s: &Vec<char>) -> (r: u32)
    requires
        all_digits(s@),
    ensures
        r == field_u32(s@),
{
    let mut acc: u32 = 0;
    let mut i: usize = 0;
    while i < s.len()
        invariant
            all_digits(s@),
            i <= s@.len(),
            acc == digits_val(s@.subrange(0, i as int)),
        decreases s@.len() - i,
    {
        let d = char_digit_of(s[i]);
        proof {
            lemma_digits_val_push(s@.subrange(0, i as int), s@[i as int]);
            assert(s@.subrange(0, i + 1) =~= s@.subrange(0, i as int).push(s@[i as int]));
        }
        if acc > (u32::MAX - d) / 10 {
            proof {
                assert(acc * 10 + d > u32::MAX) by (nonlinear_arith)
                    requires
                        acc > (u32::MAX - d) / 10,
                        d < 10,
                {}
                lemma_digits_val_prefix(s@, i + 1);
            }
            return 0;
        }
        proof {
            assert(acc * 10 + d <= u32::MAX) by (nonlinear_arith)
                requires
                    acc <= (u32::MAX - d) / 10,
                    d < 10,
            {}
        }
        acc = acc * 10 + d;
        i += 1;
    }
    proof {
        assert(s@.subrange(0, s@.len() as int) =~= s@);
    }
    acc
}

// ---------------------------------------------------------------------------
// Splitting, joining, trimming.
// ---------------------------------------------------------------------------

/// Index of the first occurrence of `sep`, or the length when absent.
pub open spec fn first_index(s: Seq<char>, sep: char) -> int
    decreases s.len(),
{
    if s.len() == 0 {
        0
    } else if s[0] == sep {
        0
    } else {
        1 + first_index(s.subrange(1, s.len() as int), sep)
    }
}

pub proof fn lemma_first_index_bounds(s: Seq<char>, sep: char)
    ensures
        0 <= first_index(s, sep) <= s.len(),
        first_index(s, sep) < s.len() ==> s[first_index(s, sep)] == sep,
        forall|j: int| 0 <= j < first_index(s, sep) ==> s[j] != sep,
    decreases s.len(),
{
    if s.len() > 0 && s[0] != sep {
        let t = s.subrange(1, s.len() as int);
        lemma_first_index_bounds(t, sep);
        assert forall|j: int| 0 <= j < first_index(s, sep) implies s[j] != sep by {
            if j > 0 {
                assert(t[j - 1] == s[j]);
            }
        }
    }
}

#[via_fn]
proof fn split_on_decreases(s: Seq<char>, sep: char) {
    lemma_first_index_bounds(s, sep);
}

/// The fields of `s` between occurrences of `sep`: always at least one,
/// possibly empty ones.
pub open spec fn split_on(s: Seq<char>, sep: char) -> Seq<Seq<char>>
    decreases s.len(),
        via split_on_decreases
{
    let fi = first_index(s, sep);
    if fi >= s.len() {
        seq![s]
    } else {
        seq![s.subrange(0, fi)] + split_on(s.subrange(fi + 1, s.len() as int), sep)
    }
}

/// The fields stitched back together with `sep` between them.
pub open spec fn join(parts: Seq<Seq<char>>, sep: char) -> Seq<char>
    decreases parts.len(),
{
    if parts.len() == 0 {
        Seq::empty()
    } else if parts.len() == 1 {
        parts[0]
    } else {
        parts[0] + seq![sep] + join(parts.drop_first(), sep)
    }
}

/// The first occurrence is where the first separator-free prefix ends.
proof fn lemma_first_index_at(s: Seq<char>, sep: char, k: int)
    requires
        0 <= k < s.len(),
        s[k] == sep,
        forall|j: int| 0 <= j < k ==> s[j] != sep,
    ensures
        first_index(s, sep) == k,
    decreases k,
{
    if k > 0 {
        lemma_first_index_at(s.subrange(1, s.len() as int), sep, k - 1);
    }
}

/// Without any separator, the first occurrence is past the end.
proof fn lemma_first_index_none(s: Seq<char>, sep: char)
    requires
        forall|j: int| 0 <= j < s.len() ==> s[j] != sep,
    ensures
        first_index(s, sep) == s.len(),
    decreases s.len(),
{
    if s.len() > 0 {
        lemma_first_index_none(s.subrange(1, s.len() as int), sep);
    }
}

/// Splitting always yields at least one field.
pub proof fn lemma_split_on_len(s: Seq<char>, sep: char)
    ensures
        split_on(s, sep).len() >= 1,
{
    lemma_first_index_bounds(s, sep);
}

/// Splitting undoes joining, as long as no field holds the separator.
pub proof fn lemma_split_join(parts: Seq<Seq<char>>, sep: char)
    requires
        parts.len() >= 1,
        forall|p: int| 0 <= p < parts.len() ==> !(#[trigger] parts[p]).contains(sep),
    ensures
        split_on(join(parts, sep), sep) == parts,
    decreases parts.len(),
{
    let s = join(parts, sep);
    if parts.len() == 1 {
        assert forall|j: int| 0 <= j < s.len() implies s[j] != sep by {
            if s[j] == sep {
                assert(parts[0].contains(sep));
            }
        }
        lemma_first_index_none(s, sep);
        assert(split_on(s, sep) =~= parts);
    } else {
        let head = parts[0];
        let rest = parts.drop_first();
        let k = head.len() as int;
        assert forall|j: int| 0 <= j < k implies s[j] != sep by {
            if s[j] == sep {
                assert(head[j] == sep);
                assert(head.contains(sep));
            }
        }
        assert(s[k] == sep);
        lemma_first_index_at(s, sep, k);
        assert(s.subrange(0, k) =~= head);
        assert(s.subrange(k + 1, s.len() as int) =~= join(rest, sep));
        lemma_split_join(rest, sep);
        assert(split_on(s, sep) =~= seq![head] + split_on(join(rest, sep), sep));
        assert(seq![head] + rest =~= parts);
    }
}

/// Copies the character range `from..to`.
pub fn subvec(s: &Vec<char>, from: usize, to: usize) -> (r: Vec<char>)
    requires
        from <= to <= s@.len(),
    ensures
        r@ == s@.subrange(from as int, to as int),
{
    let mut out: Vec<char> = Vec::new();
    let mut i: usize = from;
    while i < to
        invariant
            from <= i <= to <= s@.len(),
            out@ == s@.subrange(from as int, i as int),
        decreases to - i,
    {
        out.push(s[i]);
        proof {
            assert(out@ =~= s@.subrange(from as int, i + 1));
        }
        i += 1;
    }
    out
}

/// Splits `s` at every occurrence of `sep`.
pub fn split_on_vec(s: &Vec<char>, sep: char) -> (parts: Vec<Vec<char>>)
    ensures
        crate::game::views(parts@) == split_on(s@, sep),
    decreases s@.len(),
{
    proof {
        lemma_first_index_bounds(s@, sep);
    }
    match crate::score::find_char(s, sep) {
        None => {
            proof {
                lemma_first_index_none(s@, sep);
            }
            let mut parts: Vec<Vec<char>> = Vec::new();
            parts.push(crate::game::copy_row(s));
            proof {
                assert(crate::game::views(parts@) =~= split_on(s@, sep));
            }
            parts
        },
        Some(i) => {
            proof {
                lemma_first_index_at(s@, sep, i as int);
            }
            assert(i < s.len());
            let ghost head_view = s@.subrange(0, i as int);
            let head = subvec(s, 0, i);
            let tail = subvec(s, i + 1, s.len());
            let rest = split_on_vec(&tail, sep);
            let mut parts: Vec<Vec<char>> = Vec::new();
            parts.push(head);
            let mut p: usize = 0;
            while p < rest.len()
                invariant
                    p <= rest@.len(),
                    parts@.len() == p + 1,
                    parts@[0]@ == head_view,
                    forall|q: int| 1 <= q < parts@.len() ==> #[trigger] parts@[q]@ == rest@[q - 1]@,
                decreases rest@.len() - p,
            {
                parts.push(crate::game::copy_row(&rest[p]));
                p += 1;
            }
            proof {
                let lhs = crate::game::views(parts@);
                let rhs = seq![head_view] + crate::game::views(rest@);
                assert forall|q: int| 0 <= q < lhs.len() implies lhs[q] == rhs[q] by {
                    assert(lhs[q] == parts@[q]@);
                    if q > 0 {
                        assert(parts@[q]@ == rest@[q - 1]@);
                        assert(crate::game::views(rest@)[q - 1] == rest@[q - 1]@);
                    }
                }
                assert(lhs =~= rhs);
                assert(crate::game::views(parts@) =~= split_on(s@, sep));
            }
            parts
        },
    }
}

/// A character that line trimming removes.
pub open spec fn is_space(c: char) -> bool {
    c == ' ' || c == '\t' || c == '\r'
}

/// The line without leading and trailing whitespace, given as the range that
/// survives.
pub open spec fn spec_trim(s: Seq<char>) -> Seq<char> {
    let a = trim_start_at(s, 0);
    let b = trim_end_at(s, s.len() as int);
    if a < b {
        s.subrange(a, b)
    } else {
        Seq::empty()
    }
}

/// First index at or after `i` that is not whitespace, or the length.
pub open spec fn trim_start_at(s: Seq<char>, i: int) -> int
    decreases s.len() - i,
{
    if i < 0 || i >= s.len() {
        i
    } else if is_space(s[i]) {
        trim_start_at(s, i + 1)
    } else {
        i
    }
}

/// One past the last index below `j` that is not whitespace, or zero.
pub open spec fn trim_end_at(s: Seq<char>, j: int) -> int
    decreases j,
{
    if j <= 0 || j > s.len() {
        j
    } else if is_space(s[j - 1]) {
        trim_end_at(s, j - 1)
    } else {
        j
    }
}

/// A line that neither starts nor ends with whitespace trims to itself.
pub proof fn lemma_trim_clean(s: Seq<char>)
    requires
        s.len() > 0,
        !is_space(s[0]),
        !is_space(s[s.len() - 1]),
    ensures
        spec_trim(s) == s,
{
    assert(trim_start_at(s, 0) == 0);
    assert(trim_end_at(s, s.len() as int) == s.len());
    assert(s.subrange(0, s.len() as int) =~= s);
}

/// Strips leading and trailing whitespace.
pub fn trim(s: &Vec<char>) -> (r: Vec<char>)
    ensures
        r@ == spec_trim(s@),
{
    let mut a: usize = 0;
    while a < s.len() && is_space_char(s[a])
        invariant
            a <= s@.len(),
            trim_start_at(s@, 0) == trim_start_at(s@, a as int),
        decreases s@.len() - a,
    {
        a += 1;
    }
    proof {
        assert(trim_start_at(s@, 0) == a as int);
    }
    let mut b: usize = s.len();
    while b > a && is_space_char(s[b - 1])
        invariant
            a <= b <= s@.len(),
            trim_end_at(s@, s@.len() as int) == trim_end_at(s@, b as int),
        decreases b,
    {
        b -= 1;
    }
    if a < b {
        proof {
            assert(trim_end_at(s@, b as int) == b as int);
        }
        subvec(s, a, b)
    } else {
        proof {
            lemma_trim_end_le(s@, b as int);
        }
        Vec::new()
    }
}

/// Whether trimming removes this character.
fn is_space_char(c: char) -> (r: bool)
    ensures
        r == is_space(c),
{
    c == ' ' || c == '\t' || c == '\r'
}

/// The trim end never runs below zero.
proof fn lemma_trim_end_le(s: Seq<char>, j: int)
    requires
        0 <= j <= s.len(),
    ensures
        0 <= trim_end_at(s, j) <= j,
    decreases j,
{
    if j > 0 && is_space(s[j - 1]) {
        lemma_trim_end_le(s, j - 1);
    }
}

} // verus!
