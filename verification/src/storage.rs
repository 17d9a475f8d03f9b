//! The persisted statistics record and its three-line text format.
//!
//! Line one holds the seven result counters, colon-separated; line two the
//! current and maximum streak; line three the next word index. Reading
//! validates each line against its pattern and falls back to defaults on any
//! failure; the host performs the actual file access and hands the raw
//! contents over as characters.

use vstd::prelude::*;

use crate::game::views;
use crate::text::{
    all_digits, dec_rep, field_u32, is_digit, join, lemma_dec_rep_digits, lemma_dec_rep_val,
    lemma_split_join, lemma_trim_clean, parse_field, split_on, split_on_vec, spec_trim, trim,
};

verus! {

pub struct PersistedStats {
    /// Wins per attempt in `results[0..6]`, losses in `results[6]`.
    pub results: Vec<u32>,
    /// `(current_streak, max_streak)`.
    pub streak: (u32, u32),
    /// Index of the next daily word.
    pub word_index: u32,
}

/// A line of `n` colon-separated digit runs.
pub open spec fn fields_pattern(s: Seq<char>, n: int) -> bool {
    let fs = split_on(s, ':');
    fs.len() == n && forall|f: int| 0 <= f < n ==> all_digits(#[trigger] fs[f])
}

/// The lines of a text: split at newlines, without the empty piece a
/// trailing newline leaves, each line trimmed.
pub open spec fn spec_lines(s: Seq<char>) -> Seq<Seq<char>> {
    let parts = split_on(s, '\n');
    let kept = if parts.last().len() == 0 {
        parts.drop_last()
    } else {
        parts
    };
    kept.map_values(|l: Seq<char>| spec_trim(l))
}

/// A storable text: three lines in the record, pair and index patterns.
pub open spec fn valid_stats(s: Seq<char>) -> bool {
    let ls = spec_lines(s);
    ls.len() == 3 && fields_pattern(ls[0], 7) && fields_pattern(ls[1], 2) && all_digits(ls[2])
}

/// The record a valid text denotes.
pub open spec fn parsed_rel(s: Seq<char>, ps: PersistedStats) -> bool {
    let ls = spec_lines(s);
    let rs = split_on(ls[0], ':');
    let pair = split_on(ls[1], ':');
    &&& ps.results@.len() == 7
    &&& forall|i: int| 0 <= i < 7 ==> #[trigger] ps.results@[i] == field_u32(rs[i])
    &&& ps.streak.0 == field_u32(pair[0])
    &&& ps.streak.1 == field_u32(pair[1])
    &&& ps.word_index == field_u32(ls[2])
}

/// The record used when nothing valid is stored.
pub open spec fn default_rel(ps: PersistedStats) -> bool {
    &&& ps.results@ == Seq::new(7, |i: int| 0u32)
    &&& ps.streak == (0u32, 0u32)
    &&& ps.word_index == 0
}

// ---------------------------------------------------------------------------
// Validation, through the regex engine.
// ---------------------------------------------------------------------------

/// Relies on regex::Regex::is_match with the anchored pattern `^[0-9]+$`:
/// it accepts exactly the non-empty runs of ASCII digits.
#[verifier::external_body]
fn line_is_digits(line: &Vec<char>) -> (r: bool)
    ensures
        r == all_digits(line@),
{
    let s: String = line.iter().collect();
    regex::Regex::new("^[0-9]+$").unwrap().is_match(&s)
}

/// Relies on regex::Regex::is_match with the anchored pattern
/// `^[0-9]+:[0-9]+$`: it accepts exactly two colon-separated digit runs.
#[verifier::external_body]
fn line_is_pair(line: &Vec<char>) -> (r: bool)
    ensures
        r == fields_pattern(line@, 2),
{
    let s: String = line.iter().collect();
    regex::Regex::new("^[0-9]+:[0-9]+$").unwrap().is_match(&s)
}

/// Relies on regex::Regex::is_match with the anchored pattern
/// `^[0-9]+(:[0-9]+){6}$`: it accepts exactly seven colon-separated digit
/// runs.
#[verifier::external_body]
fn line_is_record(line: &Vec<char>) -> (r: bool)
    ensures
        r == fields_pattern(line@, 7),
{
    let s: String = line.iter().collect();
    regex::Regex::new("^[0-9]+(:[0-9]+){6}$").unwrap().is_match(&s)
}

// ---------------------------------------------------------------------------
// Reading.
// ---------------------------------------------------------------------------

/// The default record.
fn default_stats() -> (ps: PersistedStats)
    ensures
        default_rel(ps),
        ps.results@.len() == 7,
{
    let mut results: Vec<u32> = Vec::new();
    let mut i: usize = 0;
    while i < 7
        invariant
            i <= 7,
            results@.len() == i,
            forall|j: int| 0 <= j < i ==> #[trigger] results@[j] == 0u32,
        decreases 7 - i,
    {
        results.push(0);
        i += 1;
    }
    proof {
        assert(results@ =~= Seq::new(7, |i: int| 0u32));
    }
    PersistedStats { results, streak: (0, 0), word_index: 0 }
}

/// Interprets the stored text, if any: a valid text yields its record, and
/// anything else the defaults.
pub fn read(content: Option<&Vec<char>>) -> (ps: PersistedStats)
    ensures
        ps.results@.len() == 7,
        match content {
            Some(c) => if valid_stats(c@) {
                parsed_rel(c@, ps)
            } else {
                default_rel(ps)
            },
            None => default_rel(ps),
        },
{
    let c = match content {
        None => {
            return default_stats();
        },
        Some(c) => c,
    };
    let raw = split_on_vec(c, '\n');
    proof {
        crate::text::lemma_split_on_len(c@, '\n');
    }
    let keep_n = if raw[raw.len() - 1].len() == 0 {
        raw.len() - 1
    } else {
        raw.len()
    };
    let mut lines: Vec<Vec<char>> = Vec::new();
    let mut i: usize = 0;
    while i < keep_n
        invariant
            i <= keep_n <= raw@.len(),
            lines@.len() == i,
            forall|j: int| 0 <= j < i ==> #[trigger] lines@[j]@ == spec_trim(raw@[j]@),
        decreases keep_n - i,
    {
        lines.push(trim(&raw[i]));
        i += 1;
    }
    proof {
        let parts = split_on(c@, '\n');
        assert(parts.len() > 0);
        assert(raw@[raw@.len() - 1]@ == parts.last());
        if parts.last().len() == 0 {
            assert(views(lines@) =~= parts.drop_last().map_values(|l: Seq<char>| spec_trim(l)));
        } else {
            assert(views(lines@) =~= parts.map_values(|l: Seq<char>| spec_trim(l)));
        }
        assert(views(lines@) == spec_lines(c@));
    }
    if lines.len() == 3 && line_is_record(&lines[0]) && line_is_pair(&lines[1]) && line_is_digits(
        &lines[2],
    ) {
        proof {
            assert(lines@[0]@ == spec_lines(c@)[0]);
            assert(lines@[1]@ == spec_lines(c@)[1]);
            assert(lines@[2]@ == spec_lines(c@)[2]);
        }
        let rs = split_on_vec(&lines[0], ':');
        let mut results: Vec<u32> = Vec::new();
        let mut i: usize = 0;
        while i < 7
            invariant
                i <= 7,
                results@.len() == i,
                rs@.len() == 7,
                spec_lines(c@).len() == 3,
                views(rs@) == split_on(spec_lines(c@)[0], ':'),
                fields_pattern(spec_lines(c@)[0], 7),
                forall|j: int|
                    0 <= j < i ==> #[trigger] results@[j] == field_u32(
                        split_on(spec_lines(c@)[0], ':')[j],
                    ),
            decreases 7 - i,
        {
            proof {
                assert(views(rs@)[i as int] == rs@[i as int]@);
                assert(all_digits(split_on(spec_lines(c@)[0], ':')[i as int]));
            }
            results.push(parse_field(&rs[i]));
            i += 1;
        }
        let pair = split_on_vec(&lines[1], ':');
        proof {
            assert(views(pair@)[0] == pair@[0]@);
            assert(views(pair@)[1] == pair@[1]@);
            assert(all_digits(split_on(spec_lines(c@)[1], ':')[0]));
            assert(all_digits(split_on(spec_lines(c@)[1], ':')[1]));
        }
        let streak = (parse_field(&pair[0]), parse_field(&pair[1]));
        let word_index = parse_field(&lines[2]);
        PersistedStats { results, streak, word_index }
    } else {
        default_stats()
    }
}

// ---------------------------------------------------------------------------
// Saving.
// ---------------------------------------------------------------------------

/// The rendered record line: seven counters, colon-separated.
pub open spec fn record_line(rs: Seq<u32>) -> Seq<char> {
    join(Seq::new(7nat, |i: int| dec_rep(rs[i] as int)), ':')
}

/// The rendered streak line.
pub open spec fn pair_line(streak: (u32, u32)) -> Seq<char> {
    join(seq![dec_rep(streak.0 as int), dec_rep(streak.1 as int)], ':')
}

/// The full stored text: three rendered lines, each newline-terminated.
pub open spec fn spec_save(rs: Seq<u32>, streak: (u32, u32), wi: u32) -> Seq<char> {
    join(
        seq![
            record_line(rs),
            pair_line(streak),
            dec_rep(wi as int),
            Seq::<char>::empty(),
        ],
        '\n',
    )
}

/// Appending one more field extends the join by a separator and the field.
proof fn lemma_join_push(parts: Seq<Seq<char>>, p: Seq<char>, sep: char)
    requires
        parts.len() >= 1,
    ensures
        join(parts.push(p), sep) == join(parts, sep) + seq![sep] + p,
    decreases parts.len(),
{
    if parts.len() == 1 {
        assert(parts.push(p).drop_first() =~= seq![p]);
        assert(parts.push(p)[0] == parts[0]);
        assert(join(seq![p], sep) == p);
        assert(join(parts.push(p), sep) =~= parts[0] + seq![sep] + p);
    } else {
        lemma_join_push(parts.drop_first(), p, sep);
        assert(parts.push(p).drop_first() =~= parts.drop_first().push(p));
        assert(parts.push(p)[0] == parts[0]);
        assert(join(parts.push(p), sep) =~= join(parts, sep) + seq![sep] + p);
    }
}

/// Renders the record in the stored three-line format.
pub fn save(results: &Vec<u32>, streak: (u32, u32), word_index: u32) -> (content: Vec<char>)
    requires
        results@.len() == 7,
    ensures
        content@ == spec_save(results@, streak, word_index),
{
    let mut out: Vec<char> = Vec::new();
    crate::text::push_dec(&mut out, results[0]);
    proof {
        assert(Seq::new(1nat, |k: int| dec_rep(results@[k] as int)) =~= seq![dec_rep(
            results@[0] as int,
        )]);
        assert(out@ == join(Seq::new(1nat, |k: int| dec_rep(results@[k] as int)), ':'));
    }
    let mut i: usize = 1;
    while i < 7
        invariant
            1 <= i <= 7,
            results@.len() == 7,
            out@ == join(Seq::new(i as nat, |k: int| dec_rep(results@[k] as int)), ':'),
        decreases 7 - i,
    {
        out.push(':');
        crate::text::push_dec(&mut out, results[i]);
        proof {
            let prev = Seq::new(i as nat, |k: int| dec_rep(results@[k] as int));
            let now = Seq::new((i + 1) as nat, |k: int| dec_rep(results@[k] as int));
            lemma_join_push(prev, dec_rep(results@[i as int] as int), ':');
            assert(now =~= prev.push(dec_rep(results@[i as int] as int)));
            assert(out@ =~= join(now, ':'));
        }
        i += 1;
    }
    proof {
        assert(Seq::new(7nat, |k: int| dec_rep(results@[k] as int)) =~= Seq::new(
            7nat,
            |k: int| dec_rep(results@[k] as int),
        ));
        assert(out@ == record_line(results@));
    }
    out.push('\n');
    crate::text::push_dec(&mut out, streak.0);
    out.push(':');
    crate::text::push_dec(&mut out, streak.1);
    proof {
        let pl = seq![dec_rep(streak.0 as int), dec_rep(streak.1 as int)];
        assert(pl.drop_first() =~= seq![dec_rep(streak.1 as int)]);
        assert(join(pl.drop_first(), ':') == dec_rep(streak.1 as int));
        assert(join(pl, ':') =~= dec_rep(streak.0 as int) + seq![':'] + dec_rep(streak.1 as int));
    }
    out.push('\n');
    crate::text::push_dec(&mut out, word_index);
    out.push('\n');
    proof {
        let l0 = record_line(results@);
        let l1 = pair_line(streak);
        let l2 = dec_rep(word_index as int);
        let e = Seq::<char>::empty();
        let s1 = seq![l0];
        let s2 = seq![l0, l1];
        let s3 = seq![l0, l1, l2];
        let s4 = seq![l0, l1, l2, e];
        assert(join(s1, '\n') == l0);
        lemma_join_push(s1, l1, '\n');
        assert(s1.push(l1) =~= s2);
        lemma_join_push(s2, l2, '\n');
        assert(s2.push(l2) =~= s3);
        lemma_join_push(s3, e, '\n');
        assert(s3.push(e) =~= s4);
        assert(join(s4, '\n') =~= l0 + seq!['\n'] + l1 + seq!['\n'] + l2 + seq!['\n']);
        assert(spec_save(results@, streak, word_index) == join(s4, '\n'));
        assert(out@ =~= l0 + seq!['\n'] + l1 + seq!['\n'] + l2 + seq!['\n']);
    }
    out
}

// ---------------------------------------------------------------------------
// The round trip.
// ---------------------------------------------------------------------------

/// Every character of a join of digit runs is a digit or the separator, and
/// the ends are digits.
proof fn lemma_join_digit_parts(parts: Seq<Seq<char>>, sep: char)
    requires
        parts.len() >= 1,
        forall|p: int| 0 <= p < parts.len() ==> all_digits(#[trigger] parts[p]),
    ensures
        join(parts, sep).len() > 0,
        is_digit(join(parts, sep)[0]),
        is_digit(join(parts, sep).last()),
        forall|j: int|
            0 <= j < join(parts, sep).len() ==> (is_digit(#[trigger] join(parts, sep)[j]) || join(
                parts,
                sep,
            )[j] == sep),
    decreases parts.len(),
{
    let s = join(parts, sep);
    if parts.len() == 1 {
        assert(all_digits(parts[0]));
    } else {
        lemma_join_digit_parts(parts.drop_first(), sep);
        let head = parts[0];
        let rest = join(parts.drop_first(), sep);
        assert(s == head + seq![sep] + rest);
        assert(s.last() == rest.last());
        assert(s[0] == head[0]);
        assert forall|j: int| 0 <= j < s.len() implies (is_digit(#[trigger] s[j]) || s[j] == sep)
        by {
            if j < head.len() {
                assert(s[j] == head[j]);
            } else if j == head.len() {
                assert(s[j] == sep);
            } else {
                assert(s[j] == rest[j - head.len() - 1]);
            }
        }
    }
}

/// Saving and reading round-trip: the text that `save` renders is valid, and
/// parsing it recovers every counter, the streak and the word index.
pub proof fn lemma_save_read_roundtrip(rs: Seq<u32>, streak: (u32, u32), wi: u32)
    requires
        rs.len() == 7,
    ensures
        valid_stats(spec_save(rs, streak, wi)),
        forall|ps: PersistedStats|
            #[trigger] parsed_rel(spec_save(rs, streak, wi), ps) ==> ps.results@ =~= rs
                && ps.streak == streak && ps.word_index == wi,
{
    let l0 = record_line(rs);
    let l1 = pair_line(streak);
    let l2 = dec_rep(wi as int);
    let content = spec_save(rs, streak, wi);
    let parts = seq![l0, l1, l2, Seq::<char>::empty()];

    let fields0 = Seq::new(7nat, |i: int| dec_rep(rs[i] as int));
    assert forall|p: int| 0 <= p < fields0.len() implies all_digits(#[trigger] fields0[p]) by {
        lemma_dec_rep_digits(rs[p] as int);
    }
    lemma_join_digit_parts(fields0, ':');
    let fields1 = seq![dec_rep(streak.0 as int), dec_rep(streak.1 as int)];
    assert forall|p: int| 0 <= p < fields1.len() implies all_digits(#[trigger] fields1[p]) by {
        lemma_dec_rep_digits(streak.0 as int);
        lemma_dec_rep_digits(streak.1 as int);
    }
    lemma_join_digit_parts(fields1, ':');
    lemma_dec_rep_digits(wi as int);

    // none of the lines holds a newline, so splitting undoes the join
    assert forall|p: int| 0 <= p < parts.len() implies !(#[trigger] parts[p]).contains('\n') by {
        if parts[p].contains('\n') {
            let j = choose|j: int| 0 <= j < parts[p].len() && parts[p][j] == '\n';
            if p == 0 {
                assert(is_digit(l0[j]) || l0[j] == ':');
            } else if p == 1 {
                assert(is_digit(l1[j]) || l1[j] == ':');
            } else if p == 2 {
                assert(all_digits(l2));
                assert(is_digit(l2[j]));
            }
        }
    }
    lemma_split_join(parts, '\n');
    assert(split_on(content, '\n') == parts);
    assert(parts.last().len() == 0);
    assert(parts.drop_last() =~= seq![l0, l1, l2]);

    // each line is already clean of surrounding whitespace
    lemma_trim_clean(l0);
    lemma_trim_clean(l1);
    lemma_trim_clean(l2);
    assert(spec_lines(content) =~= seq![l0, l1, l2]);

    // the colon joins split back into the rendered fields
    assert forall|p: int| 0 <= p < fields0.len() implies !(#[trigger] fields0[p]).contains(':')
    by {
        if fields0[p].contains(':') {
            let j = choose|j: int| 0 <= j < fields0[p].len() && fields0[p][j] == ':';
            assert(is_digit(fields0[p][j]));
        }
    }
    lemma_split_join(fields0, ':');
    assert forall|p: int| 0 <= p < fields1.len() implies !(#[trigger] fields1[p]).contains(':')
    by {
        if fields1[p].contains(':') {
            let j = choose|j: int| 0 <= j < fields1[p].len() && fields1[p][j] == ':';
            assert(is_digit(fields1[p][j]));
        }
    }
    lemma_split_join(fields1, ':');

    // every rendered counter parses back to itself
    assert forall|i: int| 0 <= i < 7 implies field_u32(split_on(l0, ':')[i]) == rs[i] by {
        lemma_dec_rep_val(rs[i] as int);
    }
    lemma_dec_rep_val(streak.0 as int);
    lemma_dec_rep_val(streak.1 as int);
    lemma_dec_rep_val(wi as int);

    assert(valid_stats(content));
    assert forall|ps: PersistedStats| #[trigger] parsed_rel(content, ps) implies ps.results@ =~= rs
        && ps.streak == streak && ps.word_index == wi by {
        assert(ps.results@.len() == 7 && rs.len() == 7);
        assert(forall|i: int| 0 <= i < 7 ==> #[trigger] ps.results@[i] == rs[i]);
    }
}

} // verus!
