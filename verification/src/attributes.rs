//! The registry's generic string-keyed attribute bag, parsed back
//! into typed traits and rendered from them. Known keys map to typed
//! fields; anything missing or malformed falls back to a default
//! instead of failing. The genome travels as a bracket-delimited,
//! comma-separated list of numbers.

use vstd::prelude::*;

use crate::genetics::TraitExtension;

verus! {

/// One entry of the attribute bag.
#[derive(Clone, Debug)]
pub struct TraitAttr {
    pub display_type: Option<String>,
    pub trait_type: String,
    pub value: String,
}

/// A decimal digit.
pub open spec fn is_dec_digit(c: char) -> bool {
    48 <= c as int <= 57
}

/// Every character is a decimal digit.
pub open spec fn all_dec_digits(s: Seq<char>) -> bool {
    forall|i: int| 0 <= i < s.len() ==> is_dec_digit(#[trigger] s[i])
}

/// The number a digit string denotes.
pub open spec fn spec_dec_val(s: Seq<char>) -> int
    decreases s.len(),
{
    if s.len() == 0 {
        0
    } else {
        spec_dec_val(s.drop_last()) * 10 + (s.last() as int - 48)
    }
}

/// An unsigned decimal number: one optional leading plus, then at
/// least one digit.
pub open spec fn spec_parse_uint(s: Seq<char>) -> Option<int> {
    let body = if s.len() > 0 && s[0] == '+' {
        s.drop_first()
    } else {
        s
    };
    if body.len() > 0 && all_dec_digits(body) {
        Some(spec_dec_val(body))
    } else {
        None
    }
}

/// A signed decimal number: one optional leading minus, else as the
/// unsigned form.
pub open spec fn spec_parse_int(s: Seq<char>) -> Option<int> {
    if s.len() > 0 && s[0] == '-' {
        let body = s.drop_first();
        if body.len() > 0 && all_dec_digits(body) {
            Some(-spec_dec_val(body))
        } else {
            None
        }
    } else {
        spec_parse_uint(s)
    }
}

/// The attribute bag's unsigned reading: a well-formed in-range
/// number, or zero.
pub open spec fn spec_parse_u8_or_zero(s: Seq<char>) -> u8 {
    match spec_parse_uint(s) {
        Some(v) => if 0 <= v <= 255 {
            v as u8
        } else {
            0
        },
        None => 0,
    }
}

/// The attribute bag's signed reading: a well-formed in-range number,
/// or zero.
pub open spec fn spec_parse_i8_or_zero(s: Seq<char>) -> i8 {
    match spec_parse_int(s) {
        Some(v) => if -128 <= v <= 127 {
            v as i8
        } else {
            0
        },
        None => 0,
    }
}

/// A digit string denotes a non-negative number.
proof fn lemma_dec_val_nonneg(s: Seq<char>)
    requires
        all_dec_digits(s),
    ensures
        spec_dec_val(s) >= 0,
    decreases s.len(),
{
    if s.len() > 0 {
        assert(all_dec_digits(s.drop_last())) by {
            assert(forall|i: int|
                0 <= i < s.drop_last().len() ==> #[trigger] s.drop_last()[i] == s[i]);
        }
        lemma_dec_val_nonneg(s.drop_last());
        assert(spec_dec_val(s.drop_last()) * 10 >= 0) by (nonlinear_arith)
            requires spec_dec_val(s.drop_last()) >= 0;
    }
}

/// Scans the digits of `s[from..to]`, tracking validity and the value
/// saturated at 1000 — enough to decide every in-range reading.
fn scan_digits(s: &str, from: usize, to: usize) -> (r: (bool, u32))
    requires
        from <= to <= s@.len(),
    ensures
        r.0 == all_dec_digits(s@.subrange(from as int, to as int)),
        r.0 ==> ({
            let v = spec_dec_val(s@.subrange(from as int, to as int));
            &&& (v <= 1000 ==> r.1 == v)
            &&& (v > 1000 ==> r.1 == 1000)
        }),
{
    let mut valid = true;
    let mut acc: u32 = 0;
    let mut i = from;
    while i < to
        invariant
            from <= i <= to <= s@.len(),
            valid == all_dec_digits(s@.subrange(from as int, i as int)),
            acc <= 1000,
            valid ==> ({
                let v = spec_dec_val(s@.subrange(from as int, i as int));
                &&& (v <= 1000 ==> acc == v)
                &&& (v > 1000 ==> acc == 1000)
            }),
        decreases to - i,
    {
        let ghost prefix = s@.subrange(from as int, i as int);
        let ghost prefix2 = s@.subrange(from as int, i + 1);
        proof {
            assert(prefix2.drop_last() =~= prefix);
            assert(prefix2.last() == s@[i as int]);
            assert(forall|j: int| 0 <= j < prefix.len() ==> prefix2[j] == #[trigger] prefix[j]);
            if all_dec_digits(prefix) {
                lemma_dec_val_nonneg(prefix);
            }
        }
        let c = s.get_char(i);
        let u = c as u32;
        if 48 <= u && u <= 57 {
            let d = u - 48;
            proof {
                if valid {
                    let v = spec_dec_val(prefix);
                    let v2 = spec_dec_val(prefix2);
                    assert(v2 == v * 10 + (u - 48));
                    if v > 1000 {
                        assert(v * 10 + (u - 48) > 1000) by (nonlinear_arith)
                            requires v > 1000 && u >= 48;
                    } else {
                        assert(v * 10 <= 10000) by (nonlinear_arith)
                            requires v <= 1000;
                        assert(v * 10 >= 0) by (nonlinear_arith)
                            requires v >= 0;
                    }
                }
            }
            acc = if acc * 10 + d > 1000 {
                1000
            } else {
                acc * 10 + d
            };
        } else {
            valid = false;
        }
        proof {
            if !all_dec_digits(prefix2) && all_dec_digits(prefix) {
                assert(!is_dec_digit(prefix2.last()));
            }
        }
        i = i + 1;
    }
    (valid, acc)
}

/// Reads `s[from..to]` as an unsigned byte, or zero when it is not
/// one.
pub fn parse_u8_range(s: &str, from: usize, to: usize) -> (r: u8)
    requires
        from <= to <= s@.len(),
    ensures
        r == spec_parse_u8_or_zero(s@.subrange(from as int, to as int)),
{
    let ghost whole = s@.subrange(from as int, to as int);
    let start: usize = if from < to && s.get_char(from) == '+' {
        from + 1
    } else {
        from
    };
    proof {
        if from < to && s@[from as int] == '+' {
            assert(whole.drop_first() =~= s@.subrange(from + 1, to as int));
        }
    }
    let (valid, acc) = scan_digits(s, start, to);
    proof {
        if valid && start < to {
            lemma_dec_val_nonneg(s@.subrange(start as int, to as int));
        }
    }
    if valid && start < to && acc <= 255 {
        acc as u8
    } else {
        0
    }
}

/// Reads `s[from..to]` as a signed byte, or zero when it is not one.
pub fn parse_i8_range(s: &str, from: usize, to: usize) -> (r: i8)
    requires
        from <= to <= s@.len(),
    ensures
        r == spec_parse_i8_or_zero(s@.subrange(from as int, to as int)),
{
    let ghost whole = s@.subrange(from as int, to as int);
    if from < to && s.get_char(from) == '-' {
        proof {
            assert(whole.drop_first() =~= s@.subrange(from + 1, to as int));
        }
        let (valid, acc) = scan_digits(s, from + 1, to);
        proof {
            if valid && from + 1 < to {
                lemma_dec_val_nonneg(s@.subrange(from + 1, to as int));
            }
        }
        if valid && from + 1 < to && acc <= 128 {
            (-(acc as i32)) as i8
        } else {
            0
        }
    } else {
        let start: usize = if from < to && s.get_char(from) == '+' {
            from + 1
        } else {
            from
        };
        proof {
            if from < to && s@[from as int] == '+' {
                assert(whole.drop_first() =~= s@.subrange(from + 1, to as int));
            }
        }
        let (valid, acc) = scan_digits(s, start, to);
        proof {
            if valid && start < to {
                lemma_dec_val_nonneg(s@.subrange(start as int, to as int));
            }
        }
        if valid && start < to && acc <= 127 {
            acc as i8
        } else {
            0
        }
    }
}

/// A bracket character, stripped from the ends of a genome string.
pub open spec fn is_bracket(c: char) -> bool {
    c == '[' || c == ']'
}

/// An ASCII whitespace character, stripped from the ends of a genome
/// entry.
pub open spec fn is_ascii_ws(c: char) -> bool {
    c == ' ' || c == '\t' || c == '\n' || c == '\r' || c as int == 11 || c as int == 12
}

/// The least index from which no leading character satisfies `p`…
pub open spec fn spec_skip_from(s: Seq<char>, p: spec_fn(char) -> bool) -> int
    decreases s.len(),
{
    if s.len() > 0 && p(s[0]) {
        1 + spec_skip_from(s.drop_first(), p)
    } else {
        0
    }
}

/// …and the greatest index up to which no trailing one does.
pub open spec fn spec_skip_to(s: Seq<char>, p: spec_fn(char) -> bool) -> int
    decreases s.len(),
{
    if s.len() > 0 && p(s.last()) {
        spec_skip_to(s.drop_last(), p)
    } else {
        s.len() as int
    }
}

/// The string with every leading and trailing character satisfying
/// `p` stripped.
pub open spec fn spec_trim(s: Seq<char>, p: spec_fn(char) -> bool) -> Seq<char> {
    let from = spec_skip_from(s, p);
    let to = spec_skip_to(s, p);
    if from <= to {
        s.subrange(from, to)
    } else {
        Seq::empty()
    }
}

/// A leading scan that stops at the first character failing `p` finds
/// the skip point.
proof fn lemma_skip_from_scan(s: Seq<char>, p: spec_fn(char) -> bool, i: int)
    requires
        0 <= i <= s.len(),
        forall|j: int| 0 <= j < i ==> p(#[trigger] s[j]),
        i < s.len() ==> !p(s[i]),
    ensures
        spec_skip_from(s, p) == i,
    decreases i,
{
    if i == 0 {
    } else {
        assert(p(s[0]));
        assert forall|j: int| 0 <= j < i - 1 implies p(#[trigger] s.drop_first()[j]) by {
            assert(s.drop_first()[j] == s[j + 1]);
        }
        if i - 1 < s.drop_first().len() {
            assert(s.drop_first()[i - 1] == s[i]);
        }
        lemma_skip_from_scan(s.drop_first(), p, i - 1);
    }
}

/// A trailing scan that stops at the last character failing `p` finds
/// the skip point.
proof fn lemma_skip_to_scan(s: Seq<char>, p: spec_fn(char) -> bool, i: int)
    requires
        0 <= i <= s.len(),
        forall|j: int| i <= j < s.len() ==> p(#[trigger] s[j]),
        i > 0 ==> !p(s[i - 1]),
    ensures
        spec_skip_to(s, p) == i,
    decreases s.len() - i,
{
    if i == s.len() {
    } else {
        assert(p(s.last()));
        assert forall|j: int| i <= j < s.drop_last().len() implies p(
            #[trigger] s.drop_last()[j],
        ) by {
            assert(s.drop_last()[j] == s[j]);
        }
        if i > 0 {
            assert(s.drop_last()[i - 1] == s[i - 1]);
        }
        lemma_skip_to_scan(s.drop_last(), p, i);
    }
}

/// The skip points stay within the string.
proof fn lemma_skip_bounds(s: Seq<char>, p: spec_fn(char) -> bool)
    ensures
        0 <= spec_skip_from(s, p) <= s.len(),
        0 <= spec_skip_to(s, p) <= s.len(),
    decreases s.len(),
{
    if s.len() > 0 {
        lemma_skip_bounds(s.drop_first(), p);
        lemma_skip_bounds(s.drop_last(), p);
    }
}

/// Where the first comma of `s` stands, or its length when none does.
pub open spec fn spec_first_comma(s: Seq<char>) -> int
    decreases s.len(),
{
    if s.len() == 0 {
        0
    } else if s[0] == ',' {
        0
    } else {
        1 + spec_first_comma(s.drop_first())
    }
}

/// The comma-separated pieces of a string; a string without a comma
/// is one piece, so there is always at least one.
pub open spec fn spec_split_commas(s: Seq<char>) -> Seq<Seq<char>>
    decreases s.len(),
{
    let fc = spec_first_comma(s);
    if !(0 <= fc < s.len()) {
        seq![s]
    } else {
        seq![s.subrange(0, fc)] + spec_split_commas(s.subrange(fc + 1, s.len() as int))
    }
}

/// A scan that stops at the first comma finds it.
proof fn lemma_first_comma_scan(s: Seq<char>, i: int)
    requires
        0 <= i <= s.len(),
        forall|j: int| 0 <= j < i ==> #[trigger] s[j] != ',',
        i < s.len() ==> s[i] == ',',
    ensures
        spec_first_comma(s) == i,
    decreases i, s.len(),
{
    if s.len() == 0 || i == 0 {
    } else {
        assert(s[0] != ',');
        assert forall|j: int| 0 <= j < i - 1 implies #[trigger] s.drop_first()[j] != ',' by {
            assert(s.drop_first()[j] == s[j + 1]);
        }
        if i - 1 < s.drop_first().len() {
            assert(s.drop_first()[i - 1] == s[i]);
        }
        lemma_first_comma_scan(s.drop_first(), i - 1);
    }
}

/// The first comma never stands past the end.
proof fn lemma_first_comma_bounds(s: Seq<char>)
    ensures
        0 <= spec_first_comma(s) <= s.len(),
    decreases s.len(),
{
    if s.len() > 0 && s[0] != ',' {
        lemma_first_comma_bounds(s.drop_first());
    }
}

/// What one genome entry denotes: the entry trimmed of whitespace,
/// read as an unsigned byte or zero.
pub open spec fn spec_gene_entry(seg: Seq<char>) -> u8 {
    spec_parse_u8_or_zero(spec_trim(seg, |c: char| is_ascii_ws(c)))
}

/// What a genome string denotes: brackets stripped; an empty remnant
/// is eight rot genes; otherwise each comma-separated entry, trimmed,
/// read as a byte or zero.
pub open spec fn spec_parse_genes(s: Seq<char>) -> Seq<u8> {
    let t = spec_trim(s, |c: char| is_bracket(c));
    if t.len() == 0 {
        Seq::new(8, |i: int| 0u8)
    } else {
        spec_split_commas(t).map_values(|seg: Seq<char>| spec_gene_entry(seg))
    }
}

/// Strips characters satisfying the bracket test from both ends of
/// `s[from..to]`, returning the remaining range.
fn trim_range_brackets(s: &str, from: usize, to: usize) -> (r: (usize, usize))
    requires
        from <= to <= s@.len(),
    ensures
        from <= r.0 && r.0 <= r.1 && r.1 <= to,
        s@.subrange(r.0 as int, r.1 as int) == spec_trim(
            s@.subrange(from as int, to as int),
            |c: char| is_bracket(c),
        ),
{
    let ghost whole = s@.subrange(from as int, to as int);
    let ghost p = |c: char| is_bracket(c);
    let mut lo = from;
    loop
        invariant
            from <= lo <= to <= s@.len(),
            forall|j: int| from <= j < lo ==> is_bracket(#[trigger] s@[j]),
        ensures
            from <= lo <= to <= s@.len(),
            forall|j: int| from <= j < lo ==> is_bracket(#[trigger] s@[j]),
            lo < to ==> !is_bracket(s@[lo as int]),
        decreases to - lo,
    {
        if lo >= to {
            break;
        }
        let c = s.get_char(lo);
        if !(c == '[' || c == ']') {
            break;
        }
        lo = lo + 1;
    }
    proof {
        assert forall|j: int| 0 <= j < lo - from implies p(#[trigger] whole[j]) by {
            assert(whole[j] == s@[from + j]);
        }
        if (lo as int) - (from as int) < whole.len() {
            assert(whole[lo - from] == s@[lo as int]);
        }
        lemma_skip_from_scan(whole, p, lo as int - from as int);
    }
    let mut hi = to;
    loop
        invariant
            from <= lo <= hi <= to <= s@.len(),
            forall|j: int| hi <= j < to ==> is_bracket(#[trigger] s@[j]),
        ensures
            from <= lo <= hi <= to <= s@.len(),
            forall|j: int| hi <= j < to ==> is_bracket(#[trigger] s@[j]),
            hi > lo ==> !is_bracket(s@[hi - 1]),
        decreases hi,
    {
        if hi <= lo {
            break;
        }
        let c = s.get_char(hi - 1);
        if !(c == '[' || c == ']') {
            break;
        }
        hi = hi - 1;
    }
    proof {
        lemma_skip_bounds(whole, p);
        if hi == lo {
            // The scans met: everything was stripped, and the spec
            // trims to nothing as well.
            assert(lo == to);
            assert forall|j: int| 0 <= j < whole.len() implies p(#[trigger] whole[j]) by {
                assert(whole[j] == s@[from + j]);
            }
            lemma_skip_from_scan(whole, p, whole.len() as int);
            assert(spec_trim(whole, p) =~= s@.subrange(lo as int, hi as int));
        } else {
            assert forall|j: int| hi - from <= j < whole.len() implies p(#[trigger] whole[j]) by {
                assert(whole[j] == s@[from + j]);
            }
            assert(whole[hi - from - 1] == s@[hi - 1]);
            lemma_skip_to_scan(whole, p, hi as int - from as int);
            assert(s@.subrange(lo as int, hi as int) =~= whole.subrange(
                lo - from,
                hi - from,
            ));
        }
    }
    (lo, hi)
}

/// Strips ASCII whitespace from both ends of `s[from..to]`, returning
/// the remaining range.
fn trim_range_ws(s: &str, from: usize, to: usize) -> (r: (usize, usize))
    requires
        from <= to <= s@.len(),
    ensures
        from <= r.0 && r.0 <= r.1 && r.1 <= to,
        s@.subrange(r.0 as int, r.1 as int) == spec_trim(
            s@.subrange(from as int, to as int),
            |c: char| is_ascii_ws(c),
        ),
{
    let ghost whole = s@.subrange(from as int, to as int);
    let ghost p = |c: char| is_ascii_ws(c);
    let mut lo = from;
    loop
        invariant
            from <= lo <= to <= s@.len(),
            forall|j: int| from <= j < lo ==> is_ascii_ws(#[trigger] s@[j]),
        ensures
            from <= lo <= to <= s@.len(),
            forall|j: int| from <= j < lo ==> is_ascii_ws(#[trigger] s@[j]),
            lo < to ==> !is_ascii_ws(s@[lo as int]),
        decreases to - lo,
    {
        if lo >= to {
            break;
        }
        let u = s.get_char(lo) as u32;
        if !(u == 32 || u == 9 || u == 10 || u == 13 || u == 11 || u == 12) {
            break;
        }
        lo = lo + 1;
    }
    proof {
        assert forall|j: int| 0 <= j < lo - from implies p(#[trigger] whole[j]) by {
            assert(whole[j] == s@[from + j]);
        }
        if (lo as int) - (from as int) < whole.len() {
            assert(whole[lo - from] == s@[lo as int]);
        }
        lemma_skip_from_scan(whole, p, lo as int - from as int);
    }
    let mut hi = to;
    loop
        invariant
            from <= lo <= hi <= to <= s@.len(),
            forall|j: int| hi <= j < to ==> is_ascii_ws(#[trigger] s@[j]),
        ensures
            from <= lo <= hi <= to <= s@.len(),
            forall|j: int| hi <= j < to ==> is_ascii_ws(#[trigger] s@[j]),
            hi > lo ==> !is_ascii_ws(s@[hi - 1]),
        decreases hi,
    {
        if hi <= lo {
            break;
        }
        let u = s.get_char(hi - 1) as u32;
        if !(u == 32 || u == 9 || u == 10 || u == 13 || u == 11 || u == 12) {
            break;
        }
        hi = hi - 1;
    }
    proof {
        lemma_skip_bounds(whole, p);
        if hi == lo {
            assert(lo == to);
            assert forall|j: int| 0 <= j < whole.len() implies p(#[trigger] whole[j]) by {
                assert(whole[j] == s@[from + j]);
            }
            lemma_skip_from_scan(whole, p, whole.len() as int);
            assert(spec_trim(whole, p) =~= s@.subrange(lo as int, hi as int));
        } else {
            assert forall|j: int| hi - from <= j < whole.len() implies p(#[trigger] whole[j]) by {
                assert(whole[j] == s@[from + j]);
            }
            assert(whole[hi - from - 1] == s@[hi - 1]);
            lemma_skip_to_scan(whole, p, hi as int - from as int);
            assert(s@.subrange(lo as int, hi as int) =~= whole.subrange(
                lo - from,
                hi - from,
            ));
        }
    }
    (lo, hi)
}

/// One genome entry of `s[from..to]`: trimmed and read as a byte.
fn parse_gene_entry(s: &str, from: usize, to: usize) -> (r: u8)
    requires
        from <= to <= s@.len(),
    ensures
        r == spec_gene_entry(s@.subrange(from as int, to as int)),
{
    let (lo, hi) = trim_range_ws(s, from, to);
    parse_u8_range(s, lo, hi)
}

/// Reads the comma-separated entries of `s[from..to]`, appending each
/// entry's byte.
fn parse_gene_entries(s: &str, from: usize, to: usize, out: &mut Vec<u8>)
    requires
        from <= to <= s@.len(),
    ensures
        final(out)@ == old(out)@ + spec_split_commas(
            s@.subrange(from as int, to as int),
        ).map_values(|seg: Seq<char>| spec_gene_entry(seg)),
    decreases to - from,
{
    let ghost whole = s@.subrange(from as int, to as int);
    let mut i = from;
    while i < to && s.get_char(i) != ','
        invariant
            from <= i <= to <= s@.len(),
            forall|j: int| from <= j < i ==> #[trigger] s@[j] != ',',
        decreases to - i,
    {
        i = i + 1;
    }
    proof {
        assert forall|j: int| 0 <= j < i - from implies #[trigger] whole[j] != ',' by {
            assert(whole[j] == s@[from + j]);
        }
        if (i as int) - (from as int) < whole.len() {
            assert(whole[i - from] == s@[i as int]);
        }
        lemma_first_comma_scan(whole, i as int - from as int);
    }
    if i == to {
        // No comma: the whole range is one entry.
        let g = parse_gene_entry(s, from, to);
        out.push(g);
        proof {
            assert(whole.subrange(0, whole.len() as int) =~= whole);
            assert(final(out)@ =~= old(out)@ + spec_split_commas(whole).map_values(
                |seg: Seq<char>| spec_gene_entry(seg),
            ));
        }
    } else {
        let g = parse_gene_entry(s, from, i);
        out.push(g);
        proof {
            assert(s@.subrange(from as int, i as int) =~= whole.subrange(0, i - from));
        }
        parse_gene_entries(s, i + 1, to, out);
        proof {
            assert(s@.subrange(i + 1, to as int) =~= whole.subrange(
                i - from + 1,
                whole.len() as int,
            ));
            assert(final(out)@ =~= old(out)@ + spec_split_commas(whole).map_values(
                |seg: Seq<char>| spec_gene_entry(seg),
            ));
        }
    }
}

/// Reads a genome string: brackets stripped, an empty remnant giving
/// eight rot genes, else one byte per comma-separated entry.
pub fn parse_genes(s: &str) -> (r: Vec<u8>)
    ensures
        r@ == spec_parse_genes(s@),
{
    let n = s.unicode_len();
    let (lo, hi) = trim_range_brackets(s, 0, n);
    proof {
        assert(s@.subrange(0, n as int) =~= s@);
    }
    let mut out: Vec<u8> = Vec::new();
    if lo == hi {
        let mut i: usize = 0;
        while i < 8
            invariant
                i <= 8,
                out@.len() == i,
                forall|j: int| 0 <= j < i ==> out@[j] == 0u8,
            decreases 8 - i,
        {
            out.push(0);
            i = i + 1;
        }
        proof {
            assert(out@ =~= Seq::new(8, |i: int| 0u8));
        }
    } else {
        parse_gene_entries(s, lo, hi, &mut out);
        proof {
            assert(s@.subrange(lo as int, hi as int) == spec_trim(s@, |c: char| is_bracket(c)));
        }
    }
    out
}

/// The attribute bag as a run of entries, an absent bag being empty.
pub open spec fn spec_attrs(a: Option<Vec<TraitAttr>>) -> Seq<TraitAttr> {
    match a {
        Some(v) => v@,
        None => Seq::empty(),
    }
}

/// The first value filed under a key, or the default.
pub open spec fn spec_attr_value(
    attrs: Seq<TraitAttr>,
    key: Seq<char>,
    default: Seq<char>,
) -> Seq<char>
    decreases attrs.len(),
{
    if attrs.len() == 0 {
        default
    } else if attrs[0].trait_type@ == key {
        attrs[0].value@
    } else {
        spec_attr_value(attrs.drop_first(), key, default)
    }
}

/// A scan that stops at the first entry filed under the key finds the
/// value the spec names.
proof fn lemma_attr_value_scan(
    attrs: Seq<TraitAttr>,
    key: Seq<char>,
    default: Seq<char>,
    i: int,
)
    requires
        0 <= i <= attrs.len(),
        forall|j: int| 0 <= j < i ==> (#[trigger] attrs[j]).trait_type@ != key,
        i < attrs.len() ==> attrs[i].trait_type@ == key,
    ensures
        i < attrs.len() ==> spec_attr_value(attrs, key, default) == attrs[i].value@,
        i == attrs.len() ==> spec_attr_value(attrs, key, default) == default,
    decreases i, attrs.len(),
{
    if attrs.len() == 0 || i == 0 {
    } else {
        assert(attrs[0].trait_type@ != key);
        assert forall|j: int| 0 <= j < i - 1 implies (
        #[trigger] attrs.drop_first()[j]).trait_type@ != key by {
            assert(attrs.drop_first()[j] == attrs[j + 1]);
        }
        if i - 1 < attrs.drop_first().len() {
            assert(attrs.drop_first()[i - 1] == attrs[i]);
        }
        lemma_attr_value_scan(attrs.drop_first(), key, default, i - 1);
    }
}

/// Finds the first entry filed under a key.
fn find_attr<'a>(attrs: &'a Vec<TraitAttr>, key: &String) -> (r: Option<&'a String>)
    ensures
        r matches Some(v) ==> (forall|d: Seq<char>|
            spec_attr_value(attrs@, key@, d) == v@),
        r is None ==> (forall|d: Seq<char>| spec_attr_value(attrs@, key@, d) == d),
{
    let n = attrs.len();
    let mut i: usize = 0;
    while i < n
        invariant
            i <= n,
            n == attrs@.len(),
            forall|j: int| 0 <= j < i ==> (#[trigger] attrs@[j]).trait_type@ != key@,
        decreases n - i,
    {
        if attrs[i].trait_type == *key {
            proof {
                assert forall|d: Seq<char>| spec_attr_value(attrs@, key@, d) == attrs@[i
                    as int].value@ by {
                    lemma_attr_value_scan(attrs@, key@, d, i as int);
                }
            }
            return Some(&attrs[i].value);
        }
        i = i + 1;
    }
    proof {
        assert forall|d: Seq<char>| spec_attr_value(attrs@, key@, d) == d by {
            lemma_attr_value_scan(attrs@, key@, d, n as int);
        }
    }
    None
}

/// Reads the value under a key as a signed byte, defaulting to "0".
fn lookup_i8(attrs: &Vec<TraitAttr>, key: &String, default: &String) -> (r: i8)
    ensures
        r == spec_parse_i8_or_zero(spec_attr_value(attrs@, key@, default@)),
{
    let value: &String = match find_attr(attrs, key) {
        Some(v) => v,
        None => default,
    };
    let s = value.as_str();
    let n = s.unicode_len();
    proof {
        assert(s@.subrange(0, n as int) =~= s@);
    }
    parse_i8_range(s, 0, n)
}

/// Reads the value under a key as an unsigned byte, defaulting to
/// "0".
fn lookup_u8(attrs: &Vec<TraitAttr>, key: &String, default: &String) -> (r: u8)
    ensures
        r == spec_parse_u8_or_zero(spec_attr_value(attrs@, key@, default@)),
{
    let value: &String = match find_attr(attrs, key) {
        Some(v) => v,
        None => default,
    };
    let s = value.as_str();
    let n = s.unicode_len();
    proof {
        assert(s@.subrange(0, n as int) =~= s@);
    }
    parse_u8_range(s, 0, n)
}

/// Parses the registry's attribute bag back into typed traits: each
/// known key maps to its field, anything missing or malformed
/// defaults, and the genome string is decoded entry by entry.
pub fn parse_traits(attributes: &Option<Vec<TraitAttr>>) -> (r: TraitExtension)
    ensures
        ({
            let attrs = spec_attrs(*attributes);
            let zero = "0"@;
            &&& r.cap == spec_parse_i8_or_zero(spec_attr_value(attrs, "cap"@, zero))
            &&& r.stem == spec_parse_i8_or_zero(spec_attr_value(attrs, "stem"@, zero))
            &&& r.spores == spec_parse_i8_or_zero(spec_attr_value(attrs, "spores"@, zero))
            &&& r.substrate == spec_parse_u8_or_zero(spec_attr_value(attrs, "substrate"@, zero))
            &&& r.genes@ == spec_parse_genes(spec_attr_value(attrs, "genome"@, "[]"@))
            &&& r.base_cap == spec_parse_u8_or_zero(spec_attr_value(attrs, "base_cap"@, zero))
            &&& r.base_stem == spec_parse_u8_or_zero(spec_attr_value(attrs, "base_stem"@, zero))
            &&& r.base_spores == spec_parse_u8_or_zero(
                spec_attr_value(attrs, "base_spores"@, zero),
            )
        }),
{
    let empty: Vec<TraitAttr> = Vec::new();
    let attrs: &Vec<TraitAttr> = match attributes {
        Some(v) => v,
        None => &empty,
    };
    let zero = String::from_str("0");
    let empty_genome = String::from_str("[]");
    let genome_value: &String = match find_attr(attrs, &String::from_str("genome")) {
        Some(v) => v,
        None => &empty_genome,
    };
    let genes = parse_genes(genome_value.as_str());
    TraitExtension {
        cap: lookup_i8(attrs, &String::from_str("cap"), &zero),
        stem: lookup_i8(attrs, &String::from_str("stem"), &zero),
        spores: lookup_i8(attrs, &String::from_str("spores"), &zero),
        substrate: lookup_u8(attrs, &String::from_str("substrate"), &zero),
        genes,
        base_cap: lookup_u8(attrs, &String::from_str("base_cap"), &zero),
        base_stem: lookup_u8(attrs, &String::from_str("base_stem"), &zero),
        base_spores: lookup_u8(attrs, &String::from_str("base_spores"), &zero),
    }
}

/// The decimal digits of a number, most significant first.
pub open spec fn spec_dec_chars(x: int) -> Seq<char>
    decreases x,
{
    if x < 10 {
        seq![((48 + x) as u8) as char]
    } else {
        spec_dec_chars(x / 10).push(((48 + x % 10) as u8) as char)
    }
}

/// A signed number's decimal rendering: a minus sign before the
/// digits of its magnitude.
pub open spec fn spec_i8_dec_chars(x: int) -> Seq<char> {
    if x < 0 {
        seq!['-'] + spec_dec_chars(-x)
    } else {
        spec_dec_chars(x)
    }
}

/// The entries of a genome, joined by comma-and-space.
pub open spec fn spec_genome_join(genes: Seq<u8>) -> Seq<char>
    decreases genes.len(),
{
    if genes.len() == 0 {
        Seq::empty()
    } else if genes.len() == 1 {
        spec_dec_chars(genes[0] as int)
    } else {
        spec_genome_join(genes.drop_last()) + seq![',', ' '] + spec_dec_chars(
            genes.last() as int,
        )
    }
}

/// A genome rendered the way the registry stores it: the joined
/// entries between brackets.
pub open spec fn spec_genome_chars(genes: Seq<u8>) -> Seq<char> {
    seq!['['] + spec_genome_join(genes) + seq![']']
}

/// A rendered number is all digits, at least one, and denotes itself.
proof fn lemma_dec_chars_val(x: int)
    requires
        x >= 0,
    ensures
        spec_dec_chars(x).len() >= 1,
        all_dec_digits(spec_dec_chars(x)),
        spec_dec_val(spec_dec_chars(x)) == x,
    decreases x,
{
    if x < 10 {
        let s = spec_dec_chars(x);
        assert(s.len() == 1);
        assert(s.last() == ((48 + x) as u8) as char);
        assert(s.last() as int == 48 + x);
        assert(s.drop_last() =~= Seq::<char>::empty());
        assert(spec_dec_val(s) == spec_dec_val(s.drop_last()) * 10 + (s.last() as int - 48));
        assert(spec_dec_val(Seq::<char>::empty()) == 0);
    } else {
        lemma_dec_chars_val(x / 10);
        let sub = spec_dec_chars(x / 10);
        let s = spec_dec_chars(x);
        assert(s == sub.push(((48 + x % 10) as u8) as char));
        assert(s.drop_last() =~= sub);
        assert(s.last() as int == 48 + x % 10);
        assert forall|i: int| 0 <= i < s.len() implies is_dec_digit(#[trigger] s[i]) by {
            if i < sub.len() {
                assert(s[i] == sub[i]);
            }
        }
        vstd::arithmetic::div_mod::lemma_fundamental_div_mod(x, 10);
    }
}

/// Rendering a stat and reading it back returns the stat, signed or
/// unsigned: the attribute bag loses nothing on numeric fields.
pub proof fn lemma_stat_round_trip(x: i8, y: u8)
    ensures
        spec_parse_i8_or_zero(spec_i8_dec_chars(x as int)) == x,
        spec_parse_u8_or_zero(spec_dec_chars(y as int)) == y,
{
    lemma_dec_chars_val(y as int);
    let su = spec_dec_chars(y as int);
    assert(su[0] as int >= 48);
    assert(su[0] != '+');
    if x >= 0 {
        lemma_dec_chars_val(x as int);
        let s = spec_dec_chars(x as int);
        assert(s[0] as int >= 48 && s[0] as int <= 57);
        assert(s[0] != '+' && s[0] != '-');
    } else {
        lemma_dec_chars_val(-(x as int));
        let body = spec_dec_chars(-(x as int));
        let s = seq!['-'] + body;
        assert(s[0] == '-');
        assert(s.drop_first() =~= body);
        assert(spec_parse_int(s) == Some(-spec_dec_val(body)));
    }
}

/// Rendered digits are never separators, brackets or whitespace.
proof fn lemma_dec_chars_plain(x: int)
    requires
        x >= 0,
    ensures
        spec_dec_chars(x).len() >= 1,
        forall|i: int|
            0 <= i < spec_dec_chars(x).len() ==> (48 <= (#[trigger] spec_dec_chars(x)[i]) as int
                <= 57),
{
    lemma_dec_chars_val(x);
}

/// Splitting off the first genome entry: for two or more genes the
/// joined form starts with the first entry and one separator.
proof fn lemma_join_first_step(genes: Seq<u8>)
    requires
        genes.len() >= 2,
    ensures
        spec_genome_join(genes) == spec_dec_chars(genes[0] as int) + seq![',', ' ']
            + spec_genome_join(genes.drop_first()),
    decreases genes.len(),
{
    if genes.len() == 2 {
        assert(genes.drop_last() =~= seq![genes[0]]);
        assert(genes.drop_first() =~= seq![genes[1]]);
        assert(genes.last() == genes[1]);
        assert(spec_genome_join(genes) == spec_genome_join(genes.drop_last()) + seq![',', ' ']
            + spec_dec_chars(genes.last() as int));
        assert(spec_genome_join(seq![genes[0]]) == spec_dec_chars(genes[0] as int));
        assert(spec_genome_join(seq![genes[1]]) == spec_dec_chars(genes[1] as int));
        assert(spec_genome_join(genes) =~= spec_dec_chars(genes[0] as int) + seq![',', ' ']
            + spec_genome_join(genes.drop_first()));
    } else {
        lemma_join_first_step(genes.drop_last());
        let dl = genes.drop_last();
        let df = genes.drop_first();
        assert(dl[0] == genes[0]);
        assert(dl.drop_first() =~= df.drop_last());
        assert(df.len() >= 2);
        assert(df.last() == genes.last());
        assert(dl.len() >= 2);
        assert(spec_genome_join(genes) == spec_genome_join(dl) + seq![',', ' '] + spec_dec_chars(
            genes.last() as int,
        ));
        assert(spec_genome_join(df) == spec_genome_join(df.drop_last()) + seq![',', ' ']
            + spec_dec_chars(df.last() as int));
        assert(spec_genome_join(dl.drop_first()) == spec_genome_join(df.drop_last()));
        assert(spec_genome_join(dl) == spec_dec_chars(genes[0] as int) + seq![',', ' ']
            + spec_genome_join(df.drop_last()));
        assert(spec_genome_join(genes) =~= spec_dec_chars(genes[0] as int) + seq![',', ' ']
            + spec_genome_join(df));
    }
}

/// How a joined genome splits back, under any comma-free lead-in: one
/// piece per gene, the first carrying the lead-in, the rest one space.
proof fn lemma_split_join(pre: Seq<char>, genes: Seq<u8>)
    requires
        genes.len() >= 1,
        forall|i: int| 0 <= i < pre.len() ==> (#[trigger] pre[i]) != ',',
    ensures
        ({
            let pieces = spec_split_commas(pre + spec_genome_join(genes));
            &&& pieces.len() == genes.len()
            &&& pieces[0] == pre + spec_dec_chars(genes[0] as int)
            &&& forall|k: int|
                1 <= k < pieces.len() ==> #[trigger] pieces[k] == seq![' '] + spec_dec_chars(
                    genes[k] as int,
                )
        }),
    decreases genes.len(),
{
    let s = pre + spec_genome_join(genes);
    if genes.len() == 1 {
        assert(genes.drop_last() =~= Seq::<u8>::empty());
        assert(spec_genome_join(genes) == spec_dec_chars(genes[0] as int));
        lemma_dec_chars_plain(genes[0] as int);
        assert forall|j: int| 0 <= j < s.len() implies #[trigger] s[j] != ',' by {
            if j >= pre.len() {
                assert(s[j] == spec_dec_chars(genes[0] as int)[j - pre.len()]);
            }
        }
        lemma_first_comma_scan(s, s.len() as int);
        assert(spec_split_commas(s) =~= seq![s]);
    } else {
        lemma_join_first_step(genes);
        let head = spec_dec_chars(genes[0] as int);
        let tail = spec_genome_join(genes.drop_first());
        assert(s =~= (pre + head) + seq![','] + (seq![' '] + tail));
        lemma_dec_chars_plain(genes[0] as int);
        let fc = pre.len() + head.len();
        assert forall|j: int| 0 <= j < fc implies #[trigger] s[j] != ',' by {
            if j >= pre.len() {
                assert(s[j] == head[j - pre.len()]);
            }
        }
        assert(s[fc as int] == ',');
        lemma_first_comma_scan(s, fc as int);
        let rest = s.subrange(fc as int + 1, s.len() as int);
        assert(rest =~= seq![' '] + tail);
        lemma_split_join(seq![' '], genes.drop_first());
        let sub_pieces = spec_split_commas(rest);
        let pieces = spec_split_commas(s);
        assert(pieces =~= seq![s.subrange(0, fc as int)] + sub_pieces);
        assert(s.subrange(0, fc as int) =~= pre + head);
        assert forall|k: int|
            1 <= k < pieces.len() implies #[trigger] pieces[k] == seq![' '] + spec_dec_chars(
            genes[k] as int,
        ) by {
            assert(pieces[k] == sub_pieces[k - 1]);
            if k == 1 {
                assert(sub_pieces[0] == seq![' '] + spec_dec_chars(
                    genes.drop_first()[0] as int,
                ));
            } else {
                assert(sub_pieces[k - 1] == seq![' '] + spec_dec_chars(
                    genes.drop_first()[k - 1] as int,
                ));
            }
        }
    }
}

/// One rendered genome entry, optionally space-led, reads back as its
/// gene.
proof fn lemma_gene_entry_round_trip(pre: Seq<char>, g: u8)
    requires
        pre =~= Seq::<char>::empty() || pre =~= seq![' '],
    ensures
        spec_gene_entry(pre + spec_dec_chars(g as int)) == g,
{
    let digits = spec_dec_chars(g as int);
    let seg = pre + digits;
    let p = |c: char| is_ascii_ws(c);
    lemma_dec_chars_plain(g as int);
    assert forall|j: int| 0 <= j < pre.len() implies p(#[trigger] seg[j]) by {
        assert(seg[j] == pre[j]);
    }
    assert(seg[pre.len() as int] == digits[0]);
    lemma_skip_from_scan(seg, p, pre.len() as int);
    assert(seg[seg.len() - 1] == digits[digits.len() - 1]);
    lemma_skip_to_scan(seg, p, seg.len() as int);
    assert(spec_trim(seg, p) =~= digits);
    lemma_stat_round_trip(0, g);
}

/// A rendered genome reads back gene for gene: the registry's
/// string form loses nothing of a non-empty genome.
pub proof fn lemma_genome_round_trip(genes: Seq<u8>)
    requires
        genes.len() >= 1,
    ensures
        spec_parse_genes(spec_genome_chars(genes)) == genes,
{
    let join = spec_genome_join(genes);
    let s = spec_genome_chars(genes);
    let p = |c: char| is_bracket(c);
    lemma_dec_chars_plain(genes[0] as int);
    lemma_dec_chars_plain(genes.last() as int);
    // The joined body starts and ends with digits.
    if genes.len() >= 2 {
        lemma_join_first_step(genes);
    }
    assert(join[0] == spec_dec_chars(genes[0] as int)[0]);
    assert(join.last() == spec_dec_chars(genes.last() as int).last());
    // Stripping the brackets leaves exactly the joined body.
    assert(s[0] == '[');
    assert(s[1] == join[0]);
    lemma_skip_from_scan(s, p, 1);
    assert(s[s.len() - 1] == ']');
    assert(s[s.len() - 2] == join.last());
    lemma_skip_to_scan(s, p, s.len() - 1);
    assert(spec_trim(s, p) =~= join);
    assert(join.len() > 0);
    // Splitting and reading each piece recovers the genes.
    lemma_split_join(Seq::empty(), genes);
    let pieces = spec_split_commas(join);
    assert(Seq::<char>::empty() + join =~= join);
    let parsed = pieces.map_values(|seg: Seq<char>| spec_gene_entry(seg));
    assert forall|k: int| 0 <= k < parsed.len() implies #[trigger] parsed[k] == genes[k] by {
        if k == 0 {
            assert(pieces[0] =~= Seq::<char>::empty() + spec_dec_chars(genes[0] as int));
            lemma_gene_entry_round_trip(Seq::empty(), genes[0]);
        } else {
            lemma_gene_entry_round_trip(seq![' '], genes[k]);
        }
    }
    assert(parsed =~= genes);
}

/// The string round trip through the registry's generic schema loses
/// nothing: a bag rendered from typed traits — as
/// `traits_to_attributes` lays it out — reads back field for field,
/// whenever the genome is non-empty.
pub proof fn lemma_attributes_round_trip(attrs: Seq<TraitAttr>, t: TraitExtension)
    requires
        attrs.len() == 8,
        attrs[0].trait_type@ == "cap"@ && attrs[0].value@ == spec_i8_dec_chars(t.cap as int),
        attrs[1].trait_type@ == "stem"@ && attrs[1].value@ == spec_i8_dec_chars(t.stem as int),
        attrs[2].trait_type@ == "spores"@ && attrs[2].value@ == spec_i8_dec_chars(
            t.spores as int,
        ),
        attrs[3].trait_type@ == "substrate"@ && attrs[3].value@ == spec_dec_chars(
            t.substrate as int,
        ),
        attrs[4].trait_type@ == "base_cap"@ && attrs[4].value@ == spec_dec_chars(
            t.base_cap as int,
        ),
        attrs[5].trait_type@ == "base_stem"@ && attrs[5].value@ == spec_dec_chars(
            t.base_stem as int,
        ),
        attrs[6].trait_type@ == "base_spores"@ && attrs[6].value@ == spec_dec_chars(
            t.base_spores as int,
        ),
        attrs[7].trait_type@ == "genome"@ && attrs[7].value@ == spec_genome_chars(t.genes@),
        t.genes@.len() >= 1,
    ensures
        spec_parse_i8_or_zero(spec_attr_value(attrs, "cap"@, "0"@)) == t.cap,
        spec_parse_i8_or_zero(spec_attr_value(attrs, "stem"@, "0"@)) == t.stem,
        spec_parse_i8_or_zero(spec_attr_value(attrs, "spores"@, "0"@)) == t.spores,
        spec_parse_u8_or_zero(spec_attr_value(attrs, "substrate"@, "0"@)) == t.substrate,
        spec_parse_u8_or_zero(spec_attr_value(attrs, "base_cap"@, "0"@)) == t.base_cap,
        spec_parse_u8_or_zero(spec_attr_value(attrs, "base_stem"@, "0"@)) == t.base_stem,
        spec_parse_u8_or_zero(spec_attr_value(attrs, "base_spores"@, "0"@)) == t.base_spores,
        spec_parse_genes(spec_attr_value(attrs, "genome"@, "[]"@)) == t.genes@,
{
    reveal_strlit("cap");
    reveal_strlit("stem");
    reveal_strlit("spores");
    reveal_strlit("substrate");
    reveal_strlit("base_cap");
    reveal_strlit("base_stem");
    reveal_strlit("base_spores");
    reveal_strlit("genome");
    reveal_strlit("0");
    reveal_strlit("[]");
    // The eight keys are pairwise distinct: mostly by length, twice
    // by their first character.
    assert("cap"@.len() == 3);
    assert("stem"@.len() == 4);
    assert("spores"@.len() == 6);
    assert("substrate"@.len() == 9);
    assert("base_cap"@.len() == 8);
    assert("base_stem"@.len() == 9);
    assert("base_spores"@.len() == 11);
    assert("genome"@.len() == 6);
    assert("substrate"@[0] == 's' && "base_stem"@[0] == 'b');
    assert("spores"@[0] == 's' && "genome"@[0] == 'g');
    assert("substrate"@ != "base_stem"@);
    assert("spores"@ != "genome"@);
    lemma_attr_value_scan(attrs, "cap"@, "0"@, 0);
    lemma_attr_value_scan(attrs, "stem"@, "0"@, 1);
    lemma_attr_value_scan(attrs, "spores"@, "0"@, 2);
    lemma_attr_value_scan(attrs, "substrate"@, "0"@, 3);
    lemma_attr_value_scan(attrs, "base_cap"@, "0"@, 4);
    lemma_attr_value_scan(attrs, "base_stem"@, "0"@, 5);
    lemma_attr_value_scan(attrs, "base_spores"@, "0"@, 6);
    lemma_attr_value_scan(attrs, "genome"@, "[]"@, 7);
    lemma_stat_round_trip(t.cap, t.substrate);
    lemma_stat_round_trip(t.stem, t.base_cap);
    lemma_stat_round_trip(t.spores, t.base_stem);
    lemma_stat_round_trip(0, t.base_spores);
    lemma_genome_round_trip(t.genes@);
}

/// Appends one decimal digit.
fn append_digit(s: &mut String, d: u64)
    requires
        d < 10,
    ensures
        final(s)@ == old(s)@ + seq![((48 + d) as u8) as char],
{
    if d == 0 {
        s.append("0");
        proof {
            reveal_strlit("0");
        }
    } else if d == 1 {
        s.append("1");
        proof {
            reveal_strlit("1");
        }
    } else if d == 2 {
        s.append("2");
        proof {
            reveal_strlit("2");
        }
    } else if d == 3 {
        s.append("3");
        proof {
            reveal_strlit("3");
        }
    } else if d == 4 {
        s.append("4");
        proof {
            reveal_strlit("4");
        }
    } else if d == 5 {
        s.append("5");
        proof {
            reveal_strlit("5");
        }
    } else if d == 6 {
        s.append("6");
        proof {
            reveal_strlit("6");
        }
    } else if d == 7 {
        s.append("7");
        proof {
            reveal_strlit("7");
        }
    } else if d == 8 {
        s.append("8");
        proof {
            reveal_strlit("8");
        }
    } else {
        s.append("9");
        proof {
            reveal_strlit("9");
        }
    }
}

/// Appends a number's decimal digits.
fn append_dec(s: &mut String, x: u64)
    ensures
        final(s)@ == old(s)@ + spec_dec_chars(x as int),
    decreases x,
{
    if x < 10 {
        append_digit(s, x);
    } else {
        append_dec(s, x / 10);
        append_digit(s, x % 10);
        proof {
            assert(final(s)@ =~= old(s)@ + spec_dec_chars(x as int));
        }
    }
}

/// Renders an unsigned byte as the registry stores it.
pub fn u8_dec_string(x: u8) -> (r: String)
    ensures
        r@ == spec_dec_chars(x as int),
{
    let mut s = String::new();
    append_dec(&mut s, x as u64);
    proof {
        assert(s@ =~= spec_dec_chars(x as int));
    }
    s
}

/// Renders a signed byte as the registry stores it.
pub fn i8_dec_string(x: i8) -> (r: String)
    ensures
        r@ == spec_i8_dec_chars(x as int),
{
    let mut s = String::new();
    if x < 0 {
        s.append("-");
        proof {
            reveal_strlit("-");
        }
        let magnitude = (-(x as i64)) as u64;
        append_dec(&mut s, magnitude);
        proof {
            assert(s@ =~= spec_i8_dec_chars(x as int));
        }
    } else {
        append_dec(&mut s, x as u64);
        proof {
            assert(s@ =~= spec_i8_dec_chars(x as int));
        }
    }
    s
}

/// Renders a genome as the registry stores it: bracketed,
/// comma-and-space separated.
pub fn genome_string(genes: &Vec<u8>) -> (r: String)
    ensures
        r@ == spec_genome_chars(genes@),
{
    let mut s = String::new();
    s.append("[");
    proof {
        reveal_strlit("[");
        reveal_strlit("]");
        reveal_strlit(", ");
        assert(genes@.subrange(0, 0) =~= Seq::<u8>::empty());
    }
    let n = genes.len();
    let mut i: usize = 0;
    while i < n
        invariant
            i <= n,
            n == genes@.len(),
            s@ == seq!['['] + spec_genome_join(genes@.subrange(0, i as int)),
            "]"@ == seq![']'],
            ", "@ == seq![',', ' '],
        decreases n - i,
    {
        proof {
            assert(genes@.subrange(0, i + 1).drop_last() =~= genes@.subrange(0, i as int));
            assert(genes@.subrange(0, i + 1).last() == genes@[i as int]);
        }
        if i > 0 {
            s.append(", ");
        }
        append_dec(&mut s, genes[i] as u64);
        proof {
            assert(s@ =~= seq!['['] + spec_genome_join(genes@.subrange(0, i + 1)));
        }
        i = i + 1;
    }
    s.append("]");
    proof {
        assert(genes@.subrange(0, n as int) =~= genes@);
        assert(s@ =~= spec_genome_chars(genes@));
    }
    s
}

/// Renders typed traits as the registry's generic attribute bag: one
/// entry per stat, plus the genome string — the exact inverse shape
/// of what `parse_traits` reads.
pub fn traits_to_attributes(traits: &TraitExtension) -> (r: Vec<TraitAttr>)
    ensures
        r@.len() == 8,
        r@[0].trait_type@ == "cap"@ && r@[0].value@ == spec_i8_dec_chars(traits.cap as int),
        r@[1].trait_type@ == "stem"@ && r@[1].value@ == spec_i8_dec_chars(traits.stem as int),
        r@[2].trait_type@ == "spores"@ && r@[2].value@ == spec_i8_dec_chars(
            traits.spores as int,
        ),
        r@[3].trait_type@ == "substrate"@ && r@[3].value@ == spec_dec_chars(
            traits.substrate as int,
        ),
        r@[4].trait_type@ == "base_cap"@ && r@[4].value@ == spec_dec_chars(
            traits.base_cap as int,
        ),
        r@[5].trait_type@ == "base_stem"@ && r@[5].value@ == spec_dec_chars(
            traits.base_stem as int,
        ),
        r@[6].trait_type@ == "base_spores"@ && r@[6].value@ == spec_dec_chars(
            traits.base_spores as int,
        ),
        r@[7].trait_type@ == "genome"@ && r@[7].value@ == spec_genome_chars(traits.genes@),
        forall|i: int| 0 <= i < 8 ==> (#[trigger] r@[i]).display_type is None,
{
    let mut out: Vec<TraitAttr> = Vec::new();
    out.push(
        TraitAttr {
            display_type: None,
            trait_type: String::from_str("cap"),
            value: i8_dec_string(traits.cap),
        },
    );
    out.push(
        TraitAttr {
            display_type: None,
            trait_type: String::from_str("stem"),
            value: i8_dec_string(traits.stem),
        },
    );
    out.push(
        TraitAttr {
            display_type: None,
            trait_type: String::from_str("spores"),
            value: i8_dec_string(traits.spores),
        },
    );
    out.push(
        TraitAttr {
            display_type: None,
            trait_type: String::from_str("substrate"),
            value: u8_dec_string(traits.substrate),
        },
    );
    out.push(
        TraitAttr {
            display_type: None,
            trait_type: String::from_str("base_cap"),
            value: u8_dec_string(traits.base_cap),
        },
    );
    out.push(
        TraitAttr {
            display_type: None,
            trait_type: String::from_str("base_stem"),
            value: u8_dec_string(traits.base_stem),
        },
    );
    out.push(
        TraitAttr {
            display_type: None,
            trait_type: String::from_str("base_spores"),
            value: u8_dec_string(traits.base_spores),
        },
    );
    out.push(
        TraitAttr {
            display_type: None,
            trait_type: String::from_str("genome"),
            value: genome_string(&traits.genes),
        },
    );
    out
}

} // verus!
