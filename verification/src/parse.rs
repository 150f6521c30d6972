//! Byte-level text utilities.
//!
//! The acquisition layer hands this crate whole text blobs (tick-counter
//! tables, process enumerations, key/value hardware descriptions) as byte
//! slices. Everything here is pure: splitting into lines and tokens,
//! trimming, and decimal parsing, each against an exact mathematical
//! specification. Malformed numeric fields never panic; they degrade to a
//! documented default.

use vstd::prelude::*;

verus! {

/// ASCII whitespace, the class used for trimming and token splitting.
pub open spec fn is_space(b: u8) -> bool {
    b == 32 || b == 9 || b == 10 || b == 13 || b == 11 || b == 12
}

/// ASCII decimal digit.
pub open spec fn is_ascii_digit(b: u8) -> bool {
    48 <= b <= 57
}

/// The boundary classes a scan can look for.
#[derive(Clone, Copy)]
pub enum Delim {
    Newline,
    SpaceOnly,
    Whitespace,
    ColonSpace,
    CloseParen,
}

/// Whether the boundary `d` holds at position `i` of `s`.
pub open spec fn delim_at(d: Delim, s: Seq<u8>, i: int) -> bool {
    match d {
        Delim::Newline => s[i] == 10,
        Delim::SpaceOnly => s[i] == 32,
        Delim::Whitespace => is_space(s[i]),
        Delim::ColonSpace => s[i] == 58 && i + 1 < s.len() && s[i + 1] == 32,
        Delim::CloseParen => s[i] == 41,
    }
}

/// Position of the first boundary of class `d` at or after `from`, if any.
pub open spec fn find_from(d: Delim, s: Seq<u8>, from: int) -> Option<int>
    decreases s.len() - from,
{
    if !(0 <= from < s.len()) {
        None
    } else if delim_at(d, s, from) {
        Some(from)
    } else {
        find_from(d, s, from + 1)
    }
}

/// Position of the last boundary of class `d` strictly before `before`, if any.
pub open spec fn rfind_before(d: Delim, s: Seq<u8>, before: int) -> Option<int>
    decreases before,
{
    if !(0 < before <= s.len()) {
        None
    } else if delim_at(d, s, before - 1) {
        Some(before - 1)
    } else {
        rfind_before(d, s, before - 1)
    }
}

/// What `find_from` returns: the first position in `[from, len)` where the
/// boundary holds, with none before it.
pub proof fn lemma_find_from(d: Delim, s: Seq<u8>, from: int)
    requires
        0 <= from <= s.len(),
    ensures
        (match find_from(d, s, from) {
            Some(j) => from <= j < s.len() && delim_at(d, s, j) && (forall|m: int|
                from <= m < j ==> !delim_at(d, s, m)),
            None => forall|m: int| from <= m < s.len() ==> !delim_at(d, s, m),
        }),
    decreases s.len() - from,
{
    if from < s.len() && !delim_at(d, s, from) {
        lemma_find_from(d, s, from + 1);
    }
}

/// `find_from` is determined by those properties.
pub proof fn lemma_find_from_is(d: Delim, s: Seq<u8>, from: int, r: Option<int>)
    requires
        0 <= from <= s.len(),
        (match r {
            Some(j) => from <= j < s.len() && delim_at(d, s, j) && (forall|m: int|
                from <= m < j ==> !delim_at(d, s, m)),
            None => forall|m: int| from <= m < s.len() ==> !delim_at(d, s, m),
        }),
    ensures
        find_from(d, s, from) == r,
    decreases s.len() - from,
{
    if from < s.len() && !delim_at(d, s, from) {
        lemma_find_from_is(d, s, from + 1, r);
    }
}

/// What `rfind_before` returns: the last position in `[0, before)` where the
/// boundary holds, with none after it.
pub proof fn lemma_rfind_before(d: Delim, s: Seq<u8>, before: int)
    requires
        0 <= before <= s.len(),
    ensures
        (match rfind_before(d, s, before) {
            Some(j) => 0 <= j < before && delim_at(d, s, j) && (forall|m: int|
                j < m < before ==> !delim_at(d, s, m)),
            None => forall|m: int| 0 <= m < before ==> !delim_at(d, s, m),
        }),
    decreases before,
{
    if before > 0 && !delim_at(d, s, before - 1) {
        lemma_rfind_before(d, s, before - 1);
    }
}

/// The numeric value of a digit string, most significant digit first.
pub open spec fn digits_val(s: Seq<u8>) -> int
    decreases s.len(),
{
    if s.len() == 0 {
        0
    } else {
        digits_val(s.drop_last()) * 10 + (s.last() - 48)
    }
}

/// All bytes of `s` are decimal digits.
pub open spec fn all_digits(s: Seq<u8>) -> bool {
    forall|i: int| 0 <= i < s.len() ==> is_ascii_digit(#[trigger] s[i])
}

pub proof fn lemma_digits_val_nonneg(s: Seq<u8>)
    requires
        all_digits(s),
    ensures
        digits_val(s) >= 0,
    decreases s.len(),
{
    if s.len() > 0 {
        assert(all_digits(s.drop_last()));
        lemma_digits_val_nonneg(s.drop_last());
    }
}

/// Appending digits never lowers the value: a prefix of a digit string is
/// bounded by the whole.
pub proof fn lemma_digits_val_prefix_le(s: Seq<u8>, k: int)
    requires
        all_digits(s),
        0 <= k <= s.len(),
    ensures
        digits_val(s.take(k)) <= digits_val(s),
    decreases s.len(),
{
    if k < s.len() {
        assert(all_digits(s.drop_last()));
        assert(s.take(k) =~= s.drop_last().take(k));
        lemma_digits_val_prefix_le(s.drop_last(), k);
        lemma_digits_val_nonneg(s.drop_last());
    } else {
        assert(s.take(k) =~= s);
    }
}

/// A non-empty all-digit string whose value fits in `u64` parses to that
/// value; everything else is rejected.
pub open spec fn spec_parse_u64(s: Seq<u8>) -> Option<u64> {
    if s.len() > 0 && all_digits(s) && digits_val(s) <= u64::MAX {
        Some(digits_val(s) as u64)
    } else {
        None
    }
}

/// The parse result, with malformed input degraded to zero.
pub open spec fn spec_parse_u64_or_zero(s: Seq<u8>) -> u64 {
    match spec_parse_u64(s) {
        Some(v) => v,
        None => 0,
    }
}

pub fn parse_u64(s: &[u8]) -> (r: Option<u64>)
    ensures
        r == spec_parse_u64(s@),
{
    if s.len() == 0 {
        return None;
    }
    let mut acc: u64 = 0;
    let mut i: usize = 0;
    while i < s.len()
        invariant
            0 <= i <= s@.len(),
            all_digits(s@.take(i as int)),
            digits_val(s@.take(i as int)) == acc as int,
        decreases s@.len() - i,
    {
        let b = s[i];
        if b < 48 || b > 57 {
            assert(!is_ascii_digit(s@[i as int]));
            return None;
        }
        let d = (b - 48) as u64;
        proof {
            assert(s@.take(i + 1 as int).drop_last() =~= s@.take(i as int));
            assert(digits_val(s@.take(i + 1 as int)) == acc * 10 + d);
            assert(all_digits(s@.take(i + 1 as int)));
        }
        let wide = match acc.checked_mul(10) {
            Some(x) => x.checked_add(d),
            None => None,
        };
        match wide {
            Some(y) => {
                acc = y;
            },
            None => {
                proof {
                    if all_digits(s@) {
                        lemma_digits_val_prefix_le(s@, i + 1);
                    }
                }
                return None;
            },
        }
        i += 1;
    }
    proof {
        assert(s@.take(i as int) =~= s@);
    }
    Some(acc)
}

pub fn parse_u64_or_zero(s: &[u8]) -> (r: u64)
    ensures
        r == spec_parse_u64_or_zero(s@),
{
    match parse_u64(s) {
        Some(v) => v,
        None => 0,
    }
}

/// A non-empty all-digit string whose value fits in `usize` parses to that
/// value; everything else is rejected.
pub open spec fn spec_parse_usize(s: Seq<u8>) -> Option<usize> {
    if s.len() > 0 && all_digits(s) && digits_val(s) <= usize::MAX {
        Some(digits_val(s) as usize)
    } else {
        None
    }
}

pub fn parse_usize(s: &[u8]) -> (r: Option<usize>)
    ensures
        r == spec_parse_usize(s@),
{
    if s.len() == 0 {
        return None;
    }
    let mut acc: usize = 0;
    let mut i: usize = 0;
    while i < s.len()
        invariant
            0 <= i <= s@.len(),
            all_digits(s@.take(i as int)),
            digits_val(s@.take(i as int)) == acc as int,
        decreases s@.len() - i,
    {
        let b = s[i];
        if b < 48 || b > 57 {
            assert(!is_ascii_digit(s@[i as int]));
            return None;
        }
        let d = (b - 48) as usize;
        proof {
            assert(s@.take(i + 1 as int).drop_last() =~= s@.take(i as int));
            assert(digits_val(s@.take(i + 1 as int)) == acc * 10 + d);
            assert(all_digits(s@.take(i + 1 as int)));
        }
        let wide = match acc.checked_mul(10) {
            Some(x) => x.checked_add(d),
            None => None,
        };
        match wide {
            Some(y) => {
                acc = y;
            },
            None => {
                proof {
                    if all_digits(s@) {
                        lemma_digits_val_prefix_le(s@, i + 1);
                    }
                }
                return None;
            },
        }
        i += 1;
    }
    proof {
        assert(s@.take(i as int) =~= s@);
    }
    Some(acc)
}

/// A non-empty all-digit string whose value fits in `u32` parses to that
/// value; everything else is rejected.
pub open spec fn spec_parse_u32(s: Seq<u8>) -> Option<u32> {
    if s.len() > 0 && all_digits(s) && digits_val(s) <= u32::MAX {
        Some(digits_val(s) as u32)
    } else {
        None
    }
}

/// The parse result, with malformed input degraded to zero.
pub open spec fn spec_parse_u32_or_zero(s: Seq<u8>) -> u32 {
    match spec_parse_u32(s) {
        Some(v) => v,
        None => 0,
    }
}

pub fn parse_u32(s: &[u8]) -> (r: Option<u32>)
    ensures
        r == spec_parse_u32(s@),
{
    if s.len() == 0 {
        return None;
    }
    let mut acc: u32 = 0;
    let mut i: usize = 0;
    while i < s.len()
        invariant
            0 <= i <= s@.len(),
            all_digits(s@.take(i as int)),
            digits_val(s@.take(i as int)) == acc as int,
        decreases s@.len() - i,
    {
        let b = s[i];
        if b < 48 || b > 57 {
            assert(!is_ascii_digit(s@[i as int]));
            return None;
        }
        let d = (b - 48) as u32;
        proof {
            assert(s@.take(i + 1 as int).drop_last() =~= s@.take(i as int));
            assert(digits_val(s@.take(i + 1 as int)) == acc * 10 + d);
            assert(all_digits(s@.take(i + 1 as int)));
        }
        let wide = match acc.checked_mul(10) {
            Some(x) => x.checked_add(d),
            None => None,
        };
        match wide {
            Some(y) => {
                acc = y;
            },
            None => {
                proof {
                    if all_digits(s@) {
                        lemma_digits_val_prefix_le(s@, i + 1);
                    }
                }
                return None;
            },
        }
        i += 1;
    }
    proof {
        assert(s@.take(i as int) =~= s@);
    }
    Some(acc)
}

pub fn parse_u32_or_zero(s: &[u8]) -> (r: u32)
    ensures
        r == spec_parse_u32_or_zero(s@),
{
    match parse_u32(s) {
        Some(v) => v,
        None => 0,
    }
}

/// Byte-wise equality of two slices.
pub fn bytes_eq(a: &[u8], b: &[u8]) -> (r: bool)
    ensures
        r == (a@ == b@),
{
    if a.len() != b.len() {
        return false;
    }
    let mut i: usize = 0;
    while i < a.len()
        invariant
            0 <= i <= a@.len(),
            a@.len() == b@.len(),
            forall|j: int| 0 <= j < i ==> a@[j] == b@[j],
        decreases a@.len() - i,
    {
        if a[i] != b[i] {
            return false;
        }
        i += 1;
    }
    proof {
        assert(a@ =~= b@);
    }
    true
}

/// Whether `p` is a prefix of `s`.
pub fn starts_with(s: &[u8], p: &[u8]) -> (r: bool)
    ensures
        r == p@.is_prefix_of(s@),
{
    if s.len() < p.len() {
        return false;
    }
    let mut i: usize = 0;
    while i < p.len()
        invariant
            0 <= i <= p@.len(),
            p@.len() <= s@.len(),
            forall|j: int| 0 <= j < i ==> s@[j] == p@[j],
        decreases p@.len() - i,
    {
        if s[i] != p[i] {
            return false;
        }
        i += 1;
    }
    proof {
        assert(p@.is_prefix_of(s@)) by {
            assert(s@.take(p@.len() as int) =~= p@);
        }
    }
    true
}

/// `rfind_before` is determined by those properties.
pub proof fn lemma_rfind_before_is(d: Delim, s: Seq<u8>, before: int, r: Option<int>)
    requires
        0 <= before <= s.len(),
        (match r {
            Some(j) => 0 <= j < before && delim_at(d, s, j) && (forall|m: int|
                j < m < before ==> !delim_at(d, s, m)),
            None => forall|m: int| 0 <= m < before ==> !delim_at(d, s, m),
        }),
    ensures
        rfind_before(d, s, before) == r,
    decreases before,
{
    if before > 0 && !delim_at(d, s, before - 1) {
        lemma_rfind_before_is(d, s, before - 1, r);
    }
}

/// Whether the boundary `d` holds at position `i`, executably.
pub fn delim_check(s: &[u8], d: Delim, i: usize) -> (r: bool)
    requires
        i < s@.len(),
    ensures
        r == delim_at(d, s@, i as int),
{
    match d {
        Delim::Newline => s[i] == 10,
        Delim::SpaceOnly => s[i] == 32,
        Delim::Whitespace => is_space_byte(s[i]),
        Delim::ColonSpace => s[i] == 58 && i + 1 < s.len() && s[i + 1] == 32,
        Delim::CloseParen => s[i] == 41,
    }
}

pub fn is_space_byte(b: u8) -> (r: bool)
    ensures
        r == is_space(b),
{
    b == 32 || b == 9 || b == 10 || b == 13 || b == 11 || b == 12
}

/// First boundary of class `d` at or after `from`.
pub fn find_delim(s: &[u8], d: Delim, from: usize) -> (r: Option<usize>)
    requires
        from <= s@.len(),
    ensures
        (match r {
            Some(j) => from <= j < s@.len() && find_from(d, s@, from as int) == Some(j as int),
            None => find_from(d, s@, from as int).is_none(),
        }),
{
    let mut i: usize = from;
    while i < s.len()
        invariant
            from <= i <= s@.len(),
            forall|m: int| from <= m < i ==> !delim_at(d, s@, m),
        decreases s@.len() - i,
    {
        if delim_check(s, d, i) {
            proof {
                lemma_find_from_is(d, s@, from as int, Some(i as int));
            }
            return Some(i);
        }
        i += 1;
    }
    proof {
        lemma_find_from_is(d, s@, from as int, None::<int>);
    }
    None
}

/// Last boundary of class `d` strictly before `before`.
pub fn rfind_delim(s: &[u8], d: Delim, before: usize) -> (r: Option<usize>)
    requires
        before <= s@.len(),
    ensures
        (match r {
            Some(j) => j < before && rfind_before(d, s@, before as int) == Some(j as int),
            None => rfind_before(d, s@, before as int).is_none(),
        }),
{
    let mut i: usize = before;
    while i > 0
        invariant
            0 <= i <= before <= s@.len(),
            forall|m: int| i <= m < before ==> !delim_at(d, s@, m),
        decreases i,
    {
        if delim_check(s, d, i - 1) {
            proof {
                lemma_rfind_before_is(d, s@, before as int, Some(i - 1 as int));
            }
            return Some(i - 1);
        }
        i -= 1;
    }
    proof {
        lemma_rfind_before_is(d, s@, before as int, None::<int>);
    }
    None
}

/// A line with its terminator removed: a trailing carriage return that stood
/// before the newline is stripped as well.
pub open spec fn strip_cr(s: Seq<u8>) -> Seq<u8> {
    if s.len() > 0 && s.last() == 13 {
        s.drop_last()
    } else {
        s
    }
}

/// The lines of a text blob: split at each newline, a carriage return before
/// the newline dropped, and no empty final line for a trailing newline.
pub open spec fn spec_lines(s: Seq<u8>) -> Seq<Seq<u8>>
    decreases s.len(),
    via spec_lines_decreases
{
    if s.len() == 0 {
        Seq::empty()
    } else {
        match find_from(Delim::Newline, s, 0) {
            None => seq![s],
            Some(i) => seq![strip_cr(s.take(i))] + spec_lines(s.skip(i + 1)),
        }
    }
}

#[via_fn]
proof fn spec_lines_decreases(s: Seq<u8>) {
    if s.len() > 0 {
        lemma_find_from(Delim::Newline, s, 0);
    }
}

pub fn split_lines(s: &[u8]) -> (r: Vec<Vec<u8>>)
    ensures
        r.deep_view() == spec_lines(s@),
{
    let mut res: Vec<Vec<u8>> = Vec::new();
    let mut pos: usize = 0;
    proof {
        assert(res.deep_view() =~= Seq::<Seq<u8>>::empty());
        assert(s@.skip(0) =~= s@);
        assert(res.deep_view() + spec_lines(s@) =~= spec_lines(s@));
    }
    while pos < s.len()
        invariant
            0 <= pos <= s@.len(),
            spec_lines(s@) == res.deep_view() + spec_lines(s@.skip(pos as int)),
        decreases s@.len() - pos,
    {
        let ghost rest = s@.skip(pos as int);
        let mut end: usize = s.len();
        let mut next: usize = s.len();
        match find_delim(s, Delim::Newline, pos) {
            Some(j) => {
                proof {
                    lemma_find_from(Delim::Newline, s@, pos as int);
                    assert(delim_at(Delim::Newline, rest, j - pos)) by {
                        assert(rest[j - pos] == s@[j as int]);
                    }
                    assert forall|m: int| 0 <= m < j - pos implies !delim_at(
                        Delim::Newline,
                        rest,
                        m,
                    ) by {
                        assert(rest[m] == s@[pos + m]);
                        assert(!delim_at(Delim::Newline, s@, pos + m));
                    }
                    lemma_find_from_is(Delim::Newline, rest, 0, Some(j - pos));
                }
                end = j;
                next = j + 1;
            },
            None => {
                proof {
                    lemma_find_from(Delim::Newline, s@, pos as int);
                    assert forall|m: int| 0 <= m < rest.len() implies !delim_at(
                        Delim::Newline,
                        rest,
                        m,
                    ) by {
                        assert(rest[m] == s@[pos + m]);
                        assert(!delim_at(Delim::Newline, s@, pos + m));
                    }
                    lemma_find_from_is(Delim::Newline, rest, 0, None::<int>);
                }
            },
        }
        let mut stripped: usize = end;
        if next <= s.len() && end < s.len() {
            // a newline terminated this line: drop a carriage return before it
            if end > pos && s[end - 1] == 13 {
                stripped = end - 1;
            }
        }
        let line = vstd::slice::slice_to_vec(vstd::slice::slice_subrange(s, pos, stripped));
        proof {
            if end < s@.len() {
                // newline case
                assert(rest.take(end - pos) =~= s@.subrange(pos as int, end as int));
                assert(strip_cr(rest.take(end - pos)) =~= s@.subrange(
                    pos as int,
                    stripped as int,
                ));
                assert(rest.skip(end - pos + 1) =~= s@.skip(next as int));
                assert(spec_lines(rest) == seq![strip_cr(rest.take(end - pos))] + spec_lines(
                    rest.skip(end - pos + 1),
                ));
            } else {
                assert(rest =~= s@.subrange(pos as int, stripped as int));
                assert(spec_lines(rest) == seq![rest]);
                assert(spec_lines(s@.skip(s@.len() as int)) =~= Seq::<Seq<u8>>::empty());
            }
        }
        let ghost old_res = res.deep_view();
        res.push(line);
        pos = next;
        proof {
            assert(line.deep_view() =~= line@);
            assert(res.deep_view() =~= old_res.push(line@));
            assert(spec_lines(s@) =~= res.deep_view() + spec_lines(s@.skip(pos as int)));
        }
    }
    proof {
        assert(spec_lines(s@.skip(pos as int)) =~= Seq::<Seq<u8>>::empty());
        assert(res.deep_view() =~= spec_lines(s@));
    }
    res
}

/// The whitespace-separated tokens of a line.
pub open spec fn spec_tokens(s: Seq<u8>) -> Seq<Seq<u8>>
    decreases s.len(),
    via spec_tokens_decreases
{
    if s.len() == 0 {
        Seq::empty()
    } else if is_space(s[0]) {
        spec_tokens(s.skip(1))
    } else {
        match find_from(Delim::Whitespace, s, 0) {
            None => seq![s],
            Some(i) => seq![s.take(i)] + spec_tokens(s.skip(i)),
        }
    }
}

#[via_fn]
proof fn spec_tokens_decreases(s: Seq<u8>) {
    if s.len() > 0 && !is_space(s[0]) {
        lemma_find_from(Delim::Whitespace, s, 0);
    }
}

pub fn tokenize(s: &[u8]) -> (r: Vec<Vec<u8>>)
    ensures
        r.deep_view() == spec_tokens(s@),
{
    let mut res: Vec<Vec<u8>> = Vec::new();
    let mut i: usize = 0;
    proof {
        assert(res.deep_view() =~= Seq::<Seq<u8>>::empty());
        assert(s@.skip(0) =~= s@);
        assert(res.deep_view() + spec_tokens(s@) =~= spec_tokens(s@));
    }
    while i < s.len()
        invariant
            0 <= i <= s@.len(),
            spec_tokens(s@) == res.deep_view() + spec_tokens(s@.skip(i as int)),
        decreases s@.len() - i,
    {
        let ghost rest = s@.skip(i as int);
        if is_space_byte(s[i]) {
            proof {
                assert(rest[0] == s@[i as int]);
                assert(spec_tokens(rest) == spec_tokens(rest.skip(1)));
                assert(rest.skip(1) =~= s@.skip(i + 1 as int));
            }
            i += 1;
        } else {
            let mut j: usize = i + 1;
            while j < s.len() && !is_space_byte(s[j])
                invariant
                    i < j <= s@.len(),
                    forall|m: int| i <= m < j ==> !is_space(s@[m]),
                decreases s@.len() - j,
            {
                j += 1;
            }
            proof {
                assert forall|m: int| 0 <= m < j - i implies !delim_at(
                    Delim::Whitespace,
                    rest,
                    m,
                ) by {
                    assert(rest[m] == s@[i + m]);
                    assert(!is_space(s@[i + m]));
                }
                if j < s@.len() {
                    assert(delim_at(Delim::Whitespace, rest, j - i)) by {
                        assert(rest[j - i] == s@[j as int]);
                    }
                    lemma_find_from_is(Delim::Whitespace, rest, 0, Some(j - i));
                    assert(rest.skip(j - i) =~= s@.skip(j as int));
                } else {
                    lemma_find_from_is(Delim::Whitespace, rest, 0, None::<int>);
                    assert(spec_tokens(s@.skip(j as int)) =~= Seq::<Seq<u8>>::empty());
                }
                assert(rest.take(j - i) =~= s@.subrange(i as int, j as int));
            }
            let tok = vstd::slice::slice_to_vec(vstd::slice::slice_subrange(s, i, j));
            let ghost old_res = res.deep_view();
            res.push(tok);
            proof {
                assert(tok.deep_view() =~= tok@);
                assert(res.deep_view() =~= old_res.push(tok@));
                if (j as int) < s@.len() {
                    assert(spec_tokens(rest) == seq![rest.take(j - i)] + spec_tokens(
                        rest.skip(j - i),
                    ));
                } else {
                    assert(rest.take(j - i) =~= rest);
                    assert(spec_tokens(rest) == seq![rest]);
                }
                assert(spec_tokens(s@) =~= res.deep_view() + spec_tokens(s@.skip(j as int)));
            }
            i = j;
        }
    }
    proof {
        assert(spec_tokens(s@.skip(i as int)) =~= Seq::<Seq<u8>>::empty());
        assert(res.deep_view() =~= spec_tokens(s@));
    }
    res
}

/// `s` with leading whitespace removed.
pub open spec fn trim_start(s: Seq<u8>) -> Seq<u8>
    decreases s.len(),
{
    if s.len() > 0 && is_space(s[0]) {
        trim_start(s.skip(1))
    } else {
        s
    }
}

/// `s` with trailing whitespace removed.
pub open spec fn trim_end(s: Seq<u8>) -> Seq<u8>
    decreases s.len(),
{
    if s.len() > 0 && is_space(s.last()) {
        trim_end(s.drop_last())
    } else {
        s
    }
}

/// `s` with whitespace removed from both ends.
pub open spec fn spec_trim(s: Seq<u8>) -> Seq<u8> {
    trim_end(trim_start(s))
}

pub fn trim(s: &[u8]) -> (r: &[u8])
    ensures
        r@ == spec_trim(s@),
{
    let mut a: usize = 0;
    proof {
        assert(s@.skip(0) =~= s@);
    }
    while a < s.len() && is_space_byte(s[a])
        invariant
            0 <= a <= s@.len(),
            trim_start(s@) == trim_start(s@.skip(a as int)),
        decreases s@.len() - a,
    {
        proof {
            let t = s@.skip(a as int);
            assert(t[0] == s@[a as int]);
            assert(trim_start(t) == trim_start(t.skip(1)));
            assert(t.skip(1) =~= s@.skip(a + 1 as int));
        }
        a += 1;
    }
    proof {
        let t = s@.skip(a as int);
        if a < s@.len() {
            assert(t[0] == s@[a as int]);
        }
        assert(trim_start(t) == t);
        assert(s@.skip(a as int) =~= s@.subrange(a as int, s@.len() as int));
    }
    let mut b: usize = s.len();
    while b > a && is_space_byte(s[b - 1])
        invariant
            0 <= a <= b <= s@.len(),
            trim_end(s@.skip(a as int)) == trim_end(s@.subrange(a as int, b as int)),
        decreases b,
    {
        proof {
            let t = s@.subrange(a as int, b as int);
            assert(t.last() == s@[b - 1 as int]);
            assert(trim_end(t) == trim_end(t.drop_last()));
            assert(t.drop_last() =~= s@.subrange(a as int, b - 1 as int));
        }
        b -= 1;
    }
    proof {
        let t = s@.subrange(a as int, b as int);
        if t.len() > 0 {
            assert(t.last() == s@[b - 1 as int]);
        }
        assert(trim_end(t) == t);
    }
    vstd::slice::slice_subrange(s, a, b)
}

} // verus!
