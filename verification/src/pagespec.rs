//! Parsing a page-range specifier such as `1,4-7,9-` into the list of page
//! numbers to download.
//!
//! The specifier is comma-separated segments. A segment without a dash is a
//! single page number; `a-b` is every page from `a` to `b`; `a-` is every
//! page from `a` to the document's page count. Numbers parse as unsigned
//! decimal values with an optional leading `+`, and any segment that does
//! not parse fails the whole specifier.

use crate::errors::PageSpecError;
use vstd::prelude::*;

verus! {

/// `c` is a decimal digit.
pub open spec fn is_digit_char(c: char) -> bool {
    48 <= c as int <= 57
}

/// Numeric value of the digit `c`.
pub open spec fn digit_char_value(c: char) -> int {
    c as int - 48
}

/// Every character of `s` is a decimal digit.
pub open spec fn all_digits(s: Seq<char>) -> bool {
    forall|i: int| 0 <= i < s.len() ==> is_digit_char(#[trigger] s[i])
}

/// The number the digit string `s` denotes, most significant digit first.
pub open spec fn digits_value(s: Seq<char>) -> int
    decreases s.len(),
{
    if s.len() == 0 {
        0
    } else {
        digits_value(s.drop_last()) * 10 + digit_char_value(s.last())
    }
}

/// `s` without its optional leading `+` sign.
pub open spec fn digits_part(s: Seq<char>) -> Seq<char> {
    if s.len() > 0 && s[0] == '+' {
        s.drop_first()
    } else {
        s
    }
}

/// `s` parses as a `u32`: an optional `+`, then at least one digit, and a
/// value within range.
pub open spec fn parses_as_u32(s: Seq<char>) -> bool {
    let digits = digits_part(s);
    digits.len() > 0 && all_digits(digits) && digits_value(digits) <= u32::MAX
}

/// The value `s` parses to.
pub open spec fn parsed_u32(s: Seq<char>) -> int {
    digits_value(digits_part(s))
}

/// `s` split on the separator `sep`: always at least one piece, one more
/// piece for every separator occurrence, separators not included.
pub open spec fn split_on(s: Seq<char>, sep: char) -> Seq<Seq<char>>
    decreases s.len(),
{
    if s.len() == 0 {
        seq![Seq::<char>::empty()]
    } else if s[0] == sep {
        seq![Seq::<char>::empty()] + split_on(s.drop_first(), sep)
    } else {
        let rest = split_on(s.drop_first(), sep);
        seq![seq![s[0]] + rest[0]] + rest.drop_first()
    }
}

/// The pages `start` through `end`, inclusive; empty when `start > end`.
pub open spec fn range_pages(start: int, end: int) -> Seq<u32> {
    if start > end {
        Seq::empty()
    } else {
        Seq::new((end - start + 1) as nat, |i: int| (start + i) as u32)
    }
}

/// The pages one comma-separated segment denotes, or `None` where the
/// segment does not parse. A segment with a dash uses only the first two
/// dash-separated pieces, and an empty second piece means "to the last
/// page".
pub open spec fn segment_pages(seg: Seq<char>, page_count: u32) -> Option<Seq<u32>> {
    if seg.contains('-') {
        let parts = split_on(seg, '-');
        if !parses_as_u32(parts[0]) {
            None
        } else if parts[1].len() == 0 {
            Some(range_pages(parsed_u32(parts[0]), page_count as int))
        } else if !parses_as_u32(parts[1]) {
            None
        } else {
            Some(range_pages(parsed_u32(parts[0]), parsed_u32(parts[1])))
        }
    } else {
        if parses_as_u32(seg) {
            Some(seq![parsed_u32(seg) as u32])
        } else {
            None
        }
    }
}

/// The concatenated pages of a list of segments, or `None` where any
/// segment does not parse.
pub open spec fn concat_segments(segments: Seq<Seq<char>>, page_count: u32) -> Option<Seq<u32>>
    decreases segments.len(),
{
    if segments.len() == 0 {
        Some(Seq::empty())
    } else {
        match (segment_pages(segments[0], page_count), concat_segments(
            segments.drop_first(),
            page_count,
        )) {
            (Some(head), Some(tail)) => Some(head + tail),
            _ => None,
        }
    }
}

/// What a whole specifier string denotes: the concatenated pages of its
/// comma-separated segments, or `None` where any segment does not parse.
pub open spec fn spec_page_list(s: Seq<char>, page_count: u32) -> Option<Seq<u32>> {
    concat_segments(split_on(s, ','), page_count)
}

/// Splitting yields at least one piece.
proof fn lemma_split_on_len(s: Seq<char>, sep: char)
    ensures
        split_on(s, sep).len() >= 1,
    decreases s.len(),
{
    if s.len() > 0 && s[0] != sep {
        lemma_split_on_len(s.drop_first(), sep);
    }
}

/// A string without the separator splits into just itself.
proof fn lemma_split_on_no_sep(s: Seq<char>, sep: char)
    requires
        forall|i: int| 0 <= i < s.len() ==> s[i] != sep,
    ensures
        split_on(s, sep) == seq![s],
    decreases s.len(),
{
    if s.len() == 0 {
        assert(s =~= Seq::<char>::empty());
        assert(split_on(s, sep) =~= seq![s]);
    } else {
        lemma_split_on_no_sep(s.drop_first(), sep);
        assert(seq![s[0]] + s.drop_first() =~= s);
        assert(split_on(s, sep) =~= seq![s]);
    }
}

/// Splitting peels off everything before the first separator occurrence.
proof fn lemma_split_on_first_sep(s: Seq<char>, sep: char, k: int)
    requires
        0 <= k < s.len(),
        s[k] == sep,
        forall|i: int| 0 <= i < k ==> s[i] != sep,
    ensures
        split_on(s, sep) == seq![s.take(k)] + split_on(s.skip(k + 1), sep),
    decreases k,
{
    if k == 0 {
        assert(s.take(0) =~= Seq::<char>::empty());
        assert(s.skip(1) =~= s.drop_first());
        assert(split_on(s, sep) =~= seq![s.take(0)] + split_on(s.skip(1), sep));
    } else {
        lemma_split_on_first_sep(s.drop_first(), sep, k - 1);
        lemma_split_on_len(s.drop_first().skip(k), sep);
        assert(s.drop_first().take(k - 1) =~= s.take(k).drop_first());
        assert(s.drop_first().skip(k) =~= s.skip(k + 1));
        assert(seq![s[0]] + s.take(k).drop_first() =~= s.take(k));
        assert(split_on(s, sep) =~= seq![s.take(k)] + split_on(s.skip(k + 1), sep));
    }
}

/// A digit string denotes a non-negative number.
proof fn lemma_digits_value_nonneg(s: Seq<char>)
    requires
        all_digits(s),
    ensures
        digits_value(s) >= 0,
    decreases s.len(),
{
    if s.len() > 0 {
        assert(all_digits(s.drop_last()));
        lemma_digits_value_nonneg(s.drop_last());
    }
}

/// A digit string denotes at least as much as any of its prefixes.
proof fn lemma_digits_value_prefix(s: Seq<char>, m: int)
    requires
        all_digits(s),
        0 <= m <= s.len(),
    ensures
        digits_value(s.take(m)) <= digits_value(s),
    decreases s.len(),
{
    if m < s.len() {
        assert(all_digits(s.drop_last()));
        assert(s.drop_last().take(m) =~= s.take(m));
        lemma_digits_value_prefix(s.drop_last(), m);
        lemma_digits_value_nonneg(s.drop_last());
    } else {
        assert(s.take(m) =~= s);
    }
}

/// First position of `sep` in `text` at or after `from` and before `to`, or
/// `to` where there is none.
#[verifier::loop_isolation(false)]
fn find_char_in(text: &str, sep: char, from: usize, to: usize) -> (found: usize)
    requires
        from <= to <= text@.len(),
    ensures
        from <= found <= to,
        forall|i: int| from <= i < found ==> text@[i] != sep,
        found < to ==> text@[found as int] == sep,
{
    let mut i = from;
    while i < to
        invariant
            from <= i <= to,
            forall|k: int| from <= k < i ==> text@[k] != sep,
        decreases to - i,
    {
        if text.get_char(i) == sep {
            return i;
        }
        i = i + 1;
    }
    to
}

/// Parses `text[from..to]` as a `u32` exactly as the specifier grammar has
/// it: optional `+`, then decimal digits, value within range.
#[verifier::loop_isolation(false)]
fn parse_u32_in(text: &str, from: usize, to: usize) -> (parsed: Option<u32>)
    requires
        from <= to <= text@.len(),
    ensures
        ({
            let piece = text@.subrange(from as int, to as int);
            match parsed {
                Some(value) => parses_as_u32(piece) && value == parsed_u32(piece),
                None => !parses_as_u32(piece),
            }
        }),
{
    let ghost piece = text@.subrange(from as int, to as int);
    let mut start = from;
    if from < to && text.get_char(from) == '+' {
        start = from + 1;
    }
    let ghost digits = digits_part(piece);
    proof {
        assert(digits =~= text@.subrange(start as int, to as int));
    }
    if start == to {
        return None;
    }
    let mut value: u64 = 0;
    let mut k = start;
    while k < to
        invariant
            start <= k <= to,
            value <= u32::MAX,
            all_digits(digits.take(k - start)),
            value == digits_value(digits.take(k - start)),
        decreases to - k,
    {
        let c = text.get_char(k);
        let code = c as u32;
        proof {
            assert(digits[k - start] == c);
        }
        if code < 48 || code > 57 {
            return None;
        }
        let ghost prev = digits.take(k - start);
        value = value * 10 + (code - 48) as u64;
        proof {
            assert(digits.take(k - start + 1).drop_last() =~= prev);
            assert(digits.take(k - start + 1).last() == c);
            assert(all_digits(digits.take(k - start + 1)));
        }
        if value > 0xFFFF_FFFF {
            proof {
                if all_digits(digits) {
                    lemma_digits_value_prefix(digits, k - start + 1);
                }
            }
            return None;
        }
        k = k + 1;
    }
    proof {
        assert(digits.take(to - start) =~= digits);
    }
    Some(value as u32)
}

/// Appends the pages `start` through `end`, inclusive; nothing when
/// `start > end`.
#[verifier::loop_isolation(false)]
fn push_range(pages: &mut Vec<u32>, start: u32, end: u32)
    ensures
        final(pages)@ == old(pages)@ + range_pages(start as int, end as int),
{
    if start > end {
        proof {
            assert(pages@ =~= old(pages)@ + range_pages(start as int, end as int));
        }
        return ;
    }
    let count: u64 = end as u64 - start as u64 + 1;
    let mut k: u64 = 0;
    while k < count
        invariant
            0 <= k <= count,
            pages@ == old(pages)@ + range_pages(start as int, end as int).take(k as int),
        decreases count - k,
    {
        pages.push(start + k as u32);
        proof {
            assert(range_pages(start as int, end as int).take(k + 1) =~= range_pages(
                start as int,
                end as int,
            ).take(k as int).push((start + k) as u32));
            assert(pages@ =~= old(pages)@ + range_pages(start as int, end as int).take(k + 1));
        }
        k = k + 1;
    }
    proof {
        assert(range_pages(start as int, end as int).take(count as int) =~= range_pages(
            start as int,
            end as int,
        ));
    }
}

/// Parses one comma-separated segment `text[from..to]` and appends its
/// pages; leaves the pages untouched and answers `false` where the segment
/// does not parse.
#[verifier::loop_isolation(false)]
fn parse_segment(text: &str, from: usize, to: usize, page_count: u32, pages: &mut Vec<u32>) -> (ok:
    bool)
    requires
        from <= to <= text@.len(),
    ensures
        ({
            let seg = text@.subrange(from as int, to as int);
            match segment_pages(seg, page_count) {
                Some(head) => ok && final(pages)@ == old(pages)@ + head,
                None => !ok && final(pages)@ == old(pages)@,
            }
        }),
{
    let ghost seg = text@.subrange(from as int, to as int);
    let dash = find_char_in(text, '-', from, to);
    if dash == to {
        proof {
            assert forall|ii: int| 0 <= ii < seg.len() implies seg[ii] != '-' by {
                assert(seg[ii] == text@[from + ii]);
            }
            assert(!seg.contains('-'));
        }
        match parse_u32_in(text, from, to) {
            Some(value) => {
                pages.push(value);
                proof {
                    assert(pages@ =~= old(pages)@ + seq![value]);
                }
                true
            },
            None => false,
        }
    } else {
        let ghost parts = split_on(seg, '-');
        proof {
            assert(seg[dash - from] == '-');
            assert(seg.contains('-'));
            assert forall|ii: int| 0 <= ii < dash - from implies seg[ii] != '-' by {
                assert(seg[ii] == text@[from + ii]);
            }
            lemma_split_on_first_sep(seg, '-', dash - from);
            assert(parts[0] =~= text@.subrange(from as int, dash as int));
        }
        let second = find_char_in(text, '-', dash + 1, to);
        proof {
            let tail_seg = seg.skip(dash - from + 1);
            assert(tail_seg =~= text@.subrange(dash + 1, to as int));
            assert forall|ii: int| 0 <= ii < second - dash - 1 implies tail_seg[ii] != '-' by {
                assert(tail_seg[ii] == text@[dash + 1 + ii]);
            }
            if second == to {
                lemma_split_on_no_sep(tail_seg, '-');
            } else {
                assert(tail_seg[second - dash - 1] == text@[second as int]);
                lemma_split_on_first_sep(tail_seg, '-', second - dash - 1);
            }
            assert(parts[1] == split_on(tail_seg, '-')[0]);
            assert(parts[1] =~= text@.subrange(dash + 1, second as int));
        }
        let start = match parse_u32_in(text, from, dash) {
            Some(value) => value,
            None => {
                return false;
            },
        };
        if dash + 1 == second {
            push_range(pages, start, page_count);
            true
        } else {
            let end = match parse_u32_in(text, dash + 1, second) {
                Some(value) => value,
                None => {
                    return false;
                },
            };
            push_range(pages, start, end);
            true
        }
    }
}

/// Parses a whole page-range specifier against a document of `page_count`
/// pages: the concatenated pages of its comma-separated segments, in the
/// order written, or an error where any segment does not parse.
pub fn parse_page_specifier(specifier: &str, page_count: u32) -> (result: Result<
    Vec<u32>,
    PageSpecError,
>)
    ensures
        match result {
            Ok(pages) => spec_page_list(specifier@, page_count) == Some(pages@),
            Err(_) => spec_page_list(specifier@, page_count) is None,
        },
{
    let ghost s = specifier@;
    let n = specifier.unicode_len();
    let mut pages: Vec<u32> = Vec::new();
    let mut seg_start: usize = 0;
    proof {
        assert(s.skip(0) =~= s);
    }
    loop
        invariant_except_break
            s == specifier@,
            seg_start <= n,
            n == s.len(),
            ({
                match concat_segments(split_on(s.skip(seg_start as int), ','), page_count) {
                    Some(tail) => spec_page_list(s, page_count) == Some(pages@ + tail),
                    None => spec_page_list(s, page_count) is None,
                }
            }),
        ensures
            spec_page_list(s, page_count) == Some(pages@),
        decreases n - seg_start,
    {
        let ghost remaining = split_on(s.skip(seg_start as int), ',');
        let comma = find_char_in(specifier, ',', seg_start, n);
        let ghost seg = s.subrange(seg_start as int, comma as int);
        proof {
            let rem_str = s.skip(seg_start as int);
            assert forall|ii: int| 0 <= ii < comma - seg_start implies rem_str[ii] != ',' by {
                assert(rem_str[ii] == s[seg_start + ii]);
            }
            if comma == n {
                lemma_split_on_no_sep(rem_str, ',');
                assert(rem_str =~= seg);
                assert(remaining == seq![seg]);
            } else {
                assert(rem_str[comma - seg_start] == s[comma as int]);
                lemma_split_on_first_sep(rem_str, ',', comma - seg_start);
                assert(rem_str.take(comma - seg_start) =~= seg);
                assert(rem_str.skip(comma - seg_start + 1) =~= s.skip(comma + 1));
                assert(remaining == seq![seg] + split_on(s.skip(comma + 1), ','));
            }
            assert(remaining[0] == seg);
            assert(remaining.len() >= 1);
        }
        let ok = parse_segment(specifier, seg_start, comma, page_count, &mut pages);
        if !ok {
            proof {
                assert(segment_pages(seg, page_count) is None);
                assert(concat_segments(remaining, page_count) is None);
            }
            return Err(PageSpecError::InvalidNumber);
        }
        if comma == n {
            proof {
                assert(remaining.len() == 1);
                assert(remaining[0] == seg);
                assert(segment_pages(seg, page_count) is Some);
                assert(remaining.drop_first() =~= Seq::<Seq<char>>::empty());
                assert(remaining.drop_first().len() == 0);
                assert(concat_segments(remaining.drop_first(), page_count) == Some(
                    Seq::<u32>::empty(),
                ));
                let head = segment_pages(seg, page_count)->0;
                assert(concat_segments(remaining, page_count) == Some(head + Seq::<u32>::empty()));
                assert(head + Seq::<u32>::empty() =~= head);
            }
            break ;
        }
        proof {
            assert(remaining.drop_first() =~= split_on(s.skip(comma + 1), ','));
        }
        seg_start = comma + 1;
    }
    Ok(pages)
}

} // verus!
