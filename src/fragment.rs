//! Whether a document defines the fragment that a link asks for.
use vstd::prelude::*;
use crate::errors::{CheckError, Link};
use crate::text::{views, all_digits, chars_of, decimal, decimal_string, digit_value, digits_value, is_digit, lemma_digits_value_grows};

verus! {

/// The largest line number that a range fragment may name.
pub const LINE_MAX: u64 = 2147483647;

/// Whether `ids` holds an id spelled `f`.
pub open spec fn has_id(ids: Seq<String>, f: Seq<char>) -> bool {
    exists|i: int| 0 <= i < ids.len() && (#[trigger] ids[i])@ == f
}

/// `f` splits at `k` into two nonempty runs of digits around a dash.
pub open spec fn is_range_split(f: Seq<char>, k: int) -> bool {
    &&& 0 < k < f.len() - 1
    &&& f[k] == '-'
    &&& all_digits(f.take(k))
    &&& all_digits(f.skip(k + 1))
}

/// The line range that a fragment `start-end` names, when both ends are
/// decimal numbers no larger than `LINE_MAX`.
pub open spec fn range_bounds(f: Seq<char>) -> Option<(nat, nat)> {
    if exists|k: int| is_range_split(f, k) {
        let k = choose|k: int| is_range_split(f, k);
        let start = digits_value(f.take(k));
        let end = digits_value(f.skip(k + 1));
        if start <= LINE_MAX && end <= LINE_MAX {
            Some((start, end))
        } else {
            None
        }
    } else {
        None
    }
}

/// The ids of the lines `start..=end` that `ids` lacks, in increasing order.
pub open spec fn missing_lines(start: int, end: int, ids: Seq<String>) -> Seq<Seq<char>>
    decreases end - start + 1,
{
    if end < start {
        Seq::empty()
    } else {
        let before = missing_lines(start, end - 1, ids);
        if has_id(ids, decimal(end as nat)) {
            before
        } else {
            before.push(decimal(end as nat))
        }
    }
}

/// What checking `fragment` of `link` against the document's `ids` gives.
pub open spec fn fragment_verdict(link: Link, fragment: Seq<char>, ids: Seq<String>, r: Result<(), CheckError>) -> bool {
    if fragment.len() == 0 || has_id(ids, fragment) {
        r is Ok
    } else {
        match range_bounds(fragment) {
            Some((start, end)) => {
                let missing = missing_lines(start as int, end as int, ids);
                if missing.len() == 0 {
                    r is Ok
                } else {
                    match r {
                        Err(CheckError::Fragment(l, f, Some(m))) => l == link && f@ == fragment
                            && views(m@) == missing,
                        _ => false,
                    }
                }
            },
            None => match r {
                Err(CheckError::Fragment(l, f, None)) => l == link && f@ == fragment,
                _ => false,
            },
        }
    }
}

/// Whether `ids` holds an id spelled `f`.
pub fn contains_id(ids: &Vec<String>, f: &str) -> (r: bool)
    ensures
        r == has_id(ids@, f@),
{
    let wanted = f.to_string();
    let mut i: usize = 0;
    while i < ids.len()
        invariant
            i <= ids@.len(),
            wanted@ == f@,
            forall|j: int| 0 <= j < i ==> (#[trigger] ids@[j])@ != f@,
        decreases ids@.len() - i,
    {
        if ids[i] == wanted {
            return true;
        }
        i = i + 1;
    }
    false
}

/// The value of the digits `s[from..to]`, or `None` when it exceeds `LINE_MAX`.
fn bounded_value(s: &Vec<char>, from: usize, to: usize) -> (r: Option<u64>)
    requires
        from <= to <= s@.len(),
        all_digits(s@.subrange(from as int, to as int)),
    ensures
        match r {
            Some(v) => v == digits_value(s@.subrange(from as int, to as int)) && v <= LINE_MAX,
            None => digits_value(s@.subrange(from as int, to as int)) > LINE_MAX,
        },
{
    let ghost d = s@.subrange(from as int, to as int);
    let mut v: u64 = 0;
    let mut i: usize = from;
    while i < to
        invariant
            from <= i <= to <= s@.len(),
            d == s@.subrange(from as int, to as int),
            all_digits(d),
            v == digits_value(d.take(i - from)),
            v <= LINE_MAX,
        decreases to - i,
    {
        assert(d.take(i - from + 1).drop_last() =~= d.take(i - from));
        assert(is_digit(d[i - from]));
        let c = s[i];
        let digit = (c as u32 - '0' as u32) as u64;
        assert(digit == digit_value(d[i - from]));
        v = v * 10 + digit;
        i = i + 1;
        if v > LINE_MAX {
            proof {
                lemma_digits_value_grows(d, i - from);
            }
            return None;
        }
    }
    assert(d.take(to - from) =~= d);
    Some(v)
}

/// Parses a fragment of the form `start-end`, both decimal and at most `LINE_MAX`.
pub fn parse_range(fragment: &str) -> (r: Option<(u64, u64)>)
    ensures
        match r {
            Some((s, e)) => range_bounds(fragment@) == Some((s as nat, e as nat)),
            None => range_bounds(fragment@) is None,
        },
{
    let f = chars_of(fragment);
    let n = f.len();
    let mut k: usize = 0;
    while k < n && f[k] != '-'
        invariant
            k <= n == f@.len(),
            forall|j: int| 0 <= j < k ==> f@[j] != '-',
        decreases n - k,
    {
        k = k + 1;
    }
    if k == n || k == 0 || k + 1 == n {
        assert forall|j: int| !is_range_split(f@, j) by {
            if is_range_split(f@, j) {
                assert(f@[j] == '-');
                if j > k {
                    assert(f@.take(j)[k as int] == f@[k as int]);
                }
            }
        }
        return None;
    }
    let mut i: usize = 0;
    while i < n
        invariant
            i <= n == f@.len(),
            f@ == fragment@,
            0 < k < n - 1,
            f@[k as int] == '-',
            forall|j: int| 0 <= j < k ==> f@[j] != '-',
            forall|j: int| 0 <= j < i && j != k ==> is_digit(#[trigger] f@[j]),
        decreases n - i,
    {
        if i != k && !('0' <= f[i] && f[i] <= '9') {
            assert forall|j: int| !is_range_split(f@, j) by {
                if is_range_split(f@, j) {
                    if j > k {
                        assert(f@.take(j)[k as int] == f@[k as int]);
                    } else if j < k {
                        assert(f@[j] != '-');
                    } else if i < k {
                        assert(f@.take(j)[i as int] == f@[i as int]);
                    } else {
                        assert(f@.skip(j + 1)[i - j - 1] == f@[i as int]);
                    }
                }
            }
            return None;
        }
        i = i + 1;
    }
    let ghost fs = f@;
    assert(fs.subrange(0, k as int) =~= fs.take(k as int));
    assert(fs.subrange(k + 1, n as int) =~= fs.skip(k + 1));
    assert(is_range_split(fs, k as int));
    assert forall|j: int| is_range_split(fs, j) implies j == k by {
        if j > k {
            assert(fs.take(j)[k as int] == fs[k as int]);
        } else if j < k {
            assert(fs[j] != '-');
        }
    }
    let start = bounded_value(&f, 0, k);
    let end = bounded_value(&f, k + 1, n);
    match (start, end) {
        (Some(s), Some(e)) => Some((s, e)),
        _ => None,
    }
}

/// The ids of the lines `start..=end` that `ids` lacks, in increasing order.
pub fn missing_line_ids(start: u64, end: u64, ids: &Vec<String>) -> (r: Vec<String>)
    requires
        end <= LINE_MAX,
    ensures
        views(r@) == missing_lines(start as int, end as int, ids@),
{
    let mut missing: Vec<String> = Vec::new();
    if end < start {
        assert(views(missing@) =~= missing_lines(start as int, end as int, ids@));
        return missing;
    }
    let mut line: u64 = start;
    while line <= end
        invariant
            start <= line <= end + 1,
            end <= LINE_MAX,
            views(missing@) == missing_lines(start as int, line - 1, ids@),
        decreases end + 1 - line,
    {
        let id = decimal_string(line);
        if !contains_id(ids, id.as_str()) {
            missing.push(id);
        }
        assert(views(missing@) =~= missing_lines(start as int, line as int, ids@));
        line = line + 1;
    }
    missing
}

/// Checks that a document whose ids are `ids` defines `fragment`.
///
/// An empty fragment names the top of the document and always exists. A
/// fragment `start-end` that is no id of its own asks for every line id from
/// `start` to `end`; the error then lists those that are missing.
pub fn fragment_in_ids(link: &Link, fragment: &str, ids: &Vec<String>) -> (r: Result<(), CheckError>)
    ensures
        fragment_verdict(*link, fragment@, ids@, r),
{
    if fragment.is_empty() {
        return Ok(());
    }
    if contains_id(ids, fragment) {
        return Ok(());
    }
    match parse_range(fragment) {
        Some((start, end)) => {
            let missing = missing_line_ids(start, end, ids);
            if missing.len() == 0 {
                Ok(())
            } else {
                Err(CheckError::Fragment(link.duplicate(), fragment.to_string(), Some(missing)))
            }
        },
        None => Err(CheckError::Fragment(link.duplicate(), fragment.to_string(), None)),
    }
}

} // verus!
