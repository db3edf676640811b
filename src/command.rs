//! The command grammar: `summary | time | duration`, every field trimmed.
use crate::text::{find_char, index_of, lemma_index_of_at, lacks, lemma_trim_idempotent, lemma_trim_lacks, trim, trim_str};
use crate::time::opt_view;
use vstd::prelude::*;
use vstd::string::StrSliceExecFns;

verus! {

/// What comes before the first `|` of `s` (all of `s` without one).
pub open spec fn before_bar(s: Seq<char>) -> Seq<char> {
    s.take(index_of(s, '|') as int)
}

/// What comes after the first `|` of `s` (nothing without one).
pub open spec fn after_bar(s: Seq<char>) -> Seq<char> {
    if index_of(s, '|') < s.len() {
        s.skip(index_of(s, '|') as int + 1)
    } else {
        Seq::empty()
    }
}

/// The fields of a command text: the summary before the first `|`, the time
/// text up to the next `|`, and the rest as duration text, absent when
/// empty; each trimmed of whitespace.
pub open spec fn command_fields(s: Seq<char>) -> (Seq<char>, Seq<char>, Option<Seq<char>>) {
    let rest = after_bar(s);
    let d = trim(after_bar(rest));
    (trim(before_bar(s)), trim(before_bar(rest)), if d.len() == 0 { None } else { Some(d) })
}

/// The text that joins fields with `|`, an absent duration written empty.
pub open spec fn join_fields(f: (Seq<char>, Seq<char>, Option<Seq<char>>)) -> Seq<char> {
    let d = match f.2 {
        Some(x) => x,
        None => Seq::empty(),
    };
    f.0 + seq!['|'] + f.1 + seq!['|'] + d
}

/// Splits a command text into summary, time text and optional duration
/// text (see `command_fields`). Total: every text splits.
pub fn split_once_imp(s: &str) -> (r: (&str, &str, Option<&str>))
    ensures
        (r.0@, r.1@, opt_view(r.2)) == command_fields(s@),
{
    let len = s.unicode_len();
    assert(s@.skip(0) =~= s@);
    let k = find_char(s, '|', 0, len);
    assert(s@.subrange(0, k as int) =~= before_bar(s@));
    let summary = trim_str(s.substring_char(0, k));
    let rest_start: usize = if k < len { k + 1 } else { len };
    assert(s@.skip(rest_start as int) =~= after_bar(s@));
    let j = find_char(s, '|', rest_start, len);
    let ghost rest = s@.skip(rest_start as int);
    assert(s@.subrange(rest_start as int, j as int) =~= before_bar(rest));
    let time = trim_str(s.substring_char(rest_start, j));
    let dur_start: usize = if j < len { j + 1 } else { len };
    assert(s@.subrange(dur_start as int, len as int) =~= after_bar(rest));
    let duration = trim_str(s.substring_char(dur_start, len));
    if duration.is_empty() {
        (summary, time, None)
    } else {
        (summary, time, Some(duration))
    }
}

/// `split_once_imp` with owned fields.
pub fn split_once(s: String) -> (r: (String, String, Option<String>))
    ensures
        (r.0@, r.1@, match r.2 {
            Some(d) => Some(d@),
            None => None,
        }) == command_fields(s@),
{
    let (summary, time, duration) = split_once_imp(s.as_str());
    let duration = match duration {
        Some(d) => Some(d.to_owned()),
        None => None,
    };
    (summary.to_owned(), time.to_owned(), duration)
}


proof fn lemma_before_bar_lacks(s: Seq<char>)
    ensures
        lacks(before_bar(s), '|'),
        index_of(s, '|') <= s.len(),
    decreases s.len(),
{
    if s.len() > 0 && s[0] != '|' {
        lemma_before_bar_lacks(s.drop_first());
        assert(forall|i: int|
            1 <= i < index_of(s, '|') ==> before_bar(s)[i] == before_bar(s.drop_first())[i - 1]);
    }
}

/// `x | rest` splits at the bar that follows `x` when `x` holds none.
proof fn lemma_split_joined(x: Seq<char>, rest: Seq<char>)
    requires
        lacks(x, '|'),
    ensures
        before_bar(x + seq!['|'] + rest) == x,
        after_bar(x + seq!['|'] + rest) == rest,
{
    let t = x + seq!['|'] + rest;
    lemma_index_of_at(t, '|', x.len() as int);
    assert(before_bar(t) =~= x);
    assert(after_bar(t) =~= rest);
}

/// Joining the fields of a command text with `|` and splitting again gives
/// the same fields.
pub proof fn lemma_fields_round_trip(s: Seq<char>)
    ensures
        command_fields(join_fields(command_fields(s))) == command_fields(s),
{
    let f = command_fields(s);
    let rest = after_bar(s);
    let raw_d = after_bar(rest);
    let d = match f.2 {
        Some(x) => x,
        None => Seq::empty(),
    };
    lemma_before_bar_lacks(s);
    lemma_before_bar_lacks(rest);
    lemma_trim_lacks(before_bar(s), '|');
    lemma_trim_lacks(before_bar(rest), '|');
    lemma_split_joined(f.0, f.1 + seq!['|'] + d);
    assert(f.0 + seq!['|'] + f.1 + seq!['|'] + d =~= f.0 + seq!['|'] + (f.1 + seq!['|'] + d));
    lemma_split_joined(f.1, d);
    lemma_trim_idempotent(before_bar(s));
    lemma_trim_idempotent(before_bar(rest));
    lemma_trim_idempotent(raw_d);
    if f.2 is None {
        assert(trim(d) == d);
    }
}

} // verus!
