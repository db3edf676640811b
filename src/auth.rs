//! The allow-list of callers, built once from a comma-separated list of
//! numeric identifiers and then only read.
use crate::text::{find_char, index_of, trim, trim_str};
use vstd::prelude::*;
use vstd::string::StrSliceExecFns;

verus! {

pub open spec fn is_digit(c: char) -> bool {
    '0' <= c <= '9'
}

/// The number that the decimal digits `s` write.
pub open spec fn digits_value(s: Seq<char>) -> int
    decreases s.len(),
{
    if s.len() == 0 {
        0
    } else {
        digits_value(s.drop_last()) * 10 + (s.last() as int - '0' as int)
    }
}

/// `s` without one leading `+`.
pub open spec fn unsigned_part(s: Seq<char>) -> Seq<char> {
    if s.len() > 0 && s[0] == '+' { s.drop_first() } else { s }
}

pub open spec fn all_digits(s: Seq<char>) -> bool {
    forall|i: int| 0 <= i < s.len() ==> is_digit(s[i])
}

/// The `u64` that `s` writes in decimal, with an optional leading `+`.
pub open spec fn decimal_u64(s: Seq<char>) -> Option<u64> {
    let d = unsigned_part(s);
    if d.len() > 0 && all_digits(d) && digits_value(d) <= u64::MAX {
        Some(digits_value(d) as u64)
    } else {
        None
    }
}

/// The identifiers that a configuration text lists: the pieces between
/// commas that, trimmed, read as decimal `u64`; other pieces are skipped.
pub open spec fn configured_ids(s: Seq<char>) -> Set<u64>
    decreases s.len(),
{
    let k = index_of(s, ',');
    let here = match decimal_u64(trim(s.take(k as int))) {
        Some(v) => set![v],
        None => Set::empty(),
    };
    if k < s.len() {
        here.union(configured_ids(s.skip(k as int + 1)))
    } else {
        here
    }
}

/// Reads `s` as a decimal `u64` with an optional leading `+`.
pub fn parse_u64(s: &str) -> (r: Option<u64>)
    ensures
        r == decimal_u64(s@),
{
    let len = s.unicode_len();
    let mut i: usize = 0;
    if len > 0 && s.get_char(0) == '+' {
        i = 1;
    }
    let ghost d = unsigned_part(s@);
    let ghost first = i;
    if i == len {
        return None;
    }
    assert(d =~= s@.skip(first as int));
    let mut acc: u128 = 0;
    let limit: u128 = 18_446_744_073_709_551_616;
    while i < len
        invariant
            len == s@.len(),
            first <= i <= len,
            first == 0 || first == 1,
            d == s@.skip(first as int),
            d == unsigned_part(s@),
            forall|j: int| first <= j < i ==> is_digit(s@[j]),
            limit == 18_446_744_073_709_551_616,
            acc == if digits_value(s@.subrange(first as int, i as int)) < limit {
                digits_value(s@.subrange(first as int, i as int))
            } else {
                limit as int
            },
        decreases len - i,
    {
        let c = s.get_char(i);
        if !('0' <= c && c <= '9') {
            assert(d[i - first] == s@[i as int]);
            assert(!is_digit(d[i - first]));
            assert(!all_digits(d));
            return None;
        }
        let ghost prev = digits_value(s@.subrange(first as int, i as int));
        assert(s@.subrange(first as int, i + 1).drop_last() =~= s@.subrange(first as int, i as int));
        let digit = (c as u32 - '0' as u32) as u128;
        if acc < limit {
            assert(acc * 10 + digit < 1_000_000_000_000_000_000_000) by (nonlinear_arith)
                requires
                    acc < limit,
                    digit <= 9,
                    limit == 18_446_744_073_709_551_616,
            ;
            acc = acc * 10 + digit;
            if acc > limit {
                acc = limit;
            }
        } else {
            assert(prev * 10 + digit >= limit) by (nonlinear_arith)
                requires
                    prev >= limit,
                    digit >= 0,
            ;
        }
        i = i + 1;
    }
    assert(s@.subrange(first as int, len as int) =~= d);
    assert(all_digits(d));
    if acc < limit {
        Some(acc as u64)
    } else {
        None
    }
}

/// The callers that may schedule events.
pub struct AllowList {
    ids: Vec<u64>,
}

impl View for AllowList {
    type V = Set<u64>;

    closed spec fn view(&self) -> Set<u64> {
        Set::new(|id: u64| self.ids@.contains(id))
    }
}

impl AllowList {
    /// Builds the list from a comma-separated configuration text; pieces that
    /// do not read as an identifier are skipped.
    pub fn from_config(text: &str) -> (r: AllowList)
        ensures
            r@ == configured_ids(text@),
    {
        let len = text.unicode_len();
        let mut ids: Vec<u64> = Vec::new();
        let mut start: usize = 0;
        assert(text@.skip(0) =~= text@);
        loop
            invariant
                len == text@.len(),
                start <= len,
                Set::new(|id: u64| ids@.contains(id)).union(configured_ids(text@.skip(start as int)))
                    == configured_ids(text@),
            decreases len - start,
        {
            let ghost rest = text@.skip(start as int);
            let k = find_char(text, ',', start, len);
            assert(text@.subrange(start as int, k as int) =~= rest.take(k - start));
            let piece = trim_str(text.substring_char(start, k));
            let ghost before = Set::new(|id: u64| ids@.contains(id));
            let ghost old_ids = ids@;
            match parse_u64(piece) {
                Some(v) => {
                    ids.push(v);
                    assert forall|id: u64| ids@.contains(id) <==> (old_ids.contains(id) || id == v) by {
                        if old_ids.contains(id) {
                            let j = choose|j: int| 0 <= j < old_ids.len() && old_ids[j] == id;
                            assert(ids@[j] == id);
                        }
                        if id == v {
                            assert(ids@[old_ids.len() as int] == v);
                        }
                        if ids@.contains(id) {
                            let j = choose|j: int| 0 <= j < ids@.len() && ids@[j] == id;
                            if j < old_ids.len() {
                                assert(old_ids[j] == id);
                            }
                        }
                    }
                    let ghost now_set = Set::new(|id: u64| ids@.contains(id));
                    let ghost then_set = Set::new(|id: u64| old_ids.contains(id));
                    assert forall|id: u64| now_set.contains(id) <==> then_set.insert(v).contains(id) by {
                        assert(now_set.contains(id) == ids@.contains(id));
                        assert(then_set.contains(id) == old_ids.contains(id));
                    }
                    assert(now_set =~= then_set.insert(v));
                },
                None => {},
            }
            if k == len {
                assert(Set::new(|id: u64| ids@.contains(id)) =~= configured_ids(text@));
                return AllowList { ids };
            }
            assert(rest.skip(k - start + 1) =~= text@.skip(k + 1));
            start = k + 1;
        }
    }

    /// Whether `user` may schedule events: only the listed identifiers may.
    pub fn is_admin(&self, user: u64) -> (r: bool)
        ensures
            r == self@.contains(user),
    {
        let mut i: usize = 0;
        while i < self.ids.len()
            invariant
                forall|j: int| 0 <= j < i ==> self.ids@[j] != user,
            decreases self.ids.len() - i,
        {
            if self.ids[i] == user {
                assert(self.ids@.contains(user));
                return true;
            }
            i = i + 1;
        }
        false
    }
}

} // verus!
