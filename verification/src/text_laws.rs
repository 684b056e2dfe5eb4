//! What the text helpers and the backfill mean, in the terms of single characters and
//! columns.

use crate::migration::{backfill_order, group_for, precedes, BackfillGroup, LegacyFolder};
use crate::text::{
    all_digits, digits_value, has_prefix, i32_value, int_digits, is_digit, is_white_space,
    nat_digits, text_less, trim_end, trim_start, trimmed,
};
use vstd::prelude::*;

verus! {

/// The ten digits, and how longer numbers and negative ones are written.
pub proof fn law_digits(q: nat, d: nat, n: nat)
    requires
        d < 10,
    ensures
        nat_digits(0) == seq!['0'],
        nat_digits(1) == seq!['1'],
        nat_digits(2) == seq!['2'],
        nat_digits(3) == seq!['3'],
        nat_digits(4) == seq!['4'],
        nat_digits(5) == seq!['5'],
        nat_digits(6) == seq!['6'],
        nat_digits(7) == seq!['7'],
        nat_digits(8) == seq!['8'],
        nat_digits(9) == seq!['9'],
        q > 0 ==> nat_digits(q * 10 + d) == nat_digits(q) + nat_digits(d),
        int_digits(n as int) == nat_digits(n),
        n > 0 ==> int_digits(-(n as int)) == seq!['-'] + nat_digits(n),
{
    if q > 0 {
        let m = q * 10 + d;
        assert(m / 10 == q && m % 10 == d) by (nonlinear_arith)
            requires
                m == q * 10 + d,
                d < 10,
        ;
        assert(nat_digits(m) =~= nat_digits(q) + nat_digits(d));
    }
}

/// A number is read from decimal digits: one digit is its own value, and one more digit
/// behind others makes ten times their value and its own.
pub proof fn law_digits_value(s: Seq<char>, c: char)
    requires
        '0' <= c <= '9',
    ensures
        digits_value(seq![c]) == c as int - '0' as int,
        digits_value(s.push(c)) == digits_value(s) * 10 + (c as int - '0' as int),
{
    assert(seq![c].drop_last() =~= Seq::<char>::empty());
    assert(digits_value(seq![c].drop_last()) == 0);
    assert(seq![c].last() == c);
    assert(s.push(c).drop_last() =~= s);
}

/// A number is read exactly where decimal digits stand, at least one and nothing else, but
/// for one sign in front; and only where it is in range.
pub proof fn law_read_number(s: Seq<char>)
    ensures
        s.len() == 0 ==> i32_value(s) is None,
        s.len() > 0 && (forall|i: int| 0 <= i < s.len() ==> '0' <= #[trigger] s[i] <= '9')
            ==> i32_value(s) == (if digits_value(s) <= 2147483647 {
            Some(digits_value(s) as i32)
        } else {
            None
        }),
        s.len() > 1 && s[0] == '+' && (forall|i: int|
            1 <= i < s.len() ==> '0' <= #[trigger] s[i] <= '9') ==> i32_value(s) == (
        if digits_value(s.skip(1)) <= 2147483647 {
            Some(digits_value(s.skip(1)) as i32)
        } else {
            None
        }),
        s.len() > 1 && s[0] == '-' && (forall|i: int|
            1 <= i < s.len() ==> '0' <= #[trigger] s[i] <= '9') ==> i32_value(s) == (
        if digits_value(s.skip(1)) <= 2147483648 {
            Some((-digits_value(s.skip(1))) as i32)
        } else {
            None
        }),
        s.len() == 1 && (s[0] == '+' || s[0] == '-') ==> i32_value(s) is None,
        s.len() > 0 && !('0' <= s[0] <= '9') && s[0] != '+' && s[0] != '-' ==> i32_value(s) is None,
        (exists|i: int| 1 <= i < s.len() && !('0' <= #[trigger] s[i] <= '9')) ==> i32_value(
            s,
        ) is None,
{
    let body = s.skip(1);
    if s.len() > 1 {
        assert(all_digits(body) <==> forall|i: int|
            1 <= i < s.len() ==> '0' <= #[trigger] s[i] <= '9') by {
            if all_digits(body) {
                assert forall|i: int| 1 <= i < s.len() implies '0' <= #[trigger] s[i] <= '9' by {
                    assert(is_digit(body[i - 1]));
                }
            }
            if forall|i: int| 1 <= i < s.len() ==> '0' <= #[trigger] s[i] <= '9' {
                assert forall|i: int| 0 <= i < body.len() implies is_digit(
                    #[trigger] body[i],
                ) by {
                    assert(body[i] == s[i + 1]);
                }
            }
        }
    }
    assert(all_digits(s) <==> forall|i: int|
        0 <= i < s.len() ==> '0' <= #[trigger] s[i] <= '9') by {
        if all_digits(s) {
            assert forall|i: int| 0 <= i < s.len() implies '0' <= #[trigger] s[i] <= '9' by {
                assert(is_digit(s[i]));
            }
        }
    }
}

/// A text begins with another when it has that one's characters at its start.
pub proof fn law_prefix(s: Seq<char>, prefix: Seq<char>)
    ensures
        has_prefix(s, prefix) <==> s.len() >= prefix.len() && forall|i: int|
            0 <= i < prefix.len() ==> #[trigger] s[i] == prefix[i],
{
    if s.len() >= prefix.len() {
        let head = s.take(prefix.len() as int);
        if head == prefix {
            assert forall|i: int| 0 <= i < prefix.len() implies #[trigger] s[i] == prefix[i] by {
                assert(head[i] == s[i]);
            }
        }
        if forall|i: int| 0 <= i < prefix.len() ==> #[trigger] s[i] == prefix[i] {
            assert(head =~= prefix);
        }
    }
}

/// The white space characters, by their numbers.
pub proof fn law_white_space(c: char)
    ensures
        is_white_space(c) <==> ({
            let n = c as int;
            ||| 9 <= n <= 13
            ||| n == 32
            ||| n == 133
            ||| n == 160
            ||| n == 5760
            ||| 8192 <= n <= 8202
            ||| n == 8232
            ||| n == 8233
            ||| n == 8239
            ||| n == 8287
            ||| n == 12288
        }),
{
}

proof fn lemma_trim_start(s: Seq<char>) -> (from: int)
    ensures
        0 <= from <= s.len(),
        trim_start(s) == s.subrange(from, s.len() as int),
        forall|i: int| 0 <= i < from ==> is_white_space(#[trigger] s[i]),
        from < s.len() ==> !is_white_space(s[from]),
    decreases s.len(),
{
    if s.len() > 0 && is_white_space(s[0]) {
        let rest = s.skip(1);
        let f = lemma_trim_start(rest);
        assert(rest.subrange(f, rest.len() as int) =~= s.subrange(f + 1, s.len() as int));
        assert forall|i: int| 0 <= i < f + 1 implies is_white_space(#[trigger] s[i]) by {
            if i > 0 {
                assert(rest[i - 1] == s[i]);
            }
        }
        f + 1
    } else {
        assert(s.subrange(0, s.len() as int) =~= s);
        0
    }
}

proof fn lemma_trim_end(s: Seq<char>) -> (to: int)
    ensures
        0 <= to <= s.len(),
        trim_end(s) == s.subrange(0, to),
        forall|i: int| to <= i < s.len() ==> is_white_space(#[trigger] s[i]),
        to > 0 ==> !is_white_space(s[to - 1]),
    decreases s.len(),
{
    if s.len() > 0 && is_white_space(s.last()) {
        let front = s.drop_last();
        let t = lemma_trim_end(front);
        assert(front.subrange(0, t) =~= s.subrange(0, t));
        assert forall|i: int| t <= i < s.len() implies is_white_space(#[trigger] s[i]) by {
            if i < front.len() {
                assert(front[i] == s[i]);
            }
        }
        if t > 0 {
            assert(front[t - 1] == s[t - 1]);
        }
        t
    } else {
        assert(s.subrange(0, s.len() as int) =~= s);
        s.len() as int
    }
}

/// Trimming takes a stretch of the text: what stands before and behind it is white space,
/// and it neither begins nor ends with white space.
pub proof fn law_trim(s: Seq<char>) -> (r: (int, int))
    ensures
        0 <= r.0 <= r.1 <= s.len(),
        trimmed(s) == s.subrange(r.0, r.1),
        forall|i: int| 0 <= i < r.0 ==> is_white_space(#[trigger] s[i]),
        forall|i: int| r.1 <= i < s.len() ==> is_white_space(#[trigger] s[i]),
        r.0 < r.1 ==> !is_white_space(s[r.0]) && !is_white_space(s[r.1 - 1]),
{
    let from = lemma_trim_start(s);
    let rest = s.subrange(from, s.len() as int);
    let to = lemma_trim_end(rest);
    assert(rest.subrange(0, to) =~= s.subrange(from, from + to));
    assert forall|i: int| from + to <= i < s.len() implies is_white_space(#[trigger] s[i]) by {
        assert(rest[i - from] == s[i]);
    }
    (from, from + to)
}

/// Texts are ordered by the first character in which they differ; a text that begins with
/// another, and is longer, comes after it.
pub proof fn law_text_order(a: Seq<char>, b: Seq<char>, i: int)
    requires
        0 <= i <= a.len(),
        i <= b.len(),
        forall|j: int| 0 <= j < i ==> #[trigger] a[j] == b[j],
    ensures
        i < a.len() && i < b.len() && a[i] != b[i] ==> text_less(a, b) == (a[i] < b[i]),
        i == a.len() ==> text_less(a, b) == (a.len() < b.len()),
        i == b.len() ==> !text_less(a, b),
    decreases i,
{
    if i > 0 {
        assert(a[0] == b[0]);
        let x = a.skip(1);
        let y = b.skip(1);
        assert forall|j: int| 0 <= j < i - 1 implies #[trigger] x[j] == y[j] by {
            assert(a[j + 1] == b[j + 1]);
        }
        law_text_order(x, y, i - 1);
    }
}

/// In the backfill, folders that were not removed come before those that were; of two that
/// are alike in this, the one that was opened later comes first; of two that are alike in
/// that too, the one with the smaller id.
pub proof fn law_backfill_order(folders: Seq<LegacyFolder>, order: Seq<usize>, i: int, j: int)
    requires
        backfill_order(folders, order),
        0 <= i < j < order.len(),
    ensures
        ({
            let a = folders[order[i] as int];
            let b = folders[order[j] as int];
            &&& order[i] != order[j]
            &&& order[i] < folders.len() && order[j] < folders.len()
            &&& order.len() == folders.len()
            &&& !(a.deleted_at is Some && b.deleted_at is None)
            &&& (a.deleted_at is Some) == (b.deleted_at is Some) ==> text_less(
                b.last_opened_at@,
                a.last_opened_at@,
            ) || a.last_opened_at@ == b.last_opened_at@ && a.id <= b.id
        }),
{
    assert(precedes(folders[order[i] as int], folders[order[j] as int]));
}

/// The group that a folder gets is that folder's, has its name and its removal time, and
/// its place as the rank.
pub proof fn law_backfill_group(g: BackfillGroup, f: LegacyFolder, place: int)
    requires
        group_for(g, f, place),
        0 <= place <= i32::MAX,
    ensures
        g.folder_id == f.id,
        g.name@ == f.name@,
        g.sort_order == place,
        g.deleted_at is Some <==> f.deleted_at is Some,
        f.deleted_at is Some ==> g.deleted_at->Some_0@ == f.deleted_at->Some_0@,
{
}

} // verus!
