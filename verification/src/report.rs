//! Number formatting for the result tables.

use crate::text::{all_digits, decimal, decimal_chars, is_digit, lemma_decimal_digits, string_from_chars};
use vstd::prelude::*;

verus! {

/// The digits `ds` with a comma between each group of three, counting
/// from the right.
pub open spec fn group_thousands(ds: Seq<char>) -> Seq<char>
    decreases ds.len(),
{
    if ds.len() <= 3 {
        ds
    } else {
        group_thousands(ds.take(ds.len() - 3)) + seq![','] + ds.skip(ds.len() - 3)
    }
}

/// Formats `n` in decimal with comma separators every three digits from
/// the right, e.g. 1234567 as "1,234,567".
pub fn format_number(n: u64) -> (s: String)
    ensures
        s@ == group_thousands(decimal(n as nat)),
{
    let ds = decimal_chars(n);
    proof {
        lemma_decimal_digits(n as nat);
    }
    let len = ds.len();
    // The leftmost group holds one to three digits, the others three.
    let mut first = len % 3;
    if first == 0 {
        first = 3;
    }
    let mut out: Vec<char> = Vec::new();
    let mut k: usize = 0;
    while k < first
        invariant
            len == ds@.len(),
            1 <= first <= 3,
            first <= len,
            k <= first,
            out@ == ds@.take(k as int),
        decreases first - k,
    {
        out.push(ds[k]);
        k = k + 1;
        assert(out@ =~= ds@.take(k as int));
    }
    assert(group_thousands(ds@.take(first as int)) == ds@.take(first as int));
    let mut i: usize = first;
    while i < len
        invariant
            len == ds@.len(),
            1 <= first <= i <= len,
            (len - i) % 3 == 0,
            out@ == group_thousands(ds@.take(i as int)),
        decreases len - i,
    {
        let ghost prev = out@;
        out.push(',');
        out.push(ds[i]);
        out.push(ds[i + 1]);
        out.push(ds[i + 2]);
        let ghost next = ds@.take(i + 3);
        assert(next.take(next.len() - 3) =~= ds@.take(i as int));
        assert(next.skip(next.len() - 3) =~= seq![ds@[i as int], ds@[i + 1], ds@[i + 2]]);
        assert(out@ =~= prev + seq![','] + next.skip(next.len() - 3));
        i = i + 3;
    }
    assert(ds@.take(len as int) =~= ds@);
    string_from_chars(out.as_slice())
}

/// `s` with its commas removed.
pub open spec fn without_commas(s: Seq<char>) -> Seq<char>
    decreases s.len(),
{
    if s.len() == 0 {
        s
    } else if s.last() == ',' {
        without_commas(s.drop_last())
    } else {
        without_commas(s.drop_last()).push(s.last())
    }
}

proof fn lemma_without_commas_add(a: Seq<char>, b: Seq<char>)
    ensures
        without_commas(a + b) == without_commas(a) + without_commas(b),
    decreases b.len(),
{
    if b.len() == 0 {
        assert(a + b =~= a);
        assert(without_commas(a) + without_commas(b) =~= without_commas(a));
    } else {
        assert((a + b).drop_last() =~= a + b.drop_last());
        lemma_without_commas_add(a, b.drop_last());
        if b.last() != ',' {
            assert(without_commas(a) + without_commas(b.drop_last()).push(b.last()) =~= (
            without_commas(a) + without_commas(b.drop_last())).push(b.last()));
        }
    }
}

proof fn lemma_without_commas_digits(ds: Seq<char>)
    requires
        all_digits(ds),
    ensures
        without_commas(ds) == ds,
    decreases ds.len(),
{
    if ds.len() > 0 {
        assert(is_digit(ds[ds.len() - 1]));
        assert(all_digits(ds.drop_last())) by {
            assert forall|i: int| 0 <= i < ds.drop_last().len() implies #[trigger] is_digit(
                ds.drop_last()[i],
            ) by {
                assert(is_digit(ds[i]));
            }
        }
        lemma_without_commas_digits(ds.drop_last());
        assert(ds.drop_last().push(ds.last()) =~= ds);
    }
}

proof fn lemma_ungroup(ds: Seq<char>)
    requires
        all_digits(ds),
    ensures
        without_commas(group_thousands(ds)) == ds,
    decreases ds.len(),
{
    if ds.len() <= 3 {
        lemma_without_commas_digits(ds);
    } else {
        let head = ds.take(ds.len() - 3);
        let tail = ds.skip(ds.len() - 3);
        assert(all_digits(head)) by {
            assert forall|i: int| 0 <= i < head.len() implies #[trigger] is_digit(head[i]) by {
                assert(is_digit(ds[i]));
            }
        }
        assert(all_digits(tail)) by {
            assert forall|i: int| 0 <= i < tail.len() implies #[trigger] is_digit(tail[i]) by {
                assert(is_digit(ds[ds.len() - 3 + i]));
            }
        }
        lemma_ungroup(head);
        lemma_without_commas_digits(tail);
        lemma_without_commas_add(group_thousands(head) + seq![','], tail);
        lemma_without_commas_add(group_thousands(head), seq![',']);
        assert(seq![','].drop_last() =~= Seq::<char>::empty());
        assert(seq![','].last() == ',');
        assert(without_commas(Seq::<char>::empty()) =~= Seq::<char>::empty());
        assert(without_commas(seq![',']) == Seq::<char>::empty());
        assert(head + tail =~= ds);
        assert(without_commas(group_thousands(head)) + Seq::<char>::empty() =~= head);
    }
}

/// Removing the separators from a formatted number gives back its decimal
/// digits: the formatting only inserts commas.
pub proof fn lemma_format_number_digits(n: u64)
    ensures
        without_commas(group_thousands(decimal(n as nat))) == decimal(n as nat),
{
    lemma_decimal_digits(n as nat);
    lemma_ungroup(decimal(n as nat));
}

/// Numbers below one thousand are written without separators.
pub proof fn lemma_small_numbers_plain(n: u64)
    requires
        n < 1000,
    ensures
        group_thousands(decimal(n as nat)) == decimal(n as nat),
{
    assert(decimal(n as nat).len() <= 3) by {
        if n >= 100 {
            let m = (n / 10) as nat;
            assert(m / 10 == n / 100);
            assert(decimal(m / 10).len() == 1);
            assert(decimal(m).len() == 2);
        } else if n >= 10 {
            assert(decimal((n / 10) as nat).len() == 1);
        }
    }
}

} // verus!
