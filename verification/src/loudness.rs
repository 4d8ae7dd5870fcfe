//! Loudness values and their means. A loudness is an integer number of
//! thousandths of a dB.

use vstd::prelude::*;
use crate::model::{Entry, Music};

verus! {

/// The sum of the known values among the first `n` of `s`.
pub open spec fn sum_known(s: Seq<Option<i32>>, n: int) -> int
    decreases n,
{
    if n <= 0 {
        0
    } else {
        sum_known(s, n - 1) + match s[n - 1] {
            Some(v) => v as int,
            None => 0,
        }
    }
}

/// The number of known values among the first `n` of `s`.
pub open spec fn count_known(s: Seq<Option<i32>>, n: int) -> int
    decreases n,
{
    if n <= 0 {
        0
    } else {
        count_known(s, n - 1) + match s[n - 1] {
            Some(v) => 1int,
            None => 0int,
        }
    }
}

/// The quotient of `a` by a positive `b`, rounded toward zero.
pub open spec fn quotient(a: int, b: int) -> int {
    if a >= 0 {
        a / b
    } else {
        -((-a) / b)
    }
}

/// The arithmetic mean of the known values of `s`, in whole thousandths
/// (rounded toward zero); `None` where no value is known.
pub open spec fn mean_known(s: Seq<Option<i32>>) -> Option<i32> {
    if count_known(s, s.len() as int) == 0 {
        None
    } else {
        Some(quotient(sum_known(s, s.len() as int), count_known(s, s.len() as int)) as i32)
    }
}

/// The sum of the known values lies between the smallest and the largest
/// loudness, each taken as often as values are known.
pub proof fn lemma_known_bounds(s: Seq<Option<i32>>, n: int)
    requires
        0 <= n <= s.len(),
    ensures
        0 <= count_known(s, n) <= n,
        -2147483648 * count_known(s, n) <= sum_known(s, n) <= 2147483647 * count_known(s, n),
    decreases n,
{
    if n > 0 {
        lemma_known_bounds(s, n - 1);
    }
}

/// The mean lies between the bounds of its values, so it is a loudness.
pub proof fn lemma_quotient_bounds(sum: int, count: int)
    requires
        count > 0,
        -2147483648 * count <= sum <= 2147483647 * count,
    ensures
        -2147483648 <= quotient(sum, count) <= 2147483647,
{
    if sum >= 0 {
        assert(sum / count <= 2147483647) by (nonlinear_arith)
            requires
                0 <= sum <= 2147483647 * count,
                count > 0,
        ;
        assert(sum / count >= 0) by (nonlinear_arith)
            requires
                0 <= sum,
                count > 0,
        ;
    } else {
        assert((-sum) / count <= 2147483648) by (nonlinear_arith)
            requires
                0 <= -sum <= 2147483648 * count,
                count > 0,
        ;
        assert((-sum) / count >= 0) by (nonlinear_arith)
            requires
                0 <= -sum,
                count > 0,
        ;
    }
}

/// The mean is absent exactly where no value is known.
pub proof fn lemma_mean_absent(s: Seq<Option<i32>>)
    ensures
        mean_known(s) is None <==> forall|i: int| 0 <= i < s.len() ==> #[trigger] s[i] is None,
{
    lemma_count_zero(s, s.len() as int);
}

/// No value is counted exactly where no value is known.
pub proof fn lemma_count_zero(s: Seq<Option<i32>>, n: int)
    requires
        0 <= n <= s.len(),
    ensures
        count_known(s, n) == 0 <==> forall|i: int| 0 <= i < n ==> #[trigger] s[i] is None,
    decreases n,
{
    if n > 0 {
        lemma_count_zero(s, n - 1);
        lemma_known_bounds(s, n - 1);
        if count_known(s, n) == 0 {
            assert forall|i: int| 0 <= i < n implies #[trigger] s[i] is None by {
                if i == n - 1 {
                } else {
                }
            }
        } else {
            if forall|i: int| 0 <= i < n ==> #[trigger] s[i] is None {
                assert(s[n - 1] is None);
                assert(forall|i: int| 0 <= i < n - 1 ==> #[trigger] s[i] is None);
            }
        }
    }
}

/// The mean of the known values.
pub fn average(values: &Vec<Option<i32>>) -> (m: Option<i32>)
    ensures
        m == mean_known(values@),
{
    let mut sum: i128 = 0;
    let mut count: u64 = 0;
    let mut i: usize = 0;
    while i < values.len()
        invariant
            i <= values.len(),
            sum == sum_known(values@, i as int),
            count == count_known(values@, i as int),
        decreases values.len() - i,
    {
        proof {
            lemma_known_bounds(values@, i as int);
        }
        match values[i] {
            Some(v) => {
                sum = sum + (v as i128);
                count = count + 1;
            },
            None => {},
        }
        i += 1;
    }
    if count == 0 {
        None
    } else {
        proof {
            lemma_known_bounds(values@, values@.len() as int);
            lemma_quotient_bounds(sum as int, count as int);
        }
        let q: i128 = sum / (count as i128);
        Some(q as i32)
    }
}

/// The loudnesses of a sequence of musics.
pub open spec fn music_levels(s: Seq<Music>) -> Seq<Option<i32>> {
    Seq::new(s.len(), |i: int| s[i].avg_db)
}

/// The averages of a sequence of entries.
pub open spec fn entry_levels(s: Seq<Entry>) -> Seq<Option<i32>> {
    Seq::new(s.len(), |i: int| s[i].avg_db)
}

/// An entry's average loudness: the mean of its musics' known loudnesses.
pub fn music_average(musics: &Vec<Music>) -> (m: Option<i32>)
    ensures
        m == mean_known(music_levels(musics@)),
{
    let mut values: Vec<Option<i32>> = Vec::new();
    let mut i: usize = 0;
    while i < musics.len()
        invariant
            i <= musics.len(),
            values@.len() == i,
            forall|j: int| 0 <= j < i ==> values@[j] == musics@[j].avg_db,
        decreases musics.len() - i,
    {
        values.push(musics[i].avg_db);
        i += 1;
    }
    assert(values@ =~= music_levels(musics@));
    average(&values)
}

/// A collection's average loudness: the mean of its entries' known
/// averages.
pub fn entry_average(entries: &Vec<Entry>) -> (m: Option<i32>)
    ensures
        m == mean_known(entry_levels(entries@)),
{
    let mut values: Vec<Option<i32>> = Vec::new();
    let mut i: usize = 0;
    while i < entries.len()
        invariant
            i <= entries.len(),
            values@.len() == i,
            forall|j: int| 0 <= j < i ==> values@[j] == entries@[j].avg_db,
        decreases entries.len() - i,
    {
        values.push(entries[i].avg_db);
        i += 1;
    }
    assert(values@ =~= entry_levels(entries@));
    average(&values)
}

} // verus!
