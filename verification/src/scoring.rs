//! The scoring commands on a music. Scoring values are integers in
//! thousandths; one press moves a value by a tenth.

use vstd::prelude::*;
use crate::model::{DbMusic, Music, MusicView};
use crate::table::{RecordKey, Table};

verus! {

/// One press: a tenth.
pub const SCORE_STEP: i32 = 100;

/// The largest boost: nine tenths.
pub const BOOST_MAX: i32 = 900;

/// `v` held within `lo..=hi`.
pub open spec fn clamped(v: int, lo: int, hi: int) -> int {
    if v < lo {
        lo
    } else if v > hi {
        hi
    } else {
        v
    }
}

/// The row that a command writes for a music: the music's values with
/// the scoring values given, under the identity derived from its path.
pub open spec fn scored(m: Music, row: DbMusic, user_boost: int, fatigue: int, diversity: int)
    -> bool {
    &&& row.keyed()
    &&& row.music() == (MusicView {
        user_boost: user_boost as i32,
        fatigue: fatigue as i32,
        diversity: diversity as i32,
        ..m@
    })
}

fn clamp_i64(v: i64, lo: i32, hi: i32) -> (r: i32)
    requires
        lo <= hi,
    ensures
        r == clamped(v as int, lo as int, hi as int),
{
    if v < lo as i64 {
        lo
    } else if v > hi as i64 {
        hi
    } else {
        v as i32
    }
}

fn row_with(music: Music, user_boost: i32, fatigue: i32, diversity: i32) -> (row: DbMusic)
    ensures
        scored(music, row, user_boost as int, fatigue as int, diversity as int),
{
    DbMusic {
        id: RecordKey { table: Table::Music, key: music.path.clone() },
        path: music.path,
        title: music.title,
        avg_db: music.avg_db,
        base_bias: music.base_bias,
        user_boost,
        fatigue,
        diversity,
    }
}

/// The music was played through: its fatigue grows by a tenth. Fatigue
/// is not clamped; it stops only at the largest value an `i32` holds.
pub fn fatigue(music: Music) -> (row: DbMusic)
    ensures
        scored(
            music,
            row,
            music.user_boost as int,
            clamped(music.fatigue + SCORE_STEP, i32::MIN as int, i32::MAX as int),
            music.diversity as int,
        ),
{
    let f = clamp_i64(music.fatigue as i64 + SCORE_STEP as i64, i32::MIN, i32::MAX);
    let (b, d) = (music.user_boost, music.diversity);
    row_with(music, b, f, d)
}

/// Takes one press of fatigue back.
pub fn cancle_fatigue(music: Music) -> (row: DbMusic)
    ensures
        scored(
            music,
            row,
            music.user_boost as int,
            clamped(music.fatigue - SCORE_STEP, i32::MIN as int, i32::MAX as int),
            music.diversity as int,
        ),
{
    let f = clamp_i64(music.fatigue as i64 - SCORE_STEP as i64, i32::MIN, i32::MAX);
    let (b, d) = (music.user_boost, music.diversity);
    row_with(music, b, f, d)
}

/// The user likes the music: its boost grows by a tenth, within zero and
/// nine tenths.
pub fn boost(music: Music) -> (row: DbMusic)
    ensures
        scored(
            music,
            row,
            clamped(music.user_boost + SCORE_STEP, 0, BOOST_MAX as int),
            music.fatigue as int,
            music.diversity as int,
        ),
        0 <= row.user_boost <= BOOST_MAX,
{
    let b = clamp_i64(music.user_boost as i64 + SCORE_STEP as i64, 0, BOOST_MAX);
    let (f, d) = (music.fatigue, music.diversity);
    row_with(music, b, f, d)
}

/// Takes one press of boost back, within zero and nine tenths.
pub fn cancle_boost(music: Music) -> (row: DbMusic)
    ensures
        scored(
            music,
            row,
            clamped(music.user_boost - SCORE_STEP, 0, BOOST_MAX as int),
            music.fatigue as int,
            music.diversity as int,
        ),
        0 <= row.user_boost <= BOOST_MAX,
{
    let b = clamp_i64(music.user_boost as i64 - SCORE_STEP as i64, 0, BOOST_MAX);
    let (f, d) = (music.fatigue, music.diversity);
    row_with(music, b, f, d)
}

/// A row after the reset: fatigue, boost and diversity at zero, the rest
/// as it was.
pub open spec fn reset_of(a: DbMusic, b: DbMusic) -> bool {
    &&& b.id@ == a.id@
    &&& b.music() == (MusicView { user_boost: 0, fatigue: 0, diversity: 0, ..a.music() })
}

/// Resets the scoring of all musics: every row comes back with fatigue,
/// boost and diversity at zero, in the order given.
pub fn reset_logits(musics: Vec<DbMusic>) -> (rows: Vec<DbMusic>)
    ensures
        rows@.len() == musics@.len(),
        forall|i: int| 0 <= i < rows@.len() ==> reset_of(musics@[i], #[trigger] rows@[i]),
{
    let mut rows: Vec<DbMusic> = Vec::new();
    let mut i: usize = 0;
    while i < musics.len()
        invariant
            i <= musics.len(),
            rows@.len() == i,
            forall|j: int| 0 <= j < i ==> reset_of(musics@[j], #[trigger] rows@[j]),
        decreases musics.len() - i,
    {
        let mut row = musics[i].copy();
        row.fatigue = 0;
        row.user_boost = 0;
        row.diversity = 0;
        rows.push(row);
        i += 1;
    }
    rows
}

/// After `boost` or `cancle_boost` the boost lies within zero and nine
/// tenths, whatever it was before.
pub proof fn lemma_boost_stays_in_range(before: int)
    ensures
        0 <= clamped(before + SCORE_STEP, 0, BOOST_MAX as int) <= BOOST_MAX,
        0 <= clamped(before - SCORE_STEP, 0, BOOST_MAX as int) <= BOOST_MAX,
{
}

} // verus!
