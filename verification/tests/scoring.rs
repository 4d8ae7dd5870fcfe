use slisic::loudness::{average, entry_average, music_average};
use slisic::model::{DbMusic, Music};
use slisic::scoring::{boost, cancle_boost, cancle_fatigue, fatigue, reset_logits, BOOST_MAX, SCORE_STEP};

fn music(boost: i32, fatigue: i32) -> Music {
    Music {
        path: "/p".to_string(),
        title: "t".to_string(),
        avg_db: Some(-14000),
        base_bias: 5,
        user_boost: boost,
        fatigue,
        diversity: 7,
    }
}

#[test]
fn boost_moves_by_a_tenth_up_to_nine_tenths() {
    assert_eq!((SCORE_STEP, BOOST_MAX), (100, 900));
    assert_eq!(boost(music(0, 0)).user_boost, 100);
    assert_eq!(boost(music(800, 0)).user_boost, 900);
    assert_eq!(boost(music(900, 0)).user_boost, 900);
    assert_eq!(boost(music(850, 0)).user_boost, 900);
    assert_eq!(cancle_boost(music(900, 0)).user_boost, 800);
    assert_eq!(cancle_boost(music(50, 0)).user_boost, 0);
    assert_eq!(cancle_boost(music(0, 0)).user_boost, 0);
}

#[test]
fn boost_stays_in_range_whatever_it_was() {
    for b in [i32::MIN, -5000, -101, -100, -1, 0, 450, 899, 900, 901, 100_000, i32::MAX] {
        for row in [boost(music(b, 0)), cancle_boost(music(b, 0))] {
            assert!(0 <= row.user_boost && row.user_boost <= 900, "{} gave {}", b, row.user_boost);
        }
    }
}

#[test]
fn fatigue_adds_without_clamp() {
    assert_eq!(fatigue(music(0, 0)).fatigue, 100);
    assert_eq!(fatigue(music(0, 5000)).fatigue, 5100);
    assert_eq!(cancle_fatigue(music(0, 0)).fatigue, -100);
    assert_eq!(fatigue(music(0, i32::MAX)).fatigue, i32::MAX);
    assert_eq!(cancle_fatigue(music(0, i32::MIN)).fatigue, i32::MIN);
}

#[test]
fn commands_keep_the_other_values_and_derive_the_identity() {
    let row = fatigue(music(300, 0));
    assert_eq!(row.id.key, "/p");
    assert_eq!(row.path, "/p");
    assert_eq!(row.title, "t");
    assert_eq!(row.avg_db, Some(-14000));
    assert_eq!((row.base_bias, row.user_boost, row.diversity), (5, 300, 7));
    let row = boost(music(300, 40));
    assert_eq!((row.base_bias, row.fatigue, row.diversity), (5, 40, 7));
}

#[test]
fn reset_zeroes_fatigue_boost_and_diversity() {
    let rows = reset_logits(vec![DbMusic::from(music(300, 40)), DbMusic::from(music(0, -100))]);
    assert_eq!(rows.len(), 2);
    for r in &rows {
        assert_eq!((r.user_boost, r.fatigue, r.diversity), (0, 0, 0));
        assert_eq!(r.base_bias, 5);
        assert_eq!(r.avg_db, Some(-14000));
        assert_eq!(r.path, "/p");
    }
    assert!(reset_logits(vec![]).is_empty());
}

#[test]
fn row_and_music_convert_both_ways() {
    let row = DbMusic::from(music(1, 2));
    assert_eq!(row.id.key, "/p");
    let back = Music::from(row);
    assert_eq!(format!("{:?}", back), format!("{:?}", music(1, 2)));
}

#[test]
fn mean_skips_unknown_values() {
    assert_eq!(average(&vec![]), None);
    assert_eq!(average(&vec![None, None]), None);
    assert_eq!(average(&vec![Some(-14000)]), Some(-14000));
    assert_eq!(average(&vec![Some(-10000), None, Some(-20000)]), Some(-15000));
    assert_eq!(average(&vec![Some(1), Some(2)]), Some(1));
    assert_eq!(average(&vec![Some(-1), Some(-2)]), Some(-1));
    assert_eq!(average(&vec![Some(-7), Some(2)]), Some(-2));
    assert_eq!(average(&vec![Some(i32::MAX), Some(i32::MAX), Some(i32::MAX)]), Some(i32::MAX));
    assert_eq!(average(&vec![Some(i32::MIN), Some(i32::MIN)]), Some(i32::MIN));
    assert_eq!(average(&vec![Some(i32::MIN), Some(i32::MAX)]), Some(0));
}

#[test]
fn averages_of_musics_and_entries() {
    let mut a = music(0, 0);
    a.avg_db = Some(-12000);
    let mut b = music(0, 0);
    b.avg_db = None;
    let mut c = music(0, 0);
    c.avg_db = Some(-13001);
    assert_eq!(music_average(&vec![a, b, c]), Some(-12500));
    assert_eq!(music_average(&vec![]), None);
    assert_eq!(entry_average(&vec![]), None);
}
