use orbital_clock::angle::{compute_angle, whole_days, LocalTime, OrbitalAngle};
use orbital_clock::catalog::ArtCatalog;
use orbital_clock::frame::{draw_picks, split_lines, substitute, twinkle, twinkle_with_picks};
use orbital_clock::race::{calculate_earth_position, LoadError, SpaceRace, TICK_MILLIS};

fn chars(s: &str) -> Vec<char> {
    s.chars().collect()
}

fn frame(lines: &[&str]) -> Vec<Vec<char>> {
    lines.iter().map(|l| chars(l)).collect()
}

fn at(year: i32, month: u32, day: u32, second_of_day: u32) -> LocalTime {
    LocalTime { year, month, day, second_of_day, utc_offset: 0 }
}

fn star_palette() -> Vec<char> {
    vec!['*', '+', '.', ' ']
}

fn cross_palette() -> Vec<char> {
    vec!['┼', '├', '─', ' ']
}

#[test]
fn angle_at_epoch_is_zero() {
    let a = compute_angle(0);
    assert_eq!(a.steps(), 0);
    assert_eq!(a.whole_degrees(), 0);
}

#[test]
fn angle_after_twenty_days() {
    // 20 * 360 / 365.25 = 19.71 degrees
    let a = compute_angle(20);
    assert_eq!(a.steps(), 28800);
    assert_eq!(a.whole_degrees(), 19);
}

#[test]
fn angle_advances_per_day() {
    for d in -3000i64..3000 {
        let a = compute_angle(d).steps() as i64;
        let b = compute_angle(d + 1).steps() as i64;
        assert_eq!(b, (a + 1440) % 525960);
        assert!(a < 525960);
    }
}

#[test]
fn angle_wraps_after_four_years() {
    assert_eq!(compute_angle(1461).steps(), 0);
    assert_eq!(compute_angle(365).whole_degrees(), 359);
    assert_eq!(compute_angle(366).whole_degrees(), 0);
}

#[test]
fn angle_before_epoch_is_non_negative() {
    let a = compute_angle(-1);
    assert_eq!(a.steps(), 525960 - 1440);
    assert_eq!(a.whole_degrees(), 359);
    let b = compute_angle(i64::MIN);
    assert!(b.steps() < 525960);
}

#[test]
fn angle_is_deterministic() {
    assert_eq!(compute_angle(9000), compute_angle(9000));
}

#[test]
fn whole_days_truncate_toward_zero() {
    assert_eq!(whole_days(100, 120, 0, 0, 0), 20);
    assert_eq!(whole_days(100, 120, 86399, 0, 0), 20);
    assert_eq!(whole_days(100, 99, 43200, 0, 0), 0);
    assert_eq!(whole_days(100, 99, 0, 0, 0), -1);
    assert_eq!(whole_days(100, 90, 1, 0, 0), -9);
}

#[test]
fn whole_days_count_real_time_across_offsets() {
    // epoch in winter time (UTC+1), now in summer time (UTC+2): half an hour
    // after local midnight is half an hour before a whole day of real time
    assert_eq!(whole_days(100, 120, 1800, 7200, 3600), 19);
    assert_eq!(whole_days(100, 120, 3600, 7200, 3600), 20);
    assert_eq!(whole_days(100, 120, 0, -3600, 0), 20);
    assert_eq!(whole_days(100, 100, 0, 3600, 0), 0);
    assert_eq!(whole_days(100, 99, 0, 3600, 0), -1);
}

#[test]
fn days_since_epoch_with_offsets() {
    let summer = LocalTime { year: 2000, month: 7, day: 1, second_of_day: 1800, utc_offset: 7200 };
    assert_eq!(summer.days_since_epoch(3600), Some(181));
    assert_eq!(summer.days_since_epoch(7200), Some(182));
}

#[test]
fn days_since_epoch_from_calendar() {
    assert_eq!(at(2000, 1, 1, 0).days_since_epoch(0), Some(0));
    assert_eq!(at(2000, 1, 21, 0).days_since_epoch(0), Some(20));
    assert_eq!(at(2000, 3, 1, 3600).days_since_epoch(0), Some(60));
    assert_eq!(at(2001, 1, 1, 0).days_since_epoch(0), Some(366));
    assert_eq!(at(1999, 12, 31, 43200).days_since_epoch(0), Some(0));
    assert_eq!(at(1999, 12, 31, 0).days_since_epoch(0), Some(-1));
}

#[test]
fn days_since_epoch_rejects_bad_dates() {
    assert_eq!(at(2001, 2, 29, 0).days_since_epoch(0), None);
    assert_eq!(at(2000, 13, 1, 0).days_since_epoch(0), None);
    assert_eq!(at(2000, 4, 31, 0).days_since_epoch(0), None);
}

#[test]
fn days_since_epoch_follows_leap_years() {
    assert_eq!(at(2000, 2, 29, 0).days_since_epoch(0), Some(59));
    assert_eq!(at(1900, 2, 29, 0).days_since_epoch(0), None);
    assert_eq!(at(2024, 2, 29, 0).days_since_epoch(0).is_some(), true);
    assert_eq!(at(2023, 2, 29, 0).days_since_epoch(0), None);
}

#[test]
fn days_since_epoch_year_range() {
    assert!(at(262142, 12, 31, 0).days_since_epoch(0).is_some());
    assert_eq!(at(262143, 1, 1, 0).days_since_epoch(0), None);
    assert!(at(-262143, 1, 1, 0).days_since_epoch(0).is_some());
    assert_eq!(at(-262144, 12, 31, 0).days_since_epoch(0), None);
    assert_eq!(at(2000, 1, 0, 0).days_since_epoch(0), None);
}

#[test]
fn end_to_end_twenty_days_picks_zero_threshold() {
    let race = SpaceRace::new();
    let position = calculate_earth_position(&at(2000, 1, 21, 0), 0).unwrap();
    assert_eq!(position.whole_degrees(), 19);
    assert_eq!(race.asset_for_position(&position), Ok("asciiArt/space010.txt".to_string()));
}

#[test]
fn earth_position_of_bad_date_is_none() {
    assert_eq!(calculate_earth_position(&at(2000, 2, 30, 0), 0), None);
}

#[test]
fn default_table_shape() {
    let t = ArtCatalog::default_table();
    let thresholds: Vec<i32> = t.entries.iter().map(|e| e.0).collect();
    assert_eq!(
        thresholds,
        vec![0, 20, 40, 60, 90, 120, 140, 160, 180, 200, 220, 240, 270, 300, 320, 340]
    );
    assert_eq!(t.entries[15].1, "asciiArt/space34050.txt");
}

#[test]
fn floor_lookup_picks_greatest_threshold_below() {
    let t = ArtCatalog::default_table();
    // 45.7 degrees rounds down to 45
    assert_eq!(t.floor_lookup(45), Some("asciiArt/space4050.txt".to_string()));
    // 19.9 degrees rounds down to 19
    assert_eq!(t.floor_lookup(19), Some("asciiArt/space010.txt".to_string()));
    assert_eq!(t.floor_lookup(20), Some("asciiArt/space010.txt".to_string()));
    assert_eq!(t.floor_lookup(21), Some("asciiArt/space2030.txt".to_string()));
    assert_eq!(t.floor_lookup(89), Some("asciiArt/space6070.txt".to_string()));
    assert_eq!(t.floor_lookup(359), Some("asciiArt/space34050.txt".to_string()));
}

#[test]
fn floor_lookup_misses_below_smallest_threshold() {
    let t = ArtCatalog::default_table();
    assert_eq!(t.floor_lookup(0), None);
    let race = SpaceRace::new();
    let half_degree = OrbitalAngle::from_steps(700);
    assert_eq!(race.asset_for_position(&half_degree), Err(LoadError::LookupMiss));
}

#[test]
fn lookup_of_fractional_angle() {
    let race = SpaceRace::new();
    // 66767 / 1461 = 45.70 degrees
    let a = OrbitalAngle::from_steps(66767);
    assert_eq!(a.whole_degrees(), 45);
    assert_eq!(race.asset_for_position(&a), Ok("asciiArt/space4050.txt".to_string()));
}

#[test]
fn custom_table_lookup() {
    let entries = vec![(10, "a".to_string()), (50, "b".to_string())];
    let t = ArtCatalog::from_entries(entries).unwrap();
    assert_eq!(t.floor_lookup(10), None);
    assert_eq!(t.floor_lookup(11), Some("a".to_string()));
    assert_eq!(t.floor_lookup(51), Some("b".to_string()));
    let race = SpaceRace::with_catalog(t);
    assert!(race.art_lines.is_empty());
}

#[test]
fn unsorted_or_repeated_thresholds_are_refused() {
    assert!(ArtCatalog::from_entries(vec![(10, "a".to_string()), (5, "b".to_string())]).is_none());
    assert!(ArtCatalog::from_entries(vec![(10, "a".to_string()), (10, "b".to_string())]).is_none());
    assert!(ArtCatalog::from_entries(Vec::new()).is_some());
}

#[test]
fn split_lines_round_trip() {
    let lines = split_lines(&chars("AB*C\n┼┼\nXY"));
    assert_eq!(lines, frame(&["AB*C", "┼┼", "XY"]));
    let lines = split_lines(&chars("AB*C\n┼┼\nXY\n"));
    assert_eq!(lines.len(), 3);
}

#[test]
fn split_lines_edges() {
    assert_eq!(split_lines(&chars("")), Vec::<Vec<char>>::new());
    assert_eq!(split_lines(&chars("\n")), frame(&[""]));
    assert_eq!(split_lines(&chars("a\r\nb\n")), frame(&["a", "b"]));
    assert_eq!(split_lines(&chars("a\n\n b ")), frame(&["a", "", " b "]));
    assert_eq!(split_lines(&chars("a\r")), frame(&["a\r"]));
}

#[test]
fn substitute_follows_palettes() {
    for p in 0u8..4 {
        assert_eq!(substitute('*', p), star_palette()[p as usize]);
        assert_eq!(substitute('┼', p), cross_palette()[p as usize]);
        assert_eq!(substitute('x', p), 'x');
    }
}

#[test]
fn twinkle_with_picks_is_exact() {
    let f = frame(&["a*b", "┼*"]);
    let picks = vec![vec![3, 1, 2], vec![2, 3]];
    let out = twinkle_with_picks(&f, &picks);
    assert_eq!(out, frame(&["a+b", "─ "]));
    assert_eq!(f, frame(&["a*b", "┼*"]));
}

#[test]
fn twinkle_preserves_shape() {
    let f = frame(&["  *  ┼ |", "", "****", "┼┼┼ x"]);
    for _ in 0..50 {
        let out = twinkle(&f);
        assert_eq!(out.len(), f.len());
        for (line, orig) in out.iter().zip(f.iter()) {
            assert_eq!(line.len(), orig.len());
            for (c, o) in line.iter().zip(orig.iter()) {
                match o {
                    '*' => assert!(star_palette().contains(c)),
                    '┼' => assert!(cross_palette().contains(c)),
                    _ => assert_eq!(c, o),
                }
            }
        }
    }
}

#[test]
fn draw_picks_fit_frame() {
    let f = frame(&["*a┼", "bb"]);
    let picks = draw_picks(&f);
    assert_eq!(picks.len(), 2);
    assert_eq!(picks[0].len(), 3);
    assert_eq!(picks[1], vec![0, 0]);
    assert_eq!(picks[0][1], 0);
    assert!(picks[0][0] < 4 && picks[0][2] < 4);
}

#[test]
fn ticks_do_not_compound() {
    let mut race = SpaceRace::new();
    race.load_art_text(&chars("*x┼\n**"));
    let original = race.art_lines.clone();
    let blank = vec![vec![3, 3, 3], vec![3, 3]];
    let first = race.frame_with_picks(&blank);
    assert_eq!(first, frame(&[" x ", "  "]));
    assert_eq!(race.art_lines, original);
    let keep = vec![vec![0, 0, 0], vec![0, 1]];
    let second = race.frame_with_picks(&keep);
    assert_eq!(second, frame(&["*x┼", "*+"]));
    // twinkling the blanked frame instead would have lost every marker
    let compounded = twinkle_with_picks(&first, &keep);
    assert_eq!(compounded, frame(&[" x ", "  "]));
}

#[test]
fn random_ticks_keep_the_original() {
    let mut race = SpaceRace::new();
    race.load_art_text(&chars("***\n┼┼┼"));
    let original = race.art_lines.clone();
    for _ in 0..20 {
        let out = race.tick();
        assert_eq!(out.len(), 2);
        assert_eq!(race.art_lines, original);
    }
}

#[test]
fn install_asset_reports_read_failure() {
    let mut race = SpaceRace::new();
    assert_eq!(race.install_asset(Some(chars("AB*C\n┼┼\nXY"))), Ok(()));
    assert_eq!(race.art_lines, frame(&["AB*C", "┼┼", "XY"]));
    assert_eq!(race.install_asset(None), Err(LoadError::AssetReadError));
    assert!(race.art_lines.is_empty());
    assert!(race.tick().is_empty());
}

#[test]
fn tick_interval() {
    assert_eq!(TICK_MILLIS, 800);
}
