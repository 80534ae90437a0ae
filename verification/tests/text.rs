use swarmotterd::binary64::{round_half_even, to_nearest};
use swarmotterd::clock::{epoch_or_zero, instant_age_seconds, later_of, now, Tick};
use swarmotterd::hash::InfoHash;
use swarmotterd::identity::make_peer_id;
use swarmotterd::index::HashIndex;
use swarmotterd::order::{rank_texts, Rank};
use swarmotterd::paths::{
    paths_match, push_display_path, split_components, unique_pathbufs, validated_relative_path,
};
use swarmotterd::rates::smooth_rate;
use swarmotterd::text::{
    contains_text, decimal_text, format_bytes, join_with_slash, keep_line, read_last_lines,
    same_text, strip_ansi_controls,
};

const SECOND: u64 = 1_000_000_000;

fn texts(list: &[&str]) -> Vec<String> {
    list.iter().map(|text| text.to_string()).collect()
}

#[test]
fn strip_ansi_controls_removes_terminal_sequences_from_logs() {
    let raw = "\u{1b}[2m2026-07-03T19:43:03Z\u{1b}[0m \u{1b}[32mINFO\u{1b}[0m message";
    assert_eq!(
        strip_ansi_controls(raw),
        "2026-07-03T19:43:03Z INFO message"
    );
}

#[test]
fn text_without_sequences_is_kept() {
    assert_eq!(strip_ansi_controls("plain \u{e9}\u{4e16} text"), "plain \u{e9}\u{4e16} text");
    assert_eq!(strip_ansi_controls(""), "");
}

#[test]
fn amounts_are_shown_in_units_of_1024() {
    assert_eq!(format_bytes(0), "0 B");
    assert_eq!(format_bytes(1023), "1023 B");
    assert_eq!(format_bytes(1024), "1.0 KB");
    assert_eq!(format_bytes(1536), "1.5 KB");
    assert_eq!(format_bytes(5 * 1024 * 1024), "5.0 MB");
    assert_eq!(decimal_text(0), "0");
    assert_eq!(decimal_text(u64::MAX), "18446744073709551615");
}

#[test]
fn amounts_agree_with_floating_point() {
    let units = ["B", "KB", "MB", "GB", "TB"];
    for bytes in [
        1u64,
        1024 * 1024 - 1,
        1024 * 1024 - 52,
        1_234_567,
        987_654_321_012,
        (1 << 40) + 12345,
        u64::MAX,
    ] {
        let mut value = bytes as f64;
        let mut unit = 0;
        while value >= 1024.0 && unit + 1 < units.len() {
            value /= 1024.0;
            unit += 1;
        }
        let expected = if unit == 0 {
            format!("{bytes} B")
        } else {
            format!("{value:.1} {}", units[unit])
        };
        assert_eq!(format_bytes(bytes), expected);
    }
}

#[test]
fn rates_agree_with_floating_point() {
    let fresh = Some(Tick { nanos: 10 * SECOND });
    let now = Tick { nanos: 12 * SECOND };
    for (previous, instant) in [
        (100u64, 2_000u64),
        (1, 1),
        (12_345_678, 87_654_321),
        (u32::MAX as u64, 3),
    ] {
        let expected = ((previous as f64 * 0.65) + (instant as f64 * 0.35)) as u64;
        assert_eq!(smooth_rate(previous, instant, fresh, now), expected);
    }
    for previous in [100u64, 12_345_678, 7] {
        let expected = (previous as f64 * 0.85) as u64;
        assert_eq!(smooth_rate(previous, 0, fresh, now), expected);
    }
    assert_eq!(smooth_rate(0, 42, None, now), 42);
    assert_eq!(smooth_rate(500, 0, Some(Tick { nanos: 0 }), Tick { nanos: 21 * SECOND }), 0);
}

#[test]
fn wide_numbers_round_to_the_nearest_even() {
    assert_eq!(round_half_even(5, 2), 2);
    assert_eq!(round_half_even(7, 2), 4);
    assert_eq!(round_half_even(10, 3), 3);
    let wide: u128 = (1 << 53) + 1;
    assert_eq!(to_nearest(wide), (wide as f64) as u128);
    assert_eq!(to_nearest(u64::MAX as u128), (u64::MAX as f64) as u128);
}

#[test]
fn only_the_newest_lines_are_kept() {
    let lines = texts(&["one", "two", "three"]);
    assert_eq!(read_last_lines(&lines, 2), texts(&["two", "three"]));
    assert_eq!(read_last_lines(&lines, 9), lines);
    let mut kept: Vec<String> = Vec::new();
    for line in ["a", "b", "c"] {
        keep_line(&mut kept, line, 2);
    }
    assert_eq!(kept, texts(&["b", "c"]));
}

#[test]
fn texts_are_joined_found_and_compared() {
    assert_eq!(join_with_slash(&texts(&["a", "b", "c"])), "a/b/c");
    assert!(contains_text("fetch: no peers discovered", "no peers"));
    assert!(!contains_text("no", "no peers"));
    assert!(same_text("x", "x"));
    assert!(!same_text("x", "y"));
    assert_eq!(rank_texts("abc", "abd"), Rank::Before);
    assert_eq!(rank_texts("abc", "abc"), Rank::Same);
    assert_eq!(rank_texts("b", "abc"), Rank::After);
    assert_eq!(rank_texts("ab", "abc"), Rank::Before);
}

#[test]
fn paths_are_compared_by_their_components() {
    assert!(paths_match("/srv/data/", "/srv//data"));
    assert!(!paths_match("/srv/data", "srv/data"));
    assert!(!paths_match("/srv/data", "/srv/other"));
    assert_eq!(split_components("a/b//c"), texts(&["a", "b", "c"]));
    let unique = unique_pathbufs(&texts(&["/a", "/b", "/a/", "/b"]));
    assert_eq!(unique, texts(&["/a", "/b"]));
    let mut shown = Vec::new();
    push_display_path(&mut shown, "/a");
    push_display_path(&mut shown, "/a");
    assert_eq!(shown, texts(&["/a"]));
}

#[test]
fn names_of_payload_files_stay_below_their_root() {
    assert_eq!(
        validated_relative_path("dir/file.bin").unwrap(),
        texts(&["dir", "file.bin"])
    );
    for refused in ["", "  ", "/etc/passwd", "../up", "a/../b"] {
        assert!(validated_relative_path(refused).is_err(), "{refused:?}");
    }
}

#[test]
fn identities_keep_their_bytes_and_their_order() {
    let mut bytes = [0u8; 20];
    for (i, byte) in bytes.iter_mut().enumerate() {
        *byte = (i * 11) as u8;
    }
    let hash = InfoHash::from_bytes(&bytes);
    let hex: String = bytes.iter().map(|byte| format!("{byte:02x}")).collect();
    assert_eq!(hash.to_hex(), hex);
    let mut next = bytes;
    next[19] += 1;
    assert!(hash.precedes(&InfoHash::from_bytes(&next)));
    assert!(!hash.precedes(&hash));
}

#[test]
fn an_index_gives_back_what_it_was_given() {
    let key = |n: u8| InfoHash::from_bytes(&[n; 20]);
    let mut index: HashIndex<u32> = HashIndex::new();
    for n in [9u8, 1, 5, 7, 3] {
        index.insert(key(n), n as u32 * 10);
    }
    index.insert(key(5), 51);
    assert_eq!(index.len(), 5);
    assert_eq!(index.get(&key(5)), Some(&51));
    assert_eq!(index.get(&key(4)), None);
    for i in 1..index.len() {
        assert!(index.key_at(i - 1).precedes(&index.key_at(i)));
    }
    assert_eq!(index.remove(&key(1)), Some(10));
    assert_eq!(index.remove(&key(1)), None);
    assert!(!index.contains(&key(1)));
    *index.value_at_mut(0) = 31;
    assert_eq!(index.get(&key(3)), Some(&31));
    index.clear();
    assert!(index.is_empty());
}

#[test]
fn ages_are_whole_seconds() {
    let seen = Some(Tick { nanos: SECOND });
    assert_eq!(instant_age_seconds(Tick { nanos: 4 * SECOND + 5 }, seen), Some(3));
    assert_eq!(instant_age_seconds(Tick { nanos: 0 }, seen), Some(0));
    assert_eq!(instant_age_seconds(Tick { nanos: SECOND }, None), None);
    assert_eq!(
        later_of(Some(Tick { nanos: 1 }), Some(Tick { nanos: 2 })),
        Some(Tick { nanos: 2 })
    );
    assert!(Tick { nanos: 30 * SECOND - 1 }.seen_within(Some(Tick { nanos: 0 }), 30));
    assert!(!Tick { nanos: 30 * SECOND }.seen_within(Some(Tick { nanos: 0 }), 30));
}

#[test]
fn the_clock_tells_seconds_since_the_epoch() {
    let before = std::time::SystemTime::now()
        .duration_since(std::time::UNIX_EPOCH)
        .unwrap()
        .as_secs();
    let told = now();
    assert!(told >= before);
    assert!(told <= before + 60);
    assert_eq!(epoch_or_zero(None), 0);
    assert_eq!(epoch_or_zero(Some(7)), 7);
}

#[test]
fn peer_identities_name_the_client() {
    let id = make_peer_id(Some(1_234_567_890_123_456_789), 4242);
    assert_eq!(id[0], b'-');
    assert_eq!(id[7], b'-');
    assert_ne!(id, make_peer_id(Some(1_234_567_890_123_456_790), 4242));
    assert_eq!(id, make_peer_id(Some(1_234_567_890_123_456_789), 4242));
}
