use glimpse::segment_ring::{SegmentFile, SegmentRing};

const S: i64 = 1_000_000_000;

fn file(name: &str, modified: Option<i64>) -> SegmentFile {
    SegmentFile { path: format!("C:\\seg\\{name}"), file_name: name.to_string(), modified }
}

fn ring() -> SegmentRing {
    SegmentRing::new("C:\\seg".to_string(), 30)
}

#[test]
fn a_new_ring_is_empty() {
    let r = ring();
    assert_eq!(r.segments_dir(), "C:\\seg");
    assert!(r.get_clip_segments(120).is_empty());
}

#[test]
fn finished_segments_join_in_the_order_of_time() {
    let mut r = ring();
    let files = vec![
        file("seg000002.ts", Some(3 * S)),
        file("seg000000.ts", Some(S)),
        file("seg000003.ts", Some(3 * S)),
        file("seg000001.ts", Some(2 * S)),
    ];
    assert!(r.update(30, &files, 10 * S).is_empty());
    assert_eq!(
        r.get_clip_segments(30),
        vec![
            "C:\\seg\\seg000000.ts",
            "C:\\seg\\seg000001.ts",
            "C:\\seg\\seg000002.ts",
            "C:\\seg\\seg000003.ts",
        ]
    );
}

#[test]
fn what_is_no_finished_segment_stays_out() {
    let mut r = ring();
    let files = vec![
        file("seg000000.ts", Some(8 * S)),
        file("seg000001.ts", Some(8 * S - 1)),
        file("seg000002.ts", None),
        file("notes.txt", Some(S)),
        file(".ts", Some(S)),
        file("ts", Some(S)),
        file("a.TS", Some(S)),
        file("a.ts.tmp", Some(S)),
        file("..ts", Some(S)),
    ];
    r.update(30, &files, 10 * S);
    assert_eq!(r.get_clip_segments(30), vec!["C:\\seg\\..ts", "C:\\seg\\seg000001.ts"]);
}

#[test]
fn extensions_are_those_of_the_standard_library() {
    for name in ["a.ts", ".ts", "..ts", "ts", "a.b.ts", "a.ts.", "\u{e9}.ts", ".a.ts", "a.Ts"] {
        let mut r = ring();
        r.update(30, &vec![file(name, Some(0))], 10 * S);
        let expected = std::path::Path::new(name).extension().map(|e| e == "ts").unwrap_or(false);
        assert_eq!(r.get_clip_segments(1).len() == 1, expected, "{name}");
    }
}

#[test]
fn no_segment_joins_twice() {
    let mut r = ring();
    r.update(30, &vec![file("a.ts", Some(S))], 10 * S);
    r.update(30, &vec![file("b.ts", Some(0)), file("a.ts", Some(2 * S))], 11 * S);
    assert_eq!(r.get_clip_segments(30), vec!["C:\\seg\\a.ts", "C:\\seg\\b.ts"]);
}

#[test]
fn the_oldest_segments_leave() {
    let mut r = ring();
    let files: Vec<SegmentFile> =
        (0..20).map(|i| file(&format!("{i:02}.ts"), Some(i * S))).collect();
    let removed = r.update(10, &files, 100 * S);
    assert_eq!(
        removed,
        (0..6).map(|i| format!("C:\\seg\\{i:02}.ts")).collect::<Vec<String>>()
    );
    let left = r.get_clip_segments(120);
    assert_eq!(left.len(), 14);
    assert!(removed.iter().all(|p| !left.contains(p)));
    // The ring grows again with the length of a clip.
    let removed = r.update(20, &vec![file("20.ts", Some(20 * S))], 100 * S);
    assert!(removed.is_empty());
    assert_eq!(r.get_clip_segments(120).len(), 15);
}

#[test]
fn a_clip_is_made_of_the_newest_segments() {
    let mut r = ring();
    let files: Vec<SegmentFile> =
        (0..5).map(|i| file(&format!("{i}.ts"), Some(i * S))).collect();
    r.update(30, &files, 100 * S);
    assert_eq!(r.get_clip_segments(2), vec!["C:\\seg\\3.ts", "C:\\seg\\4.ts"]);
    assert_eq!(r.get_clip_segments(5).len(), 5);
    assert_eq!(r.get_clip_segments(99).len(), 5);
    assert!(r.get_clip_segments(0).is_empty());
}

#[test]
fn a_cleared_ring_gives_up_all_it_held() {
    let mut r = ring();
    r.update(30, &vec![file("a.ts", Some(0)), file("b.ts", Some(1))], 10 * S);
    assert_eq!(r.clear(), vec!["C:\\seg\\a.ts", "C:\\seg\\b.ts"]);
    assert!(r.get_clip_segments(30).is_empty());
    assert!(r.clear().is_empty());
    r.update(30, &vec![file("a.ts", Some(0))], 10 * S);
    assert_eq!(r.get_clip_segments(30).len(), 1);
}
