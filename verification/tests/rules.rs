//! The rules of the ingestion one by one: the window, the filter, the names
//! of cached files, the order of a page.

use showcase_studio::cutoff::{cutoff_timestamp, in_window};
use showcase_studio::download::{file_extension, local_file_name, relative_path};
use showcase_studio::filter::{is_image_name, is_image_type, is_qualifying_image};
use showcase_studio::message::{AttachmentMetadata, Message};
use showcase_studio::page::{attachment_qualifies, plan_downloads, plan_page, sort_page};
use showcase_studio::text::{
    chars_of, contains, decimal_string, ends_with, find_char, lowered_chars, matches_at,
    parse_u64, rfind_char, same_chars, split_chars, starts_with, string_of, to_lower,
};

#[test]
fn the_cutoff_is_the_first_of_the_month_before() {
    // 2024-02-01T00:00:00Z
    assert_eq!(cutoff_timestamp(2024, 3), Some(1706745600));
    // 2024-11-01T00:00:00Z
    assert_eq!(cutoff_timestamp(2024, 12), Some(1730419200));
    // 1970-01-01T00:00:00Z
    assert_eq!(cutoff_timestamp(1970, 2), Some(0));
    // 1969-12-01T00:00:00Z
    assert_eq!(cutoff_timestamp(1970, 1), Some(-31 * 86400));
}

#[test]
fn in_january_the_cutoff_is_december_of_the_year_before() {
    // 2023-12-01T00:00:00Z
    assert_eq!(cutoff_timestamp(2024, 1), Some(1701388800));
    // 1999-12-01T00:00:00Z
    assert_eq!(cutoff_timestamp(2000, 1), Some(944006400));
    assert_eq!(
        cutoff_timestamp(2024, 1),
        chrono::NaiveDate::from_ymd_opt(2023, 12, 1)
            .map(|d| d.and_hms_opt(0, 0, 0).unwrap().and_utc().timestamp())
    );
}

#[test]
fn the_cutoff_agrees_with_the_calendar() {
    for year in [-262143, -400, -1, 0, 1, 1900, 1969, 1970, 1972, 2000, 2023, 2024, 2100, 262142] {
        for month in 1..=12u32 {
            let (y, m) = if month == 1 { (year - 1, 12) } else { (year, month - 1) };
            let expected = chrono::NaiveDate::from_ymd_opt(y, m, 1)
                .map(|d| d.and_hms_opt(0, 0, 0).unwrap().and_utc().timestamp());
            assert_eq!(cutoff_timestamp(year, month), expected, "{}-{}", year, month);
        }
    }
}

#[test]
fn there_is_no_cutoff_outside_the_calendar() {
    assert_eq!(cutoff_timestamp(2024, 0), None);
    assert_eq!(cutoff_timestamp(2024, 13), None);
    assert_eq!(cutoff_timestamp(i32::MIN, 1), None);
    assert_eq!(cutoff_timestamp(-262143, 1), None);
    assert!(cutoff_timestamp(-262143, 2).is_some());
    assert!(cutoff_timestamp(262142, 12).is_some());
    assert!(cutoff_timestamp(262143, 1).is_some());
    assert_eq!(cutoff_timestamp(262143, 2), None);
    assert_eq!(cutoff_timestamp(i32::MAX, 6), None);
}

#[test]
fn the_window_starts_at_the_cutoff() {
    assert!(in_window(1706745600, 1706745600));
    assert!(in_window(1706745601, 1706745600));
    assert!(!in_window(1706745599, 1706745600));
    assert!(in_window(0, -1));
    assert!(!in_window(i64::MIN, i64::MAX));
    assert!(in_window(i64::MAX, i64::MIN));
}

#[test]
fn the_current_cutoff_lies_behind_us() {
    let now = chrono::Utc::now().timestamp();
    let cutoff = showcase_studio::cutoff::current_cutoff().unwrap();
    assert!(cutoff < now);
    assert!(now - cutoff <= 62 * 86400 + 86400);
    assert!(now - cutoff >= 28 * 86400);
    assert_eq!(cutoff % 86400, 0);
}

#[test]
fn still_images_qualify() {
    assert!(is_qualifying_image("photo.PNG", None));
    assert!(is_qualifying_image("a.jpg", Some("image/jpeg")));
    assert!(!is_qualifying_image("anim.gif", Some("image/gif")));
    assert!(!is_qualifying_image("doc.pdf", Some("application/pdf")));
}

#[test]
fn a_still_image_name_qualifies_whatever_the_type_says() {
    // The name alone decides where the declared type does not qualify.
    assert!(is_qualifying_image("clip.webp", Some("image/gif")));
    assert!(is_qualifying_image("scan.jpeg", Some("application/octet-stream")));
    // And the type alone where the name does not.
    assert!(is_qualifying_image("blob", Some("image/png")));
    assert!(is_qualifying_image("anim.gif", Some("image/png")));
}

#[test]
fn the_filter_by_type() {
    assert!(is_image_type("image/png"));
    assert!(is_image_type("image/"));
    assert!(is_image_type("image/gif; charset=binary"));
    assert!(is_image_type("image/gifx"));
    assert!(!is_image_type("image/gif"));
    assert!(!is_image_type("IMAGE/png"));
    assert!(!is_image_type("image"));
    assert!(!is_image_type(""));
    assert!(!is_image_type("text/image/png"));
}

#[test]
fn the_filter_by_name() {
    for name in ["a.png", "a.PNG", "a.Jpg", "a.JPEG", "a.webp", ".png", "x.gif.png", "é.WebP"] {
        assert!(is_image_name(name), "{}", name);
    }
    for name in ["a.gif", "a.GIF", "a.png.gif", "png", "a.png ", "a.pn", "", "a.bmp", "a.jpegx"] {
        assert!(!is_image_name(name), "{}", name);
    }
    // Characters outside ASCII are left as they are.
    assert!(!is_image_name("a.\u{212a}png"));
    assert_eq!(is_image_name("a.g\u{130}f"), "a.g\u{130}f".to_lowercase().ends_with(".png"));
}

#[test]
fn the_filter_agrees_with_lowercase_suffixes() {
    let names = [
        "A.PnG", "b.JPG", "c.gIf", "d.WEBP.GIF", "e.gif.WEBP", "f", "g.", ".jpeg", "İ.png",
        "x.pnG\u{130}", "K.webp", "straße.JPEG", "ΣΑΣ.png", "a.p\u{212a}g",
    ];
    for name in names {
        let lower = name.to_lowercase();
        let expected = !lower.ends_with(".gif")
            && (lower.ends_with(".png")
                || lower.ends_with(".jpg")
                || lower.ends_with(".jpeg")
                || lower.ends_with(".webp"));
        assert_eq!(is_image_name(name), expected, "{}", name);
    }
}

#[test]
fn the_extension_of_a_file_name() {
    assert_eq!(file_extension("photo.png"), Some("png".to_string()));
    assert_eq!(file_extension("archive.tar.gz"), Some("gz".to_string()));
    assert_eq!(file_extension("photo.PNG"), Some("PNG".to_string()));
    assert_eq!(file_extension("photo"), None);
    assert_eq!(file_extension(".hidden"), None);
    assert_eq!(file_extension(".hidden.txt"), Some("txt".to_string()));
    assert_eq!(file_extension("trailing."), Some("".to_string()));
    assert_eq!(file_extension(""), None);
    assert_eq!(file_extension("."), None);
    assert_eq!(file_extension(".."), None);
    assert_eq!(file_extension("..a"), Some("a".to_string()));
    assert_eq!(file_extension("dir.d/file"), None);
    assert_eq!(file_extension("dir/file.jpg"), Some("jpg".to_string()));
    assert_eq!(file_extension("dir/file.jpg/"), Some("jpg".to_string()));
    assert_eq!(file_extension("dir/file.jpg/."), Some("jpg".to_string()));
    assert_eq!(file_extension("dir/file.jpg/.."), None);
    assert_eq!(file_extension("/"), None);
    assert_eq!(file_extension("a.b/"), Some("b".to_string()));
}

#[test]
fn the_name_of_a_cached_file() {
    assert_eq!(local_file_name(12, 34, "photo.jpeg"), "12_34.jpeg");
    assert_eq!(local_file_name(12, 34, "photo"), "12_34.png");
    assert_eq!(local_file_name(0, 0, ".profile"), "0_0.png");
    assert_eq!(local_file_name(u64::MAX, 1, "a.b.WebP"), "18446744073709551615_1.WebP");
    assert_eq!(local_file_name(7, 8, "odd."), "7_8.");
    // The same attachment always gets the same file.
    assert_eq!(local_file_name(12, 34, "photo.jpeg"), local_file_name(12, 34, "photo.jpeg"));
    assert_ne!(local_file_name(12, 34, "photo.jpeg"), local_file_name(12, 35, "photo.jpeg"));
    assert_ne!(local_file_name(1, 23, "p.png"), local_file_name(12, 3, "p.png"));
}

#[test]
fn the_recorded_path() {
    assert_eq!(relative_path("12_34.png"), "cached/12_34.png");
    assert_eq!(relative_path(""), "cached/");
}

fn attachment(id: u64, filename: &str, content_type: Option<&str>) -> AttachmentMetadata {
    AttachmentMetadata {
        id,
        filename: filename.to_string(),
        content_type: content_type.map(|t| t.to_string()),
        width: None,
        height: None,
        url: format!("https://cdn.example/{}", id),
    }
}

fn message(id: u64, timestamp: i64, attachments: Vec<AttachmentMetadata>) -> Message {
    Message {
        id,
        channel_id: 1,
        author_id: 2,
        author_name: "bo".to_string(),
        author_avatar: None,
        content: String::new(),
        attachments,
        timestamp,
    }
}

#[test]
fn downloads_follow_the_attachments() {
    let m = message(
        44,
        0,
        vec![
            attachment(1, "one.png", None),
            attachment(2, "two.gif", Some("image/gif")),
            attachment(3, "three", Some("image/webp")),
            attachment(4, "four.txt", None),
            attachment(5, "five.JPG", Some("application/octet-stream")),
        ],
    );
    assert!(attachment_qualifies(&m.attachments[0]));
    assert!(!attachment_qualifies(&m.attachments[1]));
    let downloads = plan_downloads(&m);
    let names: Vec<&str> = downloads.iter().map(|d| d.file_name.as_str()).collect();
    assert_eq!(names, vec!["44_1.png", "44_3.png", "44_5.JPG"]);
    let paths: Vec<&str> = downloads.iter().map(|d| d.relative_path.as_str()).collect();
    assert_eq!(paths, vec!["cached/44_1.png", "cached/44_3.png", "cached/44_5.JPG"]);
    assert_eq!(downloads[1].url, "https://cdn.example/3");
    assert_eq!(downloads[1].filename, "three");
}

#[test]
fn a_page_is_sorted_by_time_and_then_by_identifier() {
    let page = vec![
        message(5, 30, vec![]),
        message(4, 10, vec![]),
        message(3, 20, vec![]),
        message(2, 10, vec![]),
        message(1, 30, vec![]),
    ];
    let ids: Vec<u64> = sort_page(page).iter().map(|m| m.id).collect();
    assert_eq!(ids, vec![2, 4, 3, 1, 5]);
    // Messages that time and identifier do not tell apart keep their order.
    let mut twins = vec![message(7, 5, vec![]), message(7, 5, vec![]), message(6, 5, vec![])];
    twins[0].content = "first".to_string();
    twins[1].content = "second".to_string();
    let sorted = sort_page(twins);
    let told: Vec<(u64, &str)> = sorted.iter().map(|m| (m.id, m.content.as_str())).collect();
    assert_eq!(told, vec![(6, ""), (7, "first"), (7, "second")]);
    assert!(sort_page(Vec::new()).is_empty());
}

#[test]
fn sorting_agrees_with_a_sort_by_time_and_identifier() {
    let mut seed: u64 = 17;
    for round in 0..50 {
        let mut page = Vec::new();
        for _ in 0..(round % 13) {
            seed = seed.wrapping_mul(6364136223846793005).wrapping_add(1442695040888963407);
            page.push(message((seed >> 20) % 7, ((seed >> 33) % 5) as i64 - 2, vec![]));
        }
        let mut expected: Vec<(i64, u64)> = page.iter().map(|m| (m.timestamp, m.id)).collect();
        expected.sort();
        let sorted: Vec<(i64, u64)> =
            sort_page(page).iter().map(|m| (m.timestamp, m.id)).collect();
        assert_eq!(sorted, expected);
    }
}

#[test]
fn the_work_of_a_page() {
    let page = vec![
        message(1, 5, vec![attachment(1, "old.png", None)]),
        message(2, 10, vec![attachment(2, "edge.png", None)]),
        message(3, 11, vec![attachment(3, "notes.txt", None)]),
        message(4, 12, vec![attachment(4, "a.png", None), attachment(5, "b.jpg", None)]),
    ];
    let (plan, older) = plan_page(page, 10);
    assert!(older);
    let ids: Vec<u64> = plan.iter().map(|p| p.message.id).collect();
    assert_eq!(ids, vec![2, 4]);
    assert_eq!(plan[1].downloads.len(), 2);

    let (plan, older) = plan_page(vec![message(9, 10, vec![])], 10);
    assert!(plan.is_empty());
    assert!(!older);
}

#[test]
fn numbers_are_read_as_the_standard_library_reads_them() {
    let texts = [
        "0", "7", "007", "+7", "+", "", "-7", "-0", "++7", "7+", " 7", "7 ", "1_000", "0x10",
        "18446744073709551615", "18446744073709551616", "+18446744073709551615",
        "000000000000000000000018446744073709551615", "99999999999999999999", "１２", "1e3",
        "12a", "a12", "٣",
    ];
    for text in texts {
        assert_eq!(parse_u64(text), text.parse::<u64>().ok(), "{:?}", text);
    }
    assert_eq!(parse_u64("900"), Some(900));
    assert_eq!(parse_u64("general"), None);
}

#[test]
fn numbers_are_written_in_decimal() {
    for n in [0u64, 1, 9, 10, 11, 99, 100, 101, 12345, 1 << 32, u64::MAX - 1, u64::MAX] {
        assert_eq!(decimal_string(n), n.to_string());
    }
}

#[test]
fn text_is_split_at_every_separator() {
    let cases = ["", "a", "-", "a-b", "a--b", "-a-", "--", "0.1.3-beta", "é-ü-"];
    for case in cases {
        let pieces: Vec<String> =
            split_chars(&chars_of(case), '-').iter().map(|p| string_of(p)).collect();
        let expected: Vec<String> = case.split('-').map(|p| p.to_string()).collect();
        assert_eq!(pieces, expected, "{:?}", case);
    }
}

#[test]
fn text_helpers() {
    let hay = chars_of("Hello, World");
    assert!(starts_with(&hay, &chars_of("Hello")));
    assert!(starts_with(&hay, &chars_of("")));
    assert!(!starts_with(&hay, &chars_of("hello")));
    assert!(!starts_with(&chars_of("He"), &chars_of("Hello")));
    assert!(ends_with(&hay, &chars_of("World")));
    assert!(ends_with(&hay, &chars_of("")));
    assert!(!ends_with(&hay, &chars_of("world")));
    assert!(contains(&hay, &chars_of("lo, W")));
    assert!(contains(&hay, &chars_of("")));
    assert!(contains(&hay, &chars_of("d")));
    assert!(!contains(&hay, &chars_of("lo,W")));
    assert!(contains(&chars_of(""), &chars_of("")));
    assert!(!contains(&chars_of(""), &chars_of("a")));
    assert!(matches_at(&hay, &chars_of("World"), 7));
    assert!(!matches_at(&hay, &chars_of("World"), 8));
    assert!(!matches_at(&hay, &chars_of("World"), 100));
    assert!(same_chars(&chars_of("abc"), &chars_of("abc")));
    assert!(!same_chars(&chars_of("abc"), &chars_of("abd")));
    assert!(!same_chars(&chars_of("abc"), &chars_of("ab")));
    assert_eq!(find_char(&hay, 0, 'o'), Some(4));
    assert_eq!(find_char(&hay, 5, 'o'), Some(8));
    assert_eq!(find_char(&hay, 9, 'o'), None);
    assert_eq!(rfind_char(&hay, hay.len(), 'o'), Some(8));
    assert_eq!(rfind_char(&hay, 8, 'o'), Some(4));
    assert_eq!(rfind_char(&hay, 4, 'o'), None);
    assert_eq!(string_of(&lowered_chars(&hay)), "hello, world");
    assert_eq!(string_of(&lowered_chars(&chars_of("ÀZ[@`{"))), "Àz[@`{");
    assert_eq!(to_lower('Q'), 'q');
    assert_eq!(to_lower('q'), 'q');
    assert_eq!(to_lower('É'), 'É');
    for c in ['A', 'Z', 'a', 'z', '0', '@', '[', 'İ', '\u{212a}'] {
        assert_eq!(to_lower(c), c.to_ascii_lowercase());
    }
}

#[test]
fn the_month_before_is_what_the_calendar_takes_for_it() {
    for year in [1, 1969, 1970, 2000, 2023, 2024, 2025] {
        for month in 1..=12u32 {
            let first = chrono::NaiveDate::from_ymd_opt(year, month, 1).unwrap();
            let before = first.checked_sub_months(chrono::Months::new(1)).unwrap();
            let expected = before.and_hms_opt(0, 0, 0).unwrap().and_utc().timestamp();
            assert_eq!(cutoff_timestamp(year, month), Some(expected), "{}-{}", year, month);
        }
    }
}

#[test]
fn the_extension_is_that_of_the_path() {
    let names = [
        "", ".", "..", "...", "a", "a.", ".a", "a.b", "a.b.c", "..a", "a..b", "a/b", "a.b/c",
        "a/b.c", "a/b.c/", "a/b.c//", "a/b.c/.", "a/b.c/./", "a/b.c/..", "/", "//", "/.", "./",
        "./a.b", "/a.b", "a.b/.c", "a.b/c.", "a.b/..c", "x/.hidden.tar", "é.ü", "a.b c", " .x",
        "a\\b.c", "a.b\\c", "C:x.png", "a.b/../c.d", "a/./b.e", "a/b.e/./.",
    ];
    for name in names {
        let expected = std::path::Path::new(name)
            .extension()
            .and_then(|e| e.to_str())
            .map(|e| e.to_string());
        assert_eq!(file_extension(name), expected, "{:?}", name);
    }
}

#[test]
fn which_statuses_say_that_a_fetch_went_well() {
    let ok = showcase_studio::download::is_success_status;
    for code in [200u16, 201, 204, 206, 299] {
        assert!(ok(code), "{}", code);
    }
    for code in [0u16, 100, 199, 300, 301, 304, 400, 404, 429, 500, 503, u16::MAX] {
        assert!(!ok(code), "{}", code);
    }
}

#[test]
fn the_clock_gives_a_cutoff() {
    let cutoff = showcase_studio::cutoff::current_cutoff();
    let now = std::time::UNIX_EPOCH.elapsed().unwrap().as_secs();
    assert_eq!(cutoff, showcase_studio::cutoff::cutoff_at(now));
    assert!(cutoff.is_some());
}

#[test]
fn the_cutoff_of_an_instant() {
    let at = showcase_studio::cutoff::cutoff_at;
    // The epoch lies in January 1970; the month before begins 31 days earlier.
    assert_eq!(at(0), Some(-31 * 86400));
    assert_eq!(at(31 * 86400 - 1), Some(-31 * 86400));
    assert_eq!(at(31 * 86400), Some(0));
    // 2024-03-15T12:00:00Z lies in March; February began at 1706745600.
    assert_eq!(at(1710504000), Some(1706745600));
    // 2024-01-01T00:00:00Z and the second before it.
    assert_eq!(at(1704067200), Some(1701388800));
    assert_eq!(at(1704067199), Some(1698796800));
    for seconds in [0u64, 1, 86399, 951782400, 1709251199, 1709251200, 4102444800, 1 << 40] {
        let when = chrono::DateTime::from_timestamp(seconds as i64, 0).unwrap();
        let first = chrono::NaiveDate::from_ymd_opt(
            chrono::Datelike::year(&when),
            chrono::Datelike::month(&when),
            1,
        )
        .unwrap();
        let before = first.checked_sub_months(chrono::Months::new(1)).unwrap();
        assert_eq!(
            at(seconds),
            Some(before.and_hms_opt(0, 0, 0).unwrap().and_utc().timestamp()),
            "{}",
            seconds
        );
    }
    // The last instant of the last supported year has a cutoff, the next
    // one has none.
    let last = chrono::NaiveDate::from_ymd_opt(262142, 12, 31)
        .unwrap()
        .and_hms_opt(23, 59, 59)
        .unwrap()
        .and_utc()
        .timestamp() as u64;
    let november = chrono::NaiveDate::from_ymd_opt(262142, 11, 1)
        .unwrap()
        .and_hms_opt(0, 0, 0)
        .unwrap()
        .and_utc()
        .timestamp();
    assert_eq!(at(last), Some(november));
    assert_eq!(at(last + 1), None);
    assert_eq!(at(i64::MAX as u64), None);
    assert_eq!(at(i64::MAX as u64 + 1), None);
    assert_eq!(at(u64::MAX), None);
}

#[test]
fn which_numbers_are_identifiers() {
    use_identifiers();
}

fn use_identifiers() {
    let is = showcase_studio::message::is_identifier;
    let parse = showcase_studio::message::parse_identifier;
    let refusal = showcase_studio::message::fetch_refusal;
    assert!(is(1));
    assert!(is(u64::MAX));
    assert!(!is(0));
    assert_eq!(parse("900"), Some(900));
    assert_eq!(parse("+1"), Some(1));
    assert_eq!(parse("0"), None);
    assert_eq!(parse("00"), None);
    assert_eq!(parse(""), None);
    assert_eq!(parse("x"), None);
    assert_eq!(refusal(900, None), None);
    assert_eq!(refusal(900, Some(5)), None);
    assert_eq!(refusal(0, Some(5)), Some("Invalid channel ID: 0".to_string()));
    assert_eq!(refusal(0, Some(0)), Some("Invalid channel ID: 0".to_string()));
    assert_eq!(refusal(900, Some(0)), Some("Invalid message ID: 0".to_string()));
}
