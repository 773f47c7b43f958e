use mikumikutower::font::get_rects_for_str;
use mikumikutower::music_files::{
    classify_music_file, is_white_space, list_contains, parse_extension_list, parse_usize, same_text, trim,
    MusicFile,
};
use mikumikutower::Rect;

#[test]
fn glyphs_come_from_the_font_sheet() {
    let rects = get_rects_for_str("A! é");
    assert_eq!(
        rects,
        vec![Rect::new(10, 35, 8, 16), Rect::new(10, 1, 8, 16), Rect::new(1, 1, 8, 16), Rect::new(1, 1, 8, 16)]
    );
    assert_eq!(get_rects_for_str("~"), vec![Rect::new(127, 86, 8, 16)]);
    assert_eq!(get_rects_for_str(""), Vec::<Rect>::new());
}

#[test]
fn white_space_matches_std() {
    for c in ['\t', '\n', '\u{b}', '\u{c}', '\r', ' ', '\u{85}', '\u{a0}', '\u{1680}', '\u{2000}', '\u{200a}', '\u{2028}', '\u{2029}', '\u{202f}', '\u{205f}', '\u{3000}'] {
        assert!(is_white_space(c), "{:?}", c);
    }
    for c in ['a', '0', '\u{8}', '\u{e}', '\u{200b}', '\u{feff}', ',', 'é'] {
        assert!(!is_white_space(c), "{:?}", c);
    }
    for u in 0u32..0x3100 {
        if let Some(c) = char::from_u32(u) {
            assert_eq!(is_white_space(c), c.is_whitespace(), "{:?}", c);
        }
    }
}

#[test]
fn trim_matches_std() {
    for s in ["", "  ", " wav ", "\tmp3\n", "o g g", "\u{3000}flac\u{a0}", "x"] {
        assert_eq!(trim(s), s.trim());
    }
}

#[test]
fn extension_list_is_split_and_trimmed() {
    assert_eq!(parse_extension_list("wav, mp3 ,ogg\n"), vec!["wav", "mp3", "ogg"]);
    assert_eq!(parse_extension_list(""), vec![""]);
    assert_eq!(parse_extension_list("wav,,flac,"), vec!["wav", "", "flac", ""]);
    for csv in ["a,b", " , ", "wav, mp3 ,ogg\n", ",x,,y"] {
        let expected: Vec<String> = csv.split(",").map(|s| s.trim().to_string()).collect();
        assert_eq!(parse_extension_list(csv), expected);
    }
}

#[test]
fn text_comparison() {
    assert!(same_text("wav", "wav"));
    assert!(!same_text("wav", "wa"));
    assert!(!same_text("wav", "WAV"));
    let list = vec!["wav".to_string(), "ogg".to_string()];
    assert!(list_contains(&list, "ogg"));
    assert!(!list_contains(&list, "mp3"));
}

#[test]
fn parse_usize_matches_std() {
    assert_eq!(parse_usize("42"), Some(42));
    assert_eq!(parse_usize("+7"), Some(7));
    assert_eq!(parse_usize("007"), Some(7));
    assert_eq!(parse_usize(""), None);
    assert_eq!(parse_usize("+"), None);
    assert_eq!(parse_usize("-1"), None);
    assert_eq!(parse_usize("1a"), None);
    assert_eq!(parse_usize(" 1"), None);
    assert_eq!(parse_usize("18446744073709551615"), "18446744073709551615".parse::<usize>().ok());
    assert_eq!(parse_usize("99999999999999999999999"), None);
    for s in ["0", "12", "+0", "++1", "-0", "1_000", "٣", "4294967296", "18446744073709551616"] {
        assert_eq!(parse_usize(s), s.parse::<usize>().ok(), "{:?}", s);
    }
}

#[test]
fn music_files_are_numbered() {
    let allowed = parse_extension_list("wav, ogg");
    assert_eq!(classify_music_file("7.wav", Some("wav"), &allowed), MusicFile::Id(7));
    assert_eq!(classify_music_file("999.wav", Some("wav"), &allowed), MusicFile::Id(999));
    assert_eq!(classify_music_file("12.ogg", Some("ogg"), &allowed), MusicFile::Id(12));
    assert_eq!(classify_music_file("song.wav", Some("wav"), &allowed), MusicFile::NotNumeric);
    assert_eq!(classify_music_file("1.mp3", Some("mp3"), &allowed), MusicFile::Unsupported);
    assert_eq!(classify_music_file("README.txt", Some("txt"), &allowed), MusicFile::Skip);
    assert_eq!(classify_music_file("noext", None, &allowed), MusicFile::Skip);
    assert_eq!(classify_music_file("3.tar.wav", Some("wav"), &allowed), MusicFile::NotNumeric);
}
