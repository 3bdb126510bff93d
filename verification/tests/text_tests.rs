use auto_audio_recorder::smart_recorder::{AudioFormat, RecorderConfig};
use auto_audio_recorder::text::{
    clone_texts, parse_list, position_of, split_text, trim_end_matches, trim_white_space, white_space,
};

#[test]
fn a_text_is_cut_at_every_separator() {
    assert_eq!(split_text("a,b,c", ','), vec!["a", "b", "c"]);
    assert_eq!(split_text("abc", ','), vec!["abc"]);
    assert_eq!(split_text("", ','), vec![""]);
    assert_eq!(split_text(",", ','), vec!["", ""]);
    assert_eq!(split_text(",a,,b,", ','), vec!["", "a", "", "b", ""]);
    assert_eq!(split_text("a b;c", ';'), vec!["a b", "c"]);
    assert_eq!(split_text("é,ü", ','), vec!["é", "ü"]);
}

#[test]
fn a_list_of_names_is_trimmed_and_loses_its_empty_entries() {
    assert_eq!(
        parse_list("chrome.exe,firefox.exe,msedge.exe,explorer.exe"),
        vec!["chrome.exe", "firefox.exe", "msedge.exe", "explorer.exe"]
    );
    assert_eq!(parse_list(" chrome.exe , firefox.exe ,, \t,msedge.exe "), vec!["chrome.exe", "firefox.exe", "msedge.exe"]);
    assert_eq!(parse_list(""), Vec::<String>::new());
    assert_eq!(parse_list(" , ,"), Vec::<String>::new());
    assert_eq!(parse_list("my app.exe"), vec!["my app.exe"]);
}

#[test]
fn a_text_is_found_at_its_first_place() {
    let texts = vec!["a".to_string(), "b".to_string(), "a".to_string()];
    assert_eq!(position_of(&texts, &"a".to_string()), Some(0));
    assert_eq!(position_of(&texts, &"b".to_string()), Some(1));
    assert_eq!(position_of(&texts, &"c".to_string()), None);
    assert_eq!(position_of(&vec![], &"a".to_string()), None);
    assert_eq!(clone_texts(&texts), texts);
}

#[test]
fn a_format_goes_by_its_name() {
    assert_eq!(AudioFormat::from_name("mp3"), AudioFormat::Mp3);
    assert_eq!(AudioFormat::from_name("wav"), AudioFormat::Wav);
    assert_eq!(AudioFormat::from_name("MP3"), AudioFormat::Wav);
    assert_eq!(AudioFormat::from_name(""), AudioFormat::Wav);
}

#[test]
fn settings_are_read_from_what_a_user_entered() {
    let c = RecorderConfig::from_settings(
        "D:\\Recordings".to_string(),
        48000,
        128,
        2,
        1000,
        1500,
        "chrome.exe, firefox.exe,",
        true,
        "mp3",
        3,
    );
    assert_eq!(
        c,
        RecorderConfig {
            output_dir: "D:\\Recordings".to_string(),
            sample_rate: 48000,
            bit_rate: 128,
            quality: 2,
            mic_gain: 1000,
            speaker_gain: 1500,
            blacklist: vec!["chrome.exe".to_string(), "firefox.exe".to_string()],
            auto_create_folders: true,
            save_format: AudioFormat::Mp3,
            min_recording_duration: 3000,
        }
    );
    let c = RecorderConfig::from_settings(String::new(), 0, 0, 0, 0, 0, "", false, "flac", u64::MAX);
    assert_eq!(c.save_format, AudioFormat::Wav);
    assert_eq!(c.min_recording_duration, u64::MAX);
    assert_eq!(c.blacklist, Vec::<String>::new());
}

#[test]
fn every_copy_of_a_pattern_at_the_end_is_removed() {
    let cases = [
        ("Zoom.exe", ".exe", "Zoom"),
        ("Zoom.exe.exe", ".exe", "Zoom"),
        ("Zoom.exe.EXE", ".exe", "Zoom.exe.EXE"),
        ("aaa", "aa", "a"),
        ("aaaa", "aa", ""),
        ("abab", "ab", ""),
        ("xab", "ab", "x"),
        ("ab", "abc", "ab"),
        ("", "a", ""),
        ("abc", "", "abc"),
        ("béé", "é", "b"),
        ("日本語語", "語", "日本"),
    ];
    for (text, pattern, expected) in cases {
        assert_eq!(trim_end_matches(text, pattern), expected);
        assert_eq!(trim_end_matches(text, pattern), text.trim_end_matches(pattern));
    }
}

#[test]
fn white_space_is_what_the_standard_library_takes_for_it() {
    let mut count = 0;
    for code in 0..=0x10ffffu32 {
        if let Some(c) = char::from_u32(code) {
            assert_eq!(white_space(c), c.is_whitespace(), "U+{:04X}", code);
            if white_space(c) {
                count += 1;
            }
        }
    }
    assert_eq!(count, 25);
}

#[test]
fn white_space_is_removed_at_both_ends_only() {
    let cases = [
        ("  chrome.exe \t", "chrome.exe"),
        ("my app.exe", "my app.exe"),
        (" \n my  app.exe\r\n", "my  app.exe"),
        ("", ""),
        ("   ", ""),
        ("\u{a0}zoom\u{3000}", "zoom"),
        ("\u{2003}\u{85}a\u{200a}b\u{2028}\u{2029}", "a\u{200a}b"),
        ("\u{200b}x\u{200b}", "\u{200b}x\u{200b}"),
        ("x", "x"),
    ];
    for (text, expected) in cases {
        assert_eq!(trim_white_space(text), expected);
        assert_eq!(trim_white_space(text), text.trim());
    }
}
