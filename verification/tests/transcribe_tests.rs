use minlabel::kana::kana_to_romaji;
use minlabel::transcribe::{is_cjk, DictSources, Mode, Transcriber};

fn sources(
    mp: Option<&str>,
    mw: Option<&str>,
    mt: Option<&str>,
    cp: Option<&str>,
    cw: Option<&str>,
    ct: Option<&str>,
) -> DictSources {
    DictSources {
        mandarin_phrases: mp.map(|s| s.to_string()),
        mandarin_words: mw.map(|s| s.to_string()),
        mandarin_trans: mt.map(|s| s.to_string()),
        cantonese_phrases: cp.map(|s| s.to_string()),
        cantonese_words: cw.map(|s| s.to_string()),
        cantonese_trans: ct.map(|s| s.to_string()),
    }
}

#[test]
fn mode_names() {
    assert_eq!(Mode::Pinyin.to_string(), "pinyin");
    assert_eq!(Mode::Romaji.to_string(), "romaji");
    assert_eq!(Mode::Cantonese.to_string(), "cantonese");
}

#[test]
fn romaji_basic_syllables() {
    assert_eq!(kana_to_romaji("あいうえお"), "aiueo");
    assert_eq!(kana_to_romaji("カタカナ"), "katakana");
    assert_eq!(kana_to_romaji("ラーメン"), "ra-men");
}

#[test]
fn romaji_youon() {
    assert_eq!(kana_to_romaji("きゃく"), "kyaku");
    assert_eq!(kana_to_romaji("じゅう"), "juu");
    assert_eq!(kana_to_romaji("ぢょ"), "jo");
    // A small ya after a kana without a youon reading is dropped.
    assert_eq!(kana_to_romaji("かゃ"), "ka");
}

#[test]
fn romaji_small_tsu() {
    // Before another kana the small tsu is read "tsu".
    assert_eq!(kana_to_romaji("ちょっと"), "chotsuto");
    // Before a Latin consonant it doubles that consonant.
    assert_eq!(kana_to_romaji("っk"), "k");
    assert_eq!(kana_to_romaji("っ"), "tsu");
}

#[test]
fn romaji_whitespace_and_other_characters() {
    assert_eq!(kana_to_romaji("  あ \t い  "), "a i");
    assert_eq!(kana_to_romaji("abc"), "");
    assert_eq!(kana_to_romaji(""), "");
    assert_eq!(kana_to_romaji("あ、い"), "ai");
}

#[test]
fn romaji_is_single_spaced() {
    for text in ["  か  き  ", "\nあ\u{3000}い\n", " ", "ア イ  ウ"] {
        let r = kana_to_romaji(text);
        assert!(!r.starts_with(' ') && !r.ends_with(' '));
        assert!(!r.contains("  "));
    }
}

#[test]
fn pinyin_longest_phrase_then_single_characters() {
    let t = Transcriber::new(&sources(
        Some("中国:zhōng,guó\n中国人民:zhōng,guó,rén,mín\n"),
        Some("中:zhōng,zhòng\n国:guó\n人:rén\n"),
        Some("國:国\n"),
        None,
        None,
        None,
    ));
    assert_eq!(t.transcribe("中國人", &Mode::Pinyin), "zhong guo ren");
    assert_eq!(t.transcribe("中国人民", &Mode::Pinyin), "zhong guo ren min");
    assert_eq!(t.transcribe("中", &Mode::Pinyin), "zhong");
}

#[test]
fn non_cjk_characters_are_skipped() {
    let t = Transcriber::new(&sources(None, Some("好:hǎo\n"), None, None, None, None));
    assert_eq!(t.transcribe("a好 b!", &Mode::Pinyin), "hao");
    assert_eq!(t.transcribe("hello", &Mode::Cantonese), "");
}

#[test]
fn characters_without_reading_give_nothing() {
    let t = Transcriber::new(&sources(None, None, None, None, None, None));
    assert_eq!(t.transcribe("你好", &Mode::Pinyin), "");
}

#[test]
fn cantonese_entries_replace_mandarin_entries() {
    let t = Transcriber::new(&sources(
        None,
        Some("好:hǎo\n"),
        None,
        None,
        Some("好:hou2\n"),
        None,
    ));
    assert_eq!(t.transcribe("好", &Mode::Pinyin), "hou2");
    assert_eq!(t.transcribe("好", &Mode::Cantonese), "hou2");
}

#[test]
fn dictionary_lines_are_trimmed_and_tones_stripped() {
    let t = Transcriber::new(&sources(
        None,
        Some("绿: lǜ , lù \r\nno colon here\n女:NǙ"),
        Some("綠: 绿 \n"),
        None,
        None,
        None,
    ));
    assert_eq!(t.transcribe("綠女", &Mode::Pinyin), "lv NV");
}

#[test]
fn romaji_mode_uses_kana() {
    let t = Transcriber::new(&sources(None, None, None, None, None, None));
    assert_eq!(t.transcribe("すし", &Mode::Romaji), "sushi");
}

#[test]
fn cjk_ranges() {
    assert!(is_cjk('中'));
    assert!(is_cjk('\u{4E00}') && is_cjk('\u{9FFF}'));
    assert!(is_cjk('\u{3400}') && is_cjk('\u{4DBF}'));
    assert!(is_cjk('\u{F900}') && is_cjk('\u{FAFF}'));
    assert!(!is_cjk('あ'));
    assert!(!is_cjk('〇'));
    assert!(!is_cjk('\u{20000}'));
    assert!(!is_cjk('a'));
}

#[test]
fn romaji_alphabet() {
    for text in ["きゃっと ラーメン\tちょっと", "ぴゃ、ヴ!", "っ っk"] {
        let r = kana_to_romaji(text);
        assert!(r.chars().all(|c| c.is_ascii_lowercase() || c == '-' || c == ' '), "{:?}", r);
    }
}

#[test]
fn romaji_of_space_joined_texts() {
    for (a, b) in [("きゃ", "っ"), ("っ", "か"), ("ラー  ", " メン"), ("し", "ゃく")] {
        let ra = kana_to_romaji(a);
        let rb = kana_to_romaji(b);
        assert_eq!(kana_to_romaji(&format!("{} {}", a, b)), format!("{} {}", ra, rb));
    }
}

#[test]
fn later_dictionary_line_wins_and_others_stay() {
    let t = Transcriber::new(&sources(
        None,
        Some("好:hǎo\n我:wǒ\n好:hào\n"),
        None,
        None,
        None,
        None,
    ));
    assert_eq!(t.transcribe("好我", &Mode::Pinyin), "hao wo");
    let t = Transcriber::new(&sources(None, Some("好:hǎo\n"), None, None, Some("我:ngo5\n"), None));
    assert_eq!(t.transcribe("好我", &Mode::Pinyin), "hao ngo5");
}

#[test]
fn replacement_is_not_converted_again() {
    let t = Transcriber::new(&sources(
        None,
        Some("后:hòu\n後:hòu\n"),
        Some("後:后\n后:後\n"),
        None,
        None,
        None,
    ));
    // Each character is replaced once: 後 becomes 后 and 后 becomes 後.
    assert_eq!(t.transcribe("後后", &Mode::Pinyin), "hou hou");
}

#[test]
fn chinese_scan_and_simplification_directly() {
    let t = Transcriber::new(&sources(
        Some("中国:zhōng,guó\n"),
        Some("中:zhōng\n人:rén\n"),
        Some("國:国\n"),
        None,
        None,
        None,
    ));
    assert_eq!(t.to_simplified("中國x").into_iter().collect::<String>(), "中国x");
    assert_eq!(t.transcribe_cn("中國人!", false), "zhong guo ren");
    assert_eq!(t.transcribe_cn("中國人!", true), "zhong guo ren");
    assert_eq!(t.transcribe_cn("abc", false), "");
}
