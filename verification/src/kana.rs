use vstd::prelude::*;

use crate::text::{
    all_chars, chars_of, is_whitespace, is_ws, join, join_chars, lemma_all_chars_concat,
    lemma_join_concat, lemma_join_single_spaced, lemma_join_words_chars, lemma_words_clean,
    lemma_words_space_concat, non_empty, split_on_ws,
    push_str, single_spaced, string_of, words, words_of,
};

verus! {

/// Romaji of a kana followed by a small ya, yu or yo, read as one syllable.
pub open spec fn youon(c: char, small: char) -> Option<Seq<char>> {
    match (c, small) {
        ('き', 'ゃ') => Some("kya"@),
        ('き', 'ゅ') => Some("kyu"@),
        ('き', 'ょ') => Some("kyo"@),
        ('し', 'ゃ') => Some("sha"@),
        ('し', 'ゅ') => Some("shu"@),
        ('し', 'ょ') => Some("sho"@),
        ('ち', 'ゃ') => Some("cha"@),
        ('ち', 'ゅ') => Some("chu"@),
        ('ち', 'ょ') => Some("cho"@),
        ('に', 'ゃ') => Some("nya"@),
        ('に', 'ゅ') => Some("nyu"@),
        ('に', 'ょ') => Some("nyo"@),
        ('ひ', 'ゃ') => Some("hya"@),
        ('ひ', 'ゅ') => Some("hyu"@),
        ('ひ', 'ょ') => Some("hyo"@),
        ('み', 'ゃ') => Some("mya"@),
        ('み', 'ゅ') => Some("myu"@),
        ('み', 'ょ') => Some("myo"@),
        ('り', 'ゃ') => Some("rya"@),
        ('り', 'ゅ') => Some("ryu"@),
        ('り', 'ょ') => Some("ryo"@),
        ('ぎ', 'ゃ') => Some("gya"@),
        ('ぎ', 'ゅ') => Some("gyu"@),
        ('ぎ', 'ょ') => Some("gyo"@),
        ('じ', 'ゃ') => Some("ja"@),
        ('じ', 'ゅ') => Some("ju"@),
        ('じ', 'ょ') => Some("jo"@),
        ('ぢ', 'ゃ') => Some("ja"@),
        ('ぢ', 'ゅ') => Some("ju"@),
        ('ぢ', 'ょ') => Some("jo"@),
        ('び', 'ゃ') => Some("bya"@),
        ('び', 'ゅ') => Some("byu"@),
        ('び', 'ょ') => Some("byo"@),
        ('ぴ', 'ゃ') => Some("pya"@),
        ('ぴ', 'ゅ') => Some("pyu"@),
        ('ぴ', 'ょ') => Some("pyo"@),
        _ => None,
    }
}

/// Romaji of a kana followed by a small ya, yu or yo.
fn youon_of(c: char, small: char) -> (r: Option<&'static str>)
    ensures
        match r {
            Some(t) => youon(c, small) == Some(t@),
            None => youon(c, small) is None,
        },
{
    match (c, small) {
        ('き', 'ゃ') => Some("kya"),
        ('き', 'ゅ') => Some("kyu"),
        ('き', 'ょ') => Some("kyo"),
        ('し', 'ゃ') => Some("sha"),
        ('し', 'ゅ') => Some("shu"),
        ('し', 'ょ') => Some("sho"),
        ('ち', 'ゃ') => Some("cha"),
        ('ち', 'ゅ') => Some("chu"),
        ('ち', 'ょ') => Some("cho"),
        ('に', 'ゃ') => Some("nya"),
        ('に', 'ゅ') => Some("nyu"),
        ('に', 'ょ') => Some("nyo"),
        ('ひ', 'ゃ') => Some("hya"),
        ('ひ', 'ゅ') => Some("hyu"),
        ('ひ', 'ょ') => Some("hyo"),
        ('み', 'ゃ') => Some("mya"),
        ('み', 'ゅ') => Some("myu"),
        ('み', 'ょ') => Some("myo"),
        ('り', 'ゃ') => Some("rya"),
        ('り', 'ゅ') => Some("ryu"),
        ('り', 'ょ') => Some("ryo"),
        ('ぎ', 'ゃ') => Some("gya"),
        ('ぎ', 'ゅ') => Some("gyu"),
        ('ぎ', 'ょ') => Some("gyo"),
        ('じ', 'ゃ') => Some("ja"),
        ('じ', 'ゅ') => Some("ju"),
        ('じ', 'ょ') => Some("jo"),
        ('ぢ', 'ゃ') => Some("ja"),
        ('ぢ', 'ゅ') => Some("ju"),
        ('ぢ', 'ょ') => Some("jo"),
        ('び', 'ゃ') => Some("bya"),
        ('び', 'ゅ') => Some("byu"),
        ('び', 'ょ') => Some("byo"),
        ('ぴ', 'ゃ') => Some("pya"),
        ('ぴ', 'ゅ') => Some("pyu"),
        ('ぴ', 'ょ') => Some("pyo"),
        _ => None,
    }
}

/// The consonant that a small tsu doubles, when it stands before `next`.
pub open spec fn geminate(next: char) -> Option<Seq<char>> {
    match next {
        'k' => Some("k"@),
        's' => Some("s"@),
        't' => Some("t"@),
        'p' => Some("p"@),
        'c' => Some("c"@),
        'g' => Some("g"@),
        'd' => Some("d"@),
        'b' => Some("b"@),
        'j' => Some("j"@),
        'z' => Some("z"@),
        'r' => Some("r"@),
        'm' => Some("m"@),
        'n' => Some("n"@),
        'h' => Some("h"@),
        'f' => Some("f"@),
        'w' => Some("w"@),
        'y' => Some("y"@),
        'v' => Some("v"@),
        _ => None,
    }
}

fn geminate_of(next: char) -> (r: Option<&'static str>)
    ensures
        match r {
            Some(t) => geminate(next) == Some(t@),
            None => geminate(next) is None,
        },
{
    match next {
        'k' => Some("k"),
        's' => Some("s"),
        't' => Some("t"),
        'p' => Some("p"),
        'c' => Some("c"),
        'g' => Some("g"),
        'd' => Some("d"),
        'b' => Some("b"),
        'j' => Some("j"),
        'z' => Some("z"),
        'r' => Some("r"),
        'm' => Some("m"),
        'n' => Some("n"),
        'h' => Some("h"),
        'f' => Some("f"),
        'w' => Some("w"),
        'y' => Some("y"),
        'v' => Some("v"),
        _ => None,
    }
}

/// Romaji of a single hiragana or katakana character (and `-` for the long vowel mark).
pub open spec fn kana_single(c: char) -> Option<Seq<char>> {
    match c {
        'あ' => Some("a"@),
        'い' => Some("i"@),
        'う' => Some("u"@),
        'え' => Some("e"@),
        'お' => Some("o"@),
        'か' => Some("ka"@),
        'き' => Some("ki"@),
        'く' => Some("ku"@),
        'け' => Some("ke"@),
        'こ' => Some("ko"@),
        'さ' => Some("sa"@),
        'し' => Some("shi"@),
        'す' => Some("su"@),
        'せ' => Some("se"@),
        'そ' => Some("so"@),
        'た' => Some("ta"@),
        'ち' => Some("chi"@),
        'つ' => Some("tsu"@),
        'て' => Some("te"@),
        'と' => Some("to"@),
        'な' => Some("na"@),
        'に' => Some("ni"@),
        'ぬ' => Some("nu"@),
        'ね' => Some("ne"@),
        'の' => Some("no"@),
        'は' => Some("ha"@),
        'ひ' => Some("hi"@),
        'ふ' => Some("fu"@),
        'へ' => Some("he"@),
        'ほ' => Some("ho"@),
        'ま' => Some("ma"@),
        'み' => Some("mi"@),
        'む' => Some("mu"@),
        'め' => Some("me"@),
        'も' => Some("mo"@),
        'や' => Some("ya"@),
        'ゆ' => Some("yu"@),
        'よ' => Some("yo"@),
        'ら' => Some("ra"@),
        'り' => Some("ri"@),
        'る' => Some("ru"@),
        'れ' => Some("re"@),
        'ろ' => Some("ro"@),
        'わ' => Some("wa"@),
        'を' => Some("o"@),
        'ん' => Some("n"@),
        'が' => Some("ga"@),
        'ぎ' => Some("gi"@),
        'ぐ' => Some("gu"@),
        'げ' => Some("ge"@),
        'ご' => Some("go"@),
        'ざ' => Some("za"@),
        'じ' => Some("ji"@),
        'ず' => Some("zu"@),
        'ぜ' => Some("ze"@),
        'ぞ' => Some("zo"@),
        'だ' => Some("da"@),
        'ぢ' => Some("ji"@),
        'づ' => Some("zu"@),
        'で' => Some("de"@),
        'ど' => Some("do"@),
        'ば' => Some("ba"@),
        'び' => Some("bi"@),
        'ぶ' => Some("bu"@),
        'べ' => Some("be"@),
        'ぼ' => Some("bo"@),
        'ぱ' => Some("pa"@),
        'ぴ' => Some("pi"@),
        'ぷ' => Some("pu"@),
        'ぺ' => Some("pe"@),
        'ぽ' => Some("po"@),
        'ア' => Some("a"@),
        'イ' => Some("i"@),
        'ウ' => Some("u"@),
        'エ' => Some("e"@),
        'オ' => Some("o"@),
        'カ' => Some("ka"@),
        'キ' => Some("ki"@),
        'ク' => Some("ku"@),
        'ケ' => Some("ke"@),
        'コ' => Some("ko"@),
        'サ' => Some("sa"@),
        'シ' => Some("shi"@),
        'ス' => Some("su"@),
        'セ' => Some("se"@),
        'ソ' => Some("so"@),
        'タ' => Some("ta"@),
        'チ' => Some("chi"@),
        'ツ' => Some("tsu"@),
        'テ' => Some("te"@),
        'ト' => Some("to"@),
        'ナ' => Some("na"@),
        'ニ' => Some("ni"@),
        'ヌ' => Some("nu"@),
        'ネ' => Some("ne"@),
        'ノ' => Some("no"@),
        'ハ' => Some("ha"@),
        'ヒ' => Some("hi"@),
        'フ' => Some("fu"@),
        'ヘ' => Some("he"@),
        'ホ' => Some("ho"@),
        'マ' => Some("ma"@),
        'ミ' => Some("mi"@),
        'ム' => Some("mu"@),
        'メ' => Some("me"@),
        'モ' => Some("mo"@),
        'ヤ' => Some("ya"@),
        'ユ' => Some("yu"@),
        'ヨ' => Some("yo"@),
        'ラ' => Some("ra"@),
        'リ' => Some("ri"@),
        'ル' => Some("ru"@),
        'レ' => Some("re"@),
        'ロ' => Some("ro"@),
        'ワ' => Some("wa"@),
        'ヲ' => Some("o"@),
        'ン' => Some("n"@),
        'ガ' => Some("ga"@),
        'ギ' => Some("gi"@),
        'グ' => Some("gu"@),
        'ゲ' => Some("ge"@),
        'ゴ' => Some("go"@),
        'ザ' => Some("za"@),
        'ジ' => Some("ji"@),
        'ズ' => Some("zu"@),
        'ゼ' => Some("ze"@),
        'ゾ' => Some("zo"@),
        'ダ' => Some("da"@),
        'ヂ' => Some("ji"@),
        'ヅ' => Some("zu"@),
        'デ' => Some("de"@),
        'ド' => Some("do"@),
        'バ' => Some("ba"@),
        'ビ' => Some("bi"@),
        'ブ' => Some("bu"@),
        'ベ' => Some("be"@),
        'ボ' => Some("bo"@),
        'パ' => Some("pa"@),
        'ピ' => Some("pi"@),
        'プ' => Some("pu"@),
        'ペ' => Some("pe"@),
        'ポ' => Some("po"@),
        'ー' => Some("-"@),
        _ => None,
    }
}

fn kana_single_of(c: char) -> (r: Option<&'static str>)
    ensures
        match r {
            Some(t) => kana_single(c) == Some(t@),
            None => kana_single(c) is None,
        },
{
    match c {
        'あ' => Some("a"),
        'い' => Some("i"),
        'う' => Some("u"),
        'え' => Some("e"),
        'お' => Some("o"),
        'か' => Some("ka"),
        'き' => Some("ki"),
        'く' => Some("ku"),
        'け' => Some("ke"),
        'こ' => Some("ko"),
        'さ' => Some("sa"),
        'し' => Some("shi"),
        'す' => Some("su"),
        'せ' => Some("se"),
        'そ' => Some("so"),
        'た' => Some("ta"),
        'ち' => Some("chi"),
        'つ' => Some("tsu"),
        'て' => Some("te"),
        'と' => Some("to"),
        'な' => Some("na"),
        'に' => Some("ni"),
        'ぬ' => Some("nu"),
        'ね' => Some("ne"),
        'の' => Some("no"),
        'は' => Some("ha"),
        'ひ' => Some("hi"),
        'ふ' => Some("fu"),
        'へ' => Some("he"),
        'ほ' => Some("ho"),
        'ま' => Some("ma"),
        'み' => Some("mi"),
        'む' => Some("mu"),
        'め' => Some("me"),
        'も' => Some("mo"),
        'や' => Some("ya"),
        'ゆ' => Some("yu"),
        'よ' => Some("yo"),
        'ら' => Some("ra"),
        'り' => Some("ri"),
        'る' => Some("ru"),
        'れ' => Some("re"),
        'ろ' => Some("ro"),
        'わ' => Some("wa"),
        'を' => Some("o"),
        'ん' => Some("n"),
        'が' => Some("ga"),
        'ぎ' => Some("gi"),
        'ぐ' => Some("gu"),
        'げ' => Some("ge"),
        'ご' => Some("go"),
        'ざ' => Some("za"),
        'じ' => Some("ji"),
        'ず' => Some("zu"),
        'ぜ' => Some("ze"),
        'ぞ' => Some("zo"),
        'だ' => Some("da"),
        'ぢ' => Some("ji"),
        'づ' => Some("zu"),
        'で' => Some("de"),
        'ど' => Some("do"),
        'ば' => Some("ba"),
        'び' => Some("bi"),
        'ぶ' => Some("bu"),
        'べ' => Some("be"),
        'ぼ' => Some("bo"),
        'ぱ' => Some("pa"),
        'ぴ' => Some("pi"),
        'ぷ' => Some("pu"),
        'ぺ' => Some("pe"),
        'ぽ' => Some("po"),
        'ア' => Some("a"),
        'イ' => Some("i"),
        'ウ' => Some("u"),
        'エ' => Some("e"),
        'オ' => Some("o"),
        'カ' => Some("ka"),
        'キ' => Some("ki"),
        'ク' => Some("ku"),
        'ケ' => Some("ke"),
        'コ' => Some("ko"),
        'サ' => Some("sa"),
        'シ' => Some("shi"),
        'ス' => Some("su"),
        'セ' => Some("se"),
        'ソ' => Some("so"),
        'タ' => Some("ta"),
        'チ' => Some("chi"),
        'ツ' => Some("tsu"),
        'テ' => Some("te"),
        'ト' => Some("to"),
        'ナ' => Some("na"),
        'ニ' => Some("ni"),
        'ヌ' => Some("nu"),
        'ネ' => Some("ne"),
        'ノ' => Some("no"),
        'ハ' => Some("ha"),
        'ヒ' => Some("hi"),
        'フ' => Some("fu"),
        'ヘ' => Some("he"),
        'ホ' => Some("ho"),
        'マ' => Some("ma"),
        'ミ' => Some("mi"),
        'ム' => Some("mu"),
        'メ' => Some("me"),
        'モ' => Some("mo"),
        'ヤ' => Some("ya"),
        'ユ' => Some("yu"),
        'ヨ' => Some("yo"),
        'ラ' => Some("ra"),
        'リ' => Some("ri"),
        'ル' => Some("ru"),
        'レ' => Some("re"),
        'ロ' => Some("ro"),
        'ワ' => Some("wa"),
        'ヲ' => Some("o"),
        'ン' => Some("n"),
        'ガ' => Some("ga"),
        'ギ' => Some("gi"),
        'グ' => Some("gu"),
        'ゲ' => Some("ge"),
        'ゴ' => Some("go"),
        'ザ' => Some("za"),
        'ジ' => Some("ji"),
        'ズ' => Some("zu"),
        'ゼ' => Some("ze"),
        'ゾ' => Some("zo"),
        'ダ' => Some("da"),
        'ヂ' => Some("ji"),
        'ヅ' => Some("zu"),
        'デ' => Some("de"),
        'ド' => Some("do"),
        'バ' => Some("ba"),
        'ビ' => Some("bi"),
        'ブ' => Some("bu"),
        'ベ' => Some("be"),
        'ボ' => Some("bo"),
        'パ' => Some("pa"),
        'ピ' => Some("pi"),
        'プ' => Some("pu"),
        'ペ' => Some("pe"),
        'ポ' => Some("po"),
        'ー' => Some("-"),
        _ => None,
    }
}

/// What `c` is read as when it does not start a youon; `next` is the
/// character after it, if any. Characters that are neither kana nor
/// whitespace are read as nothing.
pub open spec fn kana_piece(c: char, next: Option<char>) -> Seq<char> {
    if c == 'っ' {
        match next {
            Some(n) => match geminate(n) {
                Some(r) => r,
                None => "tsu"@,
            },
            None => "tsu"@,
        }
    } else {
        match kana_single(c) {
            Some(r) => r,
            None => if is_ws(c) {
                " "@
            } else {
                Seq::<char>::empty()
            },
        }
    }
}

/// The romaji of `s`, piece by piece, before whitespace is normalised.
pub open spec fn romaji_raw(s: Seq<char>) -> Seq<char>
    decreases s.len(),
{
    if s.len() == 0 {
        Seq::<char>::empty()
    } else if s.len() >= 2 && youon(s[0], s[1]) is Some {
        youon(s[0], s[1])->0 + romaji_raw(s.skip(2))
    } else {
        kana_piece(s[0], if s.len() >= 2 { Some(s[1]) } else { None }) + romaji_raw(s.skip(1))
    }
}

/// The romaji of `s`: its words separated by single spaces.
pub open spec fn romaji(s: Seq<char>) -> Seq<char> {
    join(words(romaji_raw(s)), " "@)
}

/// Romaji output never starts or ends with whitespace and never holds two
/// whitespace characters in a row, whatever the input.
pub proof fn law_romaji_single_spaced(s: Seq<char>)
    ensures
        single_spaced(romaji(s)),
{
    lemma_words_clean(romaji_raw(s));
    lemma_join_single_spaced(words(romaji_raw(s)));
}

/// Characters that romaji is written with: lower-case ASCII letters, `-` and space.
pub open spec fn romaji_char(c: char) -> bool {
    ('a' <= c && c <= 'z') || c == '-' || c == ' '
}

proof fn lemma_youon_chars(c: char, small: char)
    ensures
        youon(c, small) matches Some(r) ==> all_chars(r, |x: char| romaji_char(x)),
{
    reveal_strlit("bya");
    reveal_strlit("byo");
    reveal_strlit("byu");
    reveal_strlit("cha");
    reveal_strlit("cho");
    reveal_strlit("chu");
    reveal_strlit("gya");
    reveal_strlit("gyo");
    reveal_strlit("gyu");
    reveal_strlit("hya");
    reveal_strlit("hyo");
    reveal_strlit("hyu");
    reveal_strlit("ja");
    reveal_strlit("jo");
    reveal_strlit("ju");
    reveal_strlit("kya");
    reveal_strlit("kyo");
    reveal_strlit("kyu");
    reveal_strlit("mya");
    reveal_strlit("myo");
    reveal_strlit("myu");
    reveal_strlit("nya");
    reveal_strlit("nyo");
    reveal_strlit("nyu");
    reveal_strlit("pya");
    reveal_strlit("pyo");
    reveal_strlit("pyu");
    reveal_strlit("rya");
    reveal_strlit("ryo");
    reveal_strlit("ryu");
    reveal_strlit("sha");
    reveal_strlit("sho");
    reveal_strlit("shu");
}

proof fn lemma_geminate_chars(next: char)
    ensures
        geminate(next) matches Some(r) ==> all_chars(r, |x: char| romaji_char(x)),
{
    reveal_strlit("b");
    reveal_strlit("c");
    reveal_strlit("d");
    reveal_strlit("f");
    reveal_strlit("g");
    reveal_strlit("h");
    reveal_strlit("j");
    reveal_strlit("k");
    reveal_strlit("m");
    reveal_strlit("n");
    reveal_strlit("p");
    reveal_strlit("r");
    reveal_strlit("s");
    reveal_strlit("t");
    reveal_strlit("v");
    reveal_strlit("w");
    reveal_strlit("y");
    reveal_strlit("z");
}

proof fn lemma_kana_single_chars(c: char)
    ensures
        kana_single(c) matches Some(r) ==> all_chars(r, |x: char| romaji_char(x)),
{
    reveal_strlit("-");
    reveal_strlit("a");
    reveal_strlit("ba");
    reveal_strlit("be");
    reveal_strlit("bi");
    reveal_strlit("bo");
    reveal_strlit("bu");
    reveal_strlit("chi");
    reveal_strlit("da");
    reveal_strlit("de");
    reveal_strlit("do");
    reveal_strlit("e");
    reveal_strlit("fu");
    reveal_strlit("ga");
    reveal_strlit("ge");
    reveal_strlit("gi");
    reveal_strlit("go");
    reveal_strlit("gu");
    reveal_strlit("ha");
    reveal_strlit("he");
    reveal_strlit("hi");
    reveal_strlit("ho");
    reveal_strlit("i");
    reveal_strlit("ji");
    reveal_strlit("ka");
    reveal_strlit("ke");
    reveal_strlit("ki");
    reveal_strlit("ko");
    reveal_strlit("ku");
    reveal_strlit("ma");
    reveal_strlit("me");
    reveal_strlit("mi");
    reveal_strlit("mo");
    reveal_strlit("mu");
    reveal_strlit("n");
    reveal_strlit("na");
    reveal_strlit("ne");
    reveal_strlit("ni");
    reveal_strlit("no");
    reveal_strlit("nu");
    reveal_strlit("o");
    reveal_strlit("pa");
    reveal_strlit("pe");
    reveal_strlit("pi");
    reveal_strlit("po");
    reveal_strlit("pu");
    reveal_strlit("ra");
    reveal_strlit("re");
    reveal_strlit("ri");
    reveal_strlit("ro");
    reveal_strlit("ru");
    reveal_strlit("sa");
    reveal_strlit("se");
    reveal_strlit("shi");
    reveal_strlit("so");
    reveal_strlit("su");
    reveal_strlit("ta");
    reveal_strlit("te");
    reveal_strlit("to");
    reveal_strlit("tsu");
    reveal_strlit("u");
    reveal_strlit("wa");
    reveal_strlit("ya");
    reveal_strlit("yo");
    reveal_strlit("yu");
    reveal_strlit("za");
    reveal_strlit("ze");
    reveal_strlit("zo");
    reveal_strlit("zu");
}

proof fn lemma_kana_piece_chars(c: char, next: Option<char>)
    ensures
        all_chars(kana_piece(c, next), |x: char| romaji_char(x)),
{
    reveal_strlit("tsu");
    reveal_strlit(" ");
    lemma_kana_single_chars(c);
    if let Some(n) = next {
        lemma_geminate_chars(n);
    }
}

proof fn lemma_romaji_raw_chars(s: Seq<char>)
    ensures
        all_chars(romaji_raw(s), |x: char| romaji_char(x)),
    decreases s.len(),
{
    if s.len() > 0 {
        if s.len() >= 2 && youon(s[0], s[1]) is Some {
            lemma_youon_chars(s[0], s[1]);
            lemma_romaji_raw_chars(s.skip(2));
            lemma_all_chars_concat(youon(s[0], s[1])->0, romaji_raw(s.skip(2)), |x: char| romaji_char(x));
        } else {
            let next = if s.len() >= 2 { Some(s[1]) } else { None };
            lemma_kana_piece_chars(s[0], next);
            lemma_romaji_raw_chars(s.skip(1));
            lemma_all_chars_concat(kana_piece(s[0], next), romaji_raw(s.skip(1)), |x: char| romaji_char(x));
        }
    }
}

/// Romaji output is written only with lower-case ASCII letters, `-` and spaces.
pub proof fn law_romaji_alphabet(s: Seq<char>)
    ensures
        all_chars(romaji(s), |x: char| romaji_char(x)),
{
    lemma_romaji_raw_chars(s);
    reveal_strlit(" ");
    lemma_join_words_chars(romaji_raw(s), " "@, |x: char| romaji_char(x));
}

proof fn lemma_kana_piece_before_space(c: char)
    ensures
        kana_piece(c, Some(' ')) == kana_piece(c, None),
{
}

proof fn lemma_romaji_raw_space_concat(a: Seq<char>, b: Seq<char>)
    ensures
        romaji_raw(a + seq![' '] + b) == romaji_raw(a) + " "@ + romaji_raw(b),
    decreases a.len(),
{
    reveal_strlit(" ");
    let s = a + seq![' '] + b;
    if a.len() == 0 {
        assert(s =~= seq![' '] + b);
        assert(s[0] == ' ');
        assert(s.skip(1) =~= b);
        assert(kana_piece(' ', if s.len() >= 2 { Some(s[1]) } else { None }) == " "@);
        assert(romaji_raw(a) =~= Seq::<char>::empty());
        assert(romaji_raw(s) =~= romaji_raw(a) + " "@ + romaji_raw(b));
    } else if a.len() == 1 {
        assert(s[0] == a[0]);
        assert(s[1] == ' ');
        assert(s.skip(1) =~= Seq::<char>::empty() + seq![' '] + b);
        lemma_romaji_raw_space_concat(Seq::<char>::empty(), b);
        lemma_kana_piece_before_space(a[0]);
        assert(a.skip(1) =~= Seq::<char>::empty());
        assert(romaji_raw(a) =~= kana_piece(a[0], None));
        assert(romaji_raw(s) =~= romaji_raw(a) + " "@ + romaji_raw(b));
    } else {
        assert(s[0] == a[0]);
        assert(s[1] == a[1]);
        if youon(a[0], a[1]) is Some {
            assert(s.skip(2) =~= a.skip(2) + seq![' '] + b);
            lemma_romaji_raw_space_concat(a.skip(2), b);
            let y = youon(a[0], a[1])->0;
            assert(romaji_raw(s) == y + romaji_raw(s.skip(2)));
            assert(romaji_raw(a) == y + romaji_raw(a.skip(2)));
            assert(y + (romaji_raw(a.skip(2)) + " "@ + romaji_raw(b)) =~= y + romaji_raw(a.skip(2))
                + " "@ + romaji_raw(b));
        } else {
            assert(s.skip(1) =~= a.skip(1) + seq![' '] + b);
            lemma_romaji_raw_space_concat(a.skip(1), b);
            let k = kana_piece(a[0], Some(a[1]));
            assert(romaji_raw(s) == k + romaji_raw(s.skip(1)));
            assert(romaji_raw(a) == k + romaji_raw(a.skip(1)));
            assert(k + (romaji_raw(a.skip(1)) + " "@ + romaji_raw(b)) =~= k + romaji_raw(a.skip(1))
                + " "@ + romaji_raw(b));
        }
    }
}

/// The romaji of two texts joined by a space is their romaji joined by a
/// space, when neither is empty.
pub proof fn law_romaji_space_concat(a: Seq<char>, b: Seq<char>)
    requires
        romaji(a).len() > 0,
        romaji(b).len() > 0,
    ensures
        romaji(a + " "@ + b) == romaji(a) + " "@ + romaji(b),
{
    reveal_strlit(" ");
    assert(a + " "@ + b =~= a + seq![' '] + b);
    lemma_romaji_raw_space_concat(a, b);
    let ra = romaji_raw(a);
    let rb = romaji_raw(b);
    assert(ra + " "@ + rb =~= ra + seq![' '] + rb);
    lemma_words_space_concat(ra, rb);
    assert(words(ra).len() > 0);
    assert(words(rb).len() > 0);
    lemma_join_concat(words(ra), words(rb), " "@);
}

/// The vowel of a column of the kana table (a, i, u, e, o).
pub open spec fn column_vowel(col: int) -> char {
    if col == 0 {
        'a'
    } else if col == 1 {
        'i'
    } else if col == 2 {
        'u'
    } else if col == 3 {
        'e'
    } else {
        'o'
    }
}

/// The Hepburn syllable for the row with consonant `consonant` and the
/// column `col`: the consonant followed by the column's vowel, with Hepburn's
/// exceptions shi, chi, tsu, fu, ji (for zi and di) and zu (for du).
pub open spec fn hepburn(consonant: Seq<char>, col: int) -> Seq<char> {
    if consonant == seq!['s'] && col == 1 {
        seq!['s', 'h', 'i']
    } else if consonant == seq!['t'] && col == 1 {
        seq!['c', 'h', 'i']
    } else if consonant == seq!['t'] && col == 2 {
        seq!['t', 's', 'u']
    } else if consonant == seq!['h'] && col == 2 {
        seq!['f', 'u']
    } else if (consonant == seq!['z'] || consonant == seq!['d']) && col == 1 {
        seq!['j', 'i']
    } else if consonant == seq!['d'] && col == 2 {
        seq!['z', 'u']
    } else {
        consonant.push(column_vowel(col))
    }
}

/// The full rows of the kana table: the hiragana row, the katakana row, and
/// the row's consonant.
pub open spec fn kana_rows() -> Seq<(Seq<char>, Seq<char>, Seq<char>)> {
    seq![
        (seq!['あ', 'い', 'う', 'え', 'お'], seq!['ア', 'イ', 'ウ', 'エ', 'オ'], Seq::<char>::empty()),
        (seq!['か', 'き', 'く', 'け', 'こ'], seq!['カ', 'キ', 'ク', 'ケ', 'コ'], seq!['k']),
        (seq!['さ', 'し', 'す', 'せ', 'そ'], seq!['サ', 'シ', 'ス', 'セ', 'ソ'], seq!['s']),
        (seq!['た', 'ち', 'つ', 'て', 'と'], seq!['タ', 'チ', 'ツ', 'テ', 'ト'], seq!['t']),
        (seq!['な', 'に', 'ぬ', 'ね', 'の'], seq!['ナ', 'ニ', 'ヌ', 'ネ', 'ノ'], seq!['n']),
        (seq!['は', 'ひ', 'ふ', 'へ', 'ほ'], seq!['ハ', 'ヒ', 'フ', 'ヘ', 'ホ'], seq!['h']),
        (seq!['ま', 'み', 'む', 'め', 'も'], seq!['マ', 'ミ', 'ム', 'メ', 'モ'], seq!['m']),
        (seq!['ら', 'り', 'る', 'れ', 'ろ'], seq!['ラ', 'リ', 'ル', 'レ', 'ロ'], seq!['r']),
        (seq!['が', 'ぎ', 'ぐ', 'げ', 'ご'], seq!['ガ', 'ギ', 'グ', 'ゲ', 'ゴ'], seq!['g']),
        (seq!['ざ', 'じ', 'ず', 'ぜ', 'ぞ'], seq!['ザ', 'ジ', 'ズ', 'ゼ', 'ゾ'], seq!['z']),
        (seq!['だ', 'ぢ', 'づ', 'で', 'ど'], seq!['ダ', 'ヂ', 'ヅ', 'デ', 'ド'], seq!['d']),
        (seq!['ば', 'び', 'ぶ', 'べ', 'ぼ'], seq!['バ', 'ビ', 'ブ', 'ベ', 'ボ'], seq!['b']),
        (seq!['ぱ', 'ぴ', 'ぷ', 'ぺ', 'ぽ'], seq!['パ', 'ピ', 'プ', 'ペ', 'ポ'], seq!['p'])
    ]
}

proof fn lemma_words_of_word(s: Seq<char>)
    requires
        forall|i: int| 0 <= i < s.len() ==> !is_ws(#[trigger] s[i]),
    ensures
        split_on_ws(s) == seq![s],
    decreases s.len(),
{
    if s.len() == 0 {
        assert(s =~= Seq::<char>::empty());
        assert(split_on_ws(s) =~= seq![s]);
    } else {
        let init = s.drop_last();
        assert forall|i: int| 0 <= i < init.len() implies !is_ws(#[trigger] init[i]) by {
            assert(init[i] == s[i]);
        }
        lemma_words_of_word(init);
        assert(!is_ws(s[s.len() - 1]));
        assert(init.push(s.last()) =~= s);
        assert(seq![init].update(0, init.push(s.last())) =~= seq![s]);
    }
}

/// A lone kana with a table reading `r` (not small tsu) is read as `r`.
proof fn lemma_romaji_single(c: char, r: Seq<char>)
    requires
        c != 'っ',
        kana_single(c) == Some(r),
        r.len() > 0,
        forall|i: int| 0 <= i < r.len() ==> !is_ws(#[trigger] r[i]),
    ensures
        romaji(seq![c]) == r,
{
    let s = seq![c];
    assert(s.skip(1) =~= Seq::<char>::empty());
    assert(romaji_raw(s) == kana_piece(c, None) + romaji_raw(Seq::<char>::empty()));
    assert(romaji_raw(s) =~= r);
    lemma_words_of_word(r);
    assert(seq![r].drop_last() =~= Seq::<Seq<char>>::empty());
    assert(non_empty(seq![r]) == non_empty(Seq::<Seq<char>>::empty()).push(r));
    assert(non_empty(Seq::<Seq<char>>::empty()).push(r) =~= seq![r]);
}

proof fn lemma_kana_row_0()
    ensures
        romaji(seq![kana_rows()[0].0[0]]) == hepburn(kana_rows()[0].2, 0),
        romaji(seq![kana_rows()[0].1[0]]) == hepburn(kana_rows()[0].2, 0),
        romaji(seq![kana_rows()[0].0[1]]) == hepburn(kana_rows()[0].2, 1),
        romaji(seq![kana_rows()[0].1[1]]) == hepburn(kana_rows()[0].2, 1),
        romaji(seq![kana_rows()[0].0[2]]) == hepburn(kana_rows()[0].2, 2),
        romaji(seq![kana_rows()[0].1[2]]) == hepburn(kana_rows()[0].2, 2),
        romaji(seq![kana_rows()[0].0[3]]) == hepburn(kana_rows()[0].2, 3),
        romaji(seq![kana_rows()[0].1[3]]) == hepburn(kana_rows()[0].2, 3),
        romaji(seq![kana_rows()[0].0[4]]) == hepburn(kana_rows()[0].2, 4),
        romaji(seq![kana_rows()[0].1[4]]) == hepburn(kana_rows()[0].2, 4),
{
    assert(kana_rows()[0] == (seq!['あ', 'い', 'う', 'え', 'お'], seq!['ア', 'イ', 'ウ', 'エ', 'オ'], Seq::<char>::empty()));
    reveal_strlit("a");
    reveal_strlit("e");
    reveal_strlit("i");
    reveal_strlit("o");
    reveal_strlit("u");
    lemma_romaji_single('あ', "a"@);
    lemma_romaji_single('ア', "a"@);
    assert(hepburn(Seq::<char>::empty(), 0) =~= seq!['a']);
    assert("a"@ =~= seq!['a']);
    lemma_romaji_single('い', "i"@);
    lemma_romaji_single('イ', "i"@);
    assert(hepburn(Seq::<char>::empty(), 1) =~= seq!['i']);
    assert("i"@ =~= seq!['i']);
    lemma_romaji_single('う', "u"@);
    lemma_romaji_single('ウ', "u"@);
    assert(hepburn(Seq::<char>::empty(), 2) =~= seq!['u']);
    assert("u"@ =~= seq!['u']);
    lemma_romaji_single('え', "e"@);
    lemma_romaji_single('エ', "e"@);
    assert(hepburn(Seq::<char>::empty(), 3) =~= seq!['e']);
    assert("e"@ =~= seq!['e']);
    lemma_romaji_single('お', "o"@);
    lemma_romaji_single('オ', "o"@);
    assert(hepburn(Seq::<char>::empty(), 4) =~= seq!['o']);
    assert("o"@ =~= seq!['o']);
}

proof fn lemma_kana_row_1()
    ensures
        romaji(seq![kana_rows()[1].0[0]]) == hepburn(kana_rows()[1].2, 0),
        romaji(seq![kana_rows()[1].1[0]]) == hepburn(kana_rows()[1].2, 0),
        romaji(seq![kana_rows()[1].0[1]]) == hepburn(kana_rows()[1].2, 1),
        romaji(seq![kana_rows()[1].1[1]]) == hepburn(kana_rows()[1].2, 1),
        romaji(seq![kana_rows()[1].0[2]]) == hepburn(kana_rows()[1].2, 2),
        romaji(seq![kana_rows()[1].1[2]]) == hepburn(kana_rows()[1].2, 2),
        romaji(seq![kana_rows()[1].0[3]]) == hepburn(kana_rows()[1].2, 3),
        romaji(seq![kana_rows()[1].1[3]]) == hepburn(kana_rows()[1].2, 3),
        romaji(seq![kana_rows()[1].0[4]]) == hepburn(kana_rows()[1].2, 4),
        romaji(seq![kana_rows()[1].1[4]]) == hepburn(kana_rows()[1].2, 4),
{
    assert(kana_rows()[1] == (seq!['か', 'き', 'く', 'け', 'こ'], seq!['カ', 'キ', 'ク', 'ケ', 'コ'], seq!['k']));
    reveal_strlit("ka");
    reveal_strlit("ke");
    reveal_strlit("ki");
    reveal_strlit("ko");
    reveal_strlit("ku");
    lemma_romaji_single('か', "ka"@);
    lemma_romaji_single('カ', "ka"@);
    assert(hepburn(seq!['k'], 0) =~= seq!['k', 'a']);
    assert("ka"@ =~= seq!['k', 'a']);
    lemma_romaji_single('き', "ki"@);
    lemma_romaji_single('キ', "ki"@);
    assert(hepburn(seq!['k'], 1) =~= seq!['k', 'i']);
    assert("ki"@ =~= seq!['k', 'i']);
    lemma_romaji_single('く', "ku"@);
    lemma_romaji_single('ク', "ku"@);
    assert(hepburn(seq!['k'], 2) =~= seq!['k', 'u']);
    assert("ku"@ =~= seq!['k', 'u']);
    lemma_romaji_single('け', "ke"@);
    lemma_romaji_single('ケ', "ke"@);
    assert(hepburn(seq!['k'], 3) =~= seq!['k', 'e']);
    assert("ke"@ =~= seq!['k', 'e']);
    lemma_romaji_single('こ', "ko"@);
    lemma_romaji_single('コ', "ko"@);
    assert(hepburn(seq!['k'], 4) =~= seq!['k', 'o']);
    assert("ko"@ =~= seq!['k', 'o']);
}

proof fn lemma_kana_row_2()
    ensures
        romaji(seq![kana_rows()[2].0[0]]) == hepburn(kana_rows()[2].2, 0),
        romaji(seq![kana_rows()[2].1[0]]) == hepburn(kana_rows()[2].2, 0),
        romaji(seq![kana_rows()[2].0[1]]) == hepburn(kana_rows()[2].2, 1),
        romaji(seq![kana_rows()[2].1[1]]) == hepburn(kana_rows()[2].2, 1),
        romaji(seq![kana_rows()[2].0[2]]) == hepburn(kana_rows()[2].2, 2),
        romaji(seq![kana_rows()[2].1[2]]) == hepburn(kana_rows()[2].2, 2),
        romaji(seq![kana_rows()[2].0[3]]) == hepburn(kana_rows()[2].2, 3),
        romaji(seq![kana_rows()[2].1[3]]) == hepburn(kana_rows()[2].2, 3),
        romaji(seq![kana_rows()[2].0[4]]) == hepburn(kana_rows()[2].2, 4),
        romaji(seq![kana_rows()[2].1[4]]) == hepburn(kana_rows()[2].2, 4),
{
    assert(kana_rows()[2] == (seq!['さ', 'し', 'す', 'せ', 'そ'], seq!['サ', 'シ', 'ス', 'セ', 'ソ'], seq!['s']));
    reveal_strlit("sa");
    reveal_strlit("se");
    reveal_strlit("shi");
    reveal_strlit("so");
    reveal_strlit("su");
    lemma_romaji_single('さ', "sa"@);
    lemma_romaji_single('サ', "sa"@);
    assert(hepburn(seq!['s'], 0) =~= seq!['s', 'a']);
    assert("sa"@ =~= seq!['s', 'a']);
    lemma_romaji_single('し', "shi"@);
    lemma_romaji_single('シ', "shi"@);
    assert(hepburn(seq!['s'], 1) =~= seq!['s', 'h', 'i']);
    assert("shi"@ =~= seq!['s', 'h', 'i']);
    lemma_romaji_single('す', "su"@);
    lemma_romaji_single('ス', "su"@);
    assert(hepburn(seq!['s'], 2) =~= seq!['s', 'u']);
    assert("su"@ =~= seq!['s', 'u']);
    lemma_romaji_single('せ', "se"@);
    lemma_romaji_single('セ', "se"@);
    assert(hepburn(seq!['s'], 3) =~= seq!['s', 'e']);
    assert("se"@ =~= seq!['s', 'e']);
    lemma_romaji_single('そ', "so"@);
    lemma_romaji_single('ソ', "so"@);
    assert(hepburn(seq!['s'], 4) =~= seq!['s', 'o']);
    assert("so"@ =~= seq!['s', 'o']);
}

proof fn lemma_kana_row_3()
    ensures
        romaji(seq![kana_rows()[3].0[0]]) == hepburn(kana_rows()[3].2, 0),
        romaji(seq![kana_rows()[3].1[0]]) == hepburn(kana_rows()[3].2, 0),
        romaji(seq![kana_rows()[3].0[1]]) == hepburn(kana_rows()[3].2, 1),
        romaji(seq![kana_rows()[3].1[1]]) == hepburn(kana_rows()[3].2, 1),
        romaji(seq![kana_rows()[3].0[2]]) == hepburn(kana_rows()[3].2, 2),
        romaji(seq![kana_rows()[3].1[2]]) == hepburn(kana_rows()[3].2, 2),
        romaji(seq![kana_rows()[3].0[3]]) == hepburn(kana_rows()[3].2, 3),
        romaji(seq![kana_rows()[3].1[3]]) == hepburn(kana_rows()[3].2, 3),
        romaji(seq![kana_rows()[3].0[4]]) == hepburn(kana_rows()[3].2, 4),
        romaji(seq![kana_rows()[3].1[4]]) == hepburn(kana_rows()[3].2, 4),
{
    assert(kana_rows()[3] == (seq!['た', 'ち', 'つ', 'て', 'と'], seq!['タ', 'チ', 'ツ', 'テ', 'ト'], seq!['t']));
    reveal_strlit("chi");
    reveal_strlit("ta");
    reveal_strlit("te");
    reveal_strlit("to");
    reveal_strlit("tsu");
    lemma_romaji_single('た', "ta"@);
    lemma_romaji_single('タ', "ta"@);
    assert(hepburn(seq!['t'], 0) =~= seq!['t', 'a']);
    assert("ta"@ =~= seq!['t', 'a']);
    lemma_romaji_single('ち', "chi"@);
    lemma_romaji_single('チ', "chi"@);
    assert(hepburn(seq!['t'], 1) =~= seq!['c', 'h', 'i']);
    assert("chi"@ =~= seq!['c', 'h', 'i']);
    lemma_romaji_single('つ', "tsu"@);
    lemma_romaji_single('ツ', "tsu"@);
    assert(hepburn(seq!['t'], 2) =~= seq!['t', 's', 'u']);
    assert("tsu"@ =~= seq!['t', 's', 'u']);
    lemma_romaji_single('て', "te"@);
    lemma_romaji_single('テ', "te"@);
    assert(hepburn(seq!['t'], 3) =~= seq!['t', 'e']);
    assert("te"@ =~= seq!['t', 'e']);
    lemma_romaji_single('と', "to"@);
    lemma_romaji_single('ト', "to"@);
    assert(hepburn(seq!['t'], 4) =~= seq!['t', 'o']);
    assert("to"@ =~= seq!['t', 'o']);
}

proof fn lemma_kana_row_4()
    ensures
        romaji(seq![kana_rows()[4].0[0]]) == hepburn(kana_rows()[4].2, 0),
        romaji(seq![kana_rows()[4].1[0]]) == hepburn(kana_rows()[4].2, 0),
        romaji(seq![kana_rows()[4].0[1]]) == hepburn(kana_rows()[4].2, 1),
        romaji(seq![kana_rows()[4].1[1]]) == hepburn(kana_rows()[4].2, 1),
        romaji(seq![kana_rows()[4].0[2]]) == hepburn(kana_rows()[4].2, 2),
        romaji(seq![kana_rows()[4].1[2]]) == hepburn(kana_rows()[4].2, 2),
        romaji(seq![kana_rows()[4].0[3]]) == hepburn(kana_rows()[4].2, 3),
        romaji(seq![kana_rows()[4].1[3]]) == hepburn(kana_rows()[4].2, 3),
        romaji(seq![kana_rows()[4].0[4]]) == hepburn(kana_rows()[4].2, 4),
        romaji(seq![kana_rows()[4].1[4]]) == hepburn(kana_rows()[4].2, 4),
{
    assert(kana_rows()[4] == (seq!['な', 'に', 'ぬ', 'ね', 'の'], seq!['ナ', 'ニ', 'ヌ', 'ネ', 'ノ'], seq!['n']));
    reveal_strlit("na");
    reveal_strlit("ne");
    reveal_strlit("ni");
    reveal_strlit("no");
    reveal_strlit("nu");
    lemma_romaji_single('な', "na"@);
    lemma_romaji_single('ナ', "na"@);
    assert(hepburn(seq!['n'], 0) =~= seq!['n', 'a']);
    assert("na"@ =~= seq!['n', 'a']);
    lemma_romaji_single('に', "ni"@);
    lemma_romaji_single('ニ', "ni"@);
    assert(hepburn(seq!['n'], 1) =~= seq!['n', 'i']);
    assert("ni"@ =~= seq!['n', 'i']);
    lemma_romaji_single('ぬ', "nu"@);
    lemma_romaji_single('ヌ', "nu"@);
    assert(hepburn(seq!['n'], 2) =~= seq!['n', 'u']);
    assert("nu"@ =~= seq!['n', 'u']);
    lemma_romaji_single('ね', "ne"@);
    lemma_romaji_single('ネ', "ne"@);
    assert(hepburn(seq!['n'], 3) =~= seq!['n', 'e']);
    assert("ne"@ =~= seq!['n', 'e']);
    lemma_romaji_single('の', "no"@);
    lemma_romaji_single('ノ', "no"@);
    assert(hepburn(seq!['n'], 4) =~= seq!['n', 'o']);
    assert("no"@ =~= seq!['n', 'o']);
}

proof fn lemma_kana_row_5()
    ensures
        romaji(seq![kana_rows()[5].0[0]]) == hepburn(kana_rows()[5].2, 0),
        romaji(seq![kana_rows()[5].1[0]]) == hepburn(kana_rows()[5].2, 0),
        romaji(seq![kana_rows()[5].0[1]]) == hepburn(kana_rows()[5].2, 1),
        romaji(seq![kana_rows()[5].1[1]]) == hepburn(kana_rows()[5].2, 1),
        romaji(seq![kana_rows()[5].0[2]]) == hepburn(kana_rows()[5].2, 2),
        romaji(seq![kana_rows()[5].1[2]]) == hepburn(kana_rows()[5].2, 2),
        romaji(seq![kana_rows()[5].0[3]]) == hepburn(kana_rows()[5].2, 3),
        romaji(seq![kana_rows()[5].1[3]]) == hepburn(kana_rows()[5].2, 3),
        romaji(seq![kana_rows()[5].0[4]]) == hepburn(kana_rows()[5].2, 4),
        romaji(seq![kana_rows()[5].1[4]]) == hepburn(kana_rows()[5].2, 4),
{
    assert(kana_rows()[5] == (seq!['は', 'ひ', 'ふ', 'へ', 'ほ'], seq!['ハ', 'ヒ', 'フ', 'ヘ', 'ホ'], seq!['h']));
    reveal_strlit("fu");
    reveal_strlit("ha");
    reveal_strlit("he");
    reveal_strlit("hi");
    reveal_strlit("ho");
    lemma_romaji_single('は', "ha"@);
    lemma_romaji_single('ハ', "ha"@);
    assert(hepburn(seq!['h'], 0) =~= seq!['h', 'a']);
    assert("ha"@ =~= seq!['h', 'a']);
    lemma_romaji_single('ひ', "hi"@);
    lemma_romaji_single('ヒ', "hi"@);
    assert(hepburn(seq!['h'], 1) =~= seq!['h', 'i']);
    assert("hi"@ =~= seq!['h', 'i']);
    lemma_romaji_single('ふ', "fu"@);
    lemma_romaji_single('フ', "fu"@);
    assert(hepburn(seq!['h'], 2) =~= seq!['f', 'u']);
    assert("fu"@ =~= seq!['f', 'u']);
    lemma_romaji_single('へ', "he"@);
    lemma_romaji_single('ヘ', "he"@);
    assert(hepburn(seq!['h'], 3) =~= seq!['h', 'e']);
    assert("he"@ =~= seq!['h', 'e']);
    lemma_romaji_single('ほ', "ho"@);
    lemma_romaji_single('ホ', "ho"@);
    assert(hepburn(seq!['h'], 4) =~= seq!['h', 'o']);
    assert("ho"@ =~= seq!['h', 'o']);
}

proof fn lemma_kana_row_6()
    ensures
        romaji(seq![kana_rows()[6].0[0]]) == hepburn(kana_rows()[6].2, 0),
        romaji(seq![kana_rows()[6].1[0]]) == hepburn(kana_rows()[6].2, 0),
        romaji(seq![kana_rows()[6].0[1]]) == hepburn(kana_rows()[6].2, 1),
        romaji(seq![kana_rows()[6].1[1]]) == hepburn(kana_rows()[6].2, 1),
        romaji(seq![kana_rows()[6].0[2]]) == hepburn(kana_rows()[6].2, 2),
        romaji(seq![kana_rows()[6].1[2]]) == hepburn(kana_rows()[6].2, 2),
        romaji(seq![kana_rows()[6].0[3]]) == hepburn(kana_rows()[6].2, 3),
        romaji(seq![kana_rows()[6].1[3]]) == hepburn(kana_rows()[6].2, 3),
        romaji(seq![kana_rows()[6].0[4]]) == hepburn(kana_rows()[6].2, 4),
        romaji(seq![kana_rows()[6].1[4]]) == hepburn(kana_rows()[6].2, 4),
{
    assert(kana_rows()[6] == (seq!['ま', 'み', 'む', 'め', 'も'], seq!['マ', 'ミ', 'ム', 'メ', 'モ'], seq!['m']));
    reveal_strlit("ma");
    reveal_strlit("me");
    reveal_strlit("mi");
    reveal_strlit("mo");
    reveal_strlit("mu");
    lemma_romaji_single('ま', "ma"@);
    lemma_romaji_single('マ', "ma"@);
    assert(hepburn(seq!['m'], 0) =~= seq!['m', 'a']);
    assert("ma"@ =~= seq!['m', 'a']);
    lemma_romaji_single('み', "mi"@);
    lemma_romaji_single('ミ', "mi"@);
    assert(hepburn(seq!['m'], 1) =~= seq!['m', 'i']);
    assert("mi"@ =~= seq!['m', 'i']);
    lemma_romaji_single('む', "mu"@);
    lemma_romaji_single('ム', "mu"@);
    assert(hepburn(seq!['m'], 2) =~= seq!['m', 'u']);
    assert("mu"@ =~= seq!['m', 'u']);
    lemma_romaji_single('め', "me"@);
    lemma_romaji_single('メ', "me"@);
    assert(hepburn(seq!['m'], 3) =~= seq!['m', 'e']);
    assert("me"@ =~= seq!['m', 'e']);
    lemma_romaji_single('も', "mo"@);
    lemma_romaji_single('モ', "mo"@);
    assert(hepburn(seq!['m'], 4) =~= seq!['m', 'o']);
    assert("mo"@ =~= seq!['m', 'o']);
}

proof fn lemma_kana_row_7()
    ensures
        romaji(seq![kana_rows()[7].0[0]]) == hepburn(kana_rows()[7].2, 0),
        romaji(seq![kana_rows()[7].1[0]]) == hepburn(kana_rows()[7].2, 0),
        romaji(seq![kana_rows()[7].0[1]]) == hepburn(kana_rows()[7].2, 1),
        romaji(seq![kana_rows()[7].1[1]]) == hepburn(kana_rows()[7].2, 1),
        romaji(seq![kana_rows()[7].0[2]]) == hepburn(kana_rows()[7].2, 2),
        romaji(seq![kana_rows()[7].1[2]]) == hepburn(kana_rows()[7].2, 2),
        romaji(seq![kana_rows()[7].0[3]]) == hepburn(kana_rows()[7].2, 3),
        romaji(seq![kana_rows()[7].1[3]]) == hepburn(kana_rows()[7].2, 3),
        romaji(seq![kana_rows()[7].0[4]]) == hepburn(kana_rows()[7].2, 4),
        romaji(seq![kana_rows()[7].1[4]]) == hepburn(kana_rows()[7].2, 4),
{
    assert(kana_rows()[7] == (seq!['ら', 'り', 'る', 'れ', 'ろ'], seq!['ラ', 'リ', 'ル', 'レ', 'ロ'], seq!['r']));
    reveal_strlit("ra");
    reveal_strlit("re");
    reveal_strlit("ri");
    reveal_strlit("ro");
    reveal_strlit("ru");
    lemma_romaji_single('ら', "ra"@);
    lemma_romaji_single('ラ', "ra"@);
    assert(hepburn(seq!['r'], 0) =~= seq!['r', 'a']);
    assert("ra"@ =~= seq!['r', 'a']);
    lemma_romaji_single('り', "ri"@);
    lemma_romaji_single('リ', "ri"@);
    assert(hepburn(seq!['r'], 1) =~= seq!['r', 'i']);
    assert("ri"@ =~= seq!['r', 'i']);
    lemma_romaji_single('る', "ru"@);
    lemma_romaji_single('ル', "ru"@);
    assert(hepburn(seq!['r'], 2) =~= seq!['r', 'u']);
    assert("ru"@ =~= seq!['r', 'u']);
    lemma_romaji_single('れ', "re"@);
    lemma_romaji_single('レ', "re"@);
    assert(hepburn(seq!['r'], 3) =~= seq!['r', 'e']);
    assert("re"@ =~= seq!['r', 'e']);
    lemma_romaji_single('ろ', "ro"@);
    lemma_romaji_single('ロ', "ro"@);
    assert(hepburn(seq!['r'], 4) =~= seq!['r', 'o']);
    assert("ro"@ =~= seq!['r', 'o']);
}

proof fn lemma_kana_row_8()
    ensures
        romaji(seq![kana_rows()[8].0[0]]) == hepburn(kana_rows()[8].2, 0),
        romaji(seq![kana_rows()[8].1[0]]) == hepburn(kana_rows()[8].2, 0),
        romaji(seq![kana_rows()[8].0[1]]) == hepburn(kana_rows()[8].2, 1),
        romaji(seq![kana_rows()[8].1[1]]) == hepburn(kana_rows()[8].2, 1),
        romaji(seq![kana_rows()[8].0[2]]) == hepburn(kana_rows()[8].2, 2),
        romaji(seq![kana_rows()[8].1[2]]) == hepburn(kana_rows()[8].2, 2),
        romaji(seq![kana_rows()[8].0[3]]) == hepburn(kana_rows()[8].2, 3),
        romaji(seq![kana_rows()[8].1[3]]) == hepburn(kana_rows()[8].2, 3),
        romaji(seq![kana_rows()[8].0[4]]) == hepburn(kana_rows()[8].2, 4),
        romaji(seq![kana_rows()[8].1[4]]) == hepburn(kana_rows()[8].2, 4),
{
    assert(kana_rows()[8] == (seq!['が', 'ぎ', 'ぐ', 'げ', 'ご'], seq!['ガ', 'ギ', 'グ', 'ゲ', 'ゴ'], seq!['g']));
    reveal_strlit("ga");
    reveal_strlit("ge");
    reveal_strlit("gi");
    reveal_strlit("go");
    reveal_strlit("gu");
    lemma_romaji_single('が', "ga"@);
    lemma_romaji_single('ガ', "ga"@);
    assert(hepburn(seq!['g'], 0) =~= seq!['g', 'a']);
    assert("ga"@ =~= seq!['g', 'a']);
    lemma_romaji_single('ぎ', "gi"@);
    lemma_romaji_single('ギ', "gi"@);
    assert(hepburn(seq!['g'], 1) =~= seq!['g', 'i']);
    assert("gi"@ =~= seq!['g', 'i']);
    lemma_romaji_single('ぐ', "gu"@);
    lemma_romaji_single('グ', "gu"@);
    assert(hepburn(seq!['g'], 2) =~= seq!['g', 'u']);
    assert("gu"@ =~= seq!['g', 'u']);
    lemma_romaji_single('げ', "ge"@);
    lemma_romaji_single('ゲ', "ge"@);
    assert(hepburn(seq!['g'], 3) =~= seq!['g', 'e']);
    assert("ge"@ =~= seq!['g', 'e']);
    lemma_romaji_single('ご', "go"@);
    lemma_romaji_single('ゴ', "go"@);
    assert(hepburn(seq!['g'], 4) =~= seq!['g', 'o']);
    assert("go"@ =~= seq!['g', 'o']);
}

proof fn lemma_kana_row_9()
    ensures
        romaji(seq![kana_rows()[9].0[0]]) == hepburn(kana_rows()[9].2, 0),
        romaji(seq![kana_rows()[9].1[0]]) == hepburn(kana_rows()[9].2, 0),
        romaji(seq![kana_rows()[9].0[1]]) == hepburn(kana_rows()[9].2, 1),
        romaji(seq![kana_rows()[9].1[1]]) == hepburn(kana_rows()[9].2, 1),
        romaji(seq![kana_rows()[9].0[2]]) == hepburn(kana_rows()[9].2, 2),
        romaji(seq![kana_rows()[9].1[2]]) == hepburn(kana_rows()[9].2, 2),
        romaji(seq![kana_rows()[9].0[3]]) == hepburn(kana_rows()[9].2, 3),
        romaji(seq![kana_rows()[9].1[3]]) == hepburn(kana_rows()[9].2, 3),
        romaji(seq![kana_rows()[9].0[4]]) == hepburn(kana_rows()[9].2, 4),
        romaji(seq![kana_rows()[9].1[4]]) == hepburn(kana_rows()[9].2, 4),
{
    assert(kana_rows()[9] == (seq!['ざ', 'じ', 'ず', 'ぜ', 'ぞ'], seq!['ザ', 'ジ', 'ズ', 'ゼ', 'ゾ'], seq!['z']));
    reveal_strlit("ji");
    reveal_strlit("za");
    reveal_strlit("ze");
    reveal_strlit("zo");
    reveal_strlit("zu");
    lemma_romaji_single('ざ', "za"@);
    lemma_romaji_single('ザ', "za"@);
    assert(hepburn(seq!['z'], 0) =~= seq!['z', 'a']);
    assert("za"@ =~= seq!['z', 'a']);
    lemma_romaji_single('じ', "ji"@);
    lemma_romaji_single('ジ', "ji"@);
    assert(hepburn(seq!['z'], 1) =~= seq!['j', 'i']);
    assert("ji"@ =~= seq!['j', 'i']);
    lemma_romaji_single('ず', "zu"@);
    lemma_romaji_single('ズ', "zu"@);
    assert(hepburn(seq!['z'], 2) =~= seq!['z', 'u']);
    assert("zu"@ =~= seq!['z', 'u']);
    lemma_romaji_single('ぜ', "ze"@);
    lemma_romaji_single('ゼ', "ze"@);
    assert(hepburn(seq!['z'], 3) =~= seq!['z', 'e']);
    assert("ze"@ =~= seq!['z', 'e']);
    lemma_romaji_single('ぞ', "zo"@);
    lemma_romaji_single('ゾ', "zo"@);
    assert(hepburn(seq!['z'], 4) =~= seq!['z', 'o']);
    assert("zo"@ =~= seq!['z', 'o']);
}

proof fn lemma_kana_row_10()
    ensures
        romaji(seq![kana_rows()[10].0[0]]) == hepburn(kana_rows()[10].2, 0),
        romaji(seq![kana_rows()[10].1[0]]) == hepburn(kana_rows()[10].2, 0),
        romaji(seq![kana_rows()[10].0[1]]) == hepburn(kana_rows()[10].2, 1),
        romaji(seq![kana_rows()[10].1[1]]) == hepburn(kana_rows()[10].2, 1),
        romaji(seq![kana_rows()[10].0[2]]) == hepburn(kana_rows()[10].2, 2),
        romaji(seq![kana_rows()[10].1[2]]) == hepburn(kana_rows()[10].2, 2),
        romaji(seq![kana_rows()[10].0[3]]) == hepburn(kana_rows()[10].2, 3),
        romaji(seq![kana_rows()[10].1[3]]) == hepburn(kana_rows()[10].2, 3),
        romaji(seq![kana_rows()[10].0[4]]) == hepburn(kana_rows()[10].2, 4),
        romaji(seq![kana_rows()[10].1[4]]) == hepburn(kana_rows()[10].2, 4),
{
    assert(kana_rows()[10] == (seq!['だ', 'ぢ', 'づ', 'で', 'ど'], seq!['ダ', 'ヂ', 'ヅ', 'デ', 'ド'], seq!['d']));
    reveal_strlit("da");
    reveal_strlit("de");
    reveal_strlit("do");
    reveal_strlit("ji");
    reveal_strlit("zu");
    lemma_romaji_single('だ', "da"@);
    lemma_romaji_single('ダ', "da"@);
    assert(hepburn(seq!['d'], 0) =~= seq!['d', 'a']);
    assert("da"@ =~= seq!['d', 'a']);
    lemma_romaji_single('ぢ', "ji"@);
    lemma_romaji_single('ヂ', "ji"@);
    assert(hepburn(seq!['d'], 1) =~= seq!['j', 'i']);
    assert("ji"@ =~= seq!['j', 'i']);
    lemma_romaji_single('づ', "zu"@);
    lemma_romaji_single('ヅ', "zu"@);
    assert(hepburn(seq!['d'], 2) =~= seq!['z', 'u']);
    assert("zu"@ =~= seq!['z', 'u']);
    lemma_romaji_single('で', "de"@);
    lemma_romaji_single('デ', "de"@);
    assert(hepburn(seq!['d'], 3) =~= seq!['d', 'e']);
    assert("de"@ =~= seq!['d', 'e']);
    lemma_romaji_single('ど', "do"@);
    lemma_romaji_single('ド', "do"@);
    assert(hepburn(seq!['d'], 4) =~= seq!['d', 'o']);
    assert("do"@ =~= seq!['d', 'o']);
}

proof fn lemma_kana_row_11()
    ensures
        romaji(seq![kana_rows()[11].0[0]]) == hepburn(kana_rows()[11].2, 0),
        romaji(seq![kana_rows()[11].1[0]]) == hepburn(kana_rows()[11].2, 0),
        romaji(seq![kana_rows()[11].0[1]]) == hepburn(kana_rows()[11].2, 1),
        romaji(seq![kana_rows()[11].1[1]]) == hepburn(kana_rows()[11].2, 1),
        romaji(seq![kana_rows()[11].0[2]]) == hepburn(kana_rows()[11].2, 2),
        romaji(seq![kana_rows()[11].1[2]]) == hepburn(kana_rows()[11].2, 2),
        romaji(seq![kana_rows()[11].0[3]]) == hepburn(kana_rows()[11].2, 3),
        romaji(seq![kana_rows()[11].1[3]]) == hepburn(kana_rows()[11].2, 3),
        romaji(seq![kana_rows()[11].0[4]]) == hepburn(kana_rows()[11].2, 4),
        romaji(seq![kana_rows()[11].1[4]]) == hepburn(kana_rows()[11].2, 4),
{
    assert(kana_rows()[11] == (seq!['ば', 'び', 'ぶ', 'べ', 'ぼ'], seq!['バ', 'ビ', 'ブ', 'ベ', 'ボ'], seq!['b']));
    reveal_strlit("ba");
    reveal_strlit("be");
    reveal_strlit("bi");
    reveal_strlit("bo");
    reveal_strlit("bu");
    lemma_romaji_single('ば', "ba"@);
    lemma_romaji_single('バ', "ba"@);
    assert(hepburn(seq!['b'], 0) =~= seq!['b', 'a']);
    assert("ba"@ =~= seq!['b', 'a']);
    lemma_romaji_single('び', "bi"@);
    lemma_romaji_single('ビ', "bi"@);
    assert(hepburn(seq!['b'], 1) =~= seq!['b', 'i']);
    assert("bi"@ =~= seq!['b', 'i']);
    lemma_romaji_single('ぶ', "bu"@);
    lemma_romaji_single('ブ', "bu"@);
    assert(hepburn(seq!['b'], 2) =~= seq!['b', 'u']);
    assert("bu"@ =~= seq!['b', 'u']);
    lemma_romaji_single('べ', "be"@);
    lemma_romaji_single('ベ', "be"@);
    assert(hepburn(seq!['b'], 3) =~= seq!['b', 'e']);
    assert("be"@ =~= seq!['b', 'e']);
    lemma_romaji_single('ぼ', "bo"@);
    lemma_romaji_single('ボ', "bo"@);
    assert(hepburn(seq!['b'], 4) =~= seq!['b', 'o']);
    assert("bo"@ =~= seq!['b', 'o']);
}

proof fn lemma_kana_row_12()
    ensures
        romaji(seq![kana_rows()[12].0[0]]) == hepburn(kana_rows()[12].2, 0),
        romaji(seq![kana_rows()[12].1[0]]) == hepburn(kana_rows()[12].2, 0),
        romaji(seq![kana_rows()[12].0[1]]) == hepburn(kana_rows()[12].2, 1),
        romaji(seq![kana_rows()[12].1[1]]) == hepburn(kana_rows()[12].2, 1),
        romaji(seq![kana_rows()[12].0[2]]) == hepburn(kana_rows()[12].2, 2),
        romaji(seq![kana_rows()[12].1[2]]) == hepburn(kana_rows()[12].2, 2),
        romaji(seq![kana_rows()[12].0[3]]) == hepburn(kana_rows()[12].2, 3),
        romaji(seq![kana_rows()[12].1[3]]) == hepburn(kana_rows()[12].2, 3),
        romaji(seq![kana_rows()[12].0[4]]) == hepburn(kana_rows()[12].2, 4),
        romaji(seq![kana_rows()[12].1[4]]) == hepburn(kana_rows()[12].2, 4),
{
    assert(kana_rows()[12] == (seq!['ぱ', 'ぴ', 'ぷ', 'ぺ', 'ぽ'], seq!['パ', 'ピ', 'プ', 'ペ', 'ポ'], seq!['p']));
    reveal_strlit("pa");
    reveal_strlit("pe");
    reveal_strlit("pi");
    reveal_strlit("po");
    reveal_strlit("pu");
    lemma_romaji_single('ぱ', "pa"@);
    lemma_romaji_single('パ', "pa"@);
    assert(hepburn(seq!['p'], 0) =~= seq!['p', 'a']);
    assert("pa"@ =~= seq!['p', 'a']);
    lemma_romaji_single('ぴ', "pi"@);
    lemma_romaji_single('ピ', "pi"@);
    assert(hepburn(seq!['p'], 1) =~= seq!['p', 'i']);
    assert("pi"@ =~= seq!['p', 'i']);
    lemma_romaji_single('ぷ', "pu"@);
    lemma_romaji_single('プ', "pu"@);
    assert(hepburn(seq!['p'], 2) =~= seq!['p', 'u']);
    assert("pu"@ =~= seq!['p', 'u']);
    lemma_romaji_single('ぺ', "pe"@);
    lemma_romaji_single('ペ', "pe"@);
    assert(hepburn(seq!['p'], 3) =~= seq!['p', 'e']);
    assert("pe"@ =~= seq!['p', 'e']);
    lemma_romaji_single('ぽ', "po"@);
    lemma_romaji_single('ポ', "po"@);
    assert(hepburn(seq!['p'], 4) =~= seq!['p', 'o']);
    assert("po"@ =~= seq!['p', 'o']);
}

proof fn lemma_kana_others()
    ensures
        romaji(seq!['や']) == seq!['y', 'a'] && romaji(seq!['ヤ']) == seq!['y', 'a'],
        romaji(seq!['ゆ']) == seq!['y', 'u'] && romaji(seq!['ユ']) == seq!['y', 'u'],
        romaji(seq!['よ']) == seq!['y', 'o'] && romaji(seq!['ヨ']) == seq!['y', 'o'],
        romaji(seq!['わ']) == seq!['w', 'a'] && romaji(seq!['ワ']) == seq!['w', 'a'],
        romaji(seq!['を']) == seq!['o'] && romaji(seq!['ヲ']) == seq!['o'],
        romaji(seq!['ん']) == seq!['n'] && romaji(seq!['ン']) == seq!['n'],
        romaji(seq!['ー']) == seq!['-'],
{
    reveal_strlit("ya");
    lemma_romaji_single('や', "ya"@);
    assert("ya"@ =~= seq!['y', 'a']);
    reveal_strlit("ya");
    lemma_romaji_single('ヤ', "ya"@);
    assert("ya"@ =~= seq!['y', 'a']);
    reveal_strlit("yu");
    lemma_romaji_single('ゆ', "yu"@);
    assert("yu"@ =~= seq!['y', 'u']);
    reveal_strlit("yu");
    lemma_romaji_single('ユ', "yu"@);
    assert("yu"@ =~= seq!['y', 'u']);
    reveal_strlit("yo");
    lemma_romaji_single('よ', "yo"@);
    assert("yo"@ =~= seq!['y', 'o']);
    reveal_strlit("yo");
    lemma_romaji_single('ヨ', "yo"@);
    assert("yo"@ =~= seq!['y', 'o']);
    reveal_strlit("wa");
    lemma_romaji_single('わ', "wa"@);
    assert("wa"@ =~= seq!['w', 'a']);
    reveal_strlit("wa");
    lemma_romaji_single('ワ', "wa"@);
    assert("wa"@ =~= seq!['w', 'a']);
    reveal_strlit("o");
    lemma_romaji_single('を', "o"@);
    assert("o"@ =~= seq!['o']);
    reveal_strlit("o");
    lemma_romaji_single('ヲ', "o"@);
    assert("o"@ =~= seq!['o']);
    reveal_strlit("n");
    lemma_romaji_single('ん', "n"@);
    assert("n"@ =~= seq!['n']);
    reveal_strlit("n");
    lemma_romaji_single('ン', "n"@);
    assert("n"@ =~= seq!['n']);
    reveal_strlit("-");
    lemma_romaji_single('ー', "-"@);
    assert("-"@ =~= seq!['-']);
}

/// Each kana of the full rows of the kana table, hiragana or katakana, read on
/// its own, gives its Hepburn syllable: the row's consonant followed by the
/// column's vowel, with Hepburn's exceptions (see `hepburn`); the ya, wa and n
/// kana, the long vowel mark and small tsu are read as written below.
pub proof fn law_kana_hepburn()
    ensures
        forall|r: int, col: int|
            0 <= r < kana_rows().len() && 0 <= col < 5 ==> romaji(seq![kana_rows()[r].0[col]])
                == hepburn(kana_rows()[r].2, col) && romaji(seq![kana_rows()[r].1[col]])
                == hepburn(kana_rows()[r].2, col),
        romaji(seq!['や']) == seq!['y', 'a'] && romaji(seq!['ヤ']) == seq!['y', 'a'],
        romaji(seq!['ゆ']) == seq!['y', 'u'] && romaji(seq!['ユ']) == seq!['y', 'u'],
        romaji(seq!['よ']) == seq!['y', 'o'] && romaji(seq!['ヨ']) == seq!['y', 'o'],
        romaji(seq!['わ']) == seq!['w', 'a'] && romaji(seq!['ワ']) == seq!['w', 'a'],
        romaji(seq!['を']) == seq!['o'] && romaji(seq!['ヲ']) == seq!['o'],
        romaji(seq!['ん']) == seq!['n'] && romaji(seq!['ン']) == seq!['n'],
        romaji(seq!['ー']) == seq!['-'],
{
    lemma_kana_others();
    assert forall|r: int, col: int|
        0 <= r < kana_rows().len() && 0 <= col < 5 implies romaji(seq![kana_rows()[r].0[col]])
            == hepburn(kana_rows()[r].2, col) && romaji(seq![kana_rows()[r].1[col]])
            == hepburn(kana_rows()[r].2, col) by {
        if r == 0 {
            lemma_kana_row_0();
        } else if r == 1 {
            lemma_kana_row_1();
        } else if r == 2 {
            lemma_kana_row_2();
        } else if r == 3 {
            lemma_kana_row_3();
        } else if r == 4 {
            lemma_kana_row_4();
        } else if r == 5 {
            lemma_kana_row_5();
        } else if r == 6 {
            lemma_kana_row_6();
        } else if r == 7 {
            lemma_kana_row_7();
        } else if r == 8 {
            lemma_kana_row_8();
        } else if r == 9 {
            lemma_kana_row_9();
        } else if r == 10 {
            lemma_kana_row_10();
        } else if r == 11 {
            lemma_kana_row_11();
        } else if r == 12 {
            lemma_kana_row_12();
        }
    }
}

/// Transliterates hiragana and katakana in `text` to Hepburn-style romaji.
pub fn kana_to_romaji(text: &str) -> (r: String)
    ensures
        r@ == romaji(text@),
{
    let s = chars_of(text);
    let mut raw: Vec<char> = Vec::new();
    let mut i: usize = 0;
    assert(s@.skip(0) =~= s@);
    while i < s.len()
        invariant
            i <= s.len(),
            romaji_raw(s@) == raw@ + romaji_raw(s@.skip(i as int)),
        decreases s.len() - i,
    {
        let c = s[i];
        let next = if i + 1 < s.len() {
            Some(s[i + 1])
        } else {
            None
        };
        let ghost t = s@.skip(i as int);
        assert(t.skip(1) =~= s@.skip(i + 1));
        let mut step: usize = 1;
        let mut handled = false;
        if let Some(n) = next {
            if let Some(r) = youon_of(c, n) {
                assert(t.skip(2) =~= s@.skip(i + 2));
                push_str(&mut raw, r);
                step = 2;
                handled = true;
            }
        }
        if !handled {
            let piece: &str = if c == 'っ' {
                match next {
                    Some(n) => match geminate_of(n) {
                        Some(r) => r,
                        None => "tsu",
                    },
                    None => "tsu",
                }
            } else {
                match kana_single_of(c) {
                    Some(r) => r,
                    None => if is_whitespace(c) {
                        " "
                    } else {
                        ""
                    },
                }
            };
            proof {
                if !(c == 'っ') && kana_single(c) is None && !is_ws(c) {
                    reveal_strlit("");
                }
            }
            push_str(&mut raw, piece);
        }
        assert(raw@ + romaji_raw(t.skip(step as int)) =~= raw@ + romaji_raw(s@.skip(i + step)));
        i += step;
    }
    assert(s@.skip(s@.len() as int) =~= Seq::<char>::empty());
    assert(raw@ + Seq::<char>::empty() =~= raw@);
    let parts = words_of(&raw);
    let joined = join_chars(&parts, " ");
    string_of(&joined)
}

} // verus!
