use vstd::prelude::*;

use vstd::hash_map::StringHashMap;

use crate::kana::{kana_to_romaji, romaji};
use crate::text::{
    chars_of, join, join_chars, lines_of, push_all, push_range, split_chars, split_on,
    split_once, split_once_chars, string_of, text_lines, trim, trimmed, views,
};

verus! {

/// The transcription schemes.
#[derive(Clone, Copy, PartialEq, Eq, Structural)]
pub enum Mode {
    Pinyin,
    Romaji,
    Cantonese,
}

impl Mode {
    /// The scheme's name.
    pub fn to_string(&self) -> (r: &'static str)
        ensures
            r@ == match self {
                Mode::Pinyin => "pinyin"@,
                Mode::Romaji => "romaji"@,
                Mode::Cantonese => "cantonese"@,
            },
    {
        match self {
            Mode::Pinyin => "pinyin",
            Mode::Romaji => "romaji",
            Mode::Cantonese => "cantonese",
        }
    }
}

/// The toneless letter for a pinyin vowel with a tone mark (`ü` becomes `v`);
/// every other character is kept.
pub open spec fn tone_base(c: char) -> char {
    match c {
        'ā' | 'á' | 'ǎ' | 'à' => 'a',
        'ē' | 'é' | 'ě' | 'è' => 'e',
        'ī' | 'í' | 'ǐ' | 'ì' => 'i',
        'ō' | 'ó' | 'ǒ' | 'ò' => 'o',
        'ū' | 'ú' | 'ǔ' | 'ù' => 'u',
        'ǖ' | 'ǘ' | 'ǚ' | 'ǜ' | 'ü' => 'v',
        'Ā' | 'Á' | 'Ǎ' | 'À' => 'A',
        'Ē' | 'É' | 'Ě' | 'È' => 'E',
        'Ī' | 'Í' | 'Ǐ' | 'Ì' => 'I',
        'Ō' | 'Ó' | 'Ǒ' | 'Ò' => 'O',
        'Ū' | 'Ú' | 'Ǔ' | 'Ù' => 'U',
        'Ǖ' | 'Ǘ' | 'Ǚ' | 'Ǜ' | 'Ü' => 'V',
        _ => c,
    }
}

fn tone_base_of(c: char) -> (r: char)
    ensures
        r == tone_base(c),
{
    match c {
        'ā' | 'á' | 'ǎ' | 'à' => 'a',
        'ē' | 'é' | 'ě' | 'è' => 'e',
        'ī' | 'í' | 'ǐ' | 'ì' => 'i',
        'ō' | 'ó' | 'ǒ' | 'ò' => 'o',
        'ū' | 'ú' | 'ǔ' | 'ù' => 'u',
        'ǖ' | 'ǘ' | 'ǚ' | 'ǜ' | 'ü' => 'v',
        'Ā' | 'Á' | 'Ǎ' | 'À' => 'A',
        'Ē' | 'É' | 'Ě' | 'È' => 'E',
        'Ī' | 'Í' | 'Ǐ' | 'Ì' => 'I',
        'Ō' | 'Ó' | 'Ǒ' | 'Ò' => 'O',
        'Ū' | 'Ú' | 'Ǔ' | 'Ù' => 'U',
        'Ǖ' | 'Ǘ' | 'Ǚ' | 'Ǜ' | 'Ü' => 'V',
        _ => c,
    }
}

/// `s` with every tone-marked vowel replaced by its toneless letter.
pub open spec fn toneless(s: Seq<char>) -> Seq<char> {
    s.map_values(|c: char| tone_base(c))
}

/// Removes tone marks from a pinyin syllable.
pub fn strip_tone(s: &Vec<char>) -> (r: Vec<char>)
    ensures
        r@ == toneless(s@),
{
    let mut r: Vec<char> = Vec::new();
    let mut i: usize = 0;
    while i < s.len()
        invariant
            i <= s.len(),
            r@ == toneless(s@.take(i as int)),
        decreases s.len() - i,
    {
        r.push(tone_base_of(s[i]));
        assert(toneless(s@.take(i + 1)) =~= toneless(s@.take(i as int)).push(tone_base(s@[i as int])));
        i += 1;
    }
    assert(s@.take(s@.len() as int) =~= s@);
    r
}

/// Whether `c` is a CJK unified ideograph (basic block, extension A, or
/// compatibility ideographs).
pub open spec fn cjk_char(c: char) -> bool {
    ||| ('\u{4E00}' <= c && c <= '\u{9FFF}')
    ||| ('\u{3400}' <= c && c <= '\u{4DBF}')
    ||| ('\u{F900}' <= c && c <= '\u{FAFF}')
}

pub fn is_cjk(c: char) -> (b: bool)
    ensures
        b == cjk_char(c),
{
    ('\u{4E00}' <= c && c <= '\u{9FFF}') || ('\u{3400}' <= c && c <= '\u{4DBF}') || ('\u{F900}'
        <= c && c <= '\u{FAFF}')
}

/// A syllable dictionary's keys and syllable lists as character sequences.
pub open spec fn syllable_view(m: Map<Seq<char>, Vec<Vec<char>>>) -> Map<Seq<char>, Seq<Seq<char>>> {
    m.map_values(|v: Vec<Vec<char>>| views(v@))
}

/// A conversion table's keys and replacements as character sequences.
pub open spec fn text_view(m: Map<Seq<char>, Vec<char>>) -> Map<Seq<char>, Seq<char>> {
    m.map_values(|v: Vec<char>| v@)
}

/// The syllables listed in a dictionary value: comma-separated, each trimmed
/// and without tone marks.
pub open spec fn syllables_of(val: Seq<char>) -> Seq<Seq<char>> {
    split_on(val, ',').map_values(|p: Seq<char>| toneless(trim(p)))
}

/// `m` after the `key:syllable,syllable,...` lines in `lines` were added in
/// order (a later line for the same key replaces an earlier one; lines
/// without `:` are skipped).
pub open spec fn load_syllables(
    m: Map<Seq<char>, Seq<Seq<char>>>,
    lines: Seq<Seq<char>>,
) -> Map<Seq<char>, Seq<Seq<char>>>
    decreases lines.len(),
{
    if lines.len() == 0 {
        m
    } else {
        let m1 = load_syllables(m, lines.drop_last());
        match split_once(lines.last(), ':') {
            Some((k, v)) => m1.insert(k, syllables_of(v)),
            None => m1,
        }
    }
}

/// `m` after the `key:replacement` lines in `lines` were added in order (the
/// replacement trimmed; lines without `:` are skipped).
pub open spec fn load_conversions(
    m: Map<Seq<char>, Seq<char>>,
    lines: Seq<Seq<char>>,
) -> Map<Seq<char>, Seq<char>>
    decreases lines.len(),
{
    if lines.len() == 0 {
        m
    } else {
        let m1 = load_conversions(m, lines.drop_last());
        match split_once(lines.last(), ':') {
            Some((k, v)) => m1.insert(k, trim(v)),
            None => m1,
        }
    }
}

/// `m` after the dictionary text `source`, if there is one, was added.
pub open spec fn load_syllables_from(
    m: Map<Seq<char>, Seq<Seq<char>>>,
    source: Option<Seq<char>>,
) -> Map<Seq<char>, Seq<Seq<char>>> {
    match source {
        Some(t) => load_syllables(m, text_lines(t)),
        None => m,
    }
}

/// `m` after the conversion table text `source`, if there is one, was added.
pub open spec fn load_conversions_from(
    m: Map<Seq<char>, Seq<char>>,
    source: Option<Seq<char>>,
) -> Map<Seq<char>, Seq<char>> {
    match source {
        Some(t) => load_conversions(m, text_lines(t)),
        None => m,
    }
}

/// The text of an optional source.
pub open spec fn source_text(o: Option<String>) -> Option<Seq<char>> {
    match o {
        Some(s) => Some(s@),
        None => None,
    }
}

/// The syllables of a dictionary value.
fn syllables_in(val: &Vec<char>) -> (r: Vec<Vec<char>>)
    ensures
        views(r@) == syllables_of(val@),
{
    let pieces = split_chars(val, ',');
    let mut r: Vec<Vec<char>> = Vec::new();
    let mut i: usize = 0;
    while i < pieces.len()
        invariant
            i <= pieces.len(),
            views(pieces@) == split_on(val@, ','),
            views(r@) == split_on(val@, ',').take(i as int).map_values(
                |p: Seq<char>| toneless(trim(p)),
            ),
        decreases pieces.len() - i,
    {
        let t = trimmed(&pieces[i]);
        let syl = strip_tone(&t);
        let ghost before = views(r@);
        r.push(syl);
        assert(views(pieces@)[i as int] == pieces@[i as int]@);
        assert(views(r@) =~= before.push(toneless(trim(split_on(val@, ',')[i as int]))));
        assert(split_on(val@, ',').take(i + 1).map_values(|p: Seq<char>| toneless(trim(p)))
            =~= before.push(toneless(trim(split_on(val@, ',')[i as int]))));
        i += 1;
    }
    assert(split_on(val@, ',').take(pieces@.len() as int) =~= split_on(val@, ','));
    r
}

/// Adds the `key:syllable,syllable,...` lines of `content` to `map` (the
/// phrase files and the single-character files have this form).
pub fn load_phrases(map: &mut StringHashMap<Vec<Vec<char>>>, content: &str)
    ensures
        syllable_view(final(map)@) == load_syllables(syllable_view(old(map)@), text_lines(content@)),
{
    let text = chars_of(content);
    let lines = lines_of(&text);
    let ghost ls = text_lines(content@);
    let ghost m0 = syllable_view(map@);
    let mut i: usize = 0;
    assert(ls.take(0) =~= Seq::<Seq<char>>::empty());
    while i < lines.len()
        invariant
            i <= lines.len(),
            views(lines@) == ls,
            syllable_view(map@) == load_syllables(m0, ls.take(i as int)),
        decreases lines.len() - i,
    {
        assert(ls.take(i + 1).drop_last() =~= ls.take(i as int));
        assert(views(lines@)[i as int] == lines@[i as int]@);
        match split_once_chars(&lines[i], ':') {
            Some((k, v)) => {
                let syllables = syllables_in(&v);
                let key = string_of(&k);
                let ghost before = map@;
                map.insert(key, syllables);
                assert(syllable_view(map@) =~= syllable_view(before).insert(k@, syllables_of(v@)));
            },
            None => {},
        }
        i += 1;
    }
    assert(ls.take(lines@.len() as int) =~= ls);
}

/// Adds the `key:replacement` lines of `content` to `map`.
pub fn load_trans(map: &mut StringHashMap<Vec<char>>, content: &str)
    ensures
        text_view(final(map)@) == load_conversions(text_view(old(map)@), text_lines(content@)),
{
    let text = chars_of(content);
    let lines = lines_of(&text);
    let ghost ls = text_lines(content@);
    let ghost m0 = text_view(map@);
    let mut i: usize = 0;
    assert(ls.take(0) =~= Seq::<Seq<char>>::empty());
    while i < lines.len()
        invariant
            i <= lines.len(),
            views(lines@) == ls,
            text_view(map@) == load_conversions(m0, ls.take(i as int)),
        decreases lines.len() - i,
    {
        assert(ls.take(i + 1).drop_last() =~= ls.take(i as int));
        assert(views(lines@)[i as int] == lines@[i as int]@);
        match split_once_chars(&lines[i], ':') {
            Some((k, v)) => {
                let value = trimmed(&v);
                let key = string_of(&k);
                let ghost before = map@;
                map.insert(key, value);
                assert(text_view(map@) =~= text_view(before).insert(k@, trim(v@)));
            },
            None => {},
        }
        i += 1;
    }
    assert(ls.take(lines@.len() as int) =~= ls);
}

/// The texts of the six dictionary files (`phrases_dict.txt`, `word.txt` and
/// `trans_word.txt` for Mandarin and for Cantonese); `None` for a file that
/// could not be read.
pub struct DictSources {
    pub mandarin_phrases: Option<String>,
    pub mandarin_words: Option<String>,
    pub mandarin_trans: Option<String>,
    pub cantonese_phrases: Option<String>,
    pub cantonese_words: Option<String>,
    pub cantonese_trans: Option<String>,
}

impl DictSources {
    /// The phrase dictionary: Mandarin entries, then Cantonese ones over them.
    pub open spec fn phrase_table(&self) -> Map<Seq<char>, Seq<Seq<char>>> {
        load_syllables_from(
            load_syllables_from(Map::empty(), source_text(self.mandarin_phrases)),
            source_text(self.cantonese_phrases),
        )
    }

    /// The single-character dictionary: Mandarin entries, then Cantonese ones over them.
    pub open spec fn word_table(&self) -> Map<Seq<char>, Seq<Seq<char>>> {
        load_syllables_from(
            load_syllables_from(Map::empty(), source_text(self.mandarin_words)),
            source_text(self.cantonese_words),
        )
    }

    /// The traditional-to-simplified table: Mandarin entries, then Cantonese ones over them.
    pub open spec fn conversion_table(&self) -> Map<Seq<char>, Seq<char>> {
        load_conversions_from(
            load_conversions_from(Map::empty(), source_text(self.mandarin_trans)),
            source_text(self.cantonese_trans),
        )
    }
}

/// `text` with each character that the conversion table maps replaced by its
/// replacement.
pub open spec fn simplified(trans: Map<Seq<char>, Seq<char>>, s: Seq<char>) -> Seq<char>
    decreases s.len(),
{
    if s.len() == 0 {
        Seq::<char>::empty()
    } else {
        let c = s.last();
        simplified(trans, s.drop_last()) + if trans.contains_key(seq![c]) {
            trans[seq![c]]
        } else {
            seq![c]
        }
    }
}

/// The length of the longest prefix of `s` of at most `n` characters that is a
/// key of `phrases`, or 0.
pub open spec fn longest_phrase(
    phrases: Map<Seq<char>, Seq<Seq<char>>>,
    s: Seq<char>,
    n: nat,
) -> nat
    decreases n,
{
    if n == 0 {
        0
    } else if phrases.contains_key(s.take(n as int)) {
        n
    } else {
        longest_phrase(phrases, s, (n - 1) as nat)
    }
}

pub proof fn lemma_longest_phrase_bound(
    phrases: Map<Seq<char>, Seq<Seq<char>>>,
    s: Seq<char>,
    n: nat,
)
    ensures
        longest_phrase(phrases, s, n) <= n,
        longest_phrase(phrases, s, n) > 0 ==> phrases.contains_key(
            s.take(longest_phrase(phrases, s, n) as int),
        ),
    decreases n,
{
    if n > 0 {
        lemma_longest_phrase_bound(phrases, s, (n - 1) as nat);
    }
}

/// The longest phrase looked up at a position: at most eight characters.
pub open spec fn phrase_window(s: Seq<char>) -> nat {
    if s.len() < 8 {
        s.len()
    } else {
        8
    }
}

/// The first listed reading of the character `c`, if the word table has one.
pub open spec fn first_reading(words: Map<Seq<char>, Seq<Seq<char>>>, c: char) -> Seq<Seq<char>> {
    if words.contains_key(seq![c]) && words[seq![c]].len() > 0 {
        seq![words[seq![c]][0]]
    } else {
        Seq::<Seq<char>>::empty()
    }
}

/// The syllables of `s`, read left to right: at each CJK character the longest
/// dictionary phrase (up to eight characters) starting there gives its
/// syllables; failing that the character's first reading, if any; characters
/// that are not CJK are skipped.
pub open spec fn cn_syllables(
    phrases: Map<Seq<char>, Seq<Seq<char>>>,
    words: Map<Seq<char>, Seq<Seq<char>>>,
    s: Seq<char>,
) -> Seq<Seq<char>>
    decreases s.len(),
{
    if s.len() == 0 {
        Seq::<Seq<char>>::empty()
    } else if !cjk_char(s[0]) {
        cn_syllables(phrases, words, s.drop_first())
    } else {
        let l: nat = longest_phrase(phrases, s, phrase_window(s));
        proof {
            lemma_longest_phrase_bound(phrases, s, phrase_window(s));
        }
        if l > 0 {
            phrases[s.take(l as int)] + cn_syllables(phrases, words, s.skip(l as int))
        } else {
            first_reading(words, s[0]) + cn_syllables(phrases, words, s.drop_first())
        }
    }
}

/// The Chinese transcription of `text`: the syllables of its simplified form,
/// separated by single spaces.
pub open spec fn cn_transcription(
    phrases: Map<Seq<char>, Seq<Seq<char>>>,
    words: Map<Seq<char>, Seq<Seq<char>>>,
    trans: Map<Seq<char>, Seq<char>>,
    text: Seq<char>,
) -> Seq<char> {
    join(cn_syllables(phrases, words, simplified(trans, text)), " "@)
}

/// Removing tone marks twice removes nothing more, and keeps the length.
pub proof fn law_strip_tone_idempotent(s: Seq<char>)
    ensures
        toneless(toneless(s)) == toneless(s),
        toneless(s).len() == s.len(),
{
    assert(toneless(toneless(s)) =~= toneless(s));
}

/// Text without CJK characters has no Chinese syllables.
pub proof fn law_non_cjk_has_no_syllables(
    phrases: Map<Seq<char>, Seq<Seq<char>>>,
    words: Map<Seq<char>, Seq<Seq<char>>>,
    s: Seq<char>,
)
    requires
        forall|i: int| 0 <= i < s.len() ==> !cjk_char(#[trigger] s[i]),
    ensures
        cn_syllables(phrases, words, s) == Seq::<Seq<char>>::empty(),
    decreases s.len(),
{
    if s.len() > 0 {
        assert(!cjk_char(s[0]));
        assert forall|i: int| 0 <= i < s.drop_first().len() implies !cjk_char(#[trigger] s.drop_first()[i]) by {
            assert(s.drop_first()[i] == s[i + 1]);
        }
        law_non_cjk_has_no_syllables(phrases, words, s.drop_first());
    }
}

/// The longest phrase length found is the largest `l` in `1..=n` for which
/// the first `l` characters of `s` are a phrase key, or 0 when there is none.
pub proof fn law_longest_phrase_is_largest(
    phrases: Map<Seq<char>, Seq<Seq<char>>>,
    s: Seq<char>,
    n: nat,
)
    ensures
        longest_phrase(phrases, s, n) <= n,
        longest_phrase(phrases, s, n) > 0 ==> phrases.contains_key(
            s.take(longest_phrase(phrases, s, n) as int),
        ),
        forall|l: nat|
            longest_phrase(phrases, s, n) < l <= n ==> !phrases.contains_key(#[trigger] s.take(l as int)),
    decreases n,
{
    if n > 0 {
        law_longest_phrase_is_largest(phrases, s, (n - 1) as nat);
    }
}

/// Text whose simplified form holds no CJK character transcribes to the
/// empty string, whatever the dictionaries hold.
pub proof fn law_non_cjk_transcribes_empty(
    phrases: Map<Seq<char>, Seq<Seq<char>>>,
    words: Map<Seq<char>, Seq<Seq<char>>>,
    trans: Map<Seq<char>, Seq<char>>,
    text: Seq<char>,
)
    requires
        forall|i: int|
            0 <= i < simplified(trans, text).len() ==> !cjk_char(#[trigger] simplified(trans, text)[i]),
    ensures
        cn_transcription(phrases, words, trans, text) == Seq::<char>::empty(),
{
    law_non_cjk_has_no_syllables(phrases, words, simplified(trans, text));
}

/// Simplification works character by character: the simplified form of two
/// texts one after the other is their simplified forms one after the other,
/// so a replacement is never looked up again.
pub proof fn law_simplified_concat(trans: Map<Seq<char>, Seq<char>>, a: Seq<char>, b: Seq<char>)
    ensures
        simplified(trans, a + b) == simplified(trans, a) + simplified(trans, b),
    decreases b.len(),
{
    if b.len() == 0 {
        assert(a + b =~= a);
        assert(simplified(trans, a) + simplified(trans, b) =~= simplified(trans, a));
    } else {
        law_simplified_concat(trans, a, b.drop_last());
        assert((a + b).drop_last() =~= a + b.drop_last());
        assert((a + b).last() == b.last());
        let r = if trans.contains_key(seq![b.last()]) {
            trans[seq![b.last()]]
        } else {
            seq![b.last()]
        };
        assert(simplified(trans, a) + simplified(trans, b.drop_last()) + r =~= simplified(trans, a) + (
        simplified(trans, b.drop_last()) + r));
    }
}

/// An empty conversion table gives the text back.
pub proof fn law_simplified_empty_table(s: Seq<char>)
    ensures
        simplified(Map::<Seq<char>, Seq<char>>::empty(), s) == s,
    decreases s.len(),
{
    if s.len() > 0 {
        law_simplified_empty_table(s.drop_last());
        assert(s.drop_last().push(s.last()) =~= s);
        assert(s.drop_last() + seq![s.last()] =~= s);
    }
}

/// The key of a dictionary line, if it has one.
pub open spec fn line_key(line: Seq<char>) -> Option<Seq<char>> {
    match split_once(line, ':') {
        Some((k, _)) => Some(k),
        None => None,
    }
}

/// Loading lines that have no line with key `k` leaves the entry for `k` as it was.
pub proof fn law_load_keeps_other_keys(
    m: Map<Seq<char>, Seq<Seq<char>>>,
    lines: Seq<Seq<char>>,
    k: Seq<char>,
)
    requires
        forall|i: int| 0 <= i < lines.len() ==> line_key(#[trigger] lines[i]) != Some(k),
    ensures
        load_syllables(m, lines).contains_key(k) == m.contains_key(k),
        m.contains_key(k) ==> load_syllables(m, lines)[k] == m[k],
    decreases lines.len(),
{
    if lines.len() > 0 {
        assert forall|i: int| 0 <= i < lines.drop_last().len() implies line_key(
            #[trigger] lines.drop_last()[i],
        ) != Some(k) by {
            assert(lines.drop_last()[i] == lines[i]);
        }
        law_load_keeps_other_keys(m, lines.drop_last(), k);
        assert(line_key(lines[lines.len() - 1]) != Some(k));
    }
}

/// After loading, the entry for a key holds the syllables of the last line
/// with that key.
pub proof fn law_load_last_line_wins(
    m: Map<Seq<char>, Seq<Seq<char>>>,
    lines: Seq<Seq<char>>,
    i: int,
    k: Seq<char>,
    v: Seq<char>,
)
    requires
        0 <= i < lines.len(),
        split_once(lines[i], ':') == Some((k, v)),
        forall|j: int| i < j < lines.len() ==> line_key(#[trigger] lines[j]) != Some(k),
    ensures
        load_syllables(m, lines).contains_key(k),
        load_syllables(m, lines)[k] == syllables_of(v),
    decreases lines.len(),
{
    if i < lines.len() - 1 {
        assert forall|j: int| i < j < lines.drop_last().len() implies line_key(
            #[trigger] lines.drop_last()[j],
        ) != Some(k) by {
            assert(lines.drop_last()[j] == lines[j]);
        }
        assert(lines.drop_last()[i] == lines[i]);
        law_load_last_line_wins(m, lines.drop_last(), i, k, v);
        assert(line_key(lines[lines.len() - 1]) != Some(k));
    } else {
        assert(lines.last() == lines[i]);
    }
}

/// A character is CJK exactly when its code point lies in U+4E00..=U+9FFF,
/// U+3400..=U+4DBF or U+F900..=U+FAFF.
pub proof fn law_cjk_code_points(c: char)
    ensures
        cjk_char(c) <==> ((0x4E00 <= (c as int) && (c as int) <= 0x9FFF) || (0x3400 <= (c as int) && (c
            as int) <= 0x4DBF) || (0xF900 <= (c as int) && (c as int) <= 0xFAFF)),
{
}

/// A character in those code point ranges that starts no phrase is read by
/// the first reading the word table gives it.
pub proof fn law_cjk_char_reading(
    phrases: Map<Seq<char>, Seq<Seq<char>>>,
    words: Map<Seq<char>, Seq<Seq<char>>>,
    c: char,
)
    requires
        (0x4E00 <= (c as int) && (c as int) <= 0x9FFF) || (0x3400 <= (c as int) && (c as int) <= 0x4DBF)
            || (0xF900 <= (c as int) && (c as int) <= 0xFAFF),
        !phrases.contains_key(seq![c]),
        words.contains_key(seq![c]),
        words[seq![c]].len() > 0,
    ensures
        cn_syllables(phrases, words, seq![c]) == seq![words[seq![c]][0]],
{
    let s = seq![c];
    assert(s.take(1) =~= s);
    assert(phrase_window(s) == 1);
    assert(!phrases.contains_key(s.take(1)));
    assert(longest_phrase(phrases, s, 0) == 0);
    assert(longest_phrase(phrases, s, 1) == longest_phrase(phrases, s, 0));
    assert(s.drop_first() =~= Seq::<char>::empty());
    assert(cn_syllables(phrases, words, s) == first_reading(words, c) + cn_syllables(
        phrases,
        words,
        Seq::<char>::empty(),
    ));
    assert(first_reading(words, c) + Seq::<Seq<char>>::empty() =~= seq![words[seq![c]][0]]);
}

/// The pinyin vowel `v` (one of a, e, i, o, u, ü and their capitals) with tone
/// mark `tone` (1 to 4: macron, acute, caron, grave).
pub open spec fn toned(v: char, tone: int) -> char {
    let marks: Seq<char> = if v == 'a' {
        seq!['ā', 'á', 'ǎ', 'à']
    } else if v == 'e' {
        seq!['ē', 'é', 'ě', 'è']
    } else if v == 'i' {
        seq!['ī', 'í', 'ǐ', 'ì']
    } else if v == 'o' {
        seq!['ō', 'ó', 'ǒ', 'ò']
    } else if v == 'u' {
        seq!['ū', 'ú', 'ǔ', 'ù']
    } else if v == 'ü' {
        seq!['ǖ', 'ǘ', 'ǚ', 'ǜ']
    } else if v == 'A' {
        seq!['Ā', 'Á', 'Ǎ', 'À']
    } else if v == 'E' {
        seq!['Ē', 'É', 'Ě', 'È']
    } else if v == 'I' {
        seq!['Ī', 'Í', 'Ǐ', 'Ì']
    } else if v == 'O' {
        seq!['Ō', 'Ó', 'Ǒ', 'Ò']
    } else if v == 'U' {
        seq!['Ū', 'Ú', 'Ǔ', 'Ù']
    } else {
        seq!['Ǖ', 'Ǘ', 'Ǚ', 'Ǜ']
    };
    marks[tone - 1]
}

/// The letter a toneless vowel is written with: itself, except that ü is
/// written v (and Ü as V).
pub open spec fn plain_letter(v: char) -> char {
    if v == 'ü' {
        'v'
    } else if v == 'Ü' {
        'V'
    } else {
        v
    }
}

/// Removing a tone mark keeps the vowel: each of the four toned forms of a
/// pinyin vowel becomes the vowel's plain letter, as does the untoned ü.
pub proof fn law_tone_mark_keeps_vowel(v: char, tone: int)
    requires
        v == 'a' || v == 'e' || v == 'i' || v == 'o' || v == 'u' || v == 'ü' || v == 'A' || v == 'E'
            || v == 'I' || v == 'O' || v == 'U' || v == 'Ü',
        1 <= tone <= 4,
    ensures
        tone_base(toned(v, tone)) == plain_letter(v),
        tone_base(v) == plain_letter(v),
{
}

/// A copy of a character vector.
fn copy_chars(v: &Vec<char>) -> (r: Vec<char>)
    ensures
        r@ == v@,
{
    let mut r: Vec<char> = Vec::new();
    push_all(&mut r, v);
    r
}

/// Transcribes Chinese text to toneless pinyin or jyutping, and kana to romaji.
pub struct Transcriber {
    phrases: StringHashMap<Vec<Vec<char>>>,
    words: StringHashMap<Vec<Vec<char>>>,
    trans: StringHashMap<Vec<char>>,
}

impl Transcriber {
    /// The phrase dictionary.
    pub closed spec fn phrase_table(&self) -> Map<Seq<char>, Seq<Seq<char>>> {
        syllable_view(self.phrases@)
    }

    /// The single-character dictionary.
    pub closed spec fn word_table(&self) -> Map<Seq<char>, Seq<Seq<char>>> {
        syllable_view(self.words@)
    }

    /// The traditional-to-simplified conversion table.
    pub closed spec fn conversion_table(&self) -> Map<Seq<char>, Seq<char>> {
        text_view(self.trans@)
    }

    /// Builds the dictionaries from the dictionary texts: for each table the
    /// Mandarin file first, then the Cantonese file, whose entries replace
    /// Mandarin entries with the same key.
    pub fn new(sources: &DictSources) -> (t: Self)
        ensures
            t.phrase_table() == sources.phrase_table(),
            t.word_table() == sources.word_table(),
            t.conversion_table() == sources.conversion_table(),
    {
        let mut phrases: StringHashMap<Vec<Vec<char>>> = StringHashMap::new();
        let mut words: StringHashMap<Vec<Vec<char>>> = StringHashMap::new();
        let mut trans: StringHashMap<Vec<char>> = StringHashMap::new();
        assert(syllable_view(phrases@) =~= Map::<Seq<char>, Seq<Seq<char>>>::empty());
        assert(syllable_view(words@) =~= Map::<Seq<char>, Seq<Seq<char>>>::empty());
        assert(text_view(trans@) =~= Map::<Seq<char>, Seq<char>>::empty());

        if let Some(t) = &sources.mandarin_phrases {
            load_phrases(&mut phrases, t.as_str());
        }
        if let Some(t) = &sources.mandarin_words {
            load_phrases(&mut words, t.as_str());
        }
        if let Some(t) = &sources.mandarin_trans {
            load_trans(&mut trans, t.as_str());
        }
        if let Some(t) = &sources.cantonese_phrases {
            load_phrases(&mut phrases, t.as_str());
        }
        if let Some(t) = &sources.cantonese_words {
            load_phrases(&mut words, t.as_str());
        }
        if let Some(t) = &sources.cantonese_trans {
            load_trans(&mut trans, t.as_str());
        }
        Transcriber { phrases, words, trans }
    }

    /// Transcribes `text`: Chinese characters to toneless syllables
    /// (pinyin and Cantonese modes share the loaded dictionaries), kana to romaji.
    pub fn transcribe(&self, text: &str, mode: &Mode) -> (r: String)
        ensures
            r@ == match mode {
                Mode::Romaji => romaji(text@),
                _ => cn_transcription(
                    self.phrase_table(),
                    self.word_table(),
                    self.conversion_table(),
                    text@,
                ),
            },
    {
        match mode {
            Mode::Pinyin => self.transcribe_cn(text, false),
            Mode::Cantonese => self.transcribe_cn(text, true),
            Mode::Romaji => kana_to_romaji(text),
        }
    }

    /// `text` with traditional characters replaced by simplified ones.
    pub fn to_simplified(&self, text: &str) -> (r: Vec<char>)
        ensures
            r@ == simplified(self.conversion_table(), text@),
    {
        let s = chars_of(text);
        let mut out: Vec<char> = Vec::new();
        let mut i: usize = 0;
        assert(s@.take(0) =~= Seq::<char>::empty());
        while i < s.len()
            invariant
                i <= s.len(),
                s@ == text@,
                out@ == simplified(self.conversion_table(), s@.take(i as int)),
            decreases s.len() - i,
        {
            let c = s[i];
            let mut one: Vec<char> = Vec::new();
            one.push(c);
            let key = string_of(&one);
            assert(s@.take(i + 1).drop_last() =~= s@.take(i as int));
            assert(key@ =~= seq![c]);
            match self.trans.get(key.as_str()) {
                Some(rep) => {
                    push_all(&mut out, rep);
                },
                None => {
                    out.push(c);
                },
            }
            i += 1;
        }
        assert(s@.take(s@.len() as int) =~= s@);
        out
    }

    /// The syllables of the Chinese text `text`, separated by single spaces.
    /// Both schemes read from the same loaded dictionaries.
    pub fn transcribe_cn(&self, text: &str, cantonese: bool) -> (r: String)
        ensures
            r@ == cn_transcription(
                self.phrase_table(),
                self.word_table(),
                self.conversion_table(),
                text@,
            ),
    {
        let s = self.to_simplified(text);
        let ghost ph = self.phrase_table();
        let ghost wd = self.word_table();
        let mut result: Vec<Vec<char>> = Vec::new();
        let mut i: usize = 0;
        assert(s@.skip(0) =~= s@);
        while i < s.len()
            invariant
                i <= s.len(),
                ph == self.phrase_table(),
                wd == self.word_table(),
                cn_syllables(ph, wd, s@) == views(result@) + cn_syllables(ph, wd, s@.skip(i as int)),
            decreases s.len() - i,
        {
            let ghost t = s@.skip(i as int);
            assert(t.drop_first() =~= s@.skip(i + 1));
            if is_cjk(s[i]) {
                let max_len: usize = if s.len() - i < 8 {
                    s.len() - i
                } else {
                    8
                };
                assert(max_len == phrase_window(t));
                let mut len: usize = max_len;
                let mut matched = false;
                let ghost i0 = i;
                while len >= 1
                    invariant_except_break
                        0 <= len <= max_len,
                        max_len == phrase_window(t),
                        i + max_len <= s.len(),
                        t == s@.skip(i as int),
                        i == i0,
                        i < s.len(),
                        t.len() > 0,
                        cjk_char(t[0]),
                        !matched,
                        longest_phrase(ph, t, max_len as nat) == longest_phrase(ph, t, len as nat),
                        cn_syllables(ph, wd, s@) == views(result@) + cn_syllables(ph, wd, t),
                    invariant
                        ph == self.phrase_table(),
                        wd == self.word_table(),
                    ensures
                        matched ==> i0 < i && i <= s.len() && cn_syllables(ph, wd, s@) == views(result@)
                            + cn_syllables(ph, wd, s@.skip(i as int)),
                        !matched ==> longest_phrase(ph, t, max_len as nat) == 0
                            && cn_syllables(ph, wd, s@) == views(result@) + cn_syllables(ph, wd, t)
                            && t == s@.skip(i as int) && i < s.len() && i == i0 && t.len() > 0
                            && cjk_char(t[0]),
                    decreases len,
                {
                    let mut key_chars: Vec<char> = Vec::new();
                    push_range(&mut key_chars, &s, i, i + len);
                    let key = string_of(&key_chars);
                    assert(key@ =~= t.take(len as int));
                    if let Some(syllables) = self.phrases.get(key.as_str()) {
                        let ghost before = views(result@);
                        let mut k: usize = 0;
                        while k < syllables.len()
                            invariant
                                k <= syllables.len(),
                                views(result@) == before + views(syllables@).take(k as int),
                            decreases syllables.len() - k,
                        {
                            let syl = copy_chars(&syllables[k]);
                            let ghost r0 = views(result@);
                            result.push(syl);
                            assert(views(result@) =~= r0.push(syllables@[k as int]@));
                            assert(views(syllables@).take(k + 1) =~= views(syllables@).take(
                                k as int,
                            ).push(syllables@[k as int]@));
                            assert(views(result@) =~= before + views(syllables@).take(k + 1));
                            k += 1;
                        }
                        assert(views(syllables@).take(syllables@.len() as int) =~= views(syllables@));
                        assert(ph[t.take(len as int)] == views(syllables@));
                        assert(longest_phrase(ph, t, len as nat) == len);
                        assert(t.skip(len as int) =~= s@.skip(i + len));
                        assert(views(result@) + cn_syllables(ph, wd, s@.skip(i + len)) =~= before
                            + (ph[t.take(len as int)] + cn_syllables(ph, wd, t.skip(len as int))));
                        i += len;
                        matched = true;
                        break;
                    }
                    len -= 1;
                }
                if !matched {
                    let mut one: Vec<char> = Vec::new();
                    one.push(s[i]);
                    let ch = string_of(&one);
                    assert(ch@ =~= seq![t[0]]);
                    let ghost before = views(result@);
                    if let Some(syllables) = self.words.get(ch.as_str()) {
                        if syllables.len() > 0 {
                            let first = copy_chars(&syllables[0]);
                            result.push(first);
                            assert(views(result@) =~= before + seq![views(syllables@)[0]]);
                        }
                    }
                    assert(views(result@) =~= before + first_reading(wd, t[0]));
                    i += 1;
                }
            } else {
                i += 1;
            }
        }
        assert(s@.skip(s@.len() as int) =~= Seq::<char>::empty());
        assert(views(result@) + Seq::<Seq<char>>::empty() =~= views(result@));
        let joined = join_chars(&result, " ");
        string_of(&joined)
    }
}

} // verus!
