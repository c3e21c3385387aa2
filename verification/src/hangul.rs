//! Hangul letters (compatibility jamo), their positions in the syllable
//! tables, and syllable composition.
use vstd::prelude::*;

verus! {

/// The 19 initial consonants, in syllable-table order.
pub open spec fn choseong() -> Seq<char> {
    seq![
        'ㄱ', 'ㄲ', 'ㄴ', 'ㄷ', 'ㄸ', 'ㄹ', 'ㅁ', 'ㅂ', 'ㅃ', 'ㅅ', 'ㅆ', 'ㅇ', 'ㅈ', 'ㅉ',
        'ㅊ', 'ㅋ', 'ㅌ', 'ㅍ', 'ㅎ',
    ]
}

/// The 21 medial vowels, in syllable-table order.
pub open spec fn jungseong() -> Seq<char> {
    seq![
        'ㅏ', 'ㅐ', 'ㅑ', 'ㅒ', 'ㅓ', 'ㅔ', 'ㅕ', 'ㅖ', 'ㅗ', 'ㅘ', 'ㅙ', 'ㅚ', 'ㅛ', 'ㅜ',
        'ㅝ', 'ㅞ', 'ㅟ', 'ㅠ', 'ㅡ', 'ㅢ', 'ㅣ',
    ]
}

/// The 27 final consonants, in syllable-table order (the table's index 0,
/// "no final", is not listed, so `jongseong()[k - 1]` is final number `k`).
pub open spec fn jongseong() -> Seq<char> {
    seq![
        'ㄱ', 'ㄲ', 'ㄳ', 'ㄴ', 'ㄵ', 'ㄶ', 'ㄷ', 'ㄹ', 'ㄺ', 'ㄻ', 'ㄼ', 'ㄽ', 'ㄾ', 'ㄿ',
        'ㅀ', 'ㅁ', 'ㅂ', 'ㅄ', 'ㅅ', 'ㅆ', 'ㅇ', 'ㅈ', 'ㅊ', 'ㅋ', 'ㅌ', 'ㅍ', 'ㅎ',
    ]
}

/// The first index at or after `i` at which `t` holds `c`.
pub open spec fn position_from(t: Seq<char>, c: char, i: int) -> Option<int>
    decreases t.len() - i,
{
    if i < 0 || i >= t.len() {
        None
    } else if t[i] == c {
        Some(i)
    } else {
        position_from(t, c, i + 1)
    }
}

/// The first index at which `t` holds `c`.
pub open spec fn position(t: Seq<char>, c: char) -> Option<int> {
    position_from(t, c, 0)
}

pub proof fn lemma_position_from(t: Seq<char>, c: char, i: int)
    requires
        0 <= i,
    ensures
        match position_from(t, c, i) {
            Some(k) => i <= k < t.len() && t[k] == c && forall|j: int| i <= j < k ==> t[j] != c,
            None => forall|j: int| i <= j < t.len() ==> t[j] != c,
        },
    decreases t.len() - i,
{
    if i < t.len() && t[i] != c {
        lemma_position_from(t, c, i + 1);
    }
}

/// Index of `c` among the initial consonants.
pub open spec fn spec_cho_index(c: char) -> Option<int> {
    position(choseong(), c)
}

/// Index of `c` among the medial vowels.
pub open spec fn spec_jung_index(c: char) -> Option<int> {
    position(jungseong(), c)
}

/// Syllable-table number (1-based) of `c` as a final consonant.
pub open spec fn spec_jong_index(c: char) -> Option<int> {
    match position(jongseong(), c) {
        Some(i) => Some(i + 1),
        None => None,
    }
}

/// The code point of the precomposed syllable with initial `cho`, medial
/// `jung` and final number `jong` (0 for none).
pub open spec fn syllable_code(cho: int, jung: int, jong: int) -> int {
    0xAC00 + cho * 21 * 28 + jung * 28 + jong
}

/// Indices that name a syllable.
pub open spec fn syllable_indices(cho: int, jung: int, jong: int) -> bool {
    0 <= cho < 19 && 0 <= jung < 21 && 0 <= jong < 28
}

/// `char::from_u32`: the character with that code point, `None` for a
/// surrogate or a value beyond `U+10FFFF`, as std documents.
#[verifier::external_body]
pub fn char_from_u32(code: u32) -> (c: Option<char>)
    ensures
        c.is_some() == (code < 0xD800 || (0xE000 <= code && code <= 0x10FFFF)),
        c.is_some() ==> c == Some(code as char),
{
    char::from_u32(code)
}

/// The first position of `c` in `t`.
pub fn find_position(t: &[char], c: char) -> (r: Option<usize>)
    ensures
        match r {
            Some(i) => position(t@, c) == Some(i as int),
            None => position(t@, c) is None,
        },
{
    let mut i: usize = 0;
    while i < t.len()
        invariant
            i <= t.len(),
            position(t@, c) == position_from(t@, c, i as int),
        decreases t.len() - i,
    {
        if t[i] == c {
            return Some(i);
        }
        i = i + 1;
    }
    None
}

pub fn cho_index(c: char) -> (r: Option<u32>)
    ensures
        match r {
            Some(i) => spec_cho_index(c) == Some(i as int),
            None => spec_cho_index(c) is None,
        },
{
    let t: [char; 19] = [
        'ㄱ', 'ㄲ', 'ㄴ', 'ㄷ', 'ㄸ', 'ㄹ', 'ㅁ', 'ㅂ', 'ㅃ', 'ㅅ', 'ㅆ', 'ㅇ', 'ㅈ', 'ㅉ',
        'ㅊ', 'ㅋ', 'ㅌ', 'ㅍ', 'ㅎ',
    ];
    assert(t@ == choseong());
    match find_position(&t, c) {
        Some(i) => {
            proof { lemma_position_from(choseong(), c, 0); }
            Some(i as u32)
        },
        None => None,
    }
}

pub fn jung_index(c: char) -> (r: Option<u32>)
    ensures
        match r {
            Some(i) => spec_jung_index(c) == Some(i as int),
            None => spec_jung_index(c) is None,
        },
{
    let t: [char; 21] = [
        'ㅏ', 'ㅐ', 'ㅑ', 'ㅒ', 'ㅓ', 'ㅔ', 'ㅕ', 'ㅖ', 'ㅗ', 'ㅘ', 'ㅙ', 'ㅚ', 'ㅛ', 'ㅜ',
        'ㅝ', 'ㅞ', 'ㅟ', 'ㅠ', 'ㅡ', 'ㅢ', 'ㅣ',
    ];
    assert(t@ == jungseong());
    match find_position(&t, c) {
        Some(i) => {
            proof { lemma_position_from(jungseong(), c, 0); }
            Some(i as u32)
        },
        None => None,
    }
}

pub fn jong_index(c: char) -> (r: Option<u32>)
    ensures
        match r {
            Some(i) => spec_jong_index(c) == Some(i as int),
            None => spec_jong_index(c) is None,
        },
{
    let t: [char; 27] = [
        'ㄱ', 'ㄲ', 'ㄳ', 'ㄴ', 'ㄵ', 'ㄶ', 'ㄷ', 'ㄹ', 'ㄺ', 'ㄻ', 'ㄼ', 'ㄽ', 'ㄾ', 'ㄿ',
        'ㅀ', 'ㅁ', 'ㅂ', 'ㅄ', 'ㅅ', 'ㅆ', 'ㅇ', 'ㅈ', 'ㅊ', 'ㅋ', 'ㅌ', 'ㅍ', 'ㅎ',
    ];
    assert(t@ == jongseong());
    match find_position(&t, c) {
        Some(i) => {
            proof { lemma_position_from(jongseong(), c, 0); }
            Some((i + 1) as u32)
        },
        None => None,
    }
}

/// The initial consonant with index `i`.
pub fn cho_char(i: u32) -> (c: char)
    requires
        i < 19,
    ensures
        c == choseong()[i as int],
{
    let t: [char; 19] = [
        'ㄱ', 'ㄲ', 'ㄴ', 'ㄷ', 'ㄸ', 'ㄹ', 'ㅁ', 'ㅂ', 'ㅃ', 'ㅅ', 'ㅆ', 'ㅇ', 'ㅈ', 'ㅉ',
        'ㅊ', 'ㅋ', 'ㅌ', 'ㅍ', 'ㅎ',
    ];
    assert(t@ == choseong());
    t[i as usize]
}

/// The final consonant with syllable-table number `k` (1-based).
pub fn jong_char(k: u32) -> (c: char)
    requires
        1 <= k <= 27,
    ensures
        c == jongseong()[k - 1],
{
    let t: [char; 27] = [
        'ㄱ', 'ㄲ', 'ㄳ', 'ㄴ', 'ㄵ', 'ㄶ', 'ㄷ', 'ㄹ', 'ㄺ', 'ㄻ', 'ㄼ', 'ㄽ', 'ㄾ', 'ㄿ',
        'ㅀ', 'ㅁ', 'ㅂ', 'ㅄ', 'ㅅ', 'ㅆ', 'ㅇ', 'ㅈ', 'ㅊ', 'ㅋ', 'ㅌ', 'ㅍ', 'ㅎ',
    ];
    assert(t@ == jongseong());
    t[(k - 1) as usize]
}

/// The precomposed syllable of the given table indices.
pub fn compose_syllable(cho: u32, jung: u32, jong: u32) -> (c: char)
    requires
        syllable_indices(cho as int, jung as int, jong as int),
    ensures
        c == syllable_code(cho as int, jung as int, jong as int) as char,
{
    assert(cho * 21 * 28 <= 18 * 21 * 28 && jung * 28 <= 20 * 28) by (nonlinear_arith)
        requires
            cho < 19,
            jung < 21,
    ;
    let code = 0xAC00 + cho * 21 * 28 + jung * 28 + jong;
    char_from_u32(code).unwrap()
}


/// Every choice of indices names its own syllable, within the Hangul
/// Syllables block (U+AC00 to U+D7A3).
pub proof fn lemma_syllables_distinct(c1: int, j1: int, k1: int, c2: int, j2: int, k2: int)
    requires
        syllable_indices(c1, j1, k1),
        syllable_indices(c2, j2, k2),
    ensures
        0xAC00 <= syllable_code(c1, j1, k1) <= 0xD7A3,
        syllable_code(c1, j1, k1) == syllable_code(c2, j2, k2) ==> c1 == c2 && j1 == j2 && k1 == k2,
{
    assert(0 <= c1 * 21 * 28 + j1 * 28 + k1 <= 18 * 588 + 20 * 28 + 27) by (nonlinear_arith)
        requires
            syllable_indices(c1, j1, k1),
    ;
    if syllable_code(c1, j1, k1) == syllable_code(c2, j2, k2) {
        let a = j1 * 28 + k1;
        let b = j2 * 28 + k2;
        assert(0 <= a < 588 && 0 <= b < 588) by (nonlinear_arith)
            requires
                syllable_indices(c1, j1, k1),
                syllable_indices(c2, j2, k2),
                a == j1 * 28 + k1,
                b == j2 * 28 + k2,
        ;
        assert(c1 == c2) by (nonlinear_arith)
            requires
                c1 * 588 + a == c2 * 588 + b,
                0 <= a < 588,
                0 <= b < 588,
        {
            assert(c1 * 21 * 28 == c1 * 588);
        }
        assert(j1 == j2) by (nonlinear_arith)
            requires
                j1 * 28 + k1 == j2 * 28 + k2,
                0 <= k1 < 28,
                0 <= k2 < 28,
        ;
    }
}

} // verus!
