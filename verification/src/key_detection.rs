//! Musical keys and their notations.
//!
//! The 24 keys (12 major, 12 minor) can be written in Camelot Wheel
//! notation (major `B`, minor `A`), Open Key notation (major `d`, minor `m`)
//! and standard notation (`C`, `F#m`, `Eb`, ...).

use vstd::prelude::*;
use vstd::string::*;

verus! {

/// One of the 24 musical keys (12 major + 12 minor).
#[derive(Debug, Clone, Copy, PartialEq, Eq, Hash, Structural)]
pub enum MusicalKey {
    CMajor,
    CMinor,
    CSharpMajor,
    CSharpMinor,
    DMajor,
    DMinor,
    EFlatMajor,
    EFlatMinor,
    EMajor,
    EMinor,
    FMajor,
    FMinor,
    FSharpMajor,
    FSharpMinor,
    GMajor,
    GMinor,
    AFlatMajor,
    AFlatMinor,
    AMajor,
    AMinor,
    BFlatMajor,
    BFlatMinor,
    BMajor,
    BMinor,
}

/// Pitch class of the key's tonic (0 = C, 1 = C#, ..., 11 = B).
pub open spec fn spec_pitch_class(k: MusicalKey) -> int {
    match k {
        MusicalKey::CMajor => 0,
        MusicalKey::CMinor => 0,
        MusicalKey::CSharpMajor => 1,
        MusicalKey::CSharpMinor => 1,
        MusicalKey::DMajor => 2,
        MusicalKey::DMinor => 2,
        MusicalKey::EFlatMajor => 3,
        MusicalKey::EFlatMinor => 3,
        MusicalKey::EMajor => 4,
        MusicalKey::EMinor => 4,
        MusicalKey::FMajor => 5,
        MusicalKey::FMinor => 5,
        MusicalKey::FSharpMajor => 6,
        MusicalKey::FSharpMinor => 6,
        MusicalKey::GMajor => 7,
        MusicalKey::GMinor => 7,
        MusicalKey::AFlatMajor => 8,
        MusicalKey::AFlatMinor => 8,
        MusicalKey::AMajor => 9,
        MusicalKey::AMinor => 9,
        MusicalKey::BFlatMajor => 10,
        MusicalKey::BFlatMinor => 10,
        MusicalKey::BMajor => 11,
        MusicalKey::BMinor => 11,
    }
}

/// Whether the key is major.
pub open spec fn spec_is_major(k: MusicalKey) -> bool {
    match k {
        MusicalKey::CMajor => true,
        MusicalKey::CMinor => false,
        MusicalKey::CSharpMajor => true,
        MusicalKey::CSharpMinor => false,
        MusicalKey::DMajor => true,
        MusicalKey::DMinor => false,
        MusicalKey::EFlatMajor => true,
        MusicalKey::EFlatMinor => false,
        MusicalKey::EMajor => true,
        MusicalKey::EMinor => false,
        MusicalKey::FMajor => true,
        MusicalKey::FMinor => false,
        MusicalKey::FSharpMajor => true,
        MusicalKey::FSharpMinor => false,
        MusicalKey::GMajor => true,
        MusicalKey::GMinor => false,
        MusicalKey::AFlatMajor => true,
        MusicalKey::AFlatMinor => false,
        MusicalKey::AMajor => true,
        MusicalKey::AMinor => false,
        MusicalKey::BFlatMajor => true,
        MusicalKey::BFlatMinor => false,
        MusicalKey::BMajor => true,
        MusicalKey::BMinor => false,
    }
}

/// Position of the key on the Camelot wheel (1..=12): a fifth up moves one
/// step clockwise, C major is 8 and a minor key shares the number of its
/// relative major (three semitones up).
pub open spec fn camelot_number(k: MusicalKey) -> int {
    let p = spec_pitch_class(k);
    if spec_is_major(k) {
        (7 * p + 7) % 12 + 1
    } else {
        (7 * (p + 3) + 7) % 12 + 1
    }
}

/// Position of the key in Open Key notation (1..=12): a fifth up moves one
/// step, C major is 1 and a minor key shares the number of its relative
/// major.
pub open spec fn open_key_number(k: MusicalKey) -> int {
    let p = spec_pitch_class(k);
    if spec_is_major(k) {
        (7 * p) % 12 + 1
    } else {
        (7 * (p + 3)) % 12 + 1
    }
}

/// The decimal digit `d`.
pub open spec fn digit_char(d: int) -> char {
    if d == 0 { '0' } else if d == 1 { '1' } else if d == 2 { '2' } else if d == 3 { '3' }
    else if d == 4 { '4' } else if d == 5 { '5' } else if d == 6 { '6' } else if d == 7 { '7' }
    else if d == 8 { '8' } else { '9' }
}

/// Decimal text of a number below 100.
pub open spec fn number_text(n: int) -> Seq<char> {
    if n < 10 {
        seq![digit_char(n)]
    } else {
        seq![digit_char(n / 10), digit_char(n % 10)]
    }
}

/// Standard name of pitch class `p`.
pub open spec fn pitch_name(p: int) -> Seq<char> {
    if p == 0 { seq!['C'] } else if p == 1 { seq!['C', '#'] } else if p == 2 { seq!['D'] }
    else if p == 3 { seq!['E', 'b'] } else if p == 4 { seq!['E'] } else if p == 5 { seq!['F'] }
    else if p == 6 { seq!['F', '#'] } else if p == 7 { seq!['G'] } else if p == 8 { seq!['A', 'b'] }
    else if p == 9 { seq!['A'] } else if p == 10 { seq!['B', 'b'] } else { seq!['B'] }
}

/// Camelot code of a key, e.g. `8B` for C major and `8A` for A minor.
pub open spec fn camelot_text(k: MusicalKey) -> Seq<char> {
    number_text(camelot_number(k)) + if spec_is_major(k) { seq!['B'] } else { seq!['A'] }
}

/// Open Key code of a key, e.g. `1d` for C major and `1m` for A minor.
pub open spec fn open_key_text(k: MusicalKey) -> Seq<char> {
    number_text(open_key_number(k)) + if spec_is_major(k) { seq!['d'] } else { seq!['m'] }
}

/// Standard notation of a key, e.g. `C`, `Am`, `F#m`, `Eb`.
pub open spec fn standard_text(k: MusicalKey) -> Seq<char> {
    pitch_name(spec_pitch_class(k)) + if spec_is_major(k) { Seq::<char>::empty() } else { seq!['m'] }
}

/// Distinct digits are written differently.
proof fn lemma_digit_injective(a: int, b: int)
    requires
        0 <= a < 10,
        0 <= b < 10,
        digit_char(a) == digit_char(b),
    ensures
        a == b,
{
}

/// Distinct numbers in `1..=12` are written differently.
proof fn lemma_number_text_injective(a: int, b: int)
    requires
        1 <= a <= 12,
        1 <= b <= 12,
        number_text(a) == number_text(b),
    ensures
        a == b,
{
    let ta = number_text(a);
    let tb = number_text(b);
    assert(ta.len() == tb.len());
    if a < 10 {
        assert(ta.len() == 1);
        assert(b < 10);
        assert(ta[0] == digit_char(a));
        assert(tb[0] == digit_char(b));
        lemma_digit_injective(a, b);
    } else {
        assert(ta.len() == 2);
        assert(b >= 10);
        assert(ta[1] == digit_char(a % 10));
        assert(tb[1] == digit_char(b % 10));
        lemma_digit_injective(a % 10, b % 10);
    }
}

/// A key is determined by the pitch class of its tonic and its mode.
proof fn lemma_key_determined(a: MusicalKey, b: MusicalKey)
    requires
        spec_pitch_class(a) == spec_pitch_class(b),
        spec_is_major(a) == spec_is_major(b),
    ensures
        a == b,
{
}

/// Every key's pitch class lies in `0..12`.
proof fn lemma_pitch_class_range(k: MusicalKey)
    ensures
        0 <= spec_pitch_class(k) < 12,
{
}

/// Distinct keys have distinct Camelot codes, distinct Open Key codes and
/// distinct standard names.
pub proof fn law_notations_distinct(a: MusicalKey, b: MusicalKey)
    requires
        a != b,
    ensures
        camelot_text(a) != camelot_text(b),
        open_key_text(a) != open_key_text(b),
        standard_text(a) != standard_text(b),
{
    lemma_pitch_class_range(a);
    lemma_pitch_class_range(b);
    if camelot_text(a) == camelot_text(b) {
        let la = number_text(camelot_number(a)).len();
        let lb = number_text(camelot_number(b)).len();
        assert(camelot_text(a).len() == camelot_text(b).len());
        assert(la == lb);
        assert(camelot_text(a)[la as int] == camelot_text(b)[lb as int]);
        assert(spec_is_major(a) == spec_is_major(b));
        assert(number_text(camelot_number(a)) =~= camelot_text(a).subrange(0, la as int));
        assert(number_text(camelot_number(b)) =~= camelot_text(b).subrange(0, lb as int));
        lemma_number_text_injective(camelot_number(a), camelot_number(b));
        lemma_key_determined(a, b);
    }
    if open_key_text(a) == open_key_text(b) {
        let la = number_text(open_key_number(a)).len();
        let lb = number_text(open_key_number(b)).len();
        assert(open_key_text(a).len() == open_key_text(b).len());
        assert(la == lb);
        assert(open_key_text(a)[la as int] == open_key_text(b)[lb as int]);
        assert(spec_is_major(a) == spec_is_major(b));
        assert(number_text(open_key_number(a)) =~= open_key_text(a).subrange(0, la as int));
        assert(number_text(open_key_number(b)) =~= open_key_text(b).subrange(0, lb as int));
        lemma_number_text_injective(open_key_number(a), open_key_number(b));
        lemma_key_determined(a, b);
    }
    if standard_text(a) == standard_text(b) {
        let ta = standard_text(a);
        let tb = standard_text(b);
        assert(ta.len() == tb.len());
        assert(ta[0] == tb[0]);
        if ta.len() > 1 {
            assert(ta[1] == tb[1]);
        }
        if ta.len() > 2 {
            assert(ta[2] == tb[2]);
        }
        lemma_key_determined(a, b);
    }
}

/// The mode of a key shows in the last letter of its codes: Camelot codes of
/// major keys end in `B` and of minor keys in `A`, Open Key codes end in `d`
/// and `m`, and exactly the minor keys' standard names end in `m`.
pub proof fn law_mode_suffixes(k: MusicalKey)
    ensures
        camelot_text(k).last() == if spec_is_major(k) { 'B' } else { 'A' },
        open_key_text(k).last() == if spec_is_major(k) { 'd' } else { 'm' },
        (standard_text(k).last() == 'm') == !spec_is_major(k),
{
    lemma_pitch_class_range(k);
}

/// The Camelot wheel: C major is `8B`; the major key a fifth up (seven
/// semitones) stands one step clockwise (12 is followed by 1); a minor key
/// shares the number of its relative major (the major key three semitones
/// up) and is written with `A` where the major key has `B`.
pub proof fn law_camelot_wheel(a: MusicalKey, b: MusicalKey)
    ensures
        1 <= camelot_number(a) <= 12,
        camelot_text(a) == number_text(camelot_number(a)) + seq![
            if spec_is_major(a) { 'B' } else { 'A' },
        ],
        camelot_number(MusicalKey::CMajor) == 8,
        spec_is_major(a) && spec_is_major(b) && spec_pitch_class(b) == (spec_pitch_class(a) + 7) % 12
            ==> camelot_number(b) == camelot_number(a) % 12 + 1,
        spec_is_major(a) && !spec_is_major(b) && spec_pitch_class(b) == (spec_pitch_class(a) + 9) % 12
            ==> camelot_number(b) == camelot_number(a),
{
}

/// Open Key notation: C major is `1d`; the major key a fifth up stands one
/// number further (12 is followed by 1); a minor key shares the number of
/// its relative major and is written with `m` where the major key has `d`.
pub proof fn law_open_key_wheel(a: MusicalKey, b: MusicalKey)
    ensures
        1 <= open_key_number(a) <= 12,
        open_key_text(a) == number_text(open_key_number(a)) + seq![
            if spec_is_major(a) { 'd' } else { 'm' },
        ],
        open_key_number(MusicalKey::CMajor) == 1,
        spec_is_major(a) && spec_is_major(b) && spec_pitch_class(b) == (spec_pitch_class(a) + 7) % 12
            ==> open_key_number(b) == open_key_number(a) % 12 + 1,
        spec_is_major(a) && !spec_is_major(b) && spec_pitch_class(b) == (spec_pitch_class(a) + 9) % 12
            ==> open_key_number(b) == open_key_number(a),
{
}

/// The pitch class of a natural note's letter (`C` is 0, `D` 2, `E` 4,
/// `F` 5, `G` 7, `A` 9, `B` 11); -1 for any other character.
pub open spec fn letter_pitch(c: char) -> int {
    if c == 'C' { 0 } else if c == 'D' { 2 } else if c == 'E' { 4 } else if c == 'F' { 5 }
    else if c == 'G' { 7 } else if c == 'A' { 9 } else if c == 'B' { 11 } else { -1 }
}

/// The semitones a name's accidental adds: `#` raises, `b` lowers.
pub open spec fn accidental_of(name: Seq<char>) -> int {
    if name.len() > 1 && name[1] == '#' {
        1
    } else if name.len() > 1 && name[1] == 'b' {
        -1
    } else {
        0
    }
}

/// A standard key name spells the key's tonic: a note letter, raised by
/// `#` or lowered by `b`, gives the tonic's pitch class; `m` follows for
/// minor keys and nothing else does.
pub proof fn law_standard_name_spells_tonic(k: MusicalKey)
    ensures
        ({
            let name = standard_text(k);
            &&& letter_pitch(name[0]) >= 0
            &&& spec_pitch_class(k) == (letter_pitch(name[0]) + accidental_of(name) + 12) % 12
            &&& name.len() == 1 + (if accidental_of(name) == 0 { 0int } else { 1int }) + (if spec_is_major(k) {
                0int
            } else {
                1int
            })
        }),
{
}

/// Rotate a 12-entry key profile given from its tonic so that entry `i` of
/// the result belongs to pitch class `i` for a key whose tonic is pitch class
/// `shift`.
pub fn rotate_profile<T: Copy>(profile: &[T; 12], shift: usize) -> (r: [T; 12])
    requires
        shift <= 12,
    ensures
        forall|i: int| 0 <= i < 12 ==> #[trigger] r@[i] == profile@[(i + 12 - shift) % 12],
{
    let mut rotated = *profile;
    let mut i: usize = 0;
    while i < 12
        invariant
            i <= 12,
            shift <= 12,
            forall|j: int| 0 <= j < i ==> #[trigger] rotated@[j] == profile@[(j + 12 - shift) % 12],
        decreases 12 - i,
    {
        rotated[i] = profile[(i + 12 - shift) % 12];
        i += 1;
    }
    rotated
}

impl MusicalKey {
    /// All 24 keys in chromatic order (C, C#, D, ..., B), major before minor.
    pub fn all() -> (r: [MusicalKey; 24])
        ensures
            forall|i: int| 0 <= i < 24 ==> spec_pitch_class(#[trigger] r@[i]) == i / 2
                && spec_is_major(r@[i]) == (i % 2 == 0),
    {
        [
            MusicalKey::CMajor,
            MusicalKey::CMinor,
            MusicalKey::CSharpMajor,
            MusicalKey::CSharpMinor,
            MusicalKey::DMajor,
            MusicalKey::DMinor,
            MusicalKey::EFlatMajor,
            MusicalKey::EFlatMinor,
            MusicalKey::EMajor,
            MusicalKey::EMinor,
            MusicalKey::FMajor,
            MusicalKey::FMinor,
            MusicalKey::FSharpMajor,
            MusicalKey::FSharpMinor,
            MusicalKey::GMajor,
            MusicalKey::GMinor,
            MusicalKey::AFlatMajor,
            MusicalKey::AFlatMinor,
            MusicalKey::AMajor,
            MusicalKey::AMinor,
            MusicalKey::BFlatMajor,
            MusicalKey::BFlatMinor,
            MusicalKey::BMajor,
            MusicalKey::BMinor
        ]
    }

    /// Camelot Wheel notation (e.g. "8B", "5A"): major keys use "B", minor
    /// keys use "A".
    pub fn camelot(&self) -> (r: &'static str)
        ensures
            r@ == camelot_text(*self),
    {
        proof {
            reveal_strlit("10A");
            reveal_strlit("10B");
            reveal_strlit("11A");
            reveal_strlit("11B");
            reveal_strlit("12A");
            reveal_strlit("12B");
            reveal_strlit("1A");
            reveal_strlit("1B");
            reveal_strlit("2A");
            reveal_strlit("2B");
            reveal_strlit("3A");
            reveal_strlit("3B");
            reveal_strlit("4A");
            reveal_strlit("4B");
            reveal_strlit("5A");
            reveal_strlit("5B");
            reveal_strlit("6A");
            reveal_strlit("6B");
            reveal_strlit("7A");
            reveal_strlit("7B");
            reveal_strlit("8A");
            reveal_strlit("8B");
            reveal_strlit("9A");
            reveal_strlit("9B");
        }
        match self {
            MusicalKey::CMajor => "8B",
            MusicalKey::CMinor => "5A",
            MusicalKey::CSharpMajor => "3B",
            MusicalKey::CSharpMinor => "12A",
            MusicalKey::DMajor => "10B",
            MusicalKey::DMinor => "7A",
            MusicalKey::EFlatMajor => "5B",
            MusicalKey::EFlatMinor => "2A",
            MusicalKey::EMajor => "12B",
            MusicalKey::EMinor => "9A",
            MusicalKey::FMajor => "7B",
            MusicalKey::FMinor => "4A",
            MusicalKey::FSharpMajor => "2B",
            MusicalKey::FSharpMinor => "11A",
            MusicalKey::GMajor => "9B",
            MusicalKey::GMinor => "6A",
            MusicalKey::AFlatMajor => "4B",
            MusicalKey::AFlatMinor => "1A",
            MusicalKey::AMajor => "11B",
            MusicalKey::AMinor => "8A",
            MusicalKey::BFlatMajor => "6B",
            MusicalKey::BFlatMinor => "3A",
            MusicalKey::BMajor => "1B",
            MusicalKey::BMinor => "10A",
        }
    }

    /// Open Key notation (e.g. "6d", "1m"): major keys use "d", minor keys
    /// use "m".
    pub fn open_key(&self) -> (r: &'static str)
        ensures
            r@ == open_key_text(*self),
    {
        proof {
            reveal_strlit("10d");
            reveal_strlit("10m");
            reveal_strlit("11d");
            reveal_strlit("11m");
            reveal_strlit("12d");
            reveal_strlit("12m");
            reveal_strlit("1d");
            reveal_strlit("1m");
            reveal_strlit("2d");
            reveal_strlit("2m");
            reveal_strlit("3d");
            reveal_strlit("3m");
            reveal_strlit("4d");
            reveal_strlit("4m");
            reveal_strlit("5d");
            reveal_strlit("5m");
            reveal_strlit("6d");
            reveal_strlit("6m");
            reveal_strlit("7d");
            reveal_strlit("7m");
            reveal_strlit("8d");
            reveal_strlit("8m");
            reveal_strlit("9d");
            reveal_strlit("9m");
        }
        match self {
            MusicalKey::CMajor => "1d",
            MusicalKey::CMinor => "10m",
            MusicalKey::CSharpMajor => "8d",
            MusicalKey::CSharpMinor => "5m",
            MusicalKey::DMajor => "3d",
            MusicalKey::DMinor => "12m",
            MusicalKey::EFlatMajor => "10d",
            MusicalKey::EFlatMinor => "7m",
            MusicalKey::EMajor => "5d",
            MusicalKey::EMinor => "2m",
            MusicalKey::FMajor => "12d",
            MusicalKey::FMinor => "9m",
            MusicalKey::FSharpMajor => "7d",
            MusicalKey::FSharpMinor => "4m",
            MusicalKey::GMajor => "2d",
            MusicalKey::GMinor => "11m",
            MusicalKey::AFlatMajor => "9d",
            MusicalKey::AFlatMinor => "6m",
            MusicalKey::AMajor => "4d",
            MusicalKey::AMinor => "1m",
            MusicalKey::BFlatMajor => "11d",
            MusicalKey::BFlatMinor => "8m",
            MusicalKey::BMajor => "6d",
            MusicalKey::BMinor => "3m",
        }
    }

    /// Standard musical notation (e.g. "C", "Am", "F#m", "Eb").
    pub fn standard(&self) -> (r: &'static str)
        ensures
            r@ == standard_text(*self),
    {
        proof {
            reveal_strlit("A");
            reveal_strlit("Ab");
            reveal_strlit("Abm");
            reveal_strlit("Am");
            reveal_strlit("B");
            reveal_strlit("Bb");
            reveal_strlit("Bbm");
            reveal_strlit("Bm");
            reveal_strlit("C");
            reveal_strlit("C#");
            reveal_strlit("C#m");
            reveal_strlit("Cm");
            reveal_strlit("D");
            reveal_strlit("Dm");
            reveal_strlit("E");
            reveal_strlit("Eb");
            reveal_strlit("Ebm");
            reveal_strlit("Em");
            reveal_strlit("F");
            reveal_strlit("F#");
            reveal_strlit("F#m");
            reveal_strlit("Fm");
            reveal_strlit("G");
            reveal_strlit("Gm");
        }
        match self {
            MusicalKey::CMajor => "C",
            MusicalKey::CMinor => "Cm",
            MusicalKey::CSharpMajor => "C#",
            MusicalKey::CSharpMinor => "C#m",
            MusicalKey::DMajor => "D",
            MusicalKey::DMinor => "Dm",
            MusicalKey::EFlatMajor => "Eb",
            MusicalKey::EFlatMinor => "Ebm",
            MusicalKey::EMajor => "E",
            MusicalKey::EMinor => "Em",
            MusicalKey::FMajor => "F",
            MusicalKey::FMinor => "Fm",
            MusicalKey::FSharpMajor => "F#",
            MusicalKey::FSharpMinor => "F#m",
            MusicalKey::GMajor => "G",
            MusicalKey::GMinor => "Gm",
            MusicalKey::AFlatMajor => "Ab",
            MusicalKey::AFlatMinor => "Abm",
            MusicalKey::AMajor => "A",
            MusicalKey::AMinor => "Am",
            MusicalKey::BFlatMajor => "Bb",
            MusicalKey::BFlatMinor => "Bbm",
            MusicalKey::BMajor => "B",
            MusicalKey::BMinor => "Bm",
        }
    }

    /// The key in standard notation.
    pub fn to_string(&self) -> (r: String)
        ensures
            r@ == standard_text(*self),
    {
        String::from_str(self.standard())
    }

    /// Whether this is a major key.
    pub fn is_major(&self) -> (r: bool)
        ensures
            r == spec_is_major(*self),
    {
        match self {
            MusicalKey::CMajor => true,
            MusicalKey::CMinor => false,
            MusicalKey::CSharpMajor => true,
            MusicalKey::CSharpMinor => false,
            MusicalKey::DMajor => true,
            MusicalKey::DMinor => false,
            MusicalKey::EFlatMajor => true,
            MusicalKey::EFlatMinor => false,
            MusicalKey::EMajor => true,
            MusicalKey::EMinor => false,
            MusicalKey::FMajor => true,
            MusicalKey::FMinor => false,
            MusicalKey::FSharpMajor => true,
            MusicalKey::FSharpMinor => false,
            MusicalKey::GMajor => true,
            MusicalKey::GMinor => false,
            MusicalKey::AFlatMajor => true,
            MusicalKey::AFlatMinor => false,
            MusicalKey::AMajor => true,
            MusicalKey::AMinor => false,
            MusicalKey::BFlatMajor => true,
            MusicalKey::BFlatMinor => false,
            MusicalKey::BMajor => true,
            MusicalKey::BMinor => false,
        }
    }

    /// Pitch-class index of the tonic (0 = C, 1 = C#, ..., 11 = B).
    pub fn pitch_class(&self) -> (r: usize)
        ensures
            r == spec_pitch_class(*self),
            r < 12,
    {
        match self {
            MusicalKey::CMajor => 0,
            MusicalKey::CMinor => 0,
            MusicalKey::CSharpMajor => 1,
            MusicalKey::CSharpMinor => 1,
            MusicalKey::DMajor => 2,
            MusicalKey::DMinor => 2,
            MusicalKey::EFlatMajor => 3,
            MusicalKey::EFlatMinor => 3,
            MusicalKey::EMajor => 4,
            MusicalKey::EMinor => 4,
            MusicalKey::FMajor => 5,
            MusicalKey::FMinor => 5,
            MusicalKey::FSharpMajor => 6,
            MusicalKey::FSharpMinor => 6,
            MusicalKey::GMajor => 7,
            MusicalKey::GMinor => 7,
            MusicalKey::AFlatMajor => 8,
            MusicalKey::AFlatMinor => 8,
            MusicalKey::AMajor => 9,
            MusicalKey::AMinor => 9,
            MusicalKey::BFlatMajor => 10,
            MusicalKey::BFlatMinor => 10,
            MusicalKey::BMajor => 11,
            MusicalKey::BMinor => 11,
        }
    }
}

} // verus!
