use std::collections::HashSet;

use rustymixer::key_detection::{rotate_profile, MusicalKey};

#[test]
fn camelot_notation_all_24_keys() {
    let mut codes = HashSet::new();
    for key in &MusicalKey::all() {
        let code = key.camelot();
        assert!(codes.insert(code), "duplicate Camelot code: {code} for {key:?}");
        if key.is_major() {
            assert!(code.ends_with('B'), "{key:?} Camelot should end with B: {code}");
        } else {
            assert!(code.ends_with('A'), "{key:?} Camelot should end with A: {code}");
        }
    }
    assert_eq!(codes.len(), 24);
}

#[test]
fn open_key_notation_all_24_keys() {
    let mut codes = HashSet::new();
    for key in &MusicalKey::all() {
        let code = key.open_key();
        assert!(codes.insert(code), "duplicate Open Key code: {code} for {key:?}");
        if key.is_major() {
            assert!(code.ends_with('d'), "{key:?} Open Key should end with d: {code}");
        } else {
            assert!(code.ends_with('m'), "{key:?} Open Key should end with m: {code}");
        }
    }
    assert_eq!(codes.len(), 24);
}

#[test]
fn standard_notation_all_24_keys() {
    let mut codes = HashSet::new();
    for key in &MusicalKey::all() {
        let code = key.standard();
        assert!(codes.insert(code), "duplicate standard notation: {code} for {key:?}");
        if !key.is_major() {
            assert!(code.ends_with('m'), "{key:?} standard should end with m: {code}");
        }
    }
    assert_eq!(codes.len(), 24);
}

#[test]
fn specific_notation_values() {
    assert_eq!(MusicalKey::AMinor.camelot(), "8A");
    assert_eq!(MusicalKey::AMinor.open_key(), "1m");
    assert_eq!(MusicalKey::AMinor.standard(), "Am");

    assert_eq!(MusicalKey::CMajor.camelot(), "8B");
    assert_eq!(MusicalKey::CMajor.open_key(), "1d");
    assert_eq!(MusicalKey::CMajor.standard(), "C");

    assert_eq!(MusicalKey::FSharpMinor.camelot(), "11A");
    assert_eq!(MusicalKey::FSharpMinor.open_key(), "4m");
    assert_eq!(MusicalKey::FSharpMinor.standard(), "F#m");

    assert_eq!(MusicalKey::BFlatMajor.camelot(), "6B");
    assert_eq!(MusicalKey::BFlatMajor.open_key(), "11d");
    assert_eq!(MusicalKey::BFlatMajor.standard(), "Bb");
}

#[test]
fn display_trait() {
    assert_eq!(MusicalKey::CMajor.to_string(), "C");
    assert_eq!(MusicalKey::AMinor.to_string(), "Am");
    assert_eq!(MusicalKey::EFlatMajor.to_string(), "Eb");
}

#[test]
fn all_keys_in_chromatic_order() {
    let all = MusicalKey::all();
    for (i, key) in all.iter().enumerate() {
        assert_eq!(key.pitch_class(), i / 2);
        assert_eq!(key.is_major(), i % 2 == 0);
    }
}

#[test]
fn relative_keys_share_camelot_number() {
    // C major and A minor are relatives: 8B and 8A.
    let c = MusicalKey::CMajor.camelot();
    let a = MusicalKey::AMinor.camelot();
    assert_eq!(&c[..c.len() - 1], &a[..a.len() - 1]);
    assert_eq!(MusicalKey::GMajor.camelot(), "9B");
    assert_eq!(MusicalKey::EMinor.camelot(), "9A");
}

#[test]
fn rotate_profile_moves_tonic() {
    let profile: [u32; 12] = [0, 1, 2, 3, 4, 5, 6, 7, 8, 9, 10, 11];
    assert_eq!(rotate_profile(&profile, 0), profile);
    let r = rotate_profile(&profile, 2);
    assert_eq!(r[2], 0);
    assert_eq!(r[0], 10);
    assert_eq!(r[11], 9);
    assert_eq!(rotate_profile(&profile, 12), profile);
}
