use nominae::Totro;
use nominae::InvalidRange;
use nominae::tables::{AIW, BEW, BMW, BOW, CONSONANT_COUNT, EOW, MEW, MOW, VOWEL_COUNT};
use nominae::tables::{consonant_at, vowel_at};
use nominae::totro::{assemble, choose_length};
use nominae::text::{capitalize, render};
use rand::SeedableRng;
use rand::rngs::SmallRng;

fn consonant_entries() -> Vec<(&'static str, u8)> {
    let mut v = Vec::new();
    let mut i = 0;
    while i < CONSONANT_COUNT {
        v.push(consonant_at(i));
        i += 1;
    }
    v
}

fn vowel_entries() -> Vec<(&'static str, u8)> {
    let mut v = Vec::new();
    let mut i = 0;
    while i < VOWEL_COUNT {
        v.push(vowel_at(i));
        i += 1;
    }
    v
}

#[test]
fn test_normal() {
    let mut rng = SmallRng::seed_from_u64(0);
    for i in 2..10 {
        println!("3..{} - {}", i, Totro::generate(2, i, &mut rng));
    }
}

#[test]
#[should_panic]
fn test_panic() {
    let mut rng = SmallRng::seed_from_u64(0);
    Totro::generate(5, 3, &mut rng);
}

#[test]
fn invalid_range_is_reported() {
    let mut rng = SmallRng::seed_from_u64(0);
    assert_eq!(Totro::try_generate(5, 3, &mut rng), Err(InvalidRange));
    assert_eq!(Totro::try_generate(255, 0, &mut rng), Err(InvalidRange));
    assert_eq!(Totro::try_generate(1, 0, &mut rng), Err(InvalidRange));
    assert!(Totro::try_generate(3, 3, &mut rng).is_ok());
    assert!(Totro::try_generate(0, 4, &mut rng).is_ok());
}

#[test]
fn chosen_length_within_strict_bounds() {
    for seed in 0..50 {
        let mut rng = SmallRng::seed_from_u64(seed);
        let l = choose_length(2, 5, &mut rng);
        assert!((2..5).contains(&l));
        let l = choose_length(0, 1, &mut rng);
        assert_eq!(l, 0);
    }
}

#[test]
fn fixed_length_is_exact() {
    let mut rng = SmallRng::seed_from_u64(7);
    assert_eq!(choose_length(4, 4, &mut rng), 4);
    let parts = assemble(4, true, &mut rng);
    assert_eq!(parts.len(), 4);
    let parts = assemble(0, false, &mut rng);
    assert_eq!(parts.len(), 0);
}

#[test]
fn zero_length_name_is_empty() {
    let mut rng = SmallRng::seed_from_u64(3);
    assert_eq!(Totro::generate(0, 0, &mut rng), "");
    let mut rng = SmallRng::seed_from_u64(3);
    assert_eq!(Totro::try_generate(0, 0, &mut rng), Ok(String::new()));
}

#[test]
fn first_letter_uppercase_rest_lowercase() {
    for seed in 0..20 {
        let mut rng = SmallRng::seed_from_u64(seed);
        let name = Totro::generate(1, 8, &mut rng);
        let first = name.chars().next().unwrap();
        assert!(first.is_ascii_uppercase(), "name {:?} starts badly", name);
        for c in name.chars().skip(1) {
            assert!(
                c.is_ascii_lowercase() || c == '\'',
                "name {:?} holds char {:?}",
                name,
                c
            );
        }
    }
}

#[test]
fn placement_flags_hold() {
    for seed in 0..20 {
        let mut rng = SmallRng::seed_from_u64(seed);
        for len in [2u8, 3, 5, 9] {
            let parts = assemble(len, seed % 2 == 0, &mut rng);
            let n = parts.len();
            assert_eq!(n, len as usize);
            assert_eq!(parts[0].1 & BOW, BOW, "seed {} parts {:?}", seed, parts);
            assert_eq!(parts[n - 1].1 & EOW, EOW, "seed {} parts {:?}", seed, parts);
            for k in 1..n - 1 {
                assert_eq!(parts[k].1 & MOW, MOW, "seed {} parts {:?}", seed, parts);
            }
        }
    }
}

#[test]
fn single_fragment_needs_begin_only() {
    let consonants = consonant_entries();
    let vowels = vowel_entries();
    for seed in 0..40 {
        let mut rng = SmallRng::seed_from_u64(seed);
        let first_vowel = seed % 2 == 0;
        let parts = assemble(1, first_vowel, &mut rng);
        assert_eq!(parts.len(), 1);
        assert_eq!(parts[0].1 & BOW, BOW);
        let table = if first_vowel { &vowels } else { &consonants };
        assert!(table.contains(&parts[0]));
    }
}

#[test]
fn tables_alternate() {
    let consonants = consonant_entries();
    let vowels = vowel_entries();
    for seed in 0..20 {
        let mut rng = SmallRng::seed_from_u64(seed);
        let first_vowel = seed % 2 == 1;
        let parts = assemble(6, first_vowel, &mut rng);
        for (k, part) in parts.iter().enumerate() {
            let from_vowels = if k % 2 == 0 { first_vowel } else { !first_vowel };
            let table = if from_vowels { &vowels } else { &consonants };
            assert!(table.contains(part), "seed {} position {} holds {:?}", seed, k, part);
        }
    }
}

#[test]
fn seeded_runs_reproduce() {
    for seed in [0u64, 1, 42, 1000] {
        let mut a = SmallRng::seed_from_u64(seed);
        let mut b = SmallRng::seed_from_u64(seed);
        let first = Totro::generate(2, 6, &mut a);
        assert_eq!(first, Totro::generate(2, 6, &mut b));
        if seed == 42 {
            assert_eq!(first, "Fri");
        }
        let mut a = SmallRng::seed_from_u64(seed);
        let mut b = SmallRng::seed_from_u64(seed);
        assert_eq!(
            Totro::try_generate(0, 9, &mut a),
            Totro::try_generate(0, 9, &mut b)
        );
    }
}

#[test]
fn two_fragment_scenario() {
    let mut rng = SmallRng::seed_from_u64(11);
    let name = Totro::generate(2, 2, &mut rng);
    assert!(name.chars().next().unwrap().is_ascii_uppercase());
    assert!(name.chars().count() >= 2);
    let mut again = SmallRng::seed_from_u64(11);
    assert_eq!(name, Totro::generate(2, 2, &mut again));
    assert_eq!(name, "Or");
}

#[test]
fn single_fragment_scenario() {
    let consonants = consonant_entries();
    let vowels = vowel_entries();
    let mut rng = SmallRng::seed_from_u64(5);
    let name = Totro::generate(1, 1, &mut rng);
    assert_eq!(name, "O");
    let first = name.chars().next().unwrap();
    assert!(first.is_ascii_uppercase());
    let mut lowered = String::new();
    lowered.push(first.to_ascii_lowercase());
    lowered.push_str(&name[first.len_utf8()..]);
    let begin_legal = |t: &[(&'static str, u8)]| {
        t.iter().any(|e| e.0 == lowered && (e.1 & BOW) == BOW)
    };
    assert!(
        begin_legal(&consonants) || begin_legal(&vowels),
        "name {:?} is no begin-legal fragment",
        name
    );
}

#[test]
fn wide_range_returns_promptly() {
    for seed in 0..10 {
        let mut rng = SmallRng::seed_from_u64(seed);
        let name = Totro::generate(2, 50, &mut rng);
        assert!(name.chars().count() >= 2);
    }
}

#[test]
fn render_concatenates_and_capitalizes() {
    assert_eq!(render(&vec![("b", AIW), ("a", AIW)]), "Ba");
    assert_eq!(render(&vec![("eau", AIW)]), "Eau");
    assert_eq!(render(&vec![("'", MEW), ("a", AIW)]), "'a");
    assert_eq!(render(&vec![]), "");
    assert_eq!(render(&vec![("st", AIW), ("ou", AIW), ("nk", BEW)]), "Stounk");
}

#[test]
fn capitalize_touches_first_character_only() {
    assert_eq!(capitalize(String::from("drakh")), "Drakh");
    assert_eq!(capitalize(String::from("Already")), "Already");
    assert_eq!(capitalize(String::from("'keth")), "'keth");
    assert_eq!(capitalize(String::new()), "");
}

#[test]
fn table_contents_spot_checks() {
    assert_eq!(consonant_at(0), ("b", AIW));
    assert_eq!(consonant_at(12), ("qu", BMW));
    assert_eq!(consonant_at(32), ("wk", 0));
    assert_eq!(consonant_at(49), ("ss", BEW));
    assert_eq!(consonant_at(51), ("str", BMW));
    assert_eq!(consonant_at(52), ("b", AIW));
    assert_eq!(consonant_at(90), ("kr", BMW));
    assert_eq!(vowel_at(0), ("a", AIW));
    assert_eq!(vowel_at(59), ("u", AIW));
    assert_eq!(vowel_at(60), ("aa", AIW));
    assert_eq!(vowel_at(80), ("eau", AIW));
    assert_eq!(vowel_at(81), ("'", MEW));
    assert_eq!(vowel_at(82), ("y", AIW));
}

