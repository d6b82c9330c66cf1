use noral_web::neural::{
    click_lessons, first_layer_seeds, first_pass, fits, lessons, level, next_random,
    second_layer_seeds, shuffle, ModelInfo, BASE_EPOCHS, BASE_PAIRS, H1, H2, N_IN, N_PARAMS,
    SHUFFLE_SEED,
};
use noral_web::probes::{is_above, passed, self_test, Answer, Reading, QUESTIONS};

#[test]
fn the_network_has_its_size() {
    assert_eq!(N_PARAMS, 2037);
    assert_eq!(N_IN * H1 + H1 + H1 * H2 + H2 + H2 + 1, 2025);
    assert_eq!(BASE_EPOCHS, 10000);
    assert!(fits(576, 1344, 48));
    assert!(!fits(575, 1344, 48));
    assert!(!fits(576, 1345, 48));
    assert!(!fits(576, 1344, 0));
}

#[test]
fn starting_weights_follow_their_formulas() {
    let a = first_layer_seeds();
    assert_eq!(a.len(), 576);
    let b = second_layer_seeds();
    assert_eq!(b.len(), 1344);
    for i in 0..N_IN {
        for h in 0..H1 {
            assert_eq!(a[i * H1 + h] as usize, (i * 31 + h * 17 + 7) % 23);
        }
    }
    for k in 0..H1 {
        for h in 0..H2 {
            assert_eq!(b[k * H2 + h] as usize, (k * 19 + h * 23 + 5) % 19);
        }
    }
    assert_eq!((a[0], a[1], a[48], b[0], b[1]), (7, 1, 15, 5, 9));
}

#[test]
fn the_generator_wraps_around() {
    assert_eq!(next_random(0), 1442695040888963407);
    assert_eq!(next_random(1), 7806831264735756412);
    assert_eq!(
        next_random(SHUFFLE_SEED),
        SHUFFLE_SEED.wrapping_mul(6364136223846793005).wrapping_add(1442695040888963407)
    );
}

#[test]
fn shuffling_is_repeatable_and_keeps_all() {
    let mut expected: Vec<usize> = (0..36).collect();
    let mut rng = SHUFFLE_SEED;
    for i in (1..expected.len()).rev() {
        rng = rng.wrapping_mul(6364136223846793005).wrapping_add(1442695040888963407);
        let j = (rng >> 33) as usize % (i + 1);
        expected.swap(i, j);
    }
    let mut order = first_pass(36);
    assert_eq!(order[35], 35);
    let state = shuffle(&mut order, SHUFFLE_SEED);
    assert_eq!(order, expected);
    assert_eq!(state, rng);
    shuffle(&mut order, state);
    assert_ne!(order, expected);
    order.sort();
    assert_eq!(order, first_pass(36));
    let mut none = first_pass(0);
    assert_eq!(shuffle(&mut none, 5), 5);
    let mut one = first_pass(1);
    assert_eq!(shuffle(&mut one, 5), 5);
    assert_eq!(one, vec![0]);
}

#[test]
fn a_click_teaches_three_lessons_at_most() {
    assert_eq!(click_lessons(9, &vec![1, 2, 3, 4]), vec![(9, 1), (9, 2), (9, 3)]);
    assert_eq!(click_lessons(9, &vec![1]), vec![(9, 1)]);
    assert!(click_lessons(9, &Vec::new()).is_empty());
    let m = ModelInfo { version: 1, clicks: 4, trained: true };
    assert_eq!(m.clicked(), ModelInfo { version: 1, clicks: 5, trained: true });
}

#[test]
fn lessons_are_level_on_continuous_features() {
    let good = [50, 50, 50, 50, 50, 50, 50, 50, 0, 0, 0, 0];
    let bad = [60, 40, 50, 99, 0, 51, 49, 100, 100, 70, 30, 100];
    let r = level(&good, &bad);
    assert_eq!(r, [50, 40, 50, 50, 0, 50, 49, 50, 100, 70, 30, 100]);
    assert_eq!(level(&good, &r), r);
    assert!(lessons(&[]).is_empty());
    let all = lessons(&BASE_PAIRS);
    assert_eq!(all.len(), BASE_PAIRS.len());
    assert_eq!(all[2].0, BASE_PAIRS[2].0);
    assert_eq!(all[2].1, [65, 60, 75, 0, 70, 60, 55, 100, 0, 0, 0, 0]);
    for (g, b) in all {
        for i in 0..8 {
            assert!(b[i] <= g[i]);
        }
    }
}

fn reading(v: f32) -> Reading {
    Reading {
        bits: if v.is_nan() { None } else { Some(v.to_bits()) },
        text: format!("{:.3}", v),
    }
}

fn answers(v: [f32; 11]) -> Vec<Answer> {
    v.iter()
        .map(|x| Answer { raw: reading(*x), rounded: reading((x * 1000.0).round() / 1000.0) })
        .collect()
}

#[test]
fn a_good_network_passes_its_test() {
    let a = answers([0.9, 0.1, 0.6, 0.5, 0.6, 0.7, 0.6, 0.61, 0.65, 0.6, 0.64]);
    let probes = self_test(&a, Some((0.6f32 + 0.03).to_bits()));
    assert_eq!(probes.len(), 7);
    for p in &probes {
        assert!(p.pass, "{} {}", p.name, p.expect);
    }
    assert_eq!(passed(&probes), 7);
    assert_eq!(probes[0].name, "tam eşleşme + otoriter");
    assert_eq!(probes[0].expect, "skor > 0.70");
    assert_eq!(probes[2].expect, "zayıf 0.600 < tam 0.900");
    assert_eq!(probes[4].expect, "derin 0.600 < sığ 0.610");
    assert_eq!(probes[5].expect, "iyi 0.700 > kötü 0.650");
    assert_eq!(probes[6].expect, "özbalci 0.640 > ozan 0.600 + marj");
    assert_eq!(probes[6].output.text, "0.640");
    assert_eq!(probes[5].output.bits, Some(0.7f32.to_bits()));
    assert_eq!(probes[6].feats, QUESTIONS[6]);
}

#[test]
fn each_question_can_fail() {
    let good = [0.9, 0.1, 0.6, 0.5, 0.6, 0.7, 0.6, 0.61, 0.65, 0.6, 0.64];
    let margin = Some((0.6f32 + 0.03).to_bits());
    let wrong: [(usize, f32, usize); 8] = [
        (0, 0.7, 0),
        (1, 0.3, 1),
        (2, 0.3, 2),
        (2, 0.9, 2),
        (3, 0.55, 3),
        (4, 0.61, 4),
        (8, 0.7, 5),
        (10, 0.62, 6),
    ];
    for (at, value, question) in wrong {
        let mut v = good;
        v[at] = value;
        let probes = self_test(&answers(v), margin);
        for (i, p) in probes.iter().enumerate() {
            assert_eq!(p.pass, i != question, "{} at {}", value, i);
        }
        assert_eq!(passed(&probes), 6);
    }
    let probes = self_test(&answers([f32::NAN; 11]), None);
    assert_eq!(passed(&probes), 0);
}

#[test]
fn bits_order_like_numbers() {
    assert_eq!(noral_web::probes::SEVEN_TENTHS, 0.70f32.to_bits());
    assert_eq!(noral_web::probes::THREE_TENTHS, 0.30f32.to_bits());
    assert_eq!(noral_web::probes::FIFTY_FIVE_HUNDREDTHS, 0.55f32.to_bits());
    assert!(is_above(Some(0.31f32.to_bits()), Some(0.3f32.to_bits())));
    assert!(!is_above(Some(0.3f32.to_bits()), Some(0.3f32.to_bits())));
    assert!(!is_above(None, Some(0)));
    assert!(!is_above(Some(1), None));
}
