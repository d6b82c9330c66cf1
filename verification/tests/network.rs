//! The library at work in a whole ranker. The network of floating-point numbers is written here; its
//! starting weights, its lessons, their order, what it reads of candidates, the ranking and the
//! self-test are the library's.

use noral_web::neural::{
    first_layer_seeds, first_pass, lessons, second_layer_seeds, shuffle, BASE_EPOCHS, BASE_PAIRS,
    H1, H2, N_IN, SHUFFLE_SEED,
};
use noral_web::probes::{self, Answer, Probe, Reading, QUESTIONS};
use noral_web::ranking::{order_key, rank, Scored};
use noral_web::research::{cand, signals, Candidate, Cosine, Signals};

const BASE_LR: f32 = 0.05;

struct Net {
    w1: [f32; N_IN * H1],
    b1: [f32; H1],
    w2: [f32; H1 * H2],
    b2: [f32; H2],
    w3: [f32; H2],
    b3: f32,
    v: [f32; N_IN],
}

fn net() -> Net {
    let seeds1 = first_layer_seeds();
    let seeds2 = second_layer_seeds();
    let mut w1 = [0.0f32; N_IN * H1];
    for n in 0..N_IN * H1 {
        let r = (seeds1[n] as f32 / 23.0 - 0.5) * 0.3;
        w1[n] = if n / H1 == 7 { 0.03 + r * 0.2 } else { r };
    }
    let mut w2 = [0.0f32; H1 * H2];
    for n in 0..H1 * H2 {
        w2[n] = (seeds2[n] as f32 / 19.0 - 0.5) * 0.4 * 0.5;
    }
    Net {
        w1,
        b1: [-0.1; H1],
        w2,
        b2: [-0.1; H2],
        w3: [0.15; H2],
        b3: 0.0,
        v: [0.1; N_IN],
    }
}

fn sigmoid(x: f32) -> f32 {
    1.0 / (1.0 + (-x).exp())
}

fn layers(net: &Net, x: [f32; N_IN]) -> ([f32; H1], [f32; H2], f32) {
    let mut h1 = [0.0f32; H1];
    for h in 0..H1 {
        let mut s = net.b1[h];
        for i in 0..N_IN {
            s += net.w1[i * H1 + h] * x[i];
        }
        h1[h] = s.tanh();
    }
    let mut h2 = [0.0f32; H2];
    for h in 0..H2 {
        let mut s = net.b2[h];
        for k in 0..H1 {
            s += net.w2[k * H2 + h] * h1[k];
        }
        h2[h] = s.tanh();
    }
    let mut o = net.b3;
    for h in 0..H2 {
        o += net.w3[h] * h2[h];
    }
    for i in 0..N_IN {
        o += net.v[i] * x[i];
    }
    (h1, h2, o)
}

fn forward(net: &Net, x: [f32; N_IN]) -> f32 {
    sigmoid(layers(net, x).2)
}

/// The slopes of the output, scaled, in the shape of a network.
fn grads(net: &Net, x: [f32; N_IN], scale: f32) -> Net {
    let (h1, h2, o) = layers(net, x);
    let s = sigmoid(o);
    let d3 = scale * s * (1.0 - s);
    let mut g = Net {
        w1: [0.0; N_IN * H1],
        b1: [0.0; H1],
        w2: [0.0; H1 * H2],
        b2: [0.0; H2],
        w3: [0.0; H2],
        b3: d3,
        v: [0.0; N_IN],
    };
    for i in 0..N_IN {
        g.v[i] = d3 * x[i];
    }
    for h in 0..H2 {
        g.w3[h] = d3 * h2[h];
        let d2 = d3 * net.w3[h] * (1.0 - h2[h] * h2[h]);
        g.b2[h] = d2;
        for k in 0..H1 {
            g.w2[k * H2 + h] = d2 * h1[k];
        }
    }
    for k in 0..H1 {
        let mut back = 0.0;
        for h in 0..H2 {
            back += g.b2[h] * net.w2[k * H2 + h];
        }
        let d1 = back * (1.0 - h1[k] * h1[k]);
        g.b1[k] = d1;
        for i in 0..N_IN {
            g.w1[i * H1 + k] = d1 * x[i];
        }
    }
    g
}

fn learn(net: &mut Net, a: &Net, b: &Net, lr: f32) {
    let step = |w: &mut [f32], a: &[f32], b: &[f32]| {
        for n in 0..w.len() {
            w[n] -= lr * (a[n] + b[n] + 0.01 * w[n]);
        }
    };
    step(&mut net.w1, &a.w1, &b.w1);
    step(&mut net.b1, &a.b1, &b.b1);
    step(&mut net.w2, &a.w2, &b.w2);
    step(&mut net.b2, &a.b2, &b.b2);
    step(&mut net.w3, &a.w3, &b.w3);
    net.b3 -= lr * (a.b3 + b.b3 + 0.01 * net.b3);
    for i in 0..N_IN {
        net.v[i] = (net.v[i] - lr * (a.v[i] + b.v[i])).max(0.0);
    }
}

fn features(percents: &[u8; 12]) -> [f32; N_IN] {
    let mut x = [0.0f32; N_IN];
    for i in 0..N_IN {
        x[i] = percents[i] as f32 / 100.0;
    }
    x
}

/// The network after all its lessons.
fn trained() -> Net {
    let mut n = net();
    let pairs: Vec<([f32; N_IN], [f32; N_IN])> =
        lessons(&BASE_PAIRS).iter().map(|(g, b)| (features(g), features(b))).collect();
    let mut order = first_pass(pairs.len());
    let mut rng = SHUFFLE_SEED;
    for _ in 0..BASE_EPOCHS {
        rng = shuffle(&mut order, rng);
        for &at in &order {
            let (good, bad) = pairs[at];
            let push = 1.0 - sigmoid(forward(&n, good) - forward(&n, bad));
            let a = grads(&n, good, -push);
            let b = grads(&n, bad, push);
            learn(&mut n, &a, &b, BASE_LR);
        }
    }
    n
}

fn avg_loss(n: &Net) -> f32 {
    let mut s = 0.0;
    for (g, b) in &BASE_PAIRS {
        let d = forward(n, features(g)) - forward(n, features(b));
        s += -(sigmoid(d).ln().max(-20.0));
    }
    s / BASE_PAIRS.len() as f32
}

fn reading(v: f32) -> Reading {
    Reading { bits: Some(v.to_bits()), text: format!("{:.3}", v) }
}

fn self_test(n: &Net) -> Vec<Probe> {
    let outputs: Vec<f32> = QUESTIONS.iter().map(|q| forward(n, features(q))).collect();
    let answers: Vec<Answer> = outputs
        .iter()
        .map(|o| Answer { raw: reading(*o), rounded: reading((o * 1000.0).round() / 1000.0) })
        .collect();
    probes::self_test(&answers, Some((outputs[9] + 0.03).to_bits()))
}

#[test]
fn egitim_iyilestirir() {
    let before = avg_loss(&net());
    let after = avg_loss(&trained());
    assert!(after < before, "kayıp düşmedi: {} -> {}", before, after);
}

#[test]
fn egitim_seti_dogrulugu() {
    let n = trained();
    let mut yanlis = 0;
    for (idx, (g, b)) in BASE_PAIRS.iter().enumerate() {
        let og = forward(&n, features(g));
        let ob = forward(&n, features(b));
        if og <= ob {
            println!("TERS {}: iyi={:.3} kotu={:.3}", idx, og, ob);
            yanlis += 1;
        }
    }
    let oran = 1.0 - yanlis as f32 / BASE_PAIRS.len() as f32;
    assert!(oran >= 0.93, "{}/{} çift ters (oran {:.2})", yanlis, BASE_PAIRS.len(), oran);
}

#[test]
fn selftest_tumu_gecer() {
    let probes = self_test(&trained());
    assert_eq!(probes.len(), 7);
    for p in &probes {
        assert!(p.pass, "prob başarısız: {} ({})", p.name, p.output.text);
    }
}

fn value(c: &Cosine) -> f64 {
    if c.qn == 0 || c.dn == 0 {
        0.0
    } else {
        c.dot as f64 / ((c.qn as f64).sqrt() * (c.dn as f64).sqrt())
    }
}

fn r2(v: f64) -> f64 {
    (v * 100.0).round() / 100.0
}

fn key(v: f64) -> i64 {
    order_key(v.to_bits())
}

fn bm25(s: &Signals) -> f64 {
    let part = |n: &Vec<u128>| n.iter().map(|h| *h as f64 / (*h as f64 + 1.2)).sum::<f64>();
    match &s.hits {
        Some(h) => part(&h.title) * 2.0 + part(&h.snippet),
        None => 0.0,
    }
}

struct Shown {
    url: String,
    bm25: f64,
    neural: f64,
    penalty: f64,
}

/// The whole ranking: half by the network, half by the matches.
fn ranked(net: &Net, query: &str, cands: Vec<Candidate>) -> Vec<Shown> {
    let read: Vec<Signals> = cands.iter().map(|c| signals(query, c)).collect();
    let most = read.iter().map(bm25).fold(0.0f64, f64::max);
    let flag = |b: bool| if b { 1.0f32 } else { 0.0 };
    let mut neural = Vec::new();
    let mut classic = Vec::new();
    for s in &read {
        let share = |n: usize| if s.terms == 0 { 0.0 } else { n as f64 / s.terms as f64 };
        let cos = s.hits.as_ref().map(|h| value(&h.cosine)).unwrap_or(0.0);
        let auth = s.authority as f64 / 100.0;
        let x = [
            (if most > 0.0 { bm25(s) / most } else { 0.0 }) as f32,
            cos as f32,
            (auth / 1.4) as f32,
            share(s.title_terms) as f32,
            (1.0 - s.length as f64 / 2000.0) as f32,
            share(s.snippet_terms) as f32,
            value(&s.page) as f32,
            if s.shallow { 1.0 } else { 0.4 },
            flag(s.exact),
            flag(s.surname),
            share(s.all_terms) as f32,
            flag(s.handle),
        ];
        neural.push(r2(forward(net, x) as f64));
        classic.push(r2((bm25(s) * 0.75 + cos * 4.0) * auth));
    }
    let top = classic.iter().cloned().fold(0.0f64, f64::max).max(1e-9);
    let scored: Vec<Scored> = (0..cands.len())
        .map(|i| {
            let score = r2(0.5 * neural[i] + 0.5 * (classic[i] / top));
            Scored {
                url: cands[i].url.clone(),
                alone: key(score),
                once: key(r2(score * 0.75)),
                twice: key(r2(score * 0.75 * 0.75)),
            }
        })
        .collect();
    rank(&scored)
        .iter()
        .map(|p| Shown {
            url: cands[p.index].url.clone(),
            bm25: r2(bm25(&read[p.index])),
            neural: neural[p.index],
            penalty: 0.75f64.powi(p.repeats as i32),
        })
        .collect()
}

#[test]
fn baslik_eslesmesi_one_cikar() {
    let r = ranked(
        &net(),
        "paslanmaz celik",
        vec![
            cand("alakasız yazı", "https://a.com/1", "bugün hava güzel", "bing"),
            cand(
                "paslanmaz çelik rehberi",
                "https://b.com/2",
                "paslanmaz çelik hakkında detay",
                "bing",
            ),
        ],
    );
    assert!(r[0].url.contains("b.com"));
    assert!(r[0].bm25 > 0.0);
}

#[test]
fn ayni_host_cezalandirilir() {
    let r = ranked(
        &net(),
        "test",
        vec![
            cand("test bir", "https://a.com/1", "test", "bing"),
            cand("test iki", "https://a.com/2", "test", "bing"),
            cand("test üç", "https://b.com/3", "test", "bing"),
        ],
    );
    assert!(r[0].url.contains("b.com"));
    assert!(r[2].url.contains("a.com/2"));
    assert!(r[2].penalty < 1.0);
}

#[test]
fn berkcan_ayrimi() {
    let r = ranked(
        &trained(),
        "Berkcan Özbalci",
        vec![
            cand(
                "Berkcan Ozan",
                "https://x.com/berkcanozan",
                "Berkcan Ozan profili",
                "twitter",
            ),
            cand(
                "Berkcan Özbalci",
                "https://github.com/berkcanozbalci",
                "Berkcan Özbalci projeleri",
                "github",
            ),
        ],
    );
    assert!(r[0].url.contains("berkcanozbalci"), "yanlış birinci: {}", r[0].url);
    assert!(
        r[0].neural > r[1].neural,
        "nöral skor ters: {} vs {}",
        r[0].neural,
        r[1].neural
    );
}
