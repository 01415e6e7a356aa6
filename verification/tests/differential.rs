use orion::text::{contains, find, lines, parse_i64, parse_u64, split_whitespace, trim};

/// A small deterministic generator: the same texts on every run.
struct Texts {
    state: u64,
}

impl Texts {
    fn new(seed: u64) -> Self {
        Texts { state: seed }
    }

    fn next(&mut self) -> u64 {
        self.state = self.state.wrapping_mul(6364136223846793005).wrapping_add(1442695040888963407);
        self.state >> 33
    }

    fn text(&mut self, alphabet: &[char], max_len: u64) -> String {
        let len = self.next() % (max_len + 1);
        let mut s = String::new();
        for _ in 0..len {
            let k = (self.next() % alphabet.len() as u64) as usize;
            s.push(alphabet[k]);
        }
        s
    }
}

const MIXED: [char; 14] =
    ['a', 'b', ' ', ' ', '\t', '\n', '\n', '\r', '\u{a0}', '\u{e9}', '\u{2003}', ':', '%', '0'];

const NUMERIC: [char; 8] = ['0', '1', '9', '+', '-', ' ', '5', '7'];

#[test]
fn lines_agree_with_std_on_generated_texts() {
    let mut g = Texts::new(1);
    for _ in 0..3000 {
        let s = g.text(&MIXED, 24);
        let theirs: Vec<&str> = s.lines().collect();
        assert_eq!(lines(&s), theirs, "on {:?}", s);
    }
}

#[test]
fn split_whitespace_agrees_with_std_on_generated_texts() {
    let mut g = Texts::new(2);
    for _ in 0..3000 {
        let s = g.text(&MIXED, 24);
        let theirs: Vec<&str> = s.split_whitespace().collect();
        assert_eq!(split_whitespace(&s), theirs, "on {:?}", s);
    }
}

#[test]
fn trim_agrees_with_std_on_generated_texts() {
    let mut g = Texts::new(3);
    for _ in 0..3000 {
        let s = g.text(&MIXED, 16);
        assert_eq!(trim(&s), s.trim(), "on {:?}", s);
    }
}

#[test]
fn find_counts_characters_where_std_counts_bytes() {
    let mut g = Texts::new(4);
    for _ in 0..3000 {
        let hay = g.text(&['a', 'b', '\u{e9}', ' '], 12);
        let pat = g.text(&['a', 'b', '\u{e9}', ' '], 3);
        let theirs = hay.find(pat.as_str()).map(|at| hay[..at].chars().count());
        assert_eq!(find(&hay, &pat), theirs, "{:?} in {:?}", pat, hay);
        assert_eq!(contains(&hay, &pat), hay.contains(pat.as_str()), "{:?} in {:?}", pat, hay);
    }
}

#[test]
fn number_parsers_agree_with_std_on_generated_texts() {
    let mut g = Texts::new(5);
    for _ in 0..5000 {
        let s = g.text(&NUMERIC, 22);
        assert_eq!(parse_u64(&s), s.parse::<u64>().ok(), "on {:?}", s);
        assert_eq!(parse_i64(&s), s.parse::<i64>().ok(), "on {:?}", s);
    }
}

#[test]
fn number_parsers_agree_with_std_around_the_limits() {
    let around_u64 = u64::MAX as u128;
    let around_i64 = i64::MAX as u128;
    for delta in 0..40u128 {
        for base in [around_u64 - 20, around_i64 - 20] {
            let n = base + delta;
            for s in [format!("{}", n), format!("+{}", n), format!("-{}", n), format!("0{}", n)] {
                assert_eq!(parse_u64(&s), s.parse::<u64>().ok(), "on {:?}", s);
                assert_eq!(parse_i64(&s), s.parse::<i64>().ok(), "on {:?}", s);
            }
        }
    }
}

#[test]
fn decimal_string_agrees_with_std_and_reads_back() {
    let mut g = Texts::new(6);
    for _ in 0..3000 {
        let bits = (g.next() << 33) ^ (g.next() << 11) ^ g.next();
        let shift = g.next() % 64;
        let sign: i64 = if g.next() % 2 == 0 { 1 } else { -1 };
        let n = ((bits >> shift) as i64).wrapping_mul(sign);
        let s = orion::text::decimal_string(n);
        assert_eq!(s, format!("{}", n));
        assert_eq!(parse_i64(&s), Some(n));
    }
}
