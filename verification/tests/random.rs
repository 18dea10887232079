use xx_renu::{EntropySource, RandomXxHash32Builder, RandomXxHash64Builder, XxHash32, XxHash64};

/// A source that hands out a fixed sequence of words, for repeatable tests.
struct Scripted {
    words: Vec<u64>,
    next: usize,
}

impl Scripted {
    fn new(words: &[u64]) -> Self {
        Scripted { words: words.to_vec(), next: 0 }
    }

    fn draw(&mut self) -> u64 {
        let word = self.words[self.next % self.words.len()];
        self.next += 1;
        word
    }
}

impl EntropySource for Scripted {
    fn next_u32(&mut self) -> u32 {
        self.draw() as u32
    }

    fn next_u64(&mut self) -> u64 {
        self.draw()
    }
}

/// A source that never repeats a word: a counter pushed through a mixer.
struct Counting(u64);

impl EntropySource for Counting {
    fn next_u32(&mut self) -> u32 {
        (self.next_u64() >> 32) as u32
    }

    fn next_u64(&mut self) -> u64 {
        self.0 = self.0.wrapping_add(0x9E37_79B9_7F4A_7C15);
        let mut word = self.0;
        word = (word ^ (word >> 30)).wrapping_mul(0xBF58_476D_1CE4_E5B9);
        word = (word ^ (word >> 27)).wrapping_mul(0x94D0_49BB_1331_11EB);
        word ^ (word >> 31)
    }
}

#[test]
fn builder_keeps_the_seed_it_drew() {
    let mut source = Scripted::new(&[1234, 99]);
    let builder = RandomXxHash64Builder::new(&mut source);
    assert_eq!(builder.seed(), 1234);
    let mut hasher = builder.build_hasher();
    assert_eq!(hasher.seed(), 1234);
    hasher.write(b"some bytes");
    assert_eq!(hasher.finish(), 0xEAB5_5659_A496_D78B);
    assert_eq!(builder.build_hasher().finish(), XxHash64::oneshot(1234, b""));
    assert_eq!(source.next, 1);

    let mut source = Scripted::new(&[0x42C9_1977, 99]);
    let builder = RandomXxHash32Builder::new(&mut source);
    assert_eq!(builder.seed(), 0x42C9_1977);
    assert_eq!(builder.build_hasher().seed(), 0x42C9_1977);
    assert_eq!(builder.build_hasher().finish(), 0xD6BF_8459);
    assert_eq!(source.next, 1);
}

#[test]
fn builder_from_a_seed_builds_hashers_for_it() {
    let builder = RandomXxHash64Builder::from_seed(0);
    assert_eq!(builder.seed(), 0);
    assert_eq!(builder.build_hasher().finish(), 0xEF46_DB37_51D8_E999);
    let builder = RandomXxHash32Builder::from_seed(0);
    assert_eq!(builder.seed(), 0);
    assert_eq!(builder.build_hasher().finish(), 0x02CC_5D05);
}

#[test]
fn hashers_of_one_builder_agree() {
    let mut source = Counting(7);
    let builder = RandomXxHash64Builder::new(&mut source);
    let mut first = builder.build_hasher();
    let mut second = builder.build_hasher();
    first.write(b"the same key");
    second.write(b"the same key");
    assert_eq!(first.finish(), second.finish());
}

#[test]
fn random_seed_builder_draws_a_fresh_seed_each_time() {
    let mut source = Scripted::new(&[0, 1234]);
    let mut first = XxHash64::random_seed_builder(&mut source);
    let mut second = XxHash64::random_seed_builder(&mut source);
    assert_eq!(first.seed(), 0);
    assert_eq!(second.seed(), 1234);
    assert_eq!(first.total_len(), 0);
    assert_eq!(first.finish(), 0xEF46_DB37_51D8_E999);
    first.write(b"some bytes");
    second.write(b"some bytes");
    assert_eq!(second.finish(), 0xEAB5_5659_A496_D78B);
    assert_ne!(first.finish(), second.finish());

    let mut source = Scripted::new(&[0, 0x42C9_1977]);
    assert_eq!(XxHash32::random_seed_builder(&mut source).finish(), 0x02CC_5D05);
    assert_eq!(XxHash32::random_seed_builder(&mut source).finish(), 0xD6BF_8459);
}

#[test]
fn independent_hashers_disagree_on_the_same_data() {
    let mut source = Counting(0);
    let mut wide = Vec::new();
    let mut narrow = Vec::new();
    for _ in 0..500 {
        let mut hasher = XxHash64::random_seed_builder(&mut source);
        hasher.write(b"the same data for every hasher");
        wide.push(hasher.finish());
        let mut hasher = XxHash32::random_seed_builder(&mut source);
        hasher.write(b"the same data for every hasher");
        narrow.push(hasher.finish());
    }
    wide.sort();
    wide.dedup();
    narrow.sort();
    narrow.dedup();
    assert_eq!(wide.len(), 500);
    assert_eq!(narrow.len(), 500);
}

#[test]
fn a_seeded_hasher_is_what_the_builder_makes() {
    let mut source = Scripted::new(&[55]);
    let mut drawn = XxHash64::random_seed_builder(&mut source);
    let mut fixed = XxHash64::with_seed(55);
    drawn.write(b"abc");
    fixed.write(b"abc");
    assert_eq!(drawn.finish(), fixed.finish());

    let mut source = Scripted::new(&[55]);
    let mut drawn = XxHash32::random_seed_builder(&mut source);
    let mut fixed = XxHash32::with_seed(55);
    drawn.write(b"abc");
    fixed.write(b"abc");
    assert_eq!(drawn.finish(), fixed.finish());
}
