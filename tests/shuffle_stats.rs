use poker_dealer::{shuffle_deck, Deck};
use sha2::{Digest, Sha256};
use std::time::Instant;

// The earlier shuffle, with modulo bias, kept for comparison.
fn shuffle_deck_modulo_bias(deck: &mut Deck, seed: u64) {
    let mut rng = Sha256::new();
    let mut deck_len = deck.cards.len();

    while deck_len > 1 {
        deck_len -= 1;
        rng.update(&seed.to_le_bytes());
        rng.update(&(deck_len as u64).to_le_bytes());

        let hash = rng.finalize_reset();
        let random_value = u64::from_le_bytes(hash[..8].try_into().unwrap());
        let random_index = (random_value as usize) % (deck_len + 1);

        deck.cards.swap(deck_len, random_index);
    }
}

#[test]
fn test_shuffle_performance_comparison() {
    const ITERATIONS: usize = 10000;
    let seed = 12345u64;

    let mut total_duration_biased = std::time::Duration::ZERO;
    for _ in 0..ITERATIONS {
        let mut deck = Deck::new();
        let start = Instant::now();
        shuffle_deck_modulo_bias(&mut deck, seed);
        total_duration_biased += start.elapsed();
    }
    let mean_biased = total_duration_biased / ITERATIONS as u32;

    let mut total_duration_unbiased = std::time::Duration::ZERO;
    for _ in 0..ITERATIONS {
        let mut deck = Deck::new();
        let start = Instant::now();
        shuffle_deck(&mut deck, seed);
        total_duration_unbiased += start.elapsed();
    }
    let mean_unbiased = total_duration_unbiased / ITERATIONS as u32;

    println!("\n=== Shuffle Performance Comparison ===");
    println!("Iterations: {}", ITERATIONS);
    println!("shuffle_deck mean time: {:?}", mean_biased);
    println!("shuffle_deck_unbiased mean time: {:?}", mean_unbiased);
    println!(
        "Ratio (unbiased/biased): {:.2}x",
        mean_unbiased.as_nanos() as f64 / mean_biased.as_nanos() as f64
    );

    let mut deck1 = Deck::new();
    let mut deck2 = Deck::new();
    let fresh_deck = Deck::new();

    shuffle_deck_modulo_bias(&mut deck1, seed);
    shuffle_deck(&mut deck2, seed);

    assert_ne!(deck1.cards, fresh_deck.cards, "shuffle_deck should shuffle the deck");
    assert_ne!(deck2.cards, fresh_deck.cards, "shuffle_deck_unbiased should shuffle the deck");
}
