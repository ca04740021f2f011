//! Playing cards, the 52-card deck and the phases of a hand.
use vstd::prelude::*;
use vstd::string::*;

verus! {

/// A playing card packed in one byte: the suit in the high four bits, the rank
/// (1 = Ace, ..., 13 = King) in the low four bits.
#[derive(Clone, Copy, Debug, PartialEq, Eq, Structural, PartialOrd, Ord, Hash)]
pub struct Card(pub u8);

/// The phases of community-card disclosure.
#[derive(Clone, Copy, Debug, PartialEq, Eq, Structural)]
pub enum GameState {
    PreFlop,
    Flop,
    Turn,
    River,
}

/// The symbol that renders a suit.
pub open spec fn suit_symbol(suit: u8) -> Seq<char> {
    if suit == 0 {
        seq!['\u{2663}']
    } else if suit == 1 {
        seq!['\u{2666}']
    } else if suit == 2 {
        seq!['\u{2665}']
    } else {
        seq!['\u{2660}']
    }
}

/// The symbol that renders a rank.
pub open spec fn rank_symbol(rank: u8) -> Seq<char> {
    if rank == 1 {
        seq!['A']
    } else if rank == 2 {
        seq!['2']
    } else if rank == 3 {
        seq!['3']
    } else if rank == 4 {
        seq!['4']
    } else if rank == 5 {
        seq!['5']
    } else if rank == 6 {
        seq!['6']
    } else if rank == 7 {
        seq!['7']
    } else if rank == 8 {
        seq!['8']
    } else if rank == 9 {
        seq!['9']
    } else if rank == 10 {
        seq!['1', '0']
    } else if rank == 11 {
        seq!['J']
    } else if rank == 12 {
        seq!['Q']
    } else {
        seq!['K']
    }
}

/// How a valid card is rendered: its suit symbol, then its rank symbol.
pub open spec fn card_text(c: Card) -> Seq<char> {
    suit_symbol(c.suit()) + rank_symbol(c.rank())
}

fn suit_str(suit: u8) -> (r: &'static str)
    requires
        suit < 4,
    ensures
        r@ == suit_symbol(suit),
{
    if suit == 0 {
        proof {
            reveal_strlit("\u{2663}");
        }
        "\u{2663}"
    } else if suit == 1 {
        proof {
            reveal_strlit("\u{2666}");
        }
        "\u{2666}"
    } else if suit == 2 {
        proof {
            reveal_strlit("\u{2665}");
        }
        "\u{2665}"
    } else {
        proof {
            reveal_strlit("\u{2660}");
        }
        "\u{2660}"
    }
}

fn rank_str(rank: u8) -> (r: &'static str)
    requires
        1 <= rank <= 13,
    ensures
        r@ == rank_symbol(rank),
{
    if rank == 1 {
        proof {
            reveal_strlit("A");
        }
        "A"
    } else if rank == 2 {
        proof {
            reveal_strlit("2");
        }
        "2"
    } else if rank == 3 {
        proof {
            reveal_strlit("3");
        }
        "3"
    } else if rank == 4 {
        proof {
            reveal_strlit("4");
        }
        "4"
    } else if rank == 5 {
        proof {
            reveal_strlit("5");
        }
        "5"
    } else if rank == 6 {
        proof {
            reveal_strlit("6");
        }
        "6"
    } else if rank == 7 {
        proof {
            reveal_strlit("7");
        }
        "7"
    } else if rank == 8 {
        proof {
            reveal_strlit("8");
        }
        "8"
    } else if rank == 9 {
        proof {
            reveal_strlit("9");
        }
        "9"
    } else if rank == 10 {
        proof {
            reveal_strlit("10");
        }
        "10"
    } else if rank == 11 {
        proof {
            reveal_strlit("J");
        }
        "J"
    } else if rank == 12 {
        proof {
            reveal_strlit("Q");
        }
        "Q"
    } else {
        proof {
            reveal_strlit("K");
        }
        "K"
    }
}

impl Card {
    /// The card of the given suit and rank.
    pub open spec fn of(suit: u8, rank: u8) -> Card {
        Card((suit * 16 + rank) as u8)
    }

    pub open spec fn spec_suit(&self) -> u8 {
        self.0 / 16
    }

    pub open spec fn spec_rank(&self) -> u8 {
        self.0 % 16
    }

    /// A suit below 4 and a rank from 1 to 13.
    pub open spec fn is_valid(self) -> bool {
        self.suit() < 4 && 1 <= self.rank() <= 13
    }

    pub fn new(suit: u8, rank: u8) -> (c: Card)
        requires
            suit < 4,
            1 <= rank <= 13,
        ensures
            c == Card::of(suit, rank),
            c.suit() == suit,
            c.rank() == rank,
            c.is_valid(),
    {
        let b: u8 = (suit << 4) | rank;
        assert(b == suit * 16 + rank && (b / 16) as u8 == suit && (b % 16) as u8 == rank)
            by (bit_vector)
            requires
                suit < 4,
                1 <= rank <= 13,
                b == (suit << 4) | rank,
        ;
        Card(b)
    }

    #[verifier::when_used_as_spec(spec_suit)]
    pub fn suit(&self) -> (r: u8)
        ensures
            r == self.spec_suit(),
    {
        let b: u8 = self.0;
        assert(b >> 4 == b / 16) by (bit_vector);
        b >> 4
    }

    #[verifier::when_used_as_spec(spec_rank)]
    pub fn rank(&self) -> (r: u8)
        ensures
            r == self.spec_rank(),
    {
        let b: u8 = self.0;
        assert(b & 0b1111 == b % 16) by (bit_vector);
        b & 0b1111
    }

    pub fn to_bytes(&self) -> (r: u8)
        ensures
            r == self.0,
    {
        self.0
    }

    pub fn from_bytes(byte: u8) -> (c: Card)
        ensures
            c.0 == byte,
    {
        Card(byte)
    }

    /// Renders the card as its suit symbol followed by its rank symbol (`"\u{2660}K"`).
    pub fn to_string(&self) -> (r: String)
        requires
            self.is_valid(),
        ensures
            r@ == card_text(*self),
    {
        let mut out = String::from_str(suit_str(self.suit()));
        out.append(rank_str(self.rank()));
        out
    }
}

/// An ordered sequence of cards, dealt from its end.
#[derive(Clone, Debug, PartialEq, Eq)]
pub struct Deck {
    pub cards: Vec<Card>,
}

/// The 52 cards in canonical order: suit by suit, each from Ace to King.
pub open spec fn canonical_deck() -> Seq<Card> {
    Seq::new(52, |i: int| Card::of((i / 13) as u8, (i % 13 + 1) as u8))
}

impl Deck {
    /// A fresh deck in canonical order.
    pub fn new() -> (d: Deck)
        ensures
            d.cards@ == canonical_deck(),
    {
        let mut cards: Vec<Card> = Vec::new();
        let mut suit: u8 = 0;
        while suit < 4
            invariant
                suit <= 4,
                cards@ == canonical_deck().subrange(0, suit * 13),
            decreases 4 - suit,
        {
            let mut rank: u8 = 1;
            while rank <= 13
                invariant
                    suit < 4,
                    1 <= rank <= 14,
                    cards@ == canonical_deck().subrange(0, suit * 13 + rank - 1),
                decreases 14 - rank,
            {
                let c = Card::new(suit, rank);
                proof {
                    let i = suit * 13 + rank - 1;
                    assert(i / 13 == suit && i % 13 + 1 == rank) by (nonlinear_arith)
                        requires
                            i == suit * 13 + rank - 1,
                            1 <= rank <= 13,
                    ;
                    assert(cards@.push(c) =~= canonical_deck().subrange(0, i + 1));
                }
                cards.push(c);
                rank = rank + 1;
            }
            suit = suit + 1;
        }
        assert(cards@ =~= canonical_deck());
        Deck { cards }
    }

    /// The byte of each card, in order.
    pub fn to_bytes(&self) -> (r: Vec<u8>)
        ensures
            r@ == self.cards@.map_values(|c: Card| c.0),
    {
        let mut r: Vec<u8> = Vec::new();
        let mut i: usize = 0;
        while i < self.cards.len()
            invariant
                i <= self.cards@.len(),
                r@ == self.cards@.subrange(0, i as int).map_values(|c: Card| c.0),
            decreases self.cards@.len() - i,
        {
            proof {
                assert(r@.push(self.cards@[i as int].0) =~= self.cards@.subrange(
                    0,
                    i + 1,
                ).map_values(|c: Card| c.0));
            }
            r.push(self.cards[i].0);
            i = i + 1;
        }
        assert(self.cards@.subrange(0, i as int) =~= self.cards@);
        r
    }

    /// The deck whose cards have the given bytes, in order.
    pub fn from_bytes(bytes: &[u8]) -> (d: Deck)
        ensures
            d.cards@ == bytes@.map_values(|b: u8| Card(b)),
    {
        let mut cards: Vec<Card> = Vec::new();
        let mut i: usize = 0;
        while i < bytes.len()
            invariant
                i <= bytes@.len(),
                cards@ == bytes@.subrange(0, i as int).map_values(|b: u8| Card(b)),
            decreases bytes@.len() - i,
        {
            proof {
                assert(cards@.push(Card(bytes@[i as int])) =~= bytes@.subrange(0, i + 1).map_values(
                    |b: u8| Card(b),
                ));
            }
            cards.push(Card(bytes[i]));
            i = i + 1;
        }
        assert(bytes@.subrange(0, i as int) =~= bytes@);
        Deck { cards }
    }
}

} // verus!
