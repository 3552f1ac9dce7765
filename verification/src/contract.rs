//! Small composite value types: a card, a bidding call, the doubling state,
//! and a contract with its canonical textual rendering such as `"4NT"`,
//! `"3Sx"` or `"7Cxx"`.
use crate::suits::Strain;
use crate::suits::Suit;
use core::cmp::Ordering;
use vstd::prelude::*;
use vstd::string::StringExecFns;

verus! {

/// The penalty multiplier state of a contract, ordered
/// Undoubled < Doubled < Redoubled.
#[derive(Debug, Copy, Clone, Eq, PartialEq, Hash, Structural)]
pub enum Doubling {
    Undoubled,
    Doubled,
    Redoubled,
}

impl Doubling {
    /// Position of this state in the doubling order.
    pub open spec fn rank(self) -> int {
        match self {
            Doubling::Undoubled => 0,
            Doubling::Doubled => 1,
            Doubling::Redoubled => 2,
        }
    }

    /// What `partial_cmp` returns, in terms of `rank`.
    pub open spec fn cmp_spec(self, other: &Doubling) -> Ordering {
        if self.rank() < other.rank() {
            Ordering::Less
        } else if self.rank() == other.rank() {
            Ordering::Equal
        } else {
            Ordering::Greater
        }
    }
}

impl PartialOrd for Doubling {
    fn partial_cmp(&self, other: &Doubling) -> (r: Option<Ordering>) {
        let a: u8 = match self {
            Doubling::Undoubled => 0,
            Doubling::Doubled => 1,
            Doubling::Redoubled => 2,
        };
        let b: u8 = match other {
            Doubling::Undoubled => 0,
            Doubling::Doubled => 1,
            Doubling::Redoubled => 2,
        };
        if a < b {
            Some(Ordering::Less)
        } else if a == b {
            Some(Ordering::Equal)
        } else {
            Some(Ordering::Greater)
        }
    }
}

impl vstd::std_specs::cmp::PartialOrdSpecImpl for Doubling {
    open spec fn obeys_partial_cmp_spec() -> bool {
        true
    }

    open spec fn partial_cmp_spec(&self, other: &Doubling) -> Option<Ordering> {
        Some(self.cmp_spec(other))
    }
}

/// A bidding action: a pass, a bid of a level in a strain, a double, or a
/// redouble. The type itself validates nothing.
#[derive(Debug, Copy, Clone, Eq, PartialEq, Hash, Structural)]
pub enum Call {
    Pass,
    Bid(u8, Strain),
    Double,
    Redouble,
}

/// A single card: a rank in [2, 14] by convention (unchecked by the type) and
/// a suit.
#[derive(Debug, Copy, Clone, Eq, PartialEq, Hash, Structural)]
pub struct Card(pub u32, pub Suit);

/// A contract: a level in [1, 7] by convention (unchecked by the type), a
/// strain, and a doubling state.
#[derive(Debug, Copy, Clone, Eq, PartialEq, Hash, Structural)]
pub struct Contract {
    pub level: u8,
    pub strain: Strain,
    pub doubling: Doubling,
}

/// The character for a single decimal digit.
pub open spec fn digit_char(d: int) -> char {
    if d == 0 {
        '0'
    } else if d == 1 {
        '1'
    } else if d == 2 {
        '2'
    } else if d == 3 {
        '3'
    } else if d == 4 {
        '4'
    } else if d == 5 {
        '5'
    } else if d == 6 {
        '6'
    } else if d == 7 {
        '7'
    } else if d == 8 {
        '8'
    } else {
        '9'
    }
}

/// The decimal representation of `n`, most significant digit first, with no
/// leading zeros (a lone zero for 0).
pub open spec fn decimal_rep(n: nat) -> Seq<char>
    decreases n,
{
    if n < 10 {
        seq![digit_char(n as int)]
    } else {
        decimal_rep(n / 10).push(digit_char((n % 10) as int))
    }
}

/// The one- or two-letter code of a strain: `NT` for NoTrump, the suit's
/// initial otherwise.
pub open spec fn strain_code(s: Strain) -> Seq<char> {
    match s {
        Strain::NoTrump => seq!['N', 'T'],
        Strain::Suit(Suit::Spades) => seq!['S'],
        Strain::Suit(Suit::Hearts) => seq!['H'],
        Strain::Suit(Suit::Diamonds) => seq!['D'],
        Strain::Suit(Suit::Clubs) => seq!['C'],
    }
}

/// The suffix a doubling state appends to a rendered contract: nothing, `x`,
/// or `xx`.
pub open spec fn doubling_suffix(d: Doubling) -> Seq<char> {
    match d {
        Doubling::Undoubled => Seq::empty(),
        Doubling::Doubled => seq!['x'],
        Doubling::Redoubled => seq!['x', 'x'],
    }
}

impl Contract {
    /// The canonical rendering: the level in decimal, the strain code, then
    /// the doubling suffix.
    pub open spec fn render_spec(self) -> Seq<char> {
        decimal_rep(self.level as nat) + strain_code(self.strain) + doubling_suffix(self.doubling)
    }

    /// Renders the contract as text, for example `"4NT"`, `"3Sx"` or
    /// `"7Cxx"`.
    pub fn render(&self) -> (r: String)
        ensures
            r@ == self.render_spec(),
    {
        let mut s = String::new();
        let n = self.level;
        if n >= 100 {
            s.append(digit_str(n / 100));
        }
        if n >= 10 {
            s.append(digit_str((n / 10) % 10));
        }
        s.append(digit_str(n % 10));
        proof {
            lemma_decimal_rep_u8(n);
            assert(s@ =~= decimal_rep(n as nat));
        }
        match self.strain {
            Strain::NoTrump => {
                proof {
                    reveal_strlit("NT");
                }
                s.append("NT");
            },
            Strain::Suit(Suit::Spades) => {
                proof {
                    reveal_strlit("S");
                }
                s.append("S");
            },
            Strain::Suit(Suit::Hearts) => {
                proof {
                    reveal_strlit("H");
                }
                s.append("H");
            },
            Strain::Suit(Suit::Diamonds) => {
                proof {
                    reveal_strlit("D");
                }
                s.append("D");
            },
            Strain::Suit(Suit::Clubs) => {
                proof {
                    reveal_strlit("C");
                }
                s.append("C");
            },
        }
        proof {
            assert(s@ =~= decimal_rep(n as nat) + strain_code(self.strain));
        }
        match self.doubling {
            Doubling::Undoubled => {},
            Doubling::Doubled => {
                proof {
                    reveal_strlit("x");
                }
                s.append("x");
            },
            Doubling::Redoubled => {
                proof {
                    reveal_strlit("xx");
                }
                s.append("xx");
            },
        }
        proof {
            assert(s@ =~= self.render_spec());
        }
        s
    }
}

/// The one-character string for a single decimal digit.
fn digit_str(d: u8) -> (r: &'static str)
    requires
        d < 10,
    ensures
        r@ == seq![digit_char(d as int)],
{
    proof {
        reveal_strlit("0");
        reveal_strlit("1");
        reveal_strlit("2");
        reveal_strlit("3");
        reveal_strlit("4");
        reveal_strlit("5");
        reveal_strlit("6");
        reveal_strlit("7");
        reveal_strlit("8");
        reveal_strlit("9");
    }
    let r: &'static str = if d == 0 {
        "0"
    } else if d == 1 {
        "1"
    } else if d == 2 {
        "2"
    } else if d == 3 {
        "3"
    } else if d == 4 {
        "4"
    } else if d == 5 {
        "5"
    } else if d == 6 {
        "6"
    } else if d == 7 {
        "7"
    } else if d == 8 {
        "8"
    } else {
        "9"
    };
    proof {
        assert(r@ =~= seq![digit_char(d as int)]);
    }
    r
}

/// The decimal representation of a byte, unfolded into its one, two or three
/// digits.
proof fn lemma_decimal_rep_u8(n: u8)
    ensures
        n < 10 ==> decimal_rep(n as nat) == seq![digit_char(n as int)],
        10 <= n < 100 ==> decimal_rep(n as nat) == seq![
            digit_char(n as int / 10),
            digit_char(n as int % 10),
        ],
        n >= 100 ==> decimal_rep(n as nat) == seq![
            digit_char(n as int / 100),
            digit_char((n as int / 10) % 10),
            digit_char(n as int % 10),
        ],
{
    let m = n as nat;
    if n < 10 {
    } else if n < 100 {
        assert(decimal_rep(m) == decimal_rep(m / 10).push(digit_char((m % 10) as int)));
        assert(decimal_rep(m / 10) == seq![digit_char((m / 10) as int)]);
        assert(decimal_rep(m) =~= seq![digit_char(n as int / 10), digit_char(n as int % 10)]);
    } else {
        assert(decimal_rep(m) == decimal_rep(m / 10).push(digit_char((m % 10) as int)));
        assert(10 <= m / 10 < 100);
        assert(decimal_rep(m / 10) == decimal_rep(m / 10 / 10).push(
            digit_char((m / 10 % 10) as int),
        ));
        assert(m / 10 / 10 == m / 100);
        assert(m / 100 < 10);
        assert(decimal_rep(m / 100) == seq![digit_char((m / 100) as int)]);
        assert(decimal_rep(m) =~= seq![
            digit_char(n as int / 100),
            digit_char((n as int / 10) % 10),
            digit_char(n as int % 10),
        ]);
    }
}

} // verus!
