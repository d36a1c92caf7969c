//! Where the initial weights come from.
use vstd::prelude::*;

verus! {

/// A source of scalars for initial weights and biases. The contract of a
/// source is its range: every value it gives satisfies `in_range`.
pub trait RandomSource<T> {
    /// The values that the source may give.
    spec fn in_range(value: T) -> bool;

    /// The next value.
    fn draw(&mut self) -> (r: T)
        ensures
            Self::in_range(r),
    ;
}

/// The generator that `rand` keeps for the calling thread, as a source of
/// the integers -1, 0 and 1.
pub struct ThreadSource;

/// `rand::random::<u64>()`: a word from the generator that `rand` keeps for
/// the calling thread. Nothing is claimed of the word. The call panics where
/// the operating system gives the generator nothing to seed itself from; no
/// argument decides that.
#[verifier::external_body]
fn random_word() -> (r: u64) {
    rand::random::<u64>()
}

impl RandomSource<i64> for ThreadSource {
    open spec fn in_range(value: i64) -> bool {
        -1 <= value <= 1
    }

    fn draw(&mut self) -> (r: i64)
        ensures
            exists|word: u64| r == #[trigger] unit_of_word(word),
    {
        let word: u64 = random_word();
        ThreadSource::from_word(word)
    }
}

/// The integer that a word of the generator stands for: its remainder by
/// three, less one.
pub open spec fn unit_of_word(word: u64) -> i64 {
    ((word % 3) - 1) as i64
}

impl ThreadSource {
    /// The integer that `word` stands for: -1, 0 or 1 as its remainder by
    /// three is 0, 1 or 2. `draw` gives this for the word it draws.
    pub fn from_word(word: u64) -> (r: i64)
        ensures
            r == unit_of_word(word),
    {
        let third: u64 = word % 3;
        let r: i64 = third as i64;
        r - 1
    }
}

} // verus!
