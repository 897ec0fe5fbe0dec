//! The guessing game itself: the comparison of a guess with the secret, the
//! game state, and the interaction loop driven one line of input at a time.

use crate::parse::{guess_of, parse_guess};
use rand::RngExt;
use vstd::prelude::*;

verus! {

/// The result of comparing a guess with the secret.
#[derive(Clone, Copy, Debug, PartialEq, Eq, Structural)]
pub enum Outcome {
    Less,
    Equal,
    Greater,
}

/// The outcome of comparing a guess `g` with a secret `s` under the total
/// order on integers.
pub open spec fn outcome_of(g: int, s: int) -> Outcome {
    if g < s {
        Outcome::Less
    } else if g > s {
        Outcome::Greater
    } else {
        Outcome::Equal
    }
}

/// Compare a guess with the secret.
pub fn compare(guess: u32, secret: u32) -> (o: Outcome)
    ensures
        o == outcome_of(guess as int, secret as int),
        o == Outcome::Equal <==> guess == secret,
{
    if guess < secret {
        Outcome::Less
    } else if guess > secret {
        Outcome::Greater
    } else {
        Outcome::Equal
    }
}

/// Comparing a guess with a secret yields exactly one of the three outcomes,
/// and `Equal` holds exactly when the two are equal.
pub proof fn lemma_compare_trichotomy(g: int, s: int)
    ensures
        outcome_of(g, s) == Outcome::Less <==> g < s,
        outcome_of(g, s) == Outcome::Greater <==> g > s,
        outcome_of(g, s) == Outcome::Equal <==> g == s,
{
}

/// Relies on `rand::rng` and `rand::RngExt::random_range`: a uniformly
/// distributed value in the given range, which here is never empty.
#[verifier::external_body]
fn random_secret() -> (s: u32)
    ensures
        1 <= s <= 100,
{
    rand::rng().random_range(1..=100)
}

/// What one round of the game says about one line of input.
#[derive(Clone, Copy, Debug, PartialEq, Eq, Structural)]
pub enum Reply {
    /// The line did not parse as a guess; it is silently discarded.
    Ignored,
    /// The line parsed as this guess, which compared to the secret this way.
    Judged(u32, Outcome),
}

/// One run of the game: a secret drawn at the start, and whether a winning
/// guess has been made.
pub struct Game {
    secret: u32,
    won: bool,
}

impl Game {
    /// The secret of this run.
    pub closed spec fn secret(self) -> u32 {
        self.secret
    }

    /// Whether a winning guess has been made.
    pub closed spec fn won(self) -> bool {
        self.won
    }

    /// A game is well formed when its secret lies in `[1, 100]`.
    pub open spec fn inv(self) -> bool {
        1 <= self.secret() <= 100
    }

    /// Start a run: draw a secret uniformly in `[1, 100]`.
    pub fn new() -> (g: Game)
        ensures
            g.inv(),
            !g.won(),
    {
        Game { secret: random_secret(), won: false }
    }

    /// Start a run with a known secret, as a scripted or replayed game does.
    pub fn with_secret(secret: u32) -> (g: Game)
        requires
            1 <= secret <= 100,
        ensures
            g.secret() == secret,
            !g.won(),
    {
        Game { secret, won: false }
    }

    /// The secret of this run.
    pub fn secret_value(&self) -> (s: u32)
        ensures
            s == self.secret(),
    {
        self.secret
    }

    /// Whether a winning guess has been made.
    pub fn has_won(&self) -> (b: bool)
        ensures
            b == self.won(),
    {
        self.won
    }

    /// Play one round on one line of input: parse it and, if it parses,
    /// compare the guess with the secret. The secret never changes, and the
    /// game is won exactly when the line parses to the secret itself.
    pub fn step(&mut self, line: &str) -> (r: Reply)
        requires
            old(self).inv(),
            !old(self).won(),
        ensures
            final(self).inv(),
            final(self).secret() == old(self).secret(),
            guess_of(line@) is None ==> r == Reply::Ignored && !final(self).won(),
            guess_of(line@) matches Some(g) ==> r == Reply::Judged(
                g,
                outcome_of(g as int, old(self).secret() as int),
            ) && (final(self).won() <==> g == old(self).secret()),
    {
        match parse_guess(line) {
            Err(_) => Reply::Ignored,
            Ok(g) => {
                let o = compare(g, self.secret);
                if o == Outcome::Equal {
                    self.won = true;
                }
                Reply::Judged(g, o)
            },
        }
    }
}

/// The outcomes a run with this secret reports on this script of input
/// lines: lines that do not parse are passed over, and the run stops at the
/// first winning guess.
pub open spec fn outcomes_of(secret: u32, lines: Seq<Seq<char>>) -> Seq<Outcome>
    decreases lines.len(),
{
    if lines.len() == 0 {
        Seq::empty()
    } else {
        match guess_of(lines[0]) {
            None => outcomes_of(secret, lines.drop_first()),
            Some(g) => {
                if g == secret {
                    seq![Outcome::Equal]
                } else {
                    seq![outcome_of(g as int, secret as int)] + outcomes_of(
                        secret,
                        lines.drop_first(),
                    )
                }
            },
        }
    }
}

/// Whether a run with this secret ends in a win on this script of input
/// lines.
pub open spec fn script_wins(secret: u32, lines: Seq<Seq<char>>) -> bool
    decreases lines.len(),
{
    if lines.len() == 0 {
        false
    } else {
        match guess_of(lines[0]) {
            None => script_wins(secret, lines.drop_first()),
            Some(g) => g == secret || script_wins(secret, lines.drop_first()),
        }
    }
}

/// Non-matching guesses never end the game: a script none of whose lines
/// parses to the secret itself never wins, however long it is.
pub proof fn lemma_no_match_no_win(secret: u32, lines: Seq<Seq<char>>)
    requires
        forall|i: int| 0 <= i < lines.len() ==> guess_of(#[trigger] lines[i]) != Some(secret),
    ensures
        !script_wins(secret, lines),
    decreases lines.len(),
{
    if lines.len() > 0 {
        assert(guess_of(lines[0]) != Some(secret));
        lemma_no_match_no_win(secret, lines.drop_first());
    }
}

/// Play a whole scripted run: feed the lines to a fresh game with the given
/// secret, one round each, and collect the outcome of every line that
/// parsed, stopping after a winning guess.
pub fn run_script(secret: u32, lines: &Vec<String>) -> (r: (Vec<Outcome>, bool))
    requires
        1 <= secret <= 100,
    ensures
        r.0@ == outcomes_of(secret, lines.deep_view()),
        r.1 == script_wins(secret, lines.deep_view()),
{
    let mut game = Game::with_secret(secret);
    let mut out: Vec<Outcome> = Vec::new();
    let mut won = false;
    let mut i: usize = 0;
    proof {
        assert(lines.deep_view().skip(0) =~= lines.deep_view());
        assert(out@ + outcomes_of(secret, lines.deep_view()) =~= outcomes_of(
            secret,
            lines.deep_view(),
        ));
    }
    while i < lines.len() && !won
        invariant
            1 <= secret <= 100,
            game.inv(),
            game.secret() == secret,
            won == game.won(),
            0 <= i <= lines.len(),
            !won ==> out@ + outcomes_of(secret, lines.deep_view().skip(i as int)) == outcomes_of(
                secret,
                lines.deep_view(),
            ),
            !won ==> script_wins(secret, lines.deep_view()) == script_wins(
                secret,
                lines.deep_view().skip(i as int),
            ),
            won ==> out@ == outcomes_of(secret, lines.deep_view()) && script_wins(
                secret,
                lines.deep_view(),
            ),
        decreases lines.len() - i,
    {
        proof {
            assert(lines.deep_view().skip(i as int)[0] == lines.deep_view()[i as int]);
            assert(lines.deep_view().skip(i as int).drop_first() =~= lines.deep_view().skip(
                i as int + 1,
            ));
        }
        match game.step(lines[i].as_str()) {
            Reply::Ignored => {},
            Reply::Judged(g, o) => {
                out.push(o);
                if o == Outcome::Equal {
                    won = true;
                }
            },
        }
        i += 1;
    }
    proof {
        if !won {
            assert(lines.deep_view().skip(i as int) =~= Seq::<Seq<char>>::empty());
        }
    }
    (out, won)
}

/// The line a player is shown for an outcome.
pub fn outcome_message(o: Outcome) -> (m: &'static str)
    ensures
        o == Outcome::Less ==> m@ == "Too small!"@,
        o == Outcome::Greater ==> m@ == "Too big!"@,
        o == Outcome::Equal ==> m@ == "You win!"@,
{
    match o {
        Outcome::Less => "Too small!",
        Outcome::Greater => "Too big!",
        Outcome::Equal => "You win!",
    }
}

} // verus!
