//! Entity identification and generation.

use vstd::prelude::*;
use vstd::string::StringExecFns;

verus! {

/// Entity identifier wrapper.
#[derive(Debug, Clone, Copy, PartialEq, Eq, Hash, Structural)]
pub struct Entity(pub u64);

/// The decimal digits of `n`, most significant first, without leading zeros.
pub open spec fn decimal(n: nat) -> Seq<char>
    decreases n,
{
    if n < 10 {
        seq![(48 + n) as char]
    } else {
        decimal(n / 10).push((48 + n % 10) as char)
    }
}

/// The decimal digit `d` as a one-character string.
fn digit_str(d: u64) -> (r: &'static str)
    requires
        d < 10,
    ensures
        r@ == seq![(48 + d) as char],
{
    proof {
        reveal_strlit("0");
        reveal_strlit("1");
        reveal_strlit("2");
        reveal_strlit("3");
        reveal_strlit("4");
        reveal_strlit("5");
        reveal_strlit("6");
        reveal_strlit("7");
        reveal_strlit("8");
        reveal_strlit("9");
    }
    match d {
        0 => "0",
        1 => "1",
        2 => "2",
        3 => "3",
        4 => "4",
        5 => "5",
        6 => "6",
        7 => "7",
        8 => "8",
        _ => "9",
    }
}

/// `n` written in decimal, as `u64`'s `Display` writes it: its digits
/// without leading zeros.
pub(crate) fn decimal_string(n: u64) -> (r: String)
    ensures
        r@ == decimal(n as nat),
{
    let mut rest: u64 = n;
    let mut s = String::new();
    while rest >= 10
        invariant
            decimal(n as nat) == decimal(rest as nat) + s@,
        decreases rest,
    {
        let d = rest % 10;
        let prefix = digit_str(d).to_owned();
        let ghost tail = s@;
        s = prefix.concat(s.as_str());
        proof {
            assert(decimal(rest as nat) == decimal((rest / 10) as nat).push((48 + d) as char));
            assert(decimal(rest as nat) + tail =~= decimal((rest / 10) as nat) + s@);
        }
        rest = rest / 10;
    }
    let first = digit_str(rest).to_owned();
    let ghost tail = s@;
    s = first.concat(s.as_str());
    assert(decimal(rest as nat) + tail =~= s@);
    s
}

impl Entity {
    /// The entity written as `Entity(<id>)`, as its `Display` writes it.
    pub fn to_string(&self) -> (r: String)
        ensures
            r@ == "Entity("@ + decimal(self.0 as nat) + ")"@,
    {
        let digits = decimal_string(self.0);
        "Entity(".to_owned().concat(digits.as_str()).concat(")")
    }
}

/// Generator of unique entity identifiers, counting up from 0.
#[derive(Debug)]
pub struct EntityGenerator {
    next_id: u64,
}

impl EntityGenerator {
    /// The identifier that the next call of `generate` hands out.
    pub closed spec fn next(&self) -> u64 {
        self.next_id
    }

    /// Creates a new entity generator starting at ID 0.
    pub fn new() -> (g: Self)
        ensures
            g.next() == 0,
    {
        Self { next_id: 0 }
    }

    /// The identifier that the next call of `generate` hands out.
    pub(crate) fn peek(&self) -> (r: u64)
        ensures
            r == self.next(),
    {
        self.next_id
    }

    /// Generates a new unique entity ID.
    pub fn generate(&mut self) -> (e: Entity)
        requires
            old(self).next() < u64::MAX,
        ensures
            e.0 == old(self).next(),
            final(self).next() == old(self).next() + 1,
        no_unwind
    {
        let id = self.next_id;
        self.next_id = self.next_id + 1;
        Entity(id)
    }
}

impl Default for EntityGenerator {
    fn default() -> (g: Self)
        ensures
            g.next() == 0,
    {
        Self::new()
    }
}

/// Successive calls of `generate` hand out distinct ids: each call returns
/// the generator's `next()` and moves it on by one, so the ids of calls made
/// one after another from `start` are `start, start + 1, ...`, and no id
/// comes twice.
pub proof fn lemma_generated_ids_unique(ids: Seq<u64>, start: u64)
    requires
        forall|i: int| 0 <= i < ids.len() ==> #[trigger] ids[i] == start + i,
    ensures
        ids.no_duplicates(),
{
    assert forall|i: int, j: int| 0 <= i < ids.len() && 0 <= j < ids.len() && i != j
        implies ids[i] != ids[j] by {
        assert(ids[i] == start + i);
        assert(ids[j] == start + j);
    }
}

} // verus!
