use vstd::prelude::*;

verus! {

/// The weight of the character at index `n` of a name, in a table of `cap` buckets.
pub open spec fn hash_power(n: nat, cap: int) -> int
    decreases n,
{
    if n == 0 {
        1
    } else {
        (hash_power((n - 1) as nat, cap) * 67) % cap
    }
}

/// The bucket of the name `s` in a table of `cap` buckets: every character's
/// code, reduced, weighted and added, with a reduction after each step.
pub open spec fn hash_of(s: Seq<char>, cap: int) -> int
    decreases s.len(),
{
    if s.len() == 0 {
        0
    } else {
        (hash_of(s.drop_last(), cap) + ((s.last() as int) % cap) * hash_power(
            (s.len() - 1) as nat,
            cap,
        )) % cap
    }
}

/// Every weight is 1 or a remainder of `cap`.
pub proof fn lemma_hash_power_range(n: nat, cap: int)
    requires
        cap > 0,
    ensures
        0 <= hash_power(n, cap),
        hash_power(n, cap) == 1 || hash_power(n, cap) < cap,
    decreases n,
{
    if n > 0 {
        lemma_hash_power_range((n - 1) as nat, cap);
        let p = hash_power((n - 1) as nat, cap);
        assert(0 <= (p * 67) % cap < cap) by (nonlinear_arith)
            requires
                cap > 0,
        ;
    }
}

/// A name's bucket is an index into the table.
pub proof fn lemma_hash_range(s: Seq<char>, cap: int)
    requires
        cap > 0,
    ensures
        0 <= hash_of(s, cap) < cap,
    decreases s.len(),
{
    if s.len() > 0 {
        let x = hash_of(s.drop_last(), cap) + ((s.last() as int) % cap) * hash_power(
            (s.len() - 1) as nat,
            cap,
        );
        assert(0 <= x % cap < cap) by (nonlinear_arith)
            requires
                cap > 0,
        ;
    }
}

/// The code of a character, as a number below 2^21.
pub fn char_code(c: char) -> (code: u32)
    ensures
        code == c as int,
        code <= 0x10FFFF,
{
    c as u32
}

} // verus!
