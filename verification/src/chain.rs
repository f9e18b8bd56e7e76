use vstd::prelude::*;
use crate::symbol::Symbol;

verus! {

/// Whether some symbol of `chain` is bound to `name`.
pub open spec fn binds(chain: Seq<Symbol>, name: Seq<char>) -> bool {
    exists|i: int| 0 <= i < chain.len() && (#[trigger] chain[i]).spec_name() == name
}

/// The index of the first symbol of `chain` bound to `name`; the length of
/// `chain` if there is none.
pub open spec fn position(chain: Seq<Symbol>, name: Seq<char>) -> int
    decreases chain.len(),
{
    if chain.len() == 0 {
        0
    } else if chain[0].spec_name() == name {
        0
    } else {
        1 + position(chain.drop_first(), name)
    }
}

/// `chain` without its first symbol bound to `name`; `chain` itself if there
/// is none.
pub open spec fn without_first(chain: Seq<Symbol>, name: Seq<char>) -> Seq<Symbol> {
    let i = position(chain, name);
    if i < chain.len() {
        chain.remove(i)
    } else {
        chain
    }
}

/// `position` is the least index bound to `name`, and nothing before it is.
pub proof fn lemma_position(chain: Seq<Symbol>, name: Seq<char>)
    ensures
        0 <= position(chain, name) <= chain.len(),
        position(chain, name) < chain.len() ==> chain[position(chain, name)].spec_name() == name,
        forall|j: int| 0 <= j < position(chain, name) ==> (#[trigger] chain[j]).spec_name() != name,
        position(chain, name) < chain.len() <==> binds(chain, name),
    decreases chain.len(),
{
    if chain.len() == 0 {
    } else if chain[0].spec_name() == name {
    } else {
        let rest = chain.drop_first();
        lemma_position(rest, name);
        let p = position(rest, name);
        assert forall|j: int| 0 <= j < 1 + p implies (#[trigger] chain[j]).spec_name() != name by {
            if j > 0 {
                assert(chain[j] == rest[j - 1]);
            }
        }
        if p < rest.len() {
            assert(chain[1 + p] == rest[p]);
        }
        if binds(chain, name) {
            let i = choose|i: int| 0 <= i < chain.len() && (#[trigger] chain[i]).spec_name() == name;
            assert(rest[i - 1] == chain[i]);
        }
    }
}

/// An index bound to `name` with nothing before it bound to `name` is the position.
pub proof fn lemma_position_unique(chain: Seq<Symbol>, name: Seq<char>, i: int)
    requires
        0 <= i <= chain.len(),
        i < chain.len() ==> chain[i].spec_name() == name,
        forall|j: int| 0 <= j < i ==> (#[trigger] chain[j]).spec_name() != name,
    ensures
        position(chain, name) == i,
{
    lemma_position(chain, name);
    let p = position(chain, name);
    if p < i {
        assert(chain[p].spec_name() != name);
    } else if i < p {
        assert(chain[i].spec_name() != name);
    }
}

} // verus!
