use vstd::prelude::*;
use crate::chain::{binds, lemma_position, lemma_position_unique, position, without_first};
use crate::hash::{hash_of, lemma_hash_range};
use crate::symbol::Symbol;
use crate::table::{empty_table, inserted, lookup, removed, replaced};

verus! {

/// Whether some bucket of `t` holds a binding of `name`.
pub open spec fn occurs(t: Seq<Seq<Symbol>>, name: Seq<char>) -> bool {
    exists|i: int, j: int|
        0 <= i < t.len() && 0 <= j < t[i].len() && (#[trigger] t[i][j]).spec_name() == name
}

/// Whether every binding of `t` lies in the bucket of its own name.
pub open spec fn well_placed(t: Seq<Seq<Symbol>>) -> bool {
    forall|i: int, j: int|
        0 <= i < t.len() && 0 <= j < t[i].len() ==> hash_of(
            (#[trigger] t[i][j]).spec_name(),
            t.len() as int,
        ) == i
}

/// None of the three changes to a table alters its number of buckets.
pub proof fn lemma_capacity_is_fixed(t: Seq<Seq<Symbol>>, symbol: Symbol, name: Seq<char>)
    requires
        t.len() > 0,
    ensures
        inserted(t, symbol).len() == t.len(),
        removed(t, name).len() == t.len(),
        replaced(t, name, symbol).len() == t.len(),
{
    lemma_hash_range(symbol.spec_name(), t.len() as int);
    lemma_hash_range(name, t.len() as int);
}

/// A name resolves to the binding that was just inserted for it.
pub proof fn lemma_insert_then_lookup(t: Seq<Seq<Symbol>>, symbol: Symbol)
    requires
        t.len() > 0,
    ensures
        lookup(inserted(t, symbol), symbol.spec_name()) == Some(symbol),
{
    let name = symbol.spec_name();
    lemma_hash_range(name, t.len() as int);
    let h = hash_of(name, t.len() as int);
    let chain = seq![symbol] + t[h];
    assert(inserted(t, symbol)[h] == chain);
    assert(chain[0] == symbol);
}

/// Inserting a binding of another name changes nothing about what `name`
/// resolves to, whether or not the two names share a bucket.
pub proof fn lemma_insert_other_keeps_lookup(t: Seq<Seq<Symbol>>, symbol: Symbol, name: Seq<char>)
    requires
        t.len() > 0,
        symbol.spec_name() != name,
    ensures
        lookup(inserted(t, symbol), name) == lookup(t, name),
{
    lemma_hash_range(name, t.len() as int);
    lemma_hash_range(symbol.spec_name(), t.len() as int);
    let h = hash_of(name, t.len() as int);
    let g = hash_of(symbol.spec_name(), t.len() as int);
    if g == h {
        let chain = seq![symbol] + t[h];
        assert(inserted(t, symbol)[h] == chain);
        assert(chain.drop_first() == t[h]);
        lemma_position(t[h], name);
        if position(t[h], name) < t[h].len() {
            assert(chain[1 + position(t[h], name)] == t[h][position(t[h], name)]);
        }
    } else {
        assert(inserted(t, symbol)[h] == t[h]);
    }
}

/// Removing a name right after inserting a binding for it gives back the
/// table as it was: an insertion overwrites nothing, and a removal strips
/// only the newest binding.
pub proof fn lemma_remove_undoes_insert(t: Seq<Seq<Symbol>>, symbol: Symbol)
    requires
        t.len() > 0,
    ensures
        removed(inserted(t, symbol), symbol.spec_name()) == t,
{
    let name = symbol.spec_name();
    lemma_hash_range(name, t.len() as int);
    let h = hash_of(name, t.len() as int);
    let chain = seq![symbol] + t[h];
    assert(inserted(t, symbol)[h] == chain);
    assert(chain[0] == symbol);
    assert(chain.remove(0) == t[h]);
    assert(removed(inserted(t, symbol), name) =~= t);
}

/// Of two bindings of one name, the later insertion hides the earlier; one
/// removal brings the earlier back.
pub proof fn lemma_shadowing(t: Seq<Seq<Symbol>>, older: Symbol, newer: Symbol)
    requires
        t.len() > 0,
        older.spec_name() == newer.spec_name(),
    ensures
        lookup(inserted(inserted(t, older), newer), newer.spec_name()) == Some(newer),
        lookup(
            removed(inserted(inserted(t, older), newer), newer.spec_name()),
            newer.spec_name(),
        ) == Some(older),
{
    lemma_capacity_is_fixed(t, older, older.spec_name());
    lemma_insert_then_lookup(inserted(t, older), newer);
    lemma_remove_undoes_insert(inserted(t, older), newer);
    lemma_insert_then_lookup(t, older);
}

/// Removing a name that resolves to nothing leaves every bucket as it was.
pub proof fn lemma_remove_unbound(t: Seq<Seq<Symbol>>, name: Seq<char>)
    requires
        t.len() > 0,
        lookup(t, name) is None,
    ensures
        removed(t, name) == t,
{
    lemma_hash_range(name, t.len() as int);
    assert(removed(t, name) =~= t);
}

/// Removing a name that no bucket holds leaves every bucket as it was.
pub proof fn lemma_remove_absent(t: Seq<Seq<Symbol>>, name: Seq<char>)
    requires
        t.len() > 0,
        !occurs(t, name),
    ensures
        lookup(t, name) is None,
        removed(t, name) == t,
{
    lemma_hash_range(name, t.len() as int);
    let h = hash_of(name, t.len() as int);
    lemma_position(t[h], name);
    if position(t[h], name) < t[h].len() {
        assert(t[h][position(t[h], name)].spec_name() == name);
    }
    lemma_remove_unbound(t, name);
}

/// Removing one name changes nothing about what another name resolves to.
pub proof fn lemma_remove_other_keeps_lookup(t: Seq<Seq<Symbol>>, gone: Seq<char>, name: Seq<char>)
    requires
        t.len() > 0,
        gone != name,
    ensures
        lookup(removed(t, gone), name) == lookup(t, name),
{
    lemma_hash_range(name, t.len() as int);
    lemma_hash_range(gone, t.len() as int);
    let h = hash_of(name, t.len() as int);
    let g = hash_of(gone, t.len() as int);
    if g == h {
        let chain = t[h];
        let p = position(chain, gone);
        let q = position(chain, name);
        lemma_position(chain, gone);
        lemma_position(chain, name);
        assert(removed(t, gone)[h] == without_first(chain, gone));
        if p < chain.len() {
            let rest = chain.remove(p);
            if q < p {
                assert forall|j: int| 0 <= j < q implies (#[trigger] rest[j]).spec_name()
                    != name by {
                    assert(rest[j] == chain[j]);
                }
                assert(rest[q] == chain[q]);
                lemma_position_unique(rest, name, q);
            } else {
                assert forall|j: int| 0 <= j < q - 1 implies (#[trigger] rest[j]).spec_name()
                    != name by {
                    if j < p {
                        assert(rest[j] == chain[j]);
                    } else {
                        assert(rest[j] == chain[j + 1]);
                    }
                }
                if q < chain.len() {
                    assert(rest[q - 1] == chain[q]);
                }
                lemma_position_unique(rest, name, q - 1);
            }
        }
    } else {
        assert(removed(t, gone)[h] == t[h]);
    }
}

/// A table without bindings has the capacity it was made with, resolves no
/// name, and is well placed.
pub proof fn lemma_empty_table(capacity: nat, name: Seq<char>)
    requires
        capacity > 0,
    ensures
        empty_table(capacity).len() == capacity,
        lookup(empty_table(capacity), name) is None,
        !occurs(empty_table(capacity), name),
        well_placed(empty_table(capacity)),
{
    lemma_hash_range(name, capacity as int);
}

/// A well-placed table stays so under insertion and removal, and under a
/// replacement that keeps the name.
pub proof fn lemma_well_placed_is_kept(t: Seq<Seq<Symbol>>, symbol: Symbol, name: Seq<char>)
    requires
        t.len() > 0,
        well_placed(t),
    ensures
        well_placed(inserted(t, symbol)),
        well_placed(removed(t, name)),
        symbol.spec_name() == name ==> well_placed(replaced(t, name, symbol)),
{
    let cap = t.len() as int;
    lemma_hash_range(symbol.spec_name(), cap);
    lemma_hash_range(name, cap);
    let g = hash_of(symbol.spec_name(), cap);
    let h = hash_of(name, cap);
    let a = inserted(t, symbol);
    assert forall|i: int, j: int| 0 <= i < a.len() && 0 <= j < a[i].len() implies hash_of(
        (#[trigger] a[i][j]).spec_name(),
        a.len() as int,
    ) == i by {
        if i == g {
            if j > 0 {
                assert(a[i][j] == t[i][j - 1]);
            }
        } else {
            assert(a[i][j] == t[i][j]);
        }
    }
    let b = removed(t, name);
    let p = position(t[h], name);
    lemma_position(t[h], name);
    assert forall|i: int, j: int| 0 <= i < b.len() && 0 <= j < b[i].len() implies hash_of(
        (#[trigger] b[i][j]).spec_name(),
        b.len() as int,
    ) == i by {
        if i == h && p < t[h].len() {
            if j < p {
                assert(b[i][j] == t[i][j]);
            } else {
                assert(b[i][j] == t[i][j + 1]);
            }
        } else {
            assert(b[i][j] == t[i][j]);
        }
    }
    if symbol.spec_name() == name {
        let c = replaced(t, name, symbol);
        assert forall|i: int, j: int| 0 <= i < c.len() && 0 <= j < c[i].len() implies hash_of(
            (#[trigger] c[i][j]).spec_name(),
            c.len() as int,
        ) == i by {
            if i == h && j == p {
            } else {
                assert(c[i][j] == t[i][j]);
            }
        }
    }
}

/// In a well-placed table a name resolves to a binding exactly if some
/// bucket holds one for it.
pub proof fn lemma_lookup_finds_what_occurs(t: Seq<Seq<Symbol>>, name: Seq<char>)
    requires
        t.len() > 0,
        well_placed(t),
    ensures
        lookup(t, name) is Some <==> occurs(t, name),
        lookup(t, name) matches Some(symbol) ==> symbol.spec_name() == name,
{
    lemma_hash_range(name, t.len() as int);
    let h = hash_of(name, t.len() as int);
    lemma_position(t[h], name);
    let p = position(t[h], name);
    if p < t[h].len() {
        assert(t[h][p].spec_name() == name);
    }
    if occurs(t, name) {
        let (i, j) = choose|i: int, j: int|
            0 <= i < t.len() && 0 <= j < t[i].len() && (#[trigger] t[i][j]).spec_name() == name;
        assert(hash_of(t[i][j].spec_name(), t.len() as int) == i);
        assert(binds(t[h], name));
    }
}

} // verus!
