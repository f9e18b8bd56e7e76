use vstd::prelude::*;
use vstd::string::*;
use crate::chain::{lemma_position_unique, position, without_first};
use crate::error::Error;
use crate::format::RegisterFormat;
use crate::hash::{char_code, hash_of, hash_power, lemma_hash_power_range, lemma_hash_range};
use crate::symbol::Symbol;
use crate::value::{LLVMValue, RegisterView, VirtualRegister};

verus! {

/// One link of a collision chain: a symbol and the rest of the chain.
#[derive(Debug)]
pub struct SymbolTableNode {
    symbol: Symbol,
    next: Option<Box<SymbolTableNode>>,
}

/// The symbols of a chain, head first.
pub open spec fn chain_of(link: Option<Box<SymbolTableNode>>) -> Seq<Symbol> {
    match link {
        None => Seq::empty(),
        Some(node) => node.chain(),
    }
}

impl Clone for SymbolTableNode {
    fn clone(&self) -> (res: Self)
        ensures
            res == *self,
        decreases *self,
    {
        SymbolTableNode {
            symbol: self.symbol.clone(),
            next: match &self.next {
                Some(node) => Some(Box::new((&**node).clone())),
                None => None,
            },
        }
    }
}

impl SymbolTableNode {
    /// The symbols from this node to the end of its chain.
    pub closed spec fn chain(&self) -> Seq<Symbol>
        decreases self,
    {
        seq![self.symbol] + match self.next {
            None => Seq::empty(),
            Some(node) => node.chain(),
        }
    }

    /// A node that holds `symbol` and is followed by the chain `next`.
    pub fn new(symbol: Symbol, next: Option<Box<SymbolTableNode>>) -> (node: Self)
        ensures
            node.chain() == seq![symbol] + chain_of(next),
    {
        Self { symbol, next }
    }

    /// The symbol that this node holds.
    pub fn symbol(&self) -> (symbol: &Symbol)
        ensures
            self.chain().len() > 0,
            *symbol == self.chain()[0],
    {
        &self.symbol
    }

    /// The rest of the chain after this node.
    pub fn next(&self) -> (next: &Option<Box<SymbolTableNode>>)
        ensures
            chain_of(*next) == self.chain().drop_first(),
    {
        proof {
            assert(self.chain().drop_first() == chain_of(self.next));
        }
        &self.next
    }
}

/// The chain that holds the symbols of `front` and then continues with `tail`.
spec fn graft(front: Seq<Symbol>, tail: Option<Box<SymbolTableNode>>) -> Option<Box<SymbolTableNode>>
    decreases front.len(),
{
    if front.len() == 0 {
        tail
    } else {
        graft(
            front.drop_last(),
            Some(Box::new(SymbolTableNode { symbol: front.last(), next: tail })),
        )
    }
}

/// The symbols of a grafted chain are those of `front`, then those of `tail`.
proof fn lemma_graft(front: Seq<Symbol>, tail: Option<Box<SymbolTableNode>>)
    ensures
        chain_of(graft(front, tail)) == front + chain_of(tail),
    decreases front.len(),
{
    if front.len() == 0 {
        assert(front + chain_of(tail) == chain_of(tail));
    } else {
        let link = Some(Box::new(SymbolTableNode { symbol: front.last(), next: tail }));
        lemma_graft(front.drop_last(), link);
        assert(chain_of(link) == seq![front.last()] + chain_of(tail));
        assert(front.drop_last() + (seq![front.last()] + chain_of(tail)) == front + chain_of(tail));
    }
}

/// Whether `symbol` is bound to the name that `key` holds.
fn named(symbol: &Symbol, key: &String) -> (r: bool)
    ensures
        r == (symbol.spec_name() == key@),
{
    match symbol {
        Symbol::Local { name, .. } => *name == *key,
    }
}

/// The first symbol bound to `key` in the chain at `head`, open to change.
fn find_mut<'a>(head: &'a mut Option<Box<SymbolTableNode>>, key: &String) -> (found: Option<
    &'a mut Symbol,
>)
    ensures
        match found {
            Some(symbol) => {
                let p = position(chain_of(*old(head)), key@);
                &&& p < chain_of(*old(head)).len()
                &&& *symbol == chain_of(*old(head))[p]
                &&& chain_of(*final(head)) == chain_of(*old(head)).update(p, *final(symbol))
            },
            None => {
                &&& position(chain_of(*old(head)), key@) == chain_of(*old(head)).len()
                &&& chain_of(*final(head)) == chain_of(*old(head))
            },
        },
{
    let ghost whole = chain_of(*head);
    let ghost mut front: Seq<Symbol> = Seq::empty();
    let mut curr = head;
    proof {
        assert(front + chain_of(*curr) == whole);
    }
    loop
        invariant
            *final(head) == graft(front, *final(curr)),
            whole == front + chain_of(*curr),
            whole == chain_of(*old(head)),
            forall|j: int| 0 <= j < front.len() ==> (#[trigger] front[j]).spec_name() != key@,
        decreases chain_of(*curr).len(),
    {
        if curr.is_none() {
            proof {
                lemma_graft(front, *curr);
                lemma_position_unique(whole, key@, whole.len() as int);
            }
            return None;
        }
        let ghost here = curr.unwrap().symbol;
        let ghost tail = curr.unwrap().next;
        proof {
            assert(chain_of(*curr) == seq![here] + chain_of(tail));
        }
        if named(&curr.as_ref().unwrap().symbol, key) {
            let found = &mut curr.as_mut().unwrap().symbol;
            proof {
                let link = Some(Box::new(SymbolTableNode { symbol: *final(found), next: tail }));
                lemma_graft(front, link);
                lemma_position_unique(whole, key@, front.len() as int);
                assert(chain_of(link) == seq![*final(found)] + chain_of(tail));
                assert(front + (seq![*final(found)] + chain_of(tail)) == whole.update(
                    front.len() as int,
                    *final(found),
                ));
            }
            return Some(found);
        }
        curr = &mut curr.as_mut().unwrap().next;
        proof {
            let grown = front.push(here);
            assert(grown.drop_last() == front);
            assert(graft(grown, *final(curr)) == graft(
                front,
                Some(Box::new(SymbolTableNode { symbol: here, next: *final(curr) })),
            ));
            assert(whole == grown + chain_of(*curr));
            front = grown;
        }
    }
}

/// Takes the first symbol bound to `key` out of the chain at `head`, looking
/// at each node and at its successor in turn.
fn unlink(head: &mut Option<Box<SymbolTableNode>>, key: &String)
    ensures
        chain_of(*final(head)) == without_first(chain_of(*old(head)), key@),
{
    let ghost whole = chain_of(*head);
    let ghost mut front: Seq<Symbol> = Seq::empty();
    let mut curr = head;
    proof {
        assert(front + chain_of(*curr) == whole);
    }
    while curr.is_some()
        invariant
            *final(head) == graft(front, *final(curr)),
            whole == front + chain_of(*curr),
            whole == chain_of(*old(head)),
            forall|j: int| 0 <= j < front.len() ==> (#[trigger] front[j]).spec_name() != key@,
        decreases chain_of(*curr).len(),
    {
        let ghost here = curr.unwrap().symbol;
        let ghost after = chain_of(curr.unwrap().next);
        proof {
            assert(chain_of(*curr) == seq![here] + after);
        }
        if named(&curr.as_ref().unwrap().symbol, key) {
            let next = curr.as_mut().unwrap().next.take();
            *curr = next;
            proof {
                lemma_graft(front, *curr);
                lemma_position_unique(whole, key@, front.len() as int);
                assert(whole.remove(front.len() as int) == front + after);
            }
            return;
        } else if curr.as_ref().unwrap().next.is_none() {
            proof {
                lemma_graft(front, *curr);
                lemma_position_unique(whole, key@, whole.len() as int);
            }
            return;
        } else if named(&curr.as_ref().unwrap().next.as_ref().unwrap().symbol, key) {
            let ghost beyond = chain_of(curr.unwrap().next.unwrap().next);
            proof {
                assert(after == seq![curr.unwrap().next.unwrap().symbol] + beyond);
            }
            let node = curr.as_mut().unwrap();
            let rest = node.next.as_mut().unwrap().next.take();
            node.next = rest;
            proof {
                lemma_graft(front, *curr);
                assert(chain_of(*curr) == seq![here] + beyond);
                lemma_position_unique(whole, key@, front.len() as int + 1);
                assert(whole.remove(front.len() as int + 1) == front + (seq![here] + beyond));
            }
            return;
        } else {
            curr = &mut curr.as_mut().unwrap().next;
            proof {
                let grown = front.push(here);
                assert(grown.drop_last() == front);
                assert(graft(grown, *final(curr)) == graft(
                    front,
                    Some(Box::new(SymbolTableNode { symbol: here, next: *final(curr) })),
                ));
                assert(whole == grown + chain_of(*curr));
                front = grown;
            }
        }
    }
    proof {
        lemma_graft(front, *curr);
        lemma_position_unique(whole, key@, whole.len() as int);
    }
}

/// A table of bindings for one scope: a fixed row of buckets, each a chain
/// of symbols with the newest first.
#[derive(Debug)]
pub struct SymbolTable {
    buckets: Vec<Option<Box<SymbolTableNode>>>,
}

impl View for SymbolTable {
    type V = Seq<Seq<Symbol>>;

    /// The chains of the buckets, in bucket order.
    closed spec fn view(&self) -> Seq<Seq<Symbol>> {
        Seq::new(self.buckets@.len(), |i: int| chain_of(self.buckets@[i]))
    }
}

/// The table of `capacity` buckets that holds no binding.
pub open spec fn empty_table(capacity: nat) -> Seq<Seq<Symbol>> {
    Seq::new(capacity, |i: int| Seq::<Symbol>::empty())
}

/// The table `t` after `symbol` went in: it heads the chain of its name's bucket.
pub open spec fn inserted(t: Seq<Seq<Symbol>>, symbol: Symbol) -> Seq<Seq<Symbol>> {
    let h = hash_of(symbol.spec_name(), t.len() as int);
    t.update(h, seq![symbol] + t[h])
}

/// The binding that `name` resolves to in `t`: the first one of that name in
/// the chain of the name's bucket.
pub open spec fn lookup(t: Seq<Seq<Symbol>>, name: Seq<char>) -> Option<Symbol> {
    let chain = t[hash_of(name, t.len() as int)];
    let p = position(chain, name);
    if p < chain.len() {
        Some(chain[p])
    } else {
        None
    }
}

/// The table `t` with `symbol` in the place of the binding that `name`
/// resolves to; `t` itself if it resolves to none.
pub open spec fn replaced(t: Seq<Seq<Symbol>>, name: Seq<char>, symbol: Symbol) -> Seq<
    Seq<Symbol>,
> {
    let h = hash_of(name, t.len() as int);
    let p = position(t[h], name);
    if p < t[h].len() {
        t.update(h, t[h].update(p, symbol))
    } else {
        t
    }
}

/// The table `t` after the binding that `name` resolves to was taken out.
pub open spec fn removed(t: Seq<Seq<Symbol>>, name: Seq<char>) -> Seq<Seq<Symbol>> {
    let h = hash_of(name, t.len() as int);
    t.update(h, without_first(t[h], name))
}

/// Whether `slot` is the storage slot of the local that `symbol` binds: it
/// carries the local's name and points to a value of the local's format.
pub open spec fn is_slot_of(slot: RegisterView, symbol: Symbol) -> bool {
    &&& slot.id == symbol.spec_name()
    &&& slot.format == (RegisterFormat::Pointer {
        pointee: Box::new(symbol.spec_value().spec_format()),
    })
}

impl SymbolTable {
    /// A table of `capacity` empty buckets.
    pub fn new(capacity: usize) -> (table: Self)
        ensures
            table@ == empty_table(capacity as nat),
    {
        let mut buckets: Vec<Option<Box<SymbolTableNode>>> = Vec::new();
        buckets.resize(capacity, None);
        let table = SymbolTable { buckets };
        assert(table@ =~= empty_table(capacity as nat));
        table
    }

    /// The number of buckets, fixed when the table was made. It is not the
    /// number of symbols held.
    pub fn len(&self) -> (capacity: usize)
        ensures
            capacity == self@.len(),
    {
        self.buckets.len()
    }

    /// The bucket of `name`: a rolling sum over its characters, reduced by
    /// the capacity after every step. The steps are computed in 128 bits, so
    /// that none of them wraps, whatever the capacity.
    pub fn hash(&self, name: &str) -> (bucket: usize)
        requires
            self@.len() > 0,
        ensures
            bucket == hash_of(name@, self@.len() as int),
            bucket < self@.len(),
    {
        let len: u128 = self.len() as u128;
        let prime: u128 = 67;
        let mut pow: u128 = 1;
        let mut hash: u128 = 0;
        for c in it: name.chars()
            invariant
                it.seq() == name@,
                len == self@.len(),
                0 < len <= usize::MAX,
                prime == 67,
                hash == hash_of(name@.take(it.index() as int), len as int),
                pow == hash_power(it.index() as nat, len as int),
        {
            let ghost k = it.index() as int;
            proof {
                lemma_hash_range(name@.take(k), len as int);
                lemma_hash_power_range(k as nat, len as int);
                lemma_hash_power_range((k + 1) as nat, len as int);
                lemma_hash_range(name@.take(k + 1), len as int);
                assert(name@.take(k + 1).drop_last() == name@.take(k));
                assert(name@.take(k + 1).last() == c);
            }
            let code: u128 = char_code(c) as u128;
            let digit: u128 = code % len;
            assert(digit <= code) by (nonlinear_arith)
                requires
                    digit == code % len,
                    len > 0,
            ;
            assert(digit * pow <= 0x10FFFF * 0x1_0000_0000_0000_0000) by (nonlinear_arith)
                requires
                    digit <= 0x10FFFF,
                    pow <= 0x1_0000_0000_0000_0000,
            ;
            hash = (hash + digit * pow) % len;
            pow = (pow * prime) % len;
        }
        proof {
            assert(name@.take(name@.len() as int) == name@);
            lemma_hash_range(name@, len as int);
        }
        hash as usize
    }

    /// Puts `symbol` at the head of its name's chain. A binding of the same
    /// name that is already there stays, hidden behind the new one.
    pub fn insert(&mut self, symbol: Symbol)
        requires
            old(self)@.len() > 0,
        ensures
            final(self)@ == inserted(old(self)@, symbol),
    {
        let hash = self.hash(symbol.name());
        let curr_node = &mut self.buckets[hash];
        let new_symbol = SymbolTableNode::new(symbol, curr_node.take());
        *curr_node = Some(Box::new(new_symbol));
        assert(self@ =~= inserted(old(self)@, symbol));
    }

    /// The binding that `name` resolves to: the newest one of that name.
    pub fn get(&self, name: &str) -> (found: Result<&Symbol, Error>)
        requires
            self@.len() > 0,
        ensures
            match found {
                Ok(symbol) => lookup(self@, name@) == Some(*symbol),
                Err(e) => lookup(self@, name@) is None && e.is_undefined(name@),
            },
    {
        let hash = self.hash(name);
        let key = name.to_owned();
        let ghost whole = self@[hash as int];
        let ghost mut seen: int = 0;
        let mut curr = &self.buckets[hash];
        loop
            invariant
                0 <= seen <= whole.len(),
                whole == self@[hash as int],
                hash == hash_of(name@, self@.len() as int),
                key@ == name@,
                chain_of(*curr) == whole.skip(seen),
                forall|j: int| 0 <= j < seen ==> (#[trigger] whole[j]).spec_name() != name@,
            decreases whole.len() - seen,
        {
            match curr {
                None => {
                    proof {
                        lemma_position_unique(whole, name@, whole.len() as int);
                    }
                    return Err(Error::SymbolUndefined { name: key });
                },
                Some(c) => {
                    if named(c.symbol(), &key) {
                        proof {
                            lemma_position_unique(whole, name@, seen);
                        }
                        return Ok(c.symbol());
                    }
                    proof {
                        assert(whole.skip(seen).drop_first() == whole.skip(seen + 1));
                        seen = seen + 1;
                    }
                    curr = c.next();
                },
            }
        }
    }

    /// The binding that `name` resolves to, open to change. What the caller
    /// leaves there takes the old binding's place in the chain.
    pub fn get_mut(&mut self, name: &str) -> (found: Result<&mut Symbol, Error>)
        requires
            old(self)@.len() > 0,
        ensures
            match found {
                Ok(symbol) => {
                    &&& lookup(old(self)@, name@) == Some(*symbol)
                    &&& final(self)@ == replaced(old(self)@, name@, *final(symbol))
                },
                Err(e) => {
                    &&& lookup(old(self)@, name@) is None
                    &&& e.is_undefined(name@)
                    &&& final(self)@ == old(self)@
                },
            },
    {
        let hash = self.hash(name);
        let key = name.to_owned();
        match find_mut(&mut self.buckets[hash], &key) {
            Some(symbol) => Ok(symbol),
            None => Err(Error::SymbolUndefined { name: key }),
        }
    }

    /// Takes out the binding that `name` resolves to, so that the one it hid,
    /// if any, shows again. Does nothing if `name` is not bound.
    pub fn remove(&mut self, name: &str)
        requires
            old(self)@.len() > 0,
        ensures
            final(self)@ == removed(old(self)@, name@),
    {
        let hash = self.hash(name);
        let key = name.to_owned();
        unlink(&mut self.buckets[hash], &key);
        assert(self@ =~= removed(old(self)@, name@));
    }

    /// The binding for a new local `name` of `format`, and the register of
    /// its storage slot. The symbol records the local's own format; the slot
    /// is a pointer to it, under the same name.
    pub fn create_local(&self, name: &String, format: &RegisterFormat) -> (local: (
        Symbol,
        VirtualRegister,
    ))
        ensures
            local.0.spec_name() == name@,
            local.0.spec_value() matches LLVMValue::VirtualRegister(value) && value@ == (
            RegisterView { id: name@, format: *format }),
            local.1@ == (RegisterView {
                id: name@,
                format: RegisterFormat::Pointer { pointee: Box::new(*format) },
            }),
            is_slot_of(local.1@, local.0),
    {
        let value = VirtualRegister::new(name.clone(), format.clone());
        let symbol = Symbol::Local {
            name: name.clone(),
            value: LLVMValue::VirtualRegister(value.clone()),
        };
        let pointer = VirtualRegister::new(name.clone(), format.to_pointer());
        (symbol, pointer)
    }
}

} // verus!
