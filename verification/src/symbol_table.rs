//! The process-wide registry of named bindings.
//!
//! Built-in families are installed here once at start-up; the evaluator
//! resolves identifiers against it afterwards. A binding carries the value,
//! whether user code may reassign it, and whether it is a declared constant.
//! Defining a name that already exists shadows the older binding, so the
//! table's meaning is a map from names to their newest entry.
use vstd::prelude::*;

use crate::value::{str_eq, NativeFn, Value};

verus! {

/// One named binding.
pub struct SymbolEntry {
    pub name: String,
    pub value: Value,
    pub mutable: bool,
    pub constant: bool,
}

/// The registry: a name-to-binding table with shadowing.
pub struct SymbolTable {
    entries: Vec<SymbolEntry>,
}

/// The meaning of a sequence of definitions: each later definition of a
/// name overrides the earlier ones.
pub open spec fn table_map(s: Seq<SymbolEntry>) -> Map<Seq<char>, (Value, bool, bool)>
    decreases s.len(),
{
    if s.len() == 0 {
        Map::empty()
    } else {
        table_map(s.drop_last()).insert(
            s.last().name@,
            (s.last().value, s.last().mutable, s.last().constant),
        )
    }
}

impl View for SymbolTable {
    type V = Map<Seq<char>, (Value, bool, bool)>;

    closed spec fn view(&self) -> Map<Seq<char>, (Value, bool, bool)> {
        table_map(self.entries@)
    }
}

impl SymbolTable {
    /// An empty registry.
    pub fn new() -> (r: SymbolTable)
        ensures
            r@ == Map::<Seq<char>, (Value, bool, bool)>::empty(),
    {
        let t = SymbolTable { entries: Vec::new() };
        proof {
            assert(t.entries@.len() == 0);
        }
        t
    }

    /// Insert or overwrite a binding.
    pub fn define(&mut self, name: String, value: Value, mutable: bool, constant: bool)
        ensures
            final(self)@ == old(self)@.insert(name@, (value, mutable, constant)),
    {
        let ghost before = self.entries@;
        let entry = SymbolEntry { name, value, mutable, constant };
        let ghost e = entry;
        self.entries.push(entry);
        proof {
            assert(self.entries@.drop_last() =~= before);
            assert(self.entries@.last() == e);
        }
    }

    /// Install a built-in under its public name: immutable and constant,
    /// as every native binding is.
    pub fn define_native_function(&mut self, name: &str, f: NativeFn)
        ensures
            final(self)@ == old(self)@.insert(name@, (Value::NativeFunction(f), false, true)),
    {
        self.define(name.to_owned(), Value::NativeFunction(f), false, true);
    }

    /// Resolve a name to its newest binding.
    pub fn lookup(&self, name: &str) -> (r: Option<&Value>)
        ensures
            match r {
                Some(v) => self@.contains_key(name@) && *v == self@[name@].0,
                None => !self@.contains_key(name@),
            },
    {
        let mut k: usize = self.entries.len();
        proof {
            assert(self.entries@.take(k as int) =~= self.entries@);
        }
        while k > 0
            invariant
                0 <= k <= self.entries@.len(),
                table_map(self.entries@).contains_key(name@) <==> table_map(
                    self.entries@.take(k as int),
                ).contains_key(name@),
                table_map(self.entries@).contains_key(name@) ==> table_map(self.entries@)[name@]
                    == table_map(self.entries@.take(k as int))[name@],
            decreases k,
        {
            k = k - 1;
            proof {
                assert(self.entries@.take(k + 1).drop_last() =~= self.entries@.take(k as int));
                assert(self.entries@.take(k + 1).last() == self.entries@[k as int]);
            }
            if str_eq(self.entries[k].name.as_str(), name) {
                return Some(&self.entries[k].value);
            }
        }
        proof {
            assert(self.entries@.take(0) =~= Seq::<SymbolEntry>::empty());
        }
        None
    }
}

} // verus!
