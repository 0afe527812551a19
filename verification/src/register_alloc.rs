//! Names for PowerPC registers in generated code, and spills.
use vstd::prelude::*;
use std::collections::HashMap;
use crate::text::{append_dec, dec_nat};

verus! {

broadcast use vstd::std_specs::hash::group_hash_axioms;

/// The name of a register: `r` and its number.
pub open spec fn register_name(r: u8) -> Seq<char> {
    "r"@ + dec_nat(r as nat)
}

/// Gives each PowerPC register a name once and remembers spilled ones.
pub struct RegisterAllocator {
    register_map: HashMap<u8, String>,
    next_temp: usize,
    spilled_registers: Vec<u8>,
}

impl RegisterAllocator {
    /// The names given so far.
    pub closed spec fn names(&self) -> Map<u8, Seq<char>> {
        self.register_map@.map_values(|s: String| s@)
    }

    /// The registers spilled, in order.
    pub closed spec fn spilled(&self) -> Seq<u8> {
        self.spilled_registers@
    }

    /// How many names have been given (wrapping).
    pub closed spec fn temps(&self) -> usize {
        self.next_temp
    }

    /// Every name given is the register's name.
    pub closed spec fn wf(&self) -> bool {
        forall|r: u8| self.names().contains_key(r) ==> self.names()[r] == register_name(r)
    }

    /// An allocator with no names and nothing spilled.
    pub fn new() -> (a: RegisterAllocator)
        ensures
            a.wf(),
            a.names() == Map::<u8, Seq<char>>::empty(),
            a.spilled() == Seq::<u8>::empty(),
            a.temps() == 0,
    {
        let a = RegisterAllocator { register_map: HashMap::new(), next_temp: 0, spilled_registers: Vec::new() };
        assert(a.names() =~= Map::<u8, Seq<char>>::empty());
        a
    }

    /// The name of a register, given as `r` and its number the first time.
    pub fn allocate_register(&mut self, ppc_reg: u8) -> (name: String)
        requires
            old(self).wf(),
        ensures
            final(self).wf(),
            name@ == register_name(ppc_reg),
            final(self).names() == old(self).names().insert(ppc_reg, register_name(ppc_reg)),
            final(self).spilled() == old(self).spilled(),
            final(self).temps() == (if old(self).names().contains_key(ppc_reg) {
                old(self).temps()
            } else {
                old(self).temps().wrapping_add(1)
            }),
    {
        match self.register_map.get(&ppc_reg) {
            Some(n) => {
                let name = n.clone();
                assert(self.names()[ppc_reg] == name@);
                assert(self.names().insert(ppc_reg, register_name(ppc_reg)) =~= self.names());
                name
            },
            None => {
                let mut name = String::from_str("r");
                append_dec(&mut name, ppc_reg as u64);
                self.next_temp = self.next_temp.wrapping_add(1);
                let ghost before = self.register_map@;
                self.register_map.insert(ppc_reg, name.clone());
                assert(self.names() =~= before.map_values(|s: String| s@).insert(ppc_reg, name@));
                name
            },
        }
    }

    /// The stack variable of a spilled register, which is recorded.
    pub fn spill_register(&mut self, reg: u8) -> (v: String)
        requires
            old(self).wf(),
        ensures
            final(self).wf(),
            v@ == "spilled_r"@ + dec_nat(reg as nat),
            final(self).spilled() == old(self).spilled().push(reg),
            final(self).names() == old(self).names(),
            final(self).temps() == old(self).temps(),
    {
        let mut v = String::from_str("spilled_r");
        append_dec(&mut v, reg as u64);
        self.spilled_registers.push(reg);
        v
    }
}

impl Default for RegisterAllocator {
    fn default() -> (a: RegisterAllocator)
        ensures
            a.wf(),
            a.names() == Map::<u8, Seq<char>>::empty(),
            a.spilled() == Seq::<u8>::empty(),
    {
        RegisterAllocator::new()
    }
}

} // verus!
