//! An eight-bit register.

use vstd::prelude::*;

use crate::math_utils::{add_c, add_spec, bit_of, sub_spec};

verus! {

/// An eight-bit register; its view is the byte it holds.
#[derive(Debug, Clone, Copy, PartialEq, Eq, Structural)]
pub struct Register {
    data: u8,
}

impl View for Register {
    type V = u8;

    closed spec fn view(&self) -> u8 {
        self.data
    }
}

impl Register {
    pub fn new(data: u8) -> (r: Self)
        ensures
            r@ == data,
    {
        Self { data }
    }

    pub fn set(&mut self, data: u8)
        ensures
            final(self)@ == data,
    {
        self.data = data;
    }

    pub fn get(&self) -> (r: u8)
        ensures
            r == self@,
    {
        self.data
    }

    /// Bit `bit_idx` of the register, counted from the least significant bit.
    pub fn bit(&self, bit_idx: u8) -> (r: bool)
        requires
            bit_idx < 8,
        ensures
            r == bit_of(self@, bit_idx),
    {
        (self.data >> bit_idx) & 1u8 == 1u8
    }

    /// 8-bit increment: `self = self + 1`, wrapping.
    ///
    /// Returns: (`c_flag`, `v_flag`)
    pub fn inc(&mut self) -> (r: (bool, bool))
        ensures
            final(self)@ == add_spec(old(self)@, 1, false).0,
            r == (add_spec(old(self)@, 1, false).1, add_spec(old(self)@, 1, false).2),
    {
        let res = add_c(self.data, 1, false);
        self.data = res.0;
        (res.1, res.2)
    }

    /// 8-bit decrement: `self = self - 1`, wrapping.
    ///
    /// Returns: (`c_flag`, `v_flag`)
    pub fn dec(&mut self) -> (r: (bool, bool))
        ensures
            final(self)@ == sub_spec(old(self)@, 1, false).0,
            r == (sub_spec(old(self)@, 1, false).1, sub_spec(old(self)@, 1, false).2),
    {
        let res = crate::math_utils::sub(self.data, 1);
        self.data = res.0;
        (res.1, res.2)
    }
}

} // verus!
