//! Mapping of Xinje devices (D registers, M coils) to Modbus addresses.
//! The bases can be set per site in the parameter page (`d_base`/`m_base`), 0 by default.

use vstd::prelude::*;

verus! {

/// Device mapping bases: Modbus address = device number + Modbus base.
#[derive(Debug, Clone, Copy)]
pub struct PlcMap {
    /// Modbus holding-register base of the D registers (0 on Xinje by default).
    pub d_base: u16,
    /// Modbus coil base of the M coils.
    pub m_base: u16,
}

impl PlcMap {
    /// Whether register `Dd` has a Modbus address.
    pub open spec fn d_fits(self, d: u16) -> bool {
        self.d_base + d <= u16::MAX
    }

    /// Whether coil `Mm` has a Modbus address.
    pub open spec fn m_fits(self, m: u16) -> bool {
        self.m_base + m <= u16::MAX
    }

    /// Dn -> Modbus holding-register address.
    pub fn d_reg(&self, d: u16) -> (a: u16)
        requires
            self.d_fits(d),
        ensures
            a == self.d_base + d,
    {
        self.d_base + d
    }

    /// Mn -> Modbus coil address.
    pub fn m_coil(&self, m: u16) -> (a: u16)
        requires
            self.m_fits(m),
        ensures
            a == self.m_base + m,
    {
        self.m_base + m
    }
}

} // verus!
