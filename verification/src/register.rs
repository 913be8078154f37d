use vstd::prelude::*;

verus! {

/// The core registers of the Cortex-M target that the debug server can write.
#[derive(Copy, Clone, Debug, PartialEq, Eq, Structural)]
pub enum Register {
    R0,
    R1,
    R2,
    R3,
    R4,
    R5,
    R6,
    R7,
    R8,
    R9,
    R10,
    R11,
    R12,
    MSP,
    PSP,
    LR,
    PC,
    XPSR,
}

/// The name under which the debug server knows each register.
pub open spec fn register_name(register: Register) -> Seq<char> {
    match register {
        Register::R0 => "R0"@,
        Register::R1 => "R1"@,
        Register::R2 => "R2"@,
        Register::R3 => "R3"@,
        Register::R4 => "R4"@,
        Register::R5 => "R5"@,
        Register::R6 => "R6"@,
        Register::R7 => "R7"@,
        Register::R8 => "R8"@,
        Register::R9 => "R9"@,
        Register::R10 => "R10"@,
        Register::R11 => "R11"@,
        Register::R12 => "R12"@,
        Register::MSP => "MSP"@,
        Register::PSP => "PSP"@,
        Register::LR => "LR"@,
        Register::PC => "PC"@,
        Register::XPSR => "XPSR"@,
    }
}

/// No two registers share a name.
pub proof fn lemma_register_names_distinct(a: Register, b: Register)
    ensures
        register_name(a) == register_name(b) ==> a == b,
{
    reveal_strlit("R0");
    reveal_strlit("R1");
    reveal_strlit("R2");
    reveal_strlit("R3");
    reveal_strlit("R4");
    reveal_strlit("R5");
    reveal_strlit("R6");
    reveal_strlit("R7");
    reveal_strlit("R8");
    reveal_strlit("R9");
    reveal_strlit("R10");
    reveal_strlit("R11");
    reveal_strlit("R12");
    reveal_strlit("MSP");
    reveal_strlit("PSP");
    reveal_strlit("LR");
    reveal_strlit("PC");
    reveal_strlit("XPSR");
    if register_name(a) == register_name(b) && a != b {
        let na = register_name(a);
        let nb = register_name(b);
        assert(na.len() == nb.len());
        assert(na[0] != nb[0] || na[1] != nb[1] || na[na.len() - 1] != nb[nb.len() - 1]);
    }
}

impl Register {
    /// The register's name, as the debug server expects it.
    pub fn to_string(&self) -> (res: String)
        ensures
            res@ == register_name(*self),
    {
        let name = match self {
            Register::R0 => "R0",
            Register::R1 => "R1",
            Register::R2 => "R2",
            Register::R3 => "R3",
            Register::R4 => "R4",
            Register::R5 => "R5",
            Register::R6 => "R6",
            Register::R7 => "R7",
            Register::R8 => "R8",
            Register::R9 => "R9",
            Register::R10 => "R10",
            Register::R11 => "R11",
            Register::R12 => "R12",
            Register::MSP => "MSP",
            Register::PSP => "PSP",
            Register::LR => "LR",
            Register::PC => "PC",
            Register::XPSR => "XPSR",
        };
        name.to_owned()
    }
}

} // verus!
