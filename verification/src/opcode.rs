//! The 16-bit instruction word: its bit fields and its mnemonic text.
use vstd::prelude::*;
use vstd::string::*;
use crate::text::{hex_text, hex_digits, decimal_text, push_hex, push_hex_digits, push_decimal};

verus! {

/// `value` in hexadecimal, upper case, without prefix; `0` for zero.
pub fn hex(value: u16) -> (out: String)
    ensures
        out@ == hex_text(value as nat),
{
    let mut out = String::new();
    push_hex(&mut out, value);
    out
}

/// One instruction word. Its fields are views of the sixteen bits and are
/// never stored apart from them.
#[derive(Clone, Copy, Debug, PartialEq, Eq, Structural)]
pub struct Opcode {
    pub code: u16,
}

/// The register index in bits 8 to 11.
pub open spec fn field_x(code: u16) -> u16 {
    (code >> 8) & 0xf
}

/// The register index in bits 4 to 7.
pub open spec fn field_y(code: u16) -> u16 {
    (code >> 4) & 0xf
}

/// The lowest four bits.
pub open spec fn field_n(code: u16) -> u16 {
    code & 0xf
}

/// The low byte.
pub open spec fn field_kk(code: u16) -> u16 {
    code & 0xff
}

/// The low twelve bits: an address.
pub open spec fn field_nnn(code: u16) -> u16 {
    code & 0xfff
}

/// The text of a mnemonic followed by one operand and a closing text.
pub open spec fn text_one(head: Seq<char>, a: u16, tail: Seq<char>) -> Seq<char> {
    head + hex_text(a as nat) + tail
}

/// The text of a mnemonic followed by two operands.
pub open spec fn text_two(head: Seq<char>, a: u16, mid: Seq<char>, b: u16) -> Seq<char> {
    head + hex_text(a as nat) + mid + hex_text(b as nat)
}

/// The mnemonic text of every instruction word. Words outside the instruction
/// set are written as their value in decimal.
pub open spec fn mnemonic(code: u16) -> Seq<char> {
    let x = field_x(code);
    let y = field_y(code);
    let kk = field_kk(code);
    let nnn = field_nnn(code);
    let family = code & 0xf000;
    let low = code & 0x00ff;
    let last = code & 0x000f;
    if family == 0x0000 {
        if low == 0x00e0 {
            "CLR"@
        } else if low == 0x00ee {
            "RET"@
        } else {
            text_one("SYS "@, nnn, ""@)
        }
    } else if family == 0x1000 {
        text_one("JP "@, nnn, ""@)
    } else if family == 0x2000 {
        text_one("CALL "@, nnn, ""@)
    } else if family == 0x3000 {
        text_two("SE V"@, x, ", "@, kk)
    } else if family == 0x4000 {
        text_two("SNE V"@, x, ", "@, kk)
    } else if family == 0x5000 {
        text_two("SE V"@, x, ", V"@, y)
    } else if family == 0x6000 {
        text_two("LD V"@, x, ", "@, kk)
    } else if family == 0x7000 {
        text_two("ADD V"@, x, ", "@, kk)
    } else if family == 0x8000 {
        if last == 0x0 {
            text_two("LD V"@, x, ", V"@, y)
        } else if last == 0x1 {
            text_two("OR V"@, x, ", V"@, y)
        } else if last == 0x2 {
            text_two("AND V"@, x, ", V"@, y)
        } else if last == 0x3 {
            text_two("XOR V"@, x, ", V"@, y)
        } else if last == 0x4 {
            text_two("ADD V"@, x, ", V"@, y)
        } else if last == 0x5 {
            text_two("SUB V"@, x, ", V"@, y)
        } else if last == 0x6 {
            text_one("SHR V"@, x, ""@)
        } else if last == 0x7 {
            text_two("SUBN V"@, x, ", V"@, y)
        } else if last == 0xe {
            text_one("SHL V"@, x, ""@)
        } else {
            decimal_text(code as nat)
        }
    } else if family == 0x9000 {
        text_two("SNE V"@, x, ", V"@, y)
    } else if family == 0xa000 {
        text_one("LD I, "@, nnn, ""@)
    } else if family == 0xb000 {
        text_one("JP V0, "@, nnn, ""@)
    } else if family == 0xc000 {
        text_two("RND V"@, x, ", "@, kk)
    } else if family == 0xd000 {
        text_two("DRW V"@, x, ", V"@, y) + ", "@ + hex_text(kk as nat)
    } else if family == 0xe000 {
        if last == 0xe {
            text_one("SKP V"@, x, ""@)
        } else if last == 0x1 {
            text_one("SKNP V"@, x, ""@)
        } else {
            decimal_text(code as nat)
        }
    } else {
        if low == 0x07 {
            text_one("LD V"@, x, ", DT"@)
        } else if low == 0x0a {
            text_one("LD V"@, x, ", K"@)
        } else if low == 0x15 {
            text_one("LD DT, V"@, x, ""@)
        } else if low == 0x18 {
            text_one("LD ST, V"@, x, ""@)
        } else if low == 0x1e {
            text_one("ADD I, V"@, x, ""@)
        } else if low == 0x29 {
            text_one("LD F, V"@, x, ""@)
        } else if low == 0x33 {
            text_one("LD B, V"@, x, ""@)
        } else if low == 0x55 {
            text_one("LD [I], V"@, x, ""@)
        } else if low == 0x65 {
            text_one("LD V"@, x, ", [I]"@)
        } else {
            decimal_text(code as nat)
        }
    }
}

fn one(head: &str, a: u16, tail: &str) -> (out: String)
    ensures
        out@ == text_one(head@, a, tail@),
{
    let mut out = String::from_str(head);
    push_hex(&mut out, a);
    out.append(tail);
    out
}

fn two(head: &str, a: u16, mid: &str, b: u16) -> (out: String)
    ensures
        out@ == text_two(head@, a, mid@, b),
{
    let mut out = String::from_str(head);
    push_hex(&mut out, a);
    out.append(mid);
    push_hex(&mut out, b);
    out
}

fn raw(code: u16) -> (out: String)
    ensures
        out@ == decimal_text(code as nat),
{
    let mut out = String::new();
    push_decimal(&mut out, code);
    out
}

impl Opcode {
    pub fn new(code: u16) -> (out: Self)
        ensures
            out.code == code,
    {
        Opcode { code }
    }

    /// Bits 8 to 11, a register index.
    pub fn x(&self) -> (out: usize)
        ensures
            out == field_x(self.code),
            out == (self.code >> 8) & 0xf,
            out < 16,
    {
        let v: u16 = (self.code >> 8) & 0xf;
        let c: u16 = self.code;
        assert(((c >> 8) & 0xf) < 16) by (bit_vector);
        v as usize
    }

    /// Bits 4 to 7, a register index.
    pub fn y(&self) -> (out: usize)
        ensures
            out == field_y(self.code),
            out == (self.code >> 4) & 0xf,
            out < 16,
    {
        let v: u16 = (self.code >> 4) & 0xf;
        let c: u16 = self.code;
        assert(((c >> 4) & 0xf) < 16) by (bit_vector);
        v as usize
    }

    /// The low twelve bits, an address.
    pub fn nnn(&self) -> (out: u16)
        ensures
            out == field_nnn(self.code),
            out == self.code & 0xfff,
            out < 4096,
    {
        let c: u16 = self.code;
        assert((c & 0xfff) < 4096) by (bit_vector);
        self.code & 0x0fff
    }

    /// The low byte.
    pub fn kk(&self) -> (out: u16)
        ensures
            out == field_kk(self.code),
            out == self.code & 0xff,
            out < 256,
    {
        let c: u16 = self.code;
        assert((c & 0xff) < 256) by (bit_vector);
        self.code & 0x00ff
    }

    /// The lowest four bits.
    pub fn n(&self) -> (out: u16)
        ensures
            out == field_n(self.code),
            out == self.code & 0xf,
            out < 16,
    {
        let c: u16 = self.code;
        assert((c & 0xf) < 16) by (bit_vector);
        self.code & 0x000f
    }

    /// Sets the word to zero.
    pub fn clear(&mut self)
        ensures
            final(self).code == 0,
    {
        self.code = 0;
    }

    /// The word with only the bits of `rhs` kept.
    pub fn bitand(&self, rhs: u16) -> (out: u16)
        ensures
            out == self.code & rhs,
    {
        self.code & rhs
    }

    /// The word with the bits of `rhs` set.
    pub fn bitor(&self, rhs: u16) -> (out: u16)
        ensures
            out == self.code | rhs,
    {
        self.code | rhs
    }

    /// The word with the bits of `rhs` flipped.
    pub fn bitxor(&self, rhs: u16) -> (out: u16)
        ensures
            out == self.code ^ rhs,
    {
        self.code ^ rhs
    }

    /// The word for display: a heading and its hexadecimal digits, none for zero.
    pub fn display(&self) -> (out: String)
        ensures
            out@ == "Opcode :"@ + hex_digits(self.code as nat),
    {
        let mut out = String::from_str("Opcode :");
        push_hex_digits(&mut out, self.code);
        out
    }

    /// The mnemonic text of the word.
    pub fn dessemble(&self) -> (out: String)
        ensures
            out@ == mnemonic(self.code),
    {
        let code = self.code;
        let x: u16 = (code >> 8) & 0xf;
        let y: u16 = (code >> 4) & 0xf;
        let kk: u16 = code & 0xff;
        let nnn: u16 = code & 0xfff;
        let family: u16 = code & 0xf000;
        let low: u16 = code & 0x00ff;
        let last: u16 = code & 0x000f;
        if family == 0x0000 {
            if low == 0x00e0 {
                String::from_str("CLR")
            } else if low == 0x00ee {
                String::from_str("RET")
            } else {
                one("SYS ", nnn, "")
            }
        } else if family == 0x1000 {
            one("JP ", nnn, "")
        } else if family == 0x2000 {
            one("CALL ", nnn, "")
        } else if family == 0x3000 {
            two("SE V", x, ", ", kk)
        } else if family == 0x4000 {
            two("SNE V", x, ", ", kk)
        } else if family == 0x5000 {
            two("SE V", x, ", V", y)
        } else if family == 0x6000 {
            two("LD V", x, ", ", kk)
        } else if family == 0x7000 {
            two("ADD V", x, ", ", kk)
        } else if family == 0x8000 {
            if last == 0x0 {
                two("LD V", x, ", V", y)
            } else if last == 0x1 {
                two("OR V", x, ", V", y)
            } else if last == 0x2 {
                two("AND V", x, ", V", y)
            } else if last == 0x3 {
                two("XOR V", x, ", V", y)
            } else if last == 0x4 {
                two("ADD V", x, ", V", y)
            } else if last == 0x5 {
                two("SUB V", x, ", V", y)
            } else if last == 0x6 {
                one("SHR V", x, "")
            } else if last == 0x7 {
                two("SUBN V", x, ", V", y)
            } else if last == 0xe {
                one("SHL V", x, "")
            } else {
                raw(code)
            }
        } else if family == 0x9000 {
            two("SNE V", x, ", V", y)
        } else if family == 0xa000 {
            one("LD I, ", nnn, "")
        } else if family == 0xb000 {
            one("JP V0, ", nnn, "")
        } else if family == 0xc000 {
            two("RND V", x, ", ", kk)
        } else if family == 0xd000 {
            let mut out = two("DRW V", x, ", V", y);
            out.append(", ");
            push_hex(&mut out, kk);
            out
        } else if family == 0xe000 {
            if last == 0xe {
                one("SKP V", x, "")
            } else if last == 0x1 {
                one("SKNP V", x, "")
            } else {
                raw(code)
            }
        } else {
            if low == 0x07 {
                one("LD V", x, ", DT")
            } else if low == 0x0a {
                one("LD V", x, ", K")
            } else if low == 0x15 {
                one("LD DT, V", x, "")
            } else if low == 0x18 {
                one("LD ST, V", x, "")
            } else if low == 0x1e {
                one("ADD I, V", x, "")
            } else if low == 0x29 {
                one("LD F, V", x, "")
            } else if low == 0x33 {
                one("LD B, V", x, "")
            } else if low == 0x55 {
                one("LD [I], V", x, "")
            } else if low == 0x65 {
                one("LD V", x, ", [I]")
            } else {
                raw(code)
            }
        }
    }
}

} // verus!
