//! The opcode decoder: splits one fetched 16-bit instruction word into its
//! four nibble fields. Every word decodes to some field tuple; validation is
//! the dispatcher's business, not the decoder's.

use vstd::prelude::*;

verus! {

/// The high nibble of an instruction word: the instruction category.
pub open spec fn nib_category(w: u16) -> u8 {
    (w / 0x1000) as u8
}

/// The second nibble: the `x` register index.
pub open spec fn nib_x(w: u16) -> int {
    (w as int / 0x100) % 16
}

/// The third nibble: the `y` register index or a sub-category.
pub open spec fn nib_y(w: u16) -> int {
    (w as int / 0x10) % 16
}

/// The low nibble: a sub-category or nibble literal.
pub open spec fn nib_n(w: u16) -> u8 {
    (w % 16) as u8
}

/// The low byte of an instruction word, used as an 8-bit immediate.
pub open spec fn word_kk(w: u16) -> u8 {
    (w % 0x100) as u8
}

/// The low 12 bits of an instruction word, used as an address immediate.
pub open spec fn word_nnn(w: u16) -> u16 {
    w % 0x1000
}

/// One decoded instruction word: `category` is the high nibble, `x` and `y`
/// are register-index nibbles, `n` is the low nibble.
pub struct Opcode {
    pub category: u8,
    pub x: usize,
    pub y: usize,
    pub n: u8,
}

impl Opcode {
    /// Every field is a nibble.
    pub open spec fn wf(self) -> bool {
        self.category < 16 && self.x < 16 && self.y < 16 && self.n < 16
    }

    /// This value is exactly the decoding of the word `w`.
    pub open spec fn decodes(self, w: u16) -> bool {
        self.category == nib_category(w) && self.x == nib_x(w) && self.y == nib_y(w)
            && self.n == nib_n(w)
    }

    /// The 8-bit immediate carried in the decoded fields.
    pub open spec fn spec_kk(self) -> int {
        self.y * 16 + self.n
    }

    /// The 12-bit address immediate carried in the decoded fields.
    pub open spec fn spec_nnn(self) -> int {
        self.x * 0x100 + self.y * 16 + self.n
    }

    /// Split a 16-bit instruction word into its four nibbles.
    pub fn from_word(value: u16) -> (r: Opcode)
        ensures
            r.wf(),
            r.decodes(value),
    {
        let nibble_1: u8 = (value / 0x1000) as u8;
        let nibble_2: u16 = (value / 0x100) % 16;
        let nibble_3: u16 = (value / 0x10) % 16;
        let nibble_4: u8 = (value % 16) as u8;

        Opcode { category: nibble_1, x: nibble_2 as usize, y: nibble_3 as usize, n: nibble_4 }
    }

    /// The 8-bit immediate: the low byte `(y << 4) | n` of the decoded word.
    pub fn kk(&self) -> (r: u8)
        requires
            self.wf(),
        ensures
            r == self.spec_kk(),
            forall|w: u16| self.decodes(w) ==> r == word_kk(w),
    {
        proof {
            assert forall|w: u16| self.decodes(w) implies (self.y * 16 + self.n) == word_kk(
                w,
            ) by {
                lemma_nibbles_recompose(w);
            }
        }
        (self.y as u8) * 16 + self.n
    }

    /// The 12-bit address immediate: the low three nibbles of the decoded word.
    pub fn nnn(&self) -> (r: u16)
        requires
            self.wf(),
        ensures
            r == self.spec_nnn(),
            forall|w: u16| self.decodes(w) ==> r == word_nnn(w),
    {
        proof {
            assert forall|w: u16| self.decodes(w) implies (self.x * 0x100 + self.y * 16
                + self.n) == word_nnn(w) by {
                lemma_nibbles_recompose(w);
            }
        }
        (self.x as u16) * 0x100 + (self.y as u16) * 16 + (self.n as u16)
    }
}

/// The nibble fields reassemble into the word's low bits: the immediates
/// `kk` and `nnn` are exactly the low byte and the low 12 bits.
pub proof fn lemma_nibbles_recompose(w: u16)
    ensures
        nib_x(w) * 0x100 + nib_y(w) * 16 + nib_n(w) == word_nnn(w),
        nib_y(w) * 16 + nib_n(w) == word_kk(w),
        word_kk(w) == word_nnn(w) % 0x100,
{
    assert(nib_x(w) * 0x100 + nib_y(w) * 16 + nib_n(w) == word_nnn(w)) by (nonlinear_arith);
    assert(nib_y(w) * 16 + nib_n(w) == word_kk(w)) by (nonlinear_arith);
    assert(word_kk(w) == word_nnn(w) % 0x100) by (nonlinear_arith);
}

} // verus!
