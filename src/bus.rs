//! Operations on the GPIO register block, and an in-memory register bank
//! that gives them meaning.
//!
//! The controller never touches device memory itself: it appends `BusOp`s to
//! a list, and whoever owns the mapped register block performs them, in
//! order, with volatile accesses.
use vstd::prelude::*;

verus! {

/// Word index of the pin-output set register.
pub const SET_REGISTER: usize = 7;
/// Word index of the pin-output clear register.
pub const CLEAR_REGISTER: usize = 10;
/// Word index of the pin-level register.
pub const LEVEL_REGISTER: usize = 13;
/// Size of the mapped register window in bytes.
pub const REGISTER_BLOCK_SIZE: usize = 4096;
/// Size of the mapped register window in 32-bit words.
pub const REGISTER_WORDS: usize = 1024;

/// One access to the register block.
#[derive(Copy, Clone, Debug, PartialEq, Eq, Structural)]
pub enum BusOp {
    /// Store `value` into word `register`.
    Write { register: usize, value: u32 },
    /// Read word `register`, clear the bits of `clear`, set those of `set`,
    /// and store the result back.
    Modify { register: usize, clear: u32, set: u32 },
    /// Keep the bus as it is for `nanos` nanoseconds.
    Dwell { nanos: u32 },
}

/// What one operation does to the words of a register bank. A write to the
/// set or clear register raises or lowers the given pins in the level
/// register.
pub open spec fn apply_op(words: Seq<u32>, op: BusOp) -> Seq<u32> {
    match op {
        BusOp::Write { register, value } => {
            if register == SET_REGISTER {
                words.update(LEVEL_REGISTER as int, words[LEVEL_REGISTER as int] | value)
            } else if register == CLEAR_REGISTER {
                words.update(LEVEL_REGISTER as int, words[LEVEL_REGISTER as int] & !value)
            } else if register < words.len() {
                words.update(register as int, value)
            } else {
                words
            }
        },
        BusOp::Modify { register, clear, set } => {
            if register < words.len() {
                words.update(register as int, (words[register as int] & !clear) | set)
            } else {
                words
            }
        },
        BusOp::Dwell { .. } => words,
    }
}

/// What a sequence of operations, performed in order, does to a bank.
pub open spec fn apply_ops(words: Seq<u32>, ops: Seq<BusOp>) -> Seq<u32>
    decreases ops.len(),
{
    if ops.len() == 0 {
        words
    } else {
        apply_op(apply_ops(words, ops.drop_last()), ops.last())
    }
}

/// Performing `a` and then `b` is performing `a + b`.
pub proof fn lemma_apply_ops_append(words: Seq<u32>, a: Seq<BusOp>, b: Seq<BusOp>)
    ensures
        apply_ops(words, a + b) == apply_ops(apply_ops(words, a), b),
    decreases b.len(),
{
    if b.len() == 0 {
        assert(a + b =~= a);
    } else {
        assert((a + b).drop_last() =~= a + b.drop_last());
        lemma_apply_ops_append(words, a, b.drop_last());
    }
}

/// An in-memory stand-in for the mapped register block.
pub struct RegisterBank {
    words: Vec<u32>,
}

impl View for RegisterBank {
    type V = Seq<u32>;

    closed spec fn view(&self) -> Seq<u32> {
        self.words@
    }
}

impl RegisterBank {
    /// A bank of `REGISTER_WORDS` zero words.
    pub fn new() -> (r: RegisterBank)
        ensures
            r@ == Seq::new(REGISTER_WORDS as nat, |i: int| 0u32),
    {
        let mut words: Vec<u32> = Vec::new();
        while words.len() < REGISTER_WORDS
            invariant
                words.len() <= REGISTER_WORDS,
                forall|i: int| 0 <= i < words@.len() ==> words@[i] == 0,
            decreases REGISTER_WORDS - words.len(),
        {
            words.push(0);
        }
        let r = RegisterBank { words };
        assert(r@ =~= Seq::new(REGISTER_WORDS as nat, |i: int| 0u32));
        r
    }

    /// The number of words.
    pub fn len(&self) -> (r: usize)
        ensures
            r == self@.len(),
    {
        self.words.len()
    }

    /// The word at `register`.
    pub fn read(&self, register: usize) -> (r: u32)
        requires
            register < self@.len(),
        ensures
            r == self@[register as int],
    {
        self.words[register]
    }

    /// The current pin levels.
    pub fn level(&self) -> (r: u32)
        requires
            self@.len() == REGISTER_WORDS,
        ensures
            r == self@[LEVEL_REGISTER as int],
    {
        self.words[LEVEL_REGISTER]
    }

    /// Performs one operation.
    pub fn apply(&mut self, op: BusOp)
        requires
            old(self)@.len() == REGISTER_WORDS,
        ensures
            final(self)@ == apply_op(old(self)@, op),
            final(self)@.len() == REGISTER_WORDS,
    {
        match op {
            BusOp::Write { register, value } => {
                if register == SET_REGISTER {
                    let v = self.words[LEVEL_REGISTER] | value;
                    self.words.set(LEVEL_REGISTER, v);
                } else if register == CLEAR_REGISTER {
                    let v = self.words[LEVEL_REGISTER] & !value;
                    self.words.set(LEVEL_REGISTER, v);
                } else if register < self.words.len() {
                    self.words.set(register, value);
                }
            },
            BusOp::Modify { register, clear, set } => {
                if register < self.words.len() {
                    let v = (self.words[register] & !clear) | set;
                    self.words.set(register, v);
                }
            },
            BusOp::Dwell { .. } => {},
        }
    }

    /// Performs `ops` in order.
    pub fn run(&mut self, ops: &Vec<BusOp>)
        requires
            old(self)@.len() == REGISTER_WORDS,
        ensures
            final(self)@ == apply_ops(old(self)@, ops@),
            final(self)@.len() == REGISTER_WORDS,
    {
        let ghost start = self@;
        let mut i: usize = 0;
        while i < ops.len()
            invariant
                i <= ops@.len(),
                self@.len() == REGISTER_WORDS,
                self@ == apply_ops(start, ops@.subrange(0, i as int)),
            decreases ops@.len() - i,
        {
            self.apply(ops[i]);
            proof {
                assert(ops@.subrange(0, i + 1).drop_last() =~= ops@.subrange(0, i as int));
            }
            i = i + 1;
        }
        assert(ops@.subrange(0, i as int) =~= ops@);
    }
}

} // verus!
