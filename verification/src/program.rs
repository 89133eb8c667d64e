use vstd::prelude::*;

verus! {

/// One undecoded instruction: a 16-bit compressed one or a 32-bit one.
#[derive(Debug, Clone, Copy)]
pub enum RawInst {
    Compressed(u16),
    Normal(u32),
}

/// The 32-bit word whose low half is `lo` and whose high half is `hi`.
pub open spec fn word_of_halves(lo: u16, hi: u16) -> u32 {
    (lo as int + hi as int * 0x10000) as u32
}

/// The raw instructions that a stream of 16-bit halfwords holds from index
/// `pos` on. A halfword whose two low bits are not both set is a compressed
/// instruction; otherwise it and the next halfword form a 32-bit instruction
/// (low half first). A 32-bit instruction cut off by the end of the stream
/// ends it.
pub open spec fn raw_insts(halfwords: Seq<u16>, pos: int) -> Seq<RawInst>
    decreases halfwords.len() - pos,
{
    if pos < 0 || pos >= halfwords.len() {
        Seq::empty()
    } else if halfwords[pos] & 0x3 != 3 {
        seq![RawInst::Compressed(halfwords[pos])] + raw_insts(halfwords, pos + 1)
    } else if pos + 1 >= halfwords.len() {
        Seq::empty()
    } else {
        seq![RawInst::Normal(word_of_halves(halfwords[pos], halfwords[pos + 1]))] + raw_insts(
            halfwords,
            pos + 2,
        )
    }
}

/// A stream of halfwords holds at most as many raw instructions as
/// halfwords.
pub proof fn lemma_raw_insts_len(halfwords: Seq<u16>, pos: int)
    requires
        0 <= pos <= halfwords.len(),
    ensures
        raw_insts(halfwords, pos).len() <= halfwords.len() - pos,
    decreases halfwords.len() - pos,
{
    if pos < halfwords.len() {
        if halfwords[pos] & 0x3 != 3 {
            lemma_raw_insts_len(halfwords, pos + 1);
        } else if pos + 1 < halfwords.len() {
            lemma_raw_insts_len(halfwords, pos + 2);
        }
    }
}

/// A stream of raw instructions read from a sequence of halfwords.
pub struct Program {
    buff: Vec<u16>,
    pos: usize,
}

impl View for Program {
    /// The raw instructions that are still to come.
    type V = Seq<RawInst>;

    closed spec fn view(&self) -> Seq<RawInst> {
        raw_insts(self.buff@, self.pos as int)
    }
}

impl Program {
    /// Yields the next raw instruction, or `None` when the stream is over.
    pub fn next(&mut self) -> (r: Option<RawInst>)
        ensures
            old(self)@.len() == 0 ==> r is None && final(self)@ == old(self)@,
            old(self)@.len() > 0 ==> r == Some(old(self)@[0]) && final(self)@ == old(self)@.drop_first(),
    {
        if self.pos >= self.buff.len() {
            return None;
        }
        let v1 = self.buff[self.pos];
        if v1 & 0x3 != 3 {
            self.pos += 1;
            proof {
                assert(self@ =~= old(self)@.drop_first());
            }
            Some(RawInst::Compressed(v1))
        } else {
            if self.pos + 1 >= self.buff.len() {
                return None;
            }
            let v2 = self.buff[self.pos + 1];
            let norm = v1 as u32 + (v2 as u32) * 0x10000;
            self.pos += 2;
            proof {
                assert(self@ =~= old(self)@.drop_first());
            }
            Some(RawInst::Normal(norm))
        }
    }
}

impl From<Vec<u16>> for Program {
    fn from(value: Vec<u16>) -> (r: Program)
        ensures
            r@ == raw_insts(value@, 0),
    {
        Program { buff: value, pos: 0 }
    }
}

impl vstd::std_specs::convert::FromSpecImpl<Vec<u16>> for Program {
    open spec fn obeys_from_spec() -> bool {
        true
    }

    closed spec fn from_spec(v: Vec<u16>) -> Program {
        Program { buff: v, pos: 0 }
    }
}

} // verus!
