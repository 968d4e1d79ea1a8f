use vstd::prelude::*;

use crate::instruction::{instruction_of, is_symbol, symbol_instruction, Instruction};

verus! {

/// The instruction sequence of a source text: the instruction of each symbol,
/// in source order, with every other character dropped.
pub open spec fn tokenize(s: Seq<char>) -> Seq<Instruction>
    decreases s.len(),
{
    if s.len() == 0 {
        Seq::empty()
    } else {
        let prefix = tokenize(s.drop_last());
        match symbol_instruction(s.last()) {
            Some(ins) => prefix.push(ins),
            None => prefix,
        }
    }
}

/// Tokenizes a whole source text into its instruction sequence.
/// Characters outside the eight-symbol alphabet are skipped; no error can occur.
pub fn precompile(program: String) -> (r: Vec<Instruction>)
    ensures
        r@ == tokenize(program@),
{
    let mut tokens: Vec<Instruction> = Vec::new();
    for symbol in it: program.chars()
        invariant
            it.seq() == program@,
            tokens@ == tokenize(program@.take(it.index() as int)),
    {
        proof {
            assert(program@.take(it.index() + 1).drop_last() =~= program@.take(it.index() as int));
        }
        if let Some(ins) = instruction_of(symbol) {
            tokens.push(ins);
        }
    }
    proof {
        assert(program@.take(program@.len() as int) =~= program@);
    }
    tokens
}

/// The tokenizer keeps exactly the characters of the alphabet: the length of
/// its output is the number of symbol characters in the text.
pub proof fn lemma_tokenize_len(s: Seq<char>)
    ensures
        tokenize(s).len() == s.filter(|c: char| is_symbol(c)).len(),
    decreases s.len(),
{
    reveal(Seq::filter);
    if s.len() > 0 {
        lemma_tokenize_len(s.drop_last());
    }
}

} // verus!
