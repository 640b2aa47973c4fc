//! What holds of every EVM block.
use crate::evm::data_mask::DataMask;
use crate::evm::model::{self, Block};
use crate::evm::quantity::{self, NotAQuantity, Token};
use crate::text;
use vstd::prelude::*;

verus! {

/// A quantity is the same whether it is given as a number, of either size, or as the
/// hexadecimal text of that number.
pub proof fn law_numbers_and_text_agree(n: u64, hex: String)
    requires
        hex@ == quantity::hex_text(n as nat),
    ensures
        quantity::quantity_of(Token::U64(n)) == quantity::quantity_of(Token::Text(hex)),
        quantity::quantity_of(Token::U64(n)) == quantity::quantity_of(Token::U128(n as u128)),
{
}

/// The mask of a block tells exactly which of its optional parts are there; anything
/// else is always there.
pub proof fn law_the_mask_tells_what_is_there(block: Block, mask: DataMask, name: Seq<char>)
    requires
        model::is_mask_of(mask, block),
    ensures
        model::says_data(mask, "logs"@) == block.logs is Some,
        model::says_data(mask, "traces"@) == block.traces is Some,
        model::says_data(mask, "statediffs"@) == block.state_diffs is Some,
        name != "logs"@ && name != "traces"@ && name != "statediffs"@ ==> model::says_data(mask, name),
{
    model::lemma_part_names();
}

/// The mask of a block has a bit for each optional part that came with it, and no other:
/// the first for the logs, the second for the traces, the third for the state diffs.
pub proof fn law_the_bits_of_the_mask(block: Block, mask: DataMask, bit: u32)
    requires
        model::is_mask_of(mask, block),
        bit < 64,
    ensures
        mask.has(0) <==> block.logs is Some,
        mask.has(1) <==> block.traces is Some,
        mask.has(2) <==> block.state_diffs is Some,
        bit >= 3 ==> !mask.has(bit),
{
}

/// A number is written as `0x` and its hexadecimal digits, whatever its size; text is
/// taken as it is; and nothing else stands for a quantity.
pub proof fn law_what_stands_for_a_quantity(n: u64, large: u128, given: String)
    ensures
        quantity::quantity_of(Token::U64(n)) == Some(seq!['0', 'x'] + text::hexadecimal(n as nat)),
        quantity::quantity_of(Token::U128(large)) == Some(seq!['0', 'x'] + text::hexadecimal(large as nat)),
        quantity::quantity_of(Token::Text(given)) == Some(given@),
        quantity::quantity_of(Token::Null) is None,
        quantity::quantity_of(Token::Other) is None,
{
    reveal_strlit("0x");
    assert("0x"@ =~= seq!['0', 'x']);
}

/// What was expected is told: null counts only where it may stand.
pub proof fn law_what_was_expected_is_told()
    ensures
        NotAQuantity::Plain.text() == "a hex string or an unsigned integer"@,
        NotAQuantity::OrNull.text() == "a hex string, an unsigned integer, or null"@,
{
}

} // verus!
