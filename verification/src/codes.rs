//! Pairing codes.
//!
//! A pairing code is an 8-symbol string in the form `XXXX-XXXX`, each symbol
//! drawn from a 32-symbol unambiguous alphabet (no `0`/`O`, no `1`/`I`).
//! The symbols are derived from bytes of a cryptographically random source;
//! unpredictability comes entirely from those bytes. Codes need not be
//! globally unique: the ceremony disambiguates equal codes by the
//! initiator's key.

use vstd::prelude::*;

verus! {

/// How many random bytes a pairing code consumes.
pub const CODE_ENTROPY_LEN: usize = 8;

/// The 32-symbol alphabet pairing codes are drawn from.
pub open spec fn alphabet() -> Seq<char> {
    "ABCDEFGHJKLMNPQRSTUVWXYZ23456789"@
}

/// The symbol a single random byte selects.
pub open spec fn code_char(b: u8) -> char {
    alphabet()[(b % 32) as int]
}

/// The pairing code derived from eight random bytes: four symbols, a dash,
/// four symbols.
pub open spec fn spec_code(entropy: Seq<u8>) -> Seq<char> {
    Seq::new(
        9,
        |i: int|
            if i == 4 {
                '-'
            } else if i < 4 {
                code_char(entropy[i])
            } else {
                code_char(entropy[i - 1])
            },
    )
}

/// Appends the symbol selected by one random byte.
fn push_symbol(code: String, b: u8) -> (r: String)
    ensures
        r@ == code@ + seq![code_char(b)],
{
    let charset = "ABCDEFGHJKLMNPQRSTUVWXYZ23456789";
    proof {
        reveal_strlit("ABCDEFGHJKLMNPQRSTUVWXYZ23456789");
    }
    let idx = (b % 32) as usize;
    let symbol = charset.substring_ascii(idx, idx + 1);
    proof {
        assert(symbol@ =~= seq![code_char(b)]);
    }
    code.concat(symbol)
}

/// Derives the pairing code from eight bytes of a cryptographically random
/// source.
pub fn generate_pairing_code(entropy: &Vec<u8>) -> (code: String)
    requires
        entropy@.len() == CODE_ENTROPY_LEN,
    ensures
        code@ == spec_code(entropy@),
        code@.len() == 9,
{
    let mut code = String::new();
    code = push_symbol(code, entropy[0]);
    code = push_symbol(code, entropy[1]);
    code = push_symbol(code, entropy[2]);
    code = push_symbol(code, entropy[3]);
    code = code.concat("-");
    code = push_symbol(code, entropy[4]);
    code = push_symbol(code, entropy[5]);
    code = push_symbol(code, entropy[6]);
    code = push_symbol(code, entropy[7]);
    proof {
        reveal_strlit("-");
        assert(code@ =~= spec_code(entropy@));
    }
    code
}

} // verus!
