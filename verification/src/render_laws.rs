//! What the source text of an expansion says.

use vstd::prelude::*;

use crate::expansion::Piece;
use crate::render;

verus! {

/// The number that decimal digits stand for.
pub open spec fn value_of(digits: Seq<char>) -> int
    decreases digits.len(),
{
    if digits.len() == 0 {
        0
    } else {
        10 * value_of(digits.drop_last()) + (digits.last() as int - '0' as int)
    }
}

/// A number in decimal stands for that number. It is made of digits alone, and does not start with
/// a zero unless it is zero.
pub proof fn decimal_reads_back(n: nat)
    ensures
        value_of(render::decimal(n)) == n,
        render::decimal(n).len() > 0,
        forall|i: int|
            0 <= i < render::decimal(n).len() ==> '0' <= #[trigger] render::decimal(n)[i] <= '9',
        n > 0 ==> render::decimal(n)[0] != '0',
    decreases n,
{
    reveal_with_fuel(value_of, 2);
    if n < 10 {
        assert(render::decimal(n).drop_last() =~= Seq::empty());
    } else {
        decimal_reads_back(n / 10);
        let before = render::decimal(n / 10);
        assert(render::decimal(n) == before.push(render::digit(n % 10)));
        assert(render::decimal(n).drop_last() =~= before);
        assert forall|i: int| 0 <= i < render::decimal(n).len() implies '0'
            <= #[trigger] render::decimal(n)[i] <= '9' by {
            if i < before.len() {
                assert(render::decimal(n)[i] == before[i]);
            }
        }
    }
}

/// A number stands in the text as a `usize` literal that reads back as that number.
pub proof fn number_reads_back(n: usize, module: Seq<char>)
    ensures
        ({
            let digits = render::decimal(n as nat);
            &&& render::piece_text(Piece::Number(n), module) == digits + "usize"@
            &&& value_of(digits) == n
        }),
{
    decimal_reads_back(n as nat);
}

/// The text of pieces is the text of each of them, in order, with a space behind it.
pub proof fn pieces_follow_each_other(
    before: Seq<Piece>,
    piece: Piece,
    after: Seq<Piece>,
    module: Seq<char>,
)
    ensures
        render::pieces_text(before + seq![piece] + after, module) == render::pieces_text(
            before,
            module,
        ) + render::piece_text(piece, module) + " "@ + render::pieces_text(after, module),
    decreases after.len(),
{
    let all = before + seq![piece] + after;
    if after.len() == 0 {
        assert(all.drop_last() =~= before);
        assert(all.last() == piece);
        assert(render::pieces_text(all, module) =~= render::pieces_text(before, module)
            + render::piece_text(piece, module) + " "@ + render::pieces_text(after, module));
    } else {
        pieces_follow_each_other(before, piece, after.drop_last(), module);
        assert(all.drop_last() =~= before + seq![piece] + after.drop_last());
        assert(all.last() == after.last());
        assert(render::pieces_text(all, module) =~= render::pieces_text(before, module)
            + render::piece_text(piece, module) + " "@ + render::pieces_text(after, module));
    }
}

} // verus!
