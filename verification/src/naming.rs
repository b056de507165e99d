//! The names of the outlined procedures: each spells the way from the
//! function to its block, and no two blocks of a function share a name.

use vstd::prelude::*;
use crate::ops::{count_blocks, WasmOp};
use crate::outline::{block_name, blocks_in, body_of, outlined};
use crate::text::{decimal_nat, digit_char};

verus! {

/// Whether `c` is a decimal digit.
pub open spec fn is_digit(c: char) -> bool {
    c == '0' || c == '1' || c == '2' || c == '3' || c == '4' || c == '5' || c == '6' || c == '7'
        || c == '8' || c == '9'
}

/// The value of a decimal digit.
pub open spec fn digit_value(c: char) -> nat {
    if c == '0' {
        0
    } else if c == '1' {
        1
    } else if c == '2' {
        2
    } else if c == '3' {
        3
    } else if c == '4' {
        4
    } else if c == '5' {
        5
    } else if c == '6' {
        6
    } else if c == '7' {
        7
    } else if c == '8' {
        8
    } else {
        9
    }
}

/// The number that a sequence of decimal digits spells.
pub open spec fn number_of(digits: Seq<char>) -> nat
    decreases digits.len(),
{
    if digits.len() == 0 {
        0
    } else {
        number_of(digits.drop_last()) * 10 + digit_value(digits.last())
    }
}

/// The decimal rendering of a number is made of digits, has at least one,
/// and spells the number.
pub proof fn lemma_decimal_spells(n: nat)
    ensures
        decimal_nat(n).len() >= 1,
        forall|i: int| 0 <= i < decimal_nat(n).len() ==> is_digit(#[trigger] decimal_nat(n)[i]),
        number_of(decimal_nat(n)) == n,
    decreases n,
{
    let digits = decimal_nat(n);
    if n < 10 {
        assert(digits =~= seq![digit_char(n)]);
        assert(digits.drop_last() =~= Seq::<char>::empty());
        assert(number_of(digits.drop_last()) == 0);
    } else {
        lemma_decimal_spells(n / 10);
        let front = decimal_nat(n / 10);
        assert(digits == front.push(digit_char(n % 10)));
        assert(digits.drop_last() =~= front);
        assert forall|i: int| 0 <= i < digits.len() implies is_digit(#[trigger] digits[i]) by {
            if i < front.len() {
                assert(digits[i] == front[i]);
            }
        }
    }
}

/// A number can be read back from a text that continues behind it: where
/// two texts agree, each a decimal number followed by nothing or by
/// something that does not begin with a digit, the numbers agree and so
/// does what follows them.
pub proof fn lemma_number_ends(a: nat, after_a: Seq<char>, b: nat, after_b: Seq<char>)
    requires
        decimal_nat(a) + after_a == decimal_nat(b) + after_b,
        after_a.len() == 0 || !is_digit(after_a[0]),
        after_b.len() == 0 || !is_digit(after_b[0]),
    ensures
        a == b,
        after_a == after_b,
{
    let da = decimal_nat(a);
    let db = decimal_nat(b);
    let whole = da + after_a;
    lemma_decimal_spells(a);
    lemma_decimal_spells(b);
    assert(whole.len() == da.len() + after_a.len());
    assert(whole.len() == db.len() + after_b.len());
    if da.len() < db.len() {
        assert(whole[da.len() as int] == after_a[0]);
        assert((db + after_b)[da.len() as int] == db[da.len() as int]);
        assert(false);
    }
    if db.len() < da.len() {
        assert((db + after_b)[db.len() as int] == after_b[0]);
        assert(whole[db.len() as int] == da[db.len() as int]);
        assert(false);
    }
    assert(da =~= db) by {
        assert forall|i: int| 0 <= i < da.len() implies da[i] == db[i] by {
            assert(whole[i] == da[i]);
            assert((db + after_b)[i] == db[i]);
        }
    }
    assert(after_a =~= after_b) by {
        assert forall|i: int| 0 <= i < after_a.len() implies after_a[i] == after_b[i] by {
            assert(whole[da.len() + i] == after_a[i]);
            assert((db + after_b)[db.len() + i] == after_b[i]);
        }
    }
}

/// What a way into the blocks of a function adds to the name of the
/// function: for each step, the nesting level, counted from `level`, and
/// the position of the block among the blocks and loops of the body it
/// lies in.
pub open spec fn path_suffix(level: nat, way: Seq<nat>) -> Seq<char>
    decreases way.len(),
{
    if way.len() == 0 {
        Seq::empty()
    } else {
        "_l"@ + decimal_nat(level) + "_b"@ + decimal_nat(way[0]) + path_suffix(
            level + 1,
            way.skip(1),
        )
    }
}

/// The ways to the blocks and loops of `ops[from..]`, in the order in which
/// outlining makes their procedures; `sibling` blocks and loops precede
/// `ops[from]` in `ops`.
pub open spec fn block_ways(ops: Seq<WasmOp>, from: int, sibling: nat) -> Seq<Seq<nat>>
    decreases ops, ops.len() - from,
{
    if from < 0 || from >= ops.len() {
        Seq::empty()
    } else if blocks_in(ops[from]) > 0 {
        seq![seq![sibling]] + block_ways(body_of(ops[from]), 0, 0).map_values(
            |way: Seq<nat>| seq![sibling] + way,
        ) + block_ways(ops, from + 1, sibling + 1)
    } else {
        block_ways(ops, from + 1, sibling)
    }
}

proof fn lemma_suffix_begins(level: nat, way: Seq<nat>)
    ensures
        way.len() == 0 ==> path_suffix(level, way).len() == 0,
        way.len() > 0 ==> path_suffix(level, way).len() >= 6 && path_suffix(level, way)[0] == '_',
{
    reveal_strlit("_l");
    reveal_strlit("_b");
    if way.len() > 0 {
        lemma_decimal_spells(level);
        lemma_decimal_spells(way[0]);
        let text = path_suffix(level, way);
        assert(text == "_l"@ + decimal_nat(level) + "_b"@ + decimal_nat(way[0]) + path_suffix(
            level + 1,
            way.skip(1),
        ));
        assert(text[0] == "_l"@[0]);
    }
}

proof fn lemma_same_front<A>(front: Seq<A>, a: Seq<A>, b: Seq<A>)
    requires
        front + a == front + b,
    ensures
        a == b,
{
    assert((front + a).len() == front.len() + a.len());
    assert((front + b).len() == front.len() + b.len());
    assert(a.len() == b.len());
    assert forall|i: int| 0 <= i < a.len() implies a[i] == b[i] by {
        assert((front + a)[front.len() + i] == a[i]);
        assert((front + b)[front.len() + i] == b[i]);
    }
    assert(a =~= b);
}

/// Two ways that spell the same are the same way.
pub proof fn lemma_suffix_tells_the_way(level: nat, a: Seq<nat>, b: Seq<nat>)
    requires
        path_suffix(level, a) == path_suffix(level, b),
    ensures
        a == b,
    decreases a.len(),
{
    lemma_suffix_begins(level, a);
    lemma_suffix_begins(level, b);
    if a.len() == 0 || b.len() == 0 {
        assert(a =~= b);
    } else {
        let front = "_l"@ + decimal_nat(level) + "_b"@;
        let rest_a = path_suffix(level + 1, a.skip(1));
        let rest_b = path_suffix(level + 1, b.skip(1));
        lemma_suffix_begins(level + 1, a.skip(1));
        lemma_suffix_begins(level + 1, b.skip(1));
        assert(path_suffix(level, a) =~= front + (decimal_nat(a[0]) + rest_a));
        assert(path_suffix(level, b) =~= front + (decimal_nat(b[0]) + rest_b));
        lemma_same_front(front, decimal_nat(a[0]) + rest_a, decimal_nat(b[0]) + rest_b);
        lemma_number_ends(a[0], rest_a, b[0], rest_b);
        lemma_suffix_tells_the_way(level + 1, a.skip(1), b.skip(1));
        assert(a =~= seq![a[0]] + a.skip(1));
        assert(b =~= seq![b[0]] + b.skip(1));
    }
}

proof fn lemma_suffix_of_longer_way(level: nat, first: nat, way: Seq<nat>, path: Seq<char>)
    ensures
        path + path_suffix(level, seq![first] + way) == block_name(path, level, first)
            + path_suffix(level + 1, way),
{
    let longer = seq![first] + way;
    assert(longer.skip(1) =~= way);
    assert(longer[0] == first);
    assert(path + path_suffix(level, longer) =~= block_name(path, level, first) + path_suffix(
        level + 1,
        way,
    ));
}

/// The ways are as many as the procedures, and the name of each procedure
/// is the name of what the body belongs to, followed by the spelling of the
/// way to its block.
pub proof fn lemma_names_spell_ways(
    ops: Seq<WasmOp>,
    from: int,
    depth: nat,
    next: nat,
    path: Seq<char>,
    sibling: nat,
)
    ensures
        block_ways(ops, from, sibling).len() == outlined(
            ops,
            from,
            depth,
            next,
            path,
            sibling,
        ).len(),
        forall|i: int|
            0 <= i < block_ways(ops, from, sibling).len() ==> (#[trigger] outlined(
                ops,
                from,
                depth,
                next,
                path,
                sibling,
            )[i]).name == path + path_suffix(depth, block_ways(ops, from, sibling)[i]),
    decreases ops, ops.len() - from,
{
    if 0 <= from < ops.len() {
        if blocks_in(ops[from]) > 0 {
            let inner = body_of(ops[from]);
            let name = block_name(path, depth, sibling);
            let ways = block_ways(ops, from, sibling);
            let procs = outlined(ops, from, depth, next, path, sibling);
            let below_ways = block_ways(inner, 0, 0);
            let below = outlined(inner, 0, depth + 1, next + 1, name, 0);
            let after_ways = block_ways(ops, from + 1, sibling + 1);
            let after = outlined(
                ops,
                from + 1,
                depth,
                next + 1 + count_blocks(inner, 0),
                path,
                sibling + 1,
            );
            lemma_names_spell_ways(inner, 0, depth + 1, next + 1, name, 0);
            lemma_names_spell_ways(
                ops,
                from + 1,
                depth,
                next + 1 + count_blocks(inner, 0),
                path,
                sibling + 1,
            );
            let lifted = below_ways.map_values(|way: Seq<nat>| seq![sibling] + way);
            assert(ways == seq![seq![sibling]] + lifted + after_ways);
            assert(procs.len() == 1 + below.len() + after.len()) by {
                match ops[from] {
                    WasmOp::Block(b) => {},
                    WasmOp::Loop(l) => {},
                    _ => {},
                }
            }
            assert forall|i: int| 0 <= i < ways.len() implies (#[trigger] procs[i]).name == path
                + path_suffix(depth, ways[i]) by {
                match ops[from] {
                    WasmOp::Block(b) => {},
                    WasmOp::Loop(l) => {},
                    _ => {},
                }
                if i == 0 {
                    lemma_suffix_of_longer_way(depth, sibling, Seq::empty(), path);
                    assert(seq![sibling] + Seq::<nat>::empty() =~= seq![sibling]);
                    assert(ways[0] == seq![sibling]);
                    assert(path_suffix(depth + 1, Seq::<nat>::empty()) =~= Seq::<char>::empty());
                    assert(procs[0].name == name);
                    assert(name + Seq::<char>::empty() =~= name);
                } else if i < 1 + below.len() {
                    let k = i - 1;
                    assert(ways[i] == lifted[k]);
                    assert(lifted[k] == seq![sibling] + below_ways[k]);
                    assert(procs[i] == below[k]);
                    lemma_suffix_of_longer_way(depth, sibling, below_ways[k], path);
                } else {
                    let k = i - 1 - below.len();
                    assert(ways[i] == after_ways[k]);
                    assert(procs[i] == after[k]);
                }
            }
        } else {
            lemma_names_spell_ways(ops, from + 1, depth, next, path, sibling);
        }
    }
}

/// Every way has a first step, which is no earlier than `sibling`, and no
/// two blocks have the same way.
pub proof fn lemma_ways_differ(ops: Seq<WasmOp>, from: int, sibling: nat)
    ensures
        forall|i: int|
            0 <= i < block_ways(ops, from, sibling).len() ==> (#[trigger] block_ways(
                ops,
                from,
                sibling,
            )[i]).len() >= 1 && block_ways(ops, from, sibling)[i][0] >= sibling,
        forall|i: int, j: int|
            0 <= i < j < block_ways(ops, from, sibling).len() ==> #[trigger] block_ways(
                ops,
                from,
                sibling,
            )[i] != #[trigger] block_ways(ops, from, sibling)[j],
    decreases ops, ops.len() - from,
{
    if 0 <= from < ops.len() {
        if blocks_in(ops[from]) > 0 {
            let inner = body_of(ops[from]);
            let ways = block_ways(ops, from, sibling);
            let below = block_ways(inner, 0, 0);
            let lifted = below.map_values(|way: Seq<nat>| seq![sibling] + way);
            let after = block_ways(ops, from + 1, sibling + 1);
            lemma_ways_differ(inner, 0, 0);
            lemma_ways_differ(ops, from + 1, sibling + 1);
            assert(ways == seq![seq![sibling]] + lifted + after);
            assert forall|i: int| 0 <= i < ways.len() implies (#[trigger] ways[i]).len() >= 1
                && ways[i][0] >= sibling && (i == 0 ==> ways[i].len() == 1) && (1 <= i < 1
                + lifted.len() ==> ways[i].len() >= 2 && ways[i][0] == sibling && ways[i].skip(1)
                == below[i - 1]) && (i >= 1 + lifted.len() ==> ways[i][0] > sibling && ways[i]
                == after[i - 1 - lifted.len()]) by {
                if i == 0 {
                    assert(ways[0] == seq![sibling]);
                } else if i < 1 + lifted.len() {
                    assert(ways[i] == lifted[i - 1]);
                    assert(lifted[i - 1] == seq![sibling] + below[i - 1]);
                    assert(below[i - 1].len() >= 1);
                    assert(ways[i].skip(1) =~= below[i - 1]);
                } else {
                    assert(ways[i] == after[i - 1 - lifted.len()]);
                    assert(after[i - 1 - lifted.len()].len() >= 1);
                }
            }
            assert forall|i: int, j: int| 0 <= i < j < ways.len() implies #[trigger] ways[i]
                != #[trigger] ways[j] by {
                if i >= 1 && j < 1 + lifted.len() {
                    assert(below[i - 1] != below[j - 1]);
                } else if i >= 1 + lifted.len() {
                    assert(after[i - 1 - lifted.len()] != after[j - 1 - lifted.len()]);
                }
            }
        } else {
            lemma_ways_differ(ops, from + 1, sibling);
            assert(block_ways(ops, from, sibling) == block_ways(ops, from + 1, sibling));
        }
    } else {
        assert(block_ways(ops, from, sibling).len() == 0);
    }
}

/// No two blocks of a function share a name, and none has the name of the
/// function. Outlining names the procedure of a block or a loop after what
/// it lies in, the nesting level, and its position among the blocks and
/// loops of the same body; the procedures that it makes of one body all
/// have names of their own, and none of them has the name that the body
/// itself goes by.
pub proof fn law_block_names_are_distinct(
    ops: Seq<WasmOp>,
    depth: nat,
    next: nat,
    path: Seq<char>,
    i: int,
    j: int,
)
    requires
        0 <= i < outlined(ops, 0, depth, next, path, 0).len(),
        0 <= j < outlined(ops, 0, depth, next, path, 0).len(),
        i != j,
    ensures
        outlined(ops, 0, depth, next, path, 0)[i].name != outlined(
            ops,
            0,
            depth,
            next,
            path,
            0,
        )[j].name,
        outlined(ops, 0, depth, next, path, 0)[i].name != path,
{
    let procs = outlined(ops, 0, depth, next, path, 0);
    let ways = block_ways(ops, 0, 0);
    lemma_names_spell_ways(ops, 0, depth, next, path, 0);
    lemma_ways_differ(ops, 0, 0);
    lemma_suffix_begins(depth, ways[i]);
    assert(procs[i].name == path + path_suffix(depth, ways[i]));
    assert(procs[j].name == path + path_suffix(depth, ways[j]));
    assert(procs[i].name.len() == path.len() + path_suffix(depth, ways[i]).len());
    if procs[i].name == procs[j].name {
        lemma_same_front(path, path_suffix(depth, ways[i]), path_suffix(depth, ways[j]));
        lemma_suffix_tells_the_way(depth, ways[i], ways[j]);
        if i < j {
            assert(ways[i] != ways[j]);
        } else {
            assert(ways[j] != ways[i]);
        }
    }
}

} // verus!
