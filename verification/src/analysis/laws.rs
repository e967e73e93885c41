use vstd::prelude::*;

use crate::analysis::bits::{bits_bottom, bits_consistent, bits_join, bits_negate, bits_order, float_sign_bit, KnownBitsDomain};
use crate::analysis::constant::{constant_binary, constant_transfer, operand_constant, value_join, value_order, value_widen, ValueDomain};
use crate::analysis::domain::{flip_order, AbstractDomain, LatticeOrder};
use crate::analysis::mapping::{merge_maps, MapDomain};
use crate::analysis::powerset::{set_order, FiniteSetDomain};
use crate::ir::value::DomainKey;
use crate::analysis::range::{operand_range, range_binary, range_transfer, range_bottom, range_join, range_narrow, range_order, range_product, range_widen, RangeDomain};
use crate::analysis::sign::{operand_sign, sign_binary, sign_join, sign_negate, sign_order, sign_transfer, SignDomain};
use crate::ir::operator::BinaryOpArith;
use crate::ir::instruction::Instruction;
use crate::ir::value::{RegisterSlot, Value};
use crate::ir::constant::{Constant, NumValue};
use crate::ir::typing::NumRepr;

verus! {

/// Known bits: join is commutative, associative and idempotent, and the bottom
/// value (every bit known both ways) is its identity.
pub proof fn known_bits_join_laws(a: KnownBitsDomain, b: KnownBitsDomain, c: KnownBitsDomain)
    ensures
        bits_join(a, b) == bits_join(b, a),
        bits_join(bits_join(a, b), c) == bits_join(a, bits_join(b, c)),
        bits_join(a, a) == a,
        bits_join(bits_bottom(), a) == a,
{
    let (az, ao, bz, bo, cz, co) = (
        a.known_zeros,
        a.known_ones,
        b.known_zeros,
        b.known_ones,
        c.known_zeros,
        c.known_ones,
    );
    assert(az & bz == bz & az) by (bit_vector);
    assert(ao & bo == bo & ao) by (bit_vector);
    assert((az & bz) & cz == az & (bz & cz)) by (bit_vector);
    assert((ao & bo) & co == ao & (bo & co)) by (bit_vector);
    assert(az & az == az) by (bit_vector);
    assert(ao & ao == ao) by (bit_vector);
    assert(0xffff_ffff_ffff_ffffu64 & az == az) by (bit_vector);
    assert(0xffff_ffff_ffff_ffffu64 & ao == ao) by (bit_vector);
}

/// Known bits: the order is that of the join (`a` lies at or below `b` exactly when
/// their join is `b`), `Equal` only for equal values, and seen from the other side
/// it flips; the join of two values with no bit known both ways has none either.
pub proof fn known_bits_order_laws(a: KnownBitsDomain, b: KnownBitsDomain)
    ensures
        (bits_order(a, b) == LatticeOrder::Less || bits_order(a, b) == LatticeOrder::Equal) <==> bits_join(a, b)
            == b,
        bits_order(a, b) == LatticeOrder::Equal <==> a == b,
        bits_order(b, a) == flip_order(bits_order(a, b)),
        bits_consistent(a) && bits_consistent(b) ==> bits_consistent(bits_join(a, b)),
{
    let (az, ao, bz, bo) = (a.known_zeros, a.known_ones, b.known_zeros, b.known_ones);
    assert(az & ao == 0 ==> (az & bz) & (ao & bo) == 0) by (bit_vector);
    assert((az & bz == bz && bz & az == az) ==> az == bz) by (bit_vector);
    assert((ao & bo == bo && bo & ao == ao) ==> ao == bo) by (bit_vector);
    assert(az & bz == bz & az) by (bit_vector);
    assert(ao & bo == bo & ao) by (bit_vector);
    assert(az & az == az) by (bit_vector);
    assert(ao & ao == ao) by (bit_vector);
    assert(bits_join(a, b) == b <==> (az & bz == bz && ao & bo == bo));
}

/// Known bits: negating a scalar float changes what is known of its sign bit only;
/// negating twice gives back what was known.
pub proof fn known_bits_negate_laws(bits: usize, number: NumRepr, length: Option<usize>, a: KnownBitsDomain)
    ensures
        bits_negate(bits, number, length, bits_negate(bits, number, length, a)) == a || float_sign_bit(
            bits,
            number,
            length,
        ) is None,
        bits_consistent(a) ==> bits_consistent(bits_negate(bits, number, length, a)),
{
    if let Some(m) = float_sign_bit(bits, number, length) {
        let (z, o) = (a.known_zeros, a.known_ones);
        assert((((z & !m) | (o & m)) & !m) | (((o & !m) | (z & m)) & m) == z) by (bit_vector);
        assert((((o & !m) | (z & m)) & !m) | (((z & !m) | (o & m)) & m) == o) by (bit_vector);
        assert(z & o == 0 ==> ((z & !m) | (o & m)) & ((o & !m) | (z & m)) == 0) by (bit_vector);
    } else {
        assert(0u64 & 0u64 == 0) by (bit_vector);
    }
}

/// Constant propagation: join is commutative, associative and idempotent, and
/// Bottom is its identity.
pub proof fn value_join_laws(a: ValueDomain, b: ValueDomain, c: ValueDomain)
    ensures
        value_join(a, b) == value_join(b, a),
        value_join(value_join(a, b), c) == value_join(a, value_join(b, c)),
        value_join(a, a) == a,
        value_join(ValueDomain::Bottom, a) == a,
{
}

/// Constant propagation: the order is that of the join, `Equal` only for equal
/// values, and seen from the other side it flips; distinct constants are
/// incomparable.
pub proof fn value_order_laws(a: ValueDomain, b: ValueDomain)
    ensures
        (value_order(a, b) == LatticeOrder::Less || value_order(a, b) == LatticeOrder::Equal) <==> value_join(
            a,
            b,
        ) == b,
        value_order(a, b) == LatticeOrder::Equal <==> a == b,
        value_order(b, a) == flip_order(value_order(a, b)),
        (a is Const && b is Const && a != b) ==> value_order(a, b) == LatticeOrder::Incomparable,
{
}

/// Constant propagation: widening lies at or above both of its arguments, keeps a
/// constant that did not change, and keeps the current value against Bottom.
pub proof fn value_widen_laws(a: ValueDomain, b: ValueDomain, x: i64)
    ensures
        value_join(a, value_widen(a, b)) == value_widen(a, b),
        value_join(b, value_widen(a, b)) == value_widen(a, b),
        value_widen(ValueDomain::Const(x), ValueDomain::Const(x)) == ValueDomain::Const(x),
        value_widen(a, ValueDomain::Bottom) == a,
{
}

/// Sign: join is commutative, associative and idempotent, and Bottom is its identity.
pub proof fn sign_join_laws(a: SignDomain, b: SignDomain, c: SignDomain)
    ensures
        sign_join(a, b) == sign_join(b, a),
        sign_join(sign_join(a, b), c) == sign_join(a, sign_join(b, c)),
        sign_join(a, a) == a,
        sign_join(SignDomain::Bottom, a) == a,
{
}

/// Sign: the order is that of the join, `Equal` only for equal values, and seen
/// from the other side it flips.
pub proof fn sign_order_laws(a: SignDomain, b: SignDomain)
    ensures
        (sign_order(a, b) == LatticeOrder::Less || sign_order(a, b) == LatticeOrder::Equal) <==> sign_join(a, b)
            == b,
        sign_order(a, b) == LatticeOrder::Equal <==> a == b,
        sign_order(b, a) == flip_order(sign_order(a, b)),
{
}

/// The sign of an integer.
pub open spec fn sign_of_int(x: int) -> SignDomain {
    if x < 0 {
        SignDomain::Negative
    } else if x == 0 {
        SignDomain::Zero
    } else {
        SignDomain::Positive
    }
}

/// Sign: the sign arithmetic covers every sum, difference and product: the sign of
/// the exact result lies at or below the sign computed from the operands' signs.
pub proof fn sign_arithmetic_sound(x: int, y: int)
    ensures
        sign_join(sign_of_int(x + y), sign_binary(BinaryOpArith::Add, sign_of_int(x), sign_of_int(y)))
            == sign_binary(BinaryOpArith::Add, sign_of_int(x), sign_of_int(y)),
        sign_join(sign_of_int(x - y), sign_binary(BinaryOpArith::Sub, sign_of_int(x), sign_of_int(y)))
            == sign_binary(BinaryOpArith::Sub, sign_of_int(x), sign_of_int(y)),
        sign_join(sign_of_int(x * y), sign_binary(BinaryOpArith::Mul, sign_of_int(x), sign_of_int(y)))
            == sign_binary(BinaryOpArith::Mul, sign_of_int(x), sign_of_int(y)),
        sign_negate(sign_of_int(x)) == sign_of_int(-x),
{
    if x > 0 && y > 0 {
        assert(x * y > 0) by (nonlinear_arith)
            requires
                x > 0,
                y > 0,
        ;
    } else if x < 0 && y < 0 {
        assert(x * y > 0) by (nonlinear_arith)
            requires
                x < 0,
                y < 0,
        ;
    } else if x > 0 && y < 0 {
        assert(x * y < 0) by (nonlinear_arith)
            requires
                x > 0,
                y < 0,
        ;
    } else if x < 0 && y > 0 {
        assert(x * y < 0) by (nonlinear_arith)
            requires
                x < 0,
                y > 0,
        ;
    } else {
        assert(x * y == 0) by (nonlinear_arith)
            requires
                x == 0 || y == 0,
        ;
    }
}

/// Ranges: join is commutative, associative and idempotent, and the unreachable
/// range is its identity.
pub proof fn range_join_laws(a: RangeDomain, b: RangeDomain, c: RangeDomain)
    ensures
        range_join(a, b) == range_join(b, a),
        range_join(range_join(a, b), c) == range_join(a, range_join(b, c)),
        range_join(a, a) == a,
        range_join(range_bottom(), a) == a,
{
}

/// Ranges: the order is that of the join, `Equal` only for equal ranges, and seen
/// from the other side it flips.
pub proof fn range_order_laws(a: RangeDomain, b: RangeDomain)
    ensures
        (range_order(a, b) == LatticeOrder::Less || range_order(a, b) == LatticeOrder::Equal) <==> range_join(a, b)
            == b,
        range_order(a, b) == LatticeOrder::Equal <==> a == b,
        range_order(b, a) == flip_order(range_order(a, b)),
{
}

/// How far a range is from being unbounded: the unreachable range counts most,
/// then each bound it still has.
pub open spec fn range_rank(a: RangeDomain) -> nat {
    if a == range_bottom() {
        3
    } else {
        (if a.lower is Some { 1nat } else { 0nat }) + (if a.upper is Some { 1nat } else { 0nat })
    }
}

/// Ranges: widening lies at or above both of its arguments, and each widening step
/// either changes nothing or brings the range closer to unbounded, so a chain of
/// widenings stabilises after at most three changes.
pub proof fn range_widen_laws(a: RangeDomain, b: RangeDomain)
    ensures
        range_join(a, range_widen(a, b)) == range_widen(a, b),
        range_join(b, range_widen(a, b)) == range_widen(a, b),
        range_widen(a, b) == b || range_rank(range_widen(a, b)) < range_rank(b),
{
}

/// Ranges: narrowing keeps every bound that either argument has.
pub proof fn range_bound_laws(a: RangeDomain, b: RangeDomain)
    ensures
        (a.lower is Some || b.lower is Some) ==> range_narrow(a, b).lower is Some,
        (a.upper is Some || b.upper is Some) ==> range_narrow(a, b).upper is Some,
{
}

/// Ranges: the range of products of two bounded ranges holds each product of an
/// integer of the first with an integer of the second.
pub proof fn range_product_sound(l: RangeDomain, r: RangeDomain, x: i64, y: i64)
    requires
        l.lower matches Some(a) && a <= x,
        l.upper matches Some(b) && x <= b,
        r.lower matches Some(c) && c <= y,
        r.upper matches Some(d) && y <= d,
    ensures
        range_product(l, r).lower matches Some(lo) ==> lo <= x * y,
        range_product(l, r).upper matches Some(hi) ==> x * y <= hi,
{
    let (a, b, c, d) = (l.lower->0 as int, l.upper->0 as int, r.lower->0 as int, r.upper->0 as int);
    let (xi, yi) = (x as int, y as int);
    assert(xi * yi >= a * c || xi * yi >= a * d || xi * yi >= b * c || xi * yi >= b * d) by (nonlinear_arith)
        requires
            a <= xi <= b,
            c <= yi <= d,
    ;
    assert(xi * yi <= a * c || xi * yi <= a * d || xi * yi <= b * c || xi * yi <= b * d) by (nonlinear_arith)
        requires
            a <= xi <= b,
            c <= yi <= d,
    ;
    assert(xi * yi >= a * c && xi * yi >= a * d && xi * yi >= b * c && xi * yi >= b * d ==> true);
}

/// Finite sets: join (union) is commutative, associative and idempotent, the
/// empty set is its identity, the join is never below either argument, and the
/// order tells equal sets apart from proper subsets.
pub proof fn finite_set_laws<M>(a: Set<M>, b: Set<M>, c: Set<M>)
    ensures
        a.union(b) == b.union(a),
        a.union(b).union(c) == a.union(b.union(c)),
        a.union(a) == a,
        Set::<M>::empty().union(a) == a,
        set_order(a, a.union(b)) != LatticeOrder::Greater,
        set_order(a, a) == LatticeOrder::Equal,
        set_order(a, b) == LatticeOrder::Equal <==> a == b,
{
    assert(a.union(b) =~= b.union(a));
    assert(a.union(b).union(c) =~= a.union(b.union(c)));
    assert(a.union(a) =~= a);
    assert(Set::<M>::empty().union(a) =~= a);
    if a.subset_of(b) && b.subset_of(a) {
        assert(a =~= b);
    }
}

/// Maps: joining a map with itself keeps its keys and joins each value with
/// itself; the join holds the keys of both maps; and keys of one map only keep
/// their values.
pub proof fn map_join_laws<K: DomainKey, V: AbstractDomain>(
    a: Map<K, V::Model>,
    b: Map<K, V::Model>,
    k: K,
)
    ensures
        merge_maps::<K, V>(a, b, false).dom() == a.dom().union(b.dom()),
        a.contains_key(k) ==> merge_maps::<K, V>(a, a, false)[k] == V::join_of(a[k], a[k]),
        a.contains_key(k) && !b.contains_key(k) ==> merge_maps::<K, V>(a, b, false)[k] == a[k],
        b.contains_key(k) && !a.contains_key(k) ==> merge_maps::<K, V>(a, b, false)[k] == b[k],
        MapDomain::<K, V>::join_of(Map::empty(), a) == a,
{
    assert(merge_maps::<K, V>(a, b, false).dom() =~= a.dom().union(b.dom()));
    assert(merge_maps::<K, V>(Map::empty(), a, false) =~= a);
}
} // verus!

verus! {

/// An integer lies within a range (a missing bound is no bound).
pub open spec fn in_range(x: int, r: RangeDomain) -> bool {
    (r.lower matches Some(lo) ==> lo <= x) && (r.upper matches Some(hi) ==> x <= hi)
}

/// The sum and the difference of two bounds, where both are present, fit in 64 bits.
pub open spec fn bounds_combine(a: Option<i64>, b: Option<i64>) -> bool {
    match (a, b) {
        (Some(p), Some(q)) => i64::MIN <= p + q <= i64::MAX && i64::MIN <= p - q <= i64::MAX,
        _ => true,
    }
}

/// Every sum and difference of a bound of `l` with a bound of `r` fits in 64 bits.
pub open spec fn bounds_fit(l: RangeDomain, r: RangeDomain) -> bool {
    &&& bounds_combine(l.lower, r.lower)
    &&& bounds_combine(l.lower, r.upper)
    &&& bounds_combine(l.upper, r.lower)
    &&& bounds_combine(l.upper, r.upper)
}

/// Ranges: the range of sums (differences) of two ranges holds the sum
/// (difference) of each integer of the first with each integer of the second,
/// where the bounds do not wrap around.
pub proof fn range_sum_difference_sound(l: RangeDomain, r: RangeDomain, x: int, y: int)
    requires
        in_range(x, l),
        in_range(y, r),
        bounds_fit(l, r),
    ensures
        in_range(x + y, range_binary(BinaryOpArith::Add, l, r)),
        in_range(x - y, range_binary(BinaryOpArith::Sub, l, r)),
{
}

/// Ranges: after an arithmetic instruction, the range of its result holds the
/// sum, difference or product of any two values in the ranges of its operands,
/// where the bounds do not wrap around.
pub proof fn range_transfer_sound(inst: Instruction, m: Map<RegisterSlot, RangeDomain>, x: i64, y: i64)
    requires
        inst matches Instruction::BinaryArith { lhs, rhs, .. } && in_range(x as int, operand_range(&lhs, m))
            && in_range(y as int, operand_range(&rhs, m)) && bounds_fit(operand_range(&lhs, m), operand_range(&rhs, m)),
    ensures
        match inst {
            Instruction::BinaryArith { opcode, result, .. } => {
                let out = range_transfer(&inst, m)[result];
                &&& opcode == BinaryOpArith::Add ==> in_range(x + y, out)
                &&& opcode == BinaryOpArith::Sub ==> in_range(x - y, out)
                &&& opcode == BinaryOpArith::Mul ==> in_range(x * y, out)
                &&& (opcode == BinaryOpArith::Div || opcode == BinaryOpArith::Mod) ==> forall|z: int| in_range(z, out)
            },
            _ => true,
        },
{
    if let Instruction::BinaryArith { opcode, lhs, rhs, result, .. } = inst {
        let l = operand_range(&lhs, m);
        let r = operand_range(&rhs, m);
        range_sum_difference_sound(l, r, x as int, y as int);
        if l.lower is Some && l.upper is Some && r.lower is Some && r.upper is Some {
            range_product_sound(l, r, x, y);
        }
    }
}

/// Division of a natural number by a positive one: quotient and remainder put the
/// number back together, the remainder is below the divisor, and the quotient is
/// no larger than the number.
proof fn lemma_natural_division(n: int, d: int)
    requires
        0 <= n,
        0 < d,
    ensures
        d * (n / d) + n % d == n,
        0 <= n % d < d,
        0 <= n / d <= n,
{
    vstd::arithmetic::div_mod::lemma_fundamental_div_mod(n, d);
    vstd::arithmetic::div_mod::lemma_mod_pos_bound(n, d);
    vstd::arithmetic::div_mod::lemma_div_pos_is_pos(n, d);
    let q = n / d;
    assert(d * q >= q) by (nonlinear_arith)
        requires
            d >= 1,
            q >= 0,
    ;
}

/// Constant propagation: a sum, difference or product of two constants is the
/// constant that the 64-bit operation gives, which is the exact result wherever
/// that fits; a quotient or remainder by a non-zero constant is the truncating
/// one, and by zero is unknown.
pub proof fn constant_arithmetic_exact(a: i64, b: i64)
    ensures
        constant_binary(BinaryOpArith::Add, ValueDomain::Const(a), ValueDomain::Const(b)) matches ValueDomain::Const(c)
            && (i64::MIN <= a + b <= i64::MAX ==> c == a + b),
        constant_binary(BinaryOpArith::Sub, ValueDomain::Const(a), ValueDomain::Const(b)) matches ValueDomain::Const(c)
            && (i64::MIN <= a - b <= i64::MAX ==> c == a - b),
        constant_binary(BinaryOpArith::Mul, ValueDomain::Const(a), ValueDomain::Const(b)) matches ValueDomain::Const(c)
            && (i64::MIN <= a * b <= i64::MAX ==> c == a * b),
        b == 0 ==> constant_binary(BinaryOpArith::Div, ValueDomain::Const(a), ValueDomain::Const(b)) == ValueDomain::Top
            && constant_binary(BinaryOpArith::Mod, ValueDomain::Const(a), ValueDomain::Const(b)) == ValueDomain::Top,
        b != 0 && !(a == i64::MIN && b == -1) ==> (constant_binary(
            BinaryOpArith::Div,
            ValueDomain::Const(a),
            ValueDomain::Const(b),
        ) matches ValueDomain::Const(q) && constant_binary(BinaryOpArith::Mod, ValueDomain::Const(a), ValueDomain::Const(b))
            matches ValueDomain::Const(rem) && q * b + rem == a && (if a >= 0 {
            0 <= rem
        } else {
            rem <= 0
        }) && (if b > 0 {
            -b < rem < b
        } else {
            b < rem < -b
        })),
{
    if b != 0 && !(a == i64::MIN && b == -1) {
        let x = a as int;
        let d = b as int;
        if x > 0 && d > 0 {
            lemma_natural_division(x, d);
            assert((x / d) * d == d * (x / d)) by (nonlinear_arith);
            assert(a.checked_div(b) == Some((x / d) as i64));
            assert(a.checked_rem(b) == Some((x % d) as i64));
            assert(((x / d) as i64) * b + ((x % d) as i64) == a);
        } else if x < 0 && d < 0 {
            lemma_natural_division(-x, -d);
            let q = (-x) / (-d);
            assert(q * d == -((-d) * q)) by (nonlinear_arith);
            assert((x * -1) == -x && (d * -1) == -d);
            if d < -1 {
                assert(2 * q <= (-d) * q) by (nonlinear_arith)
                    requires
                        -d >= 2,
                        q >= 0,
                ;
            }
            assert(a.checked_div(b) == Some(q as i64));
            assert(a.checked_rem(b) == Some((((-x) % (-d)) * -1) as i64));
            assert((q as i64) * b + ((((-x) % (-d)) * -1) as i64) == a);
        } else if x < 0 {
            lemma_natural_division(-x, d);
            let q = (-x) / d;
            assert((q * -1) * d == -(d * q)) by (nonlinear_arith);
            assert((x * -1) == -x);
            assert(a.checked_div(b) == Some((q * -1) as i64));
            assert(a.checked_rem(b) == Some((((-x) % d) * -1) as i64));
            assert(((q * -1) as i64) * b + ((((-x) % d) * -1) as i64) == a);
        } else if x > 0 {
            lemma_natural_division(x, -d);
            let q = x / (-d);
            assert((q * -1) * d == (-d) * q) by (nonlinear_arith);
            assert((d * -1) == -d);
            assert(a.checked_div(b) == Some((q * -1) as i64));
            assert(a.checked_rem(b) == Some((x % (-d)) as i64));
            assert(((q * -1) as i64) * b + ((x % (-d)) as i64) == a);
        } else {
            assert(a.checked_div(b) == Some(0i64));
            assert(a.checked_rem(b) == Some(0i64));
        }
        let qv = a.checked_div(b)->Some_0;
        let rv = a.checked_rem(b)->Some_0;
        if x == 0 {
            assert(qv == 0 && rv == 0);
            assert(qv * b == 0) by (nonlinear_arith)
                requires
                    qv == 0,
            ;
        }
        assert(qv * b + rv == a);
        assert(if a >= 0 { 0 <= rv } else { rv <= 0 });
        assert(if b > 0 { -b < rv < b } else { b < rv < -b });
    }
}

/// Constant propagation: after an arithmetic instruction whose operands are
/// known constants, its result is the constant the operation gives on the left
/// operand and the right one, in that order.
pub proof fn constant_transfer_computes(inst: Instruction, m: Map<RegisterSlot, ValueDomain>, a: i64, b: i64)
    requires
        inst matches Instruction::BinaryArith { lhs, rhs, .. } && operand_constant(&lhs, m) == ValueDomain::Const(a)
            && operand_constant(&rhs, m) == ValueDomain::Const(b),
    ensures
        match inst {
            Instruction::BinaryArith { opcode, result, .. } => {
                let out = constant_transfer(&inst, m)[result];
                &&& opcode == BinaryOpArith::Add && i64::MIN <= a + b <= i64::MAX ==> out == ValueDomain::Const((a + b) as i64)
                &&& opcode == BinaryOpArith::Sub && i64::MIN <= a - b <= i64::MAX ==> out == ValueDomain::Const((a - b) as i64)
                &&& opcode == BinaryOpArith::Mul && i64::MIN <= a * b <= i64::MAX ==> out == ValueDomain::Const((a * b) as i64)
                &&& out == constant_binary(opcode, ValueDomain::Const(a), ValueDomain::Const(b))
            },
            _ => true,
        },
{
    constant_arithmetic_exact(a, b);
}

} // verus!

verus! {

/// Constant propagation: an integer literal that fits in 64 bits is that
/// constant, and a register holds what the store gives it.
pub proof fn constant_operands(v: Value, m: Map<RegisterSlot, ValueDomain>)
    ensures
        match v {
            Value::Constant(Constant::NumOne { value: NumValue::Int(x), .. }) => i64::MIN <= x <= i64::MAX
                ==> operand_constant(&v, m) == ValueDomain::Const(x as i64),
            Value::Register { index, .. } => operand_constant(&v, m) == m[index],
            _ => true,
        },
{
}

/// Constant propagation: negating a known constant (other than the least one)
/// gives its opposite.
pub proof fn constant_negation_computes(inst: Instruction, m: Map<RegisterSlot, ValueDomain>, a: i64)
    requires
        inst matches Instruction::UnaryArith { operand, .. } && operand_constant(&operand, m) == ValueDomain::Const(a),
        a != i64::MIN,
    ensures
        match inst {
            Instruction::UnaryArith { result, .. } => constant_transfer(&inst, m)[result] == ValueDomain::Const(
                (-a) as i64,
            ),
            _ => true,
        },
{
}

/// Ranges: an integer literal that fits in 64 bits is the range of that one
/// value, and a register has the range the store gives it.
pub proof fn range_operands(v: Value, m: Map<RegisterSlot, RangeDomain>)
    ensures
        match v {
            Value::Constant(Constant::NumOne { value: NumValue::Int(x), .. }) => i64::MIN <= x <= i64::MAX
                ==> operand_range(&v, m) == (RangeDomain { lower: Some(x as i64), upper: Some(x as i64) }),
            Value::Register { index, .. } => operand_range(&v, m) == m[index],
            _ => true,
        },
{
}

/// Ranges: after a negation, the range of its result holds the opposite of any
/// value in the range of its operand, where the bounds are not the least integer.
pub proof fn range_negation_sound(inst: Instruction, m: Map<RegisterSlot, RangeDomain>, x: i64)
    requires
        inst matches Instruction::UnaryArith { operand, .. } && in_range(x as int, operand_range(&operand, m))
            && operand_range(&operand, m).lower != Some(i64::MIN) && operand_range(&operand, m).upper != Some(i64::MIN),
    ensures
        match inst {
            Instruction::UnaryArith { result, .. } => in_range(-x, range_transfer(&inst, m)[result]),
            _ => true,
        },
{
}

} // verus!

verus! {

/// Sign: the sign arithmetic is monotone: signs covering the operands give a sign
/// covering the result.
proof fn lemma_sign_binary_monotone(op: BinaryOpArith, a: SignDomain, b: SignDomain, c: SignDomain, d: SignDomain)
    requires
        sign_join(a, c) == c,
        sign_join(b, d) == d,
    ensures
        sign_join(sign_binary(op, a, b), sign_binary(op, c, d)) == sign_binary(op, c, d),
{
}

/// Sign: after an arithmetic instruction, the sign computed for its result
/// covers the sign of the sum, difference or product of any two integers whose
/// signs the signs of its operands (left, then right) cover.
#[verifier::rlimit(60)]
pub proof fn sign_transfer_sound(inst: Instruction, m: Map<RegisterSlot, SignDomain>, x: int, y: int)
    requires
        inst matches Instruction::BinaryArith { lhs, rhs, .. } && sign_join(sign_of_int(x), operand_sign(&lhs, m))
            == operand_sign(&lhs, m) && sign_join(sign_of_int(y), operand_sign(&rhs, m)) == operand_sign(&rhs, m),
    ensures
        match inst {
            Instruction::BinaryArith { opcode, result, .. } => {
                let out = sign_transfer(&inst, m)[result];
                &&& opcode == BinaryOpArith::Add ==> sign_join(sign_of_int(x + y), out) == out
                &&& opcode == BinaryOpArith::Sub ==> sign_join(sign_of_int(x - y), out) == out
                &&& opcode == BinaryOpArith::Mul ==> sign_join(sign_of_int(x * y), out) == out
            },
            _ => true,
        },
{
    if let Instruction::BinaryArith { opcode, lhs, rhs, .. } = inst {
        let (l, r) = (operand_sign(&lhs, m), operand_sign(&rhs, m));
        let (sx, sy) = (sign_of_int(x), sign_of_int(y));
        sign_arithmetic_sound(x, y);
        lemma_sign_binary_monotone(opcode, sx, sy, l, r);
        sign_join_laws(sign_of_int(x + y), sign_binary(opcode, sx, sy), sign_binary(opcode, l, r));
        sign_join_laws(sign_of_int(x - y), sign_binary(opcode, sx, sy), sign_binary(opcode, l, r));
        sign_join_laws(sign_of_int(x * y), sign_binary(opcode, sx, sy), sign_binary(opcode, l, r));
    }
}

} // verus!
