//! Tables for building number literals from products of small factors.
use vstd::prelude::*;

use crate::CELL_SIZE;

verus! {

/// What a literal costs when built from its factors: each factor costs its
/// value, and each multiplication 7 more.
pub open spec fn mult_cost() -> nat {
    7
}

/// The cheapest way to write `i` found among its divisors `d`, `d*d <= i`,
/// from `d` on, starting from cost `c` with split `s` (0 for none): the
/// first divisor that gives the lowest cost wins.
pub open spec fn scan_divisors(i: nat, d: nat, c: nat, s: nat) -> (nat, nat)
    decreases i, i + 1 - d, 0nat,
    when 2 <= d
{
    if d * d > i {
        (c, s)
    } else {
        proof {
            lemma_square_bound(i, d);
            if i % d == 0 {
                lemma_div_smaller(i, d);
            }
        }
        let next = if i % d == 0 && cost(d) + cost(i / d) + mult_cost() < c {
            (cost(d) + cost(i / d) + mult_cost(), d)
        } else {
            (c, s)
        };
        scan_divisors(i, d + 1, next.0, next.1)
    }
}

/// The cost of the cheapest product tree for `i`; `i` itself for 0 and 1.
pub open spec fn cost(i: nat) -> nat
    decreases i, i + 2, 0nat,
{
    if i < 2 {
        0
    } else {
        scan_divisors(i, 2, i, 0).0
    }
}

/// The first factor of the cheapest product tree for `i`, or 0 where `i`
/// is best written as it is.
pub open spec fn split(i: nat) -> nat {
    if i < 2 {
        0
    } else {
        scan_divisors(i, 2, i, 0).1
    }
}

/// The factors of the cheapest product tree for `v`, left to right.
pub open spec fn factors(v: nat) -> Seq<usize>
    decreases v,
{
    if split(v) == 0 {
        seq![v as usize]
    } else {
        proof {
            lemma_split(v);
            lemma_square_bound(v, split(v));
            lemma_div_smaller(v, split(v));
        }
        factors(split(v)) + factors(v / split(v))
    }
}

/// The product of the numbers in `s`.
pub open spec fn product(s: Seq<usize>) -> int
    decreases s.len(),
{
    if s.len() == 0 {
        1
    } else {
        product(s.drop_last()) * s.last()
    }
}

/// The distance between `i` and `j`.
pub open spec fn dist(i: int, j: int) -> int {
    if i >= j {
        i - j
    } else {
        j - i
    }
}

/// The end of the range of neighbours `j` considered for `i`.
pub open spec fn neighbour_end(i: nat) -> nat {
    if 2 * i < CELL_SIZE {
        2 * i
    } else {
        CELL_SIZE as nat
    }
}

/// The neighbour `j` (from `j` on, below `neighbour_end(i)`) whose cost
/// plus the distance to `i` is lowest, where that beats `m`; the first such
/// wins.
pub open spec fn scan_neighbours(i: nat, j: nat, m: int, best: Option<nat>) -> (int, Option<nat>)
    decreases neighbour_end(i) - j,
{
    if j >= neighbour_end(i) {
        (m, best)
    } else if cost(j) + dist(i as int, j as int) < m {
        scan_neighbours(i, j + 1, cost(j) + dist(i as int, j as int), Some(j))
    } else {
        scan_neighbours(i, j + 1, m, best)
    }
}

/// The neighbour of `i` that is cheaper to build and then adjust, if any.
pub open spec fn best_neighbour(i: nat) -> Option<nat> {
    scan_neighbours(i, 2, cost(i) as int, None).1
}

/// The entry for `v` of the table: the factors to multiply and what to add
/// to their product.
pub open spec fn compaction_entry(v: nat) -> (Seq<usize>, int) {
    if v < 2 {
        (factors(v), 0)
    } else {
        match best_neighbour(v) {
            Some(j) => (factors(j), v - j),
            None => (factors(v), 0),
        }
    }
}

/// What `compaction_map(value)` gives: the table entry for a value below
/// the cell size, and the value itself as its only factor otherwise.
pub open spec fn spec_compaction_map(value: usize) -> (Seq<usize>, int) {
    if value < CELL_SIZE {
        compaction_entry(value as nat)
    } else {
        (seq![value], 0)
    }
}

/// For `d >= 2` with `d*d <= i`: `d < i`.
pub proof fn lemma_square_bound(i: nat, d: nat)
    requires
        2 <= d,
        d * d <= i,
    ensures
        d < i,
        2 <= i,
{
    assert(d * d >= 2 * d) by (nonlinear_arith)
        requires
            2 <= d,
    ;
}

/// For `d >= 2` dividing `v >= 2`: `v / d` is below `v`, at least 1, and
/// times `d` gives `v`.
pub proof fn lemma_div_smaller(v: nat, d: nat)
    requires
        2 <= d,
        2 <= v,
        v % d == 0,
    ensures
        v / d < v,
        1 <= v / d,
        (v / d) * d == v,
{
    assert((v / d) * d + v % d == v) by (nonlinear_arith)
        requires
            d > 0,
    ;
    assert(v / d < v) by (nonlinear_arith)
        requires
            2 <= d,
            2 <= v,
            (v / d) * d == v,
    ;
    assert(1 <= v / d) by (nonlinear_arith)
        requires
            2 <= v,
            (v / d) * d == v,
    ;
}

/// Scanning keeps a split that is 0 or a divisor `d` of `i` with `2 <= d`
/// and `d*d <= i`, where the start does.
pub proof fn lemma_scan_split(i: nat, d: nat, c: nat, s: nat)
    requires
        2 <= d,
        s == 0 || (2 <= s && s * s <= i && i % s == 0),
    ensures
        ({
            let r = scan_divisors(i, d, c, s).1;
            r == 0 || (2 <= r && r * r <= i && i % r == 0)
        }),
        scan_divisors(i, d, c, s).0 <= c,
    decreases i + 1 - d,
{
    if d * d <= i {
        lemma_square_bound(i, d);
        let next = if i % d == 0 && cost(d) + cost(i / d) + mult_cost() < c {
            (cost(d) + cost(i / d) + mult_cost(), d)
        } else {
            (c, s)
        };
        lemma_scan_split(i, d + 1, next.0, next.1);
    }
}

/// `split(v)` is 0 or a divisor of `v` that is at least 2 and whose square
/// is at most `v`; `cost(v)` is at most `v`.
pub proof fn lemma_split(v: nat)
    ensures
        split(v) == 0 || (2 <= split(v) && split(v) * split(v) <= v && v % split(v) == 0),
        cost(v) <= v,
{
    if v >= 2 {
        lemma_scan_split(v, 2, v, 0);
    }
}

/// The factors of `v` multiply to `v`, and each is below the cell size
/// where `v` is.
pub proof fn lemma_factors(v: nat)
    requires
        v <= usize::MAX,
    ensures
        product(factors(v)) == v,
        factors(v).len() >= 1,
    decreases v,
{
    if split(v) == 0 {
        assert(factors(v) == seq![v as usize]);
        lemma_product_single(v as usize);
    } else {
        lemma_split(v);
        let d = split(v);
        lemma_square_bound(v, d);
        lemma_div_smaller(v, d);
        lemma_factors(d);
        lemma_factors(v / d);
        lemma_product_concat(factors(d), factors(v / d));
        assert(d * (v / d) == v) by (nonlinear_arith)
            requires
                (v / d) * d == v,
        ;
    }
}

/// The product of a concatenation is the product of the products.
pub proof fn lemma_product_concat(a: Seq<usize>, b: Seq<usize>)
    ensures
        product(a + b) == product(a) * product(b),
    decreases b.len(),
{
    if b.len() == 0 {
        assert(a + b =~= a);
    } else {
        assert((a + b).drop_last() =~= a + b.drop_last());
        lemma_product_concat(a, b.drop_last());
        let pa = product(a);
        let pb = product(b.drop_last());
        let l = b.last() as int;
        assert(pa * pb * l == pa * (pb * l)) by (nonlinear_arith);
    }
}

/// Law: every entry of the table rebuilds its value — the product of the
/// factors plus the offset is the value itself.
pub proof fn law_compaction_map_rebuilds(value: usize)
    ensures
        product(spec_compaction_map(value).0) + spec_compaction_map(value).1 == value,
{
    if value < CELL_SIZE {
        let v = value as nat;
        if v < 2 {
            lemma_factors(v);
        } else {
            match best_neighbour(v) {
                Some(j) => {
                    lemma_scan_neighbours(v, 2, cost(v) as int, None);
                    lemma_factors(j);
                },
                None => {
                    lemma_factors(v);
                },
            }
        }
    } else {
        lemma_product_single(value);
    }
}

/// The product of one number is that number.
pub proof fn lemma_product_single(x: usize)
    ensures
        product(seq![x]) == x,
{
    assert(seq![x].drop_last() =~= Seq::<usize>::empty());
    assert(product(Seq::<usize>::empty()) == 1);
    assert(product(seq![x]) == product(seq![x].drop_last()) * x);
}

/// The table entry for `value`, or the value itself as its only factor
/// where it is not below the cell size.
pub fn compaction_map(value: usize) -> (r: (Vec<usize>, isize))
    ensures
        r.0@ == spec_compaction_map(value).0,
        r.1 == spec_compaction_map(value).1,
{
    let map = make_compaction_map();
    if value < map.len() {
        let entry = &map[value];
        (copy_usizes(&entry.0), entry.1)
    } else {
        let mut v: Vec<usize> = Vec::new();
        v.push(value);
        proof {
            assert(v@ =~= seq![value]);
        }
        (v, 0)
    }
}

/// A copy of `v`.
fn copy_usizes(v: &Vec<usize>) -> (r: Vec<usize>)
    ensures
        r@ == v@,
{
    let mut r: Vec<usize> = Vec::new();
    let mut i: usize = 0;
    while i < v.len()
        invariant
            i <= v@.len(),
            r@ == v@.take(i as int),
        decreases v@.len() - i,
    {
        r.push(v[i]);
        i = i + 1;
        proof {
            assert(r@ =~= v@.take(i as int));
        }
    }
    proof {
        assert(v@.take(v@.len() as int) =~= v@);
    }
    r
}

/// Calls `usize::isqrt`.
///
/// Claimed of std: the result is the floor of the square root.
#[verifier::external_body]
fn isqrt(n: usize) -> (r: usize)
    ensures
        r * r <= n,
        n < (r + 1) * (r + 1),
{
    n.isqrt()
}

/// The factors of `value` as the splits in `split_table` give them.
fn get_factors(split_table: &Vec<usize>, value: usize) -> (r: Vec<usize>)
    requires
        value < split_table@.len(),
        split_table@.len() == CELL_SIZE,
        forall|k: int| 0 <= k < CELL_SIZE ==> #[trigger] split_table@[k] == split(k as nat),
    ensures
        r@ == factors(value as nat),
    decreases value,
{
    proof {
        lemma_split(value as nat);
    }
    if split_table[value] == 0 {
        let mut r: Vec<usize> = Vec::new();
        r.push(value);
        proof {
            assert(r@ =~= seq![value]);
        }
        return r;
    }
    let d = split_table[value];
    proof {
        lemma_square_bound(value as nat, d as nat);
        lemma_div_smaller(value as nat, d as nat);
    }
    let left = get_factors(split_table, d);
    let right = get_factors(split_table, value / d);
    let mut left = left;
    let mut right = right;
    left.append(&mut right);
    left
}

/// The table of the cheapest factorisations of all values below the cell
/// size, each adjusted from a cheaper neighbour where one is closer than
/// factoring.
#[verifier::loop_isolation(false)]
fn make_compaction_map() -> (r: Vec<(Vec<usize>, isize)>)
    ensures
        r@.len() == CELL_SIZE,
        forall|v: int|
            0 <= v < CELL_SIZE ==> (#[trigger] r@[v]).0@ == compaction_entry(v as nat).0 && r@[v].1
                == compaction_entry(v as nat).1,
{
    let n = CELL_SIZE;
    let mut cost_table: Vec<usize> = Vec::new();
    let mut split_table: Vec<usize> = Vec::new();
    cost_table.push(0);
    cost_table.push(0);
    split_table.push(0);
    split_table.push(0);
    let mut i: usize = 2;
    while i < n
        invariant
            2 <= i <= n,
            cost_table@.len() == i,
            split_table@.len() == i,
            forall|k: int| 0 <= k < i ==> #[trigger] cost_table@[k] == cost(k as nat),
            forall|k: int| 0 <= k < i ==> #[trigger] split_table@[k] == split(k as nat),
        decreases n - i,
    {
        let mut c: usize = i;
        let mut s: usize = 0;
        let r = isqrt(i);
        let mut d: usize = 2;
        proof {
            assert(r <= i) by (nonlinear_arith)
                requires
                    r * r <= i,
                    2 <= i,
            ;
            assert(r >= 1) by (nonlinear_arith)
                requires
                    i < (r + 1) * (r + 1),
                    2 <= i,
            ;
        }
        while d <= r
            invariant
                2 <= d <= r + 1,
                r * r <= i < (r + 1) * (r + 1),
                c <= i,
                scan_divisors(i as nat, 2, i as nat, 0) == scan_divisors(i as nat, d as nat, c as nat, s as nat),
            decreases r + 1 - d,
        {
            proof {
                assert(d * d <= i) by (nonlinear_arith)
                    requires
                        d <= r,
                        r * r <= i,
                ;
                lemma_square_bound(i as nat, d as nat);
            }
            if i % d == 0 {
                proof {
                    lemma_div_smaller(i as nat, d as nat);
                    lemma_split(d as nat);
                    lemma_split((i / d) as nat);
                }
                let new_cost = cost_table[d] + cost_table[i / d] + 7;
                if new_cost < c {
                    c = new_cost;
                    s = d;
                }
            }
            d = d + 1;
        }
        proof {
            assert(d * d > i) by (nonlinear_arith)
                requires
                    d == r + 1,
                    i < (r + 1) * (r + 1),
            ;
        }
        cost_table.push(c);
        split_table.push(s);
        i = i + 1;
    }
    let mut result: Vec<(Vec<usize>, isize)> = Vec::new();
    let mut v: usize = 0;
    while v < n
        invariant
            v <= n,
            cost_table@.len() == n,
            split_table@.len() == n,
            forall|k: int| 0 <= k < n ==> #[trigger] split_table@[k] == split(k as nat),
            result@.len() == v,
            forall|k: int| 0 <= k < v ==> (#[trigger] result@[k]).0@ == factors(k as nat) && result@[k].1 == 0,
        decreases n - v,
    {
        let f = get_factors(&split_table, v);
        result.push((f, 0));
        v = v + 1;
    }
    let mut i: usize = 2;
    while i < n
        invariant
            2 <= i <= n,
            result@.len() == n,
            cost_table@.len() == n,
            forall|k: int| 0 <= k < n ==> #[trigger] cost_table@[k] == cost(k as nat),
            forall|k: int| 0 <= k < 2 ==> (#[trigger] result@[k]).0@ == factors(k as nat) && result@[k].1 == 0,
            forall|k: int| 2 <= k < i ==> (#[trigger] result@[k]).0@ == compaction_entry(k as nat).0
                && result@[k].1 == compaction_entry(k as nat).1,
            forall|k: int| i <= k < n ==> (#[trigger] result@[k]).0@ == factors(k as nat) && result@[k].1 == 0,
        decreases n - i,
    {
        let mut min_cost: usize = cost_table[i];
        let mut best: Option<usize> = None;
        let end = if i < n / 2 {
            i * 2
        } else {
            n
        };
        let mut j: usize = 2;
        while j < end
            invariant
                2 <= j <= end,
                end == neighbour_end(i as nat),
                min_cost <= cost(i as nat),
                scan_neighbours(i as nat, 2, cost(i as nat) as int, None) == scan_neighbours(
                    i as nat,
                    j as nat,
                    min_cost as int,
                    match best {
                        Some(b) => Some(b as nat),
                        None => None,
                    },
                ),
                forall|k: int| 2 <= k < j ==> min_cost <= cost(k as nat) + dist(i as int, k),
                best matches Some(b) ==> 2 <= b < j && min_cost == cost(b as nat) + dist(i as int, b as int),
                best is None ==> min_cost == cost(i as nat),
            decreases end - j,
        {
            let dd = if i >= j {
                i - j
            } else {
                j - i
            };
            proof {
                lemma_split(j as nat);
                lemma_split(i as nat);
            }
            if cost_table[j] + dd < min_cost {
                min_cost = cost_table[j] + dd;
                best = Some(j);
            }
            j = j + 1;
        }
        match best {
            Some(b) => {
                proof {
                    assert(best_neighbour(i as nat) == Some(b as nat));
                    if b < i {
                        lemma_no_neighbour_of_chosen(i as nat, b as nat);
                    }
                }
                let f = copy_usizes(&result[b].0);
                let off: isize = i as isize - b as isize;
                result.set(i, (f, off));
            },
            None => {
                proof {
                    assert(best_neighbour(i as nat) == None::<nat>);
                }
            },
        }
        i = i + 1;
    }
    result
}

/// `scan_neighbours` finds the lowest value: what it ends with is at most
/// every candidate it saw, and is the value of the neighbour it names.
pub proof fn lemma_scan_neighbours(i: nat, j: nat, m: int, best: Option<nat>)
    requires
        best matches Some(b) ==> b < j,
    ensures
        ({
            let (m2, b2) = scan_neighbours(i, j, m, best);
            &&& m2 <= m
            &&& forall|k: nat| j <= k < neighbour_end(i) ==> m2 <= cost(k) + dist(i as int, k as int)
            &&& (b2 == best ==> m2 == m)
            &&& (b2 != best ==> m2 < m && (b2 matches Some(k) && j <= k < neighbour_end(i) && m2 == cost(k) + dist(i as int, k as int)))
        }),
    decreases neighbour_end(i) - j,
{
    if j < neighbour_end(i) {
        if cost(j) + dist(i as int, j as int) < m {
            lemma_scan_neighbours(i, j + 1, cost(j) + dist(i as int, j as int), Some(j));
        } else {
            lemma_scan_neighbours(i, j + 1, m, best);
        }
    }
}

/// A neighbour `b < i` chosen for `i` has no cheaper neighbour of its own:
/// that one would have been cheaper for `i` too.
pub proof fn lemma_no_neighbour_of_chosen(i: nat, b: nat)
    requires
        2 <= b < i < CELL_SIZE,
        best_neighbour(i) == Some(b),
    ensures
        best_neighbour(b) is None,
{
    lemma_scan_neighbours(i, 2, cost(i) as int, None);
    lemma_scan_neighbours(b, 2, cost(b) as int, None);
    let (mi, _) = scan_neighbours(i, 2, cost(i) as int, None);
    if best_neighbour(b) is Some {
        let k = best_neighbour(b)->Some_0;
        let (mb, _) = scan_neighbours(b, 2, cost(b) as int, None);
        assert(mb < cost(b));
        assert(k < neighbour_end(i));
        assert(mi <= cost(k) + dist(i as int, k as int));
    }
}

} // verus!
