//! Natural ordering of page and file names: maximal runs of decimal digits
//! compare by numeric value ("page9" before "page10"), other characters by
//! case-folded code point, with a plain lexicographic tie-break so that the
//! ordering is total.
use vstd::prelude::*;
use vstd::relations::{sorted_by, total_ordering};

verus! {

/// Decimal digit, by code point.
pub open spec fn is_digit_char(c: char) -> bool {
    48 <= c as int <= 57
}

/// Code point with ASCII upper case folded to lower case, so that alphabetic
/// runs compare case-insensitively.
pub open spec fn fold_code(c: char) -> int {
    if 65 <= c as int <= 90 {
        c as int + 32
    } else {
        c as int
    }
}

/// End of the maximal run of decimal digits of `s` beginning at `i`.
pub open spec fn run_end(s: Seq<char>, i: int) -> int
    decreases s.len() - i when 0 <= i <= s.len()
{
    if i < s.len() && is_digit_char(s[i]) {
        run_end(s, i + 1)
    } else {
        i
    }
}

/// First position in `[i, e)` that does not hold the digit zero: the start
/// of the significant digits of a run.
pub open spec fn zeros_end(s: Seq<char>, i: int, e: int) -> int
    decreases e - i when i <= e
{
    if i < e && s[i] == '0' {
        zeros_end(s, i + 1, e)
    } else {
        i
    }
}

/// Pointwise comparison of `n` characters by raw code point.
pub open spec fn range_cmp(a: Seq<char>, i: int, b: Seq<char>, j: int, n: int) -> int
    decreases n when n >= 0
{
    if n <= 0 {
        0
    } else if (a[i] as int) < (b[j] as int) {
        -1
    } else if (a[i] as int) > (b[j] as int) {
        1
    } else {
        range_cmp(a, i + 1, b, j + 1, n - 1)
    }
}

/// Plain lexicographic comparison of the tails of `a` and `b`, by raw code
/// point: the tie-break that keeps natural order antisymmetric.
pub open spec fn lex_cmp(a: Seq<char>, i: int, b: Seq<char>, j: int) -> int
    decreases a.len() - i when 0 <= i <= a.len() && 0 <= j <= b.len()
{
    if i >= a.len() && j >= b.len() {
        0
    } else if i >= a.len() {
        -1
    } else if j >= b.len() {
        1
    } else if (a[i] as int) < (b[j] as int) {
        -1
    } else if (a[i] as int) > (b[j] as int) {
        1
    } else {
        lex_cmp(a, i + 1, b, j + 1)
    }
}

/// Natural comparison of the tails of `a` and `b`: maximal digit runs
/// compare by numeric value (fewer significant digits first, then digit by
/// digit), all other characters by case-folded code point.
pub open spec fn nat_cmp_from(a: Seq<char>, i: int, b: Seq<char>, j: int) -> int
    decreases a.len() - i + b.len() - j
        when 0 <= i <= a.len() && 0 <= j <= b.len()
        via nat_cmp_from_decreases
{
    if i >= a.len() && j >= b.len() {
        0
    } else if i >= a.len() {
        -1
    } else if j >= b.len() {
        1
    } else if is_digit_char(a[i]) && is_digit_char(b[j]) {
        let ea = run_end(a, i);
        let eb = run_end(b, j);
        let za = zeros_end(a, i, ea);
        let zb = zeros_end(b, j, eb);
        if ea - za < eb - zb {
            -1
        } else if ea - za > eb - zb {
            1
        } else {
            let c = range_cmp(a, za, b, zb, ea - za);
            if c != 0 {
                c
            } else {
                nat_cmp_from(a, ea, b, eb)
            }
        }
    } else if fold_code(a[i]) < fold_code(b[j]) {
        -1
    } else if fold_code(a[i]) > fold_code(b[j]) {
        1
    } else {
        nat_cmp_from(a, i + 1, b, j + 1)
    }
}

#[via_fn]
proof fn nat_cmp_from_decreases(a: Seq<char>, i: int, b: Seq<char>, j: int) {
    if 0 <= i <= a.len() && 0 <= j <= b.len() {
        if i < a.len() && j < b.len() && is_digit_char(a[i]) && is_digit_char(b[j]) {
            lemma_run_end(a, i);
            lemma_run_end(b, j);
        }
    }
}

/// `a` precedes `b`, or ties with it, in natural order.
pub open spec fn nat_le(a: Seq<char>, b: Seq<char>) -> bool {
    let c = nat_cmp_from(a, 0, b, 0);
    c < 0 || (c == 0 && lex_cmp(a, 0, b, 0) <= 0)
}

pub proof fn lemma_run_end(s: Seq<char>, i: int)
    requires
        0 <= i <= s.len(),
    ensures
        i <= run_end(s, i) <= s.len(),
        i < s.len() && is_digit_char(s[i]) ==> run_end(s, i) >= i + 1,
        forall|k: int| i <= k < run_end(s, i) ==> is_digit_char(s[k]),
        run_end(s, i) < s.len() ==> !is_digit_char(s[run_end(s, i)]),
    decreases s.len() - i,
{
    if i < s.len() && is_digit_char(s[i]) {
        lemma_run_end(s, i + 1);
    }
}

pub proof fn lemma_zeros_end(s: Seq<char>, i: int, e: int)
    requires
        i <= e,
    ensures
        i <= zeros_end(s, i, e) <= e,
        forall|k: int| i <= k < zeros_end(s, i, e) ==> s[k] == '0',
        zeros_end(s, i, e) < e ==> s[zeros_end(s, i, e)] != '0',
    decreases e - i,
{
    if i < e && s[i] == '0' {
        lemma_zeros_end(s, i + 1, e);
    }
}

proof fn lemma_range_cmp_flip(a: Seq<char>, i: int, b: Seq<char>, j: int, n: int)
    requires
        n >= 0,
    ensures
        range_cmp(a, i, b, j, n) == -range_cmp(b, j, a, i, n),
    decreases n,
{
    if n > 0 && (a[i] as int) == (b[j] as int) {
        lemma_range_cmp_flip(a, i + 1, b, j + 1, n - 1);
    }
}

proof fn lemma_range_cmp_trans(
    a: Seq<char>, i: int,
    b: Seq<char>, j: int,
    c: Seq<char>, k: int,
    n: int,
)
    requires
        n >= 0,
        range_cmp(a, i, b, j, n) <= 0,
        range_cmp(b, j, c, k, n) <= 0,
    ensures
        range_cmp(a, i, c, k, n) <= 0,
        range_cmp(a, i, c, k, n) == 0 ==> range_cmp(a, i, b, j, n) == 0 && range_cmp(
            b, j, c, k, n) == 0,
    decreases n,
{
    if n > 0 {
        if (a[i] as int) == (b[j] as int) && (b[j] as int) == (c[k] as int) {
            lemma_range_cmp_trans(a, i + 1, b, j + 1, c, k + 1, n - 1);
        }
    }
}

proof fn lemma_lex_cmp_flip(a: Seq<char>, i: int, b: Seq<char>, j: int)
    requires
        0 <= i <= a.len(),
        0 <= j <= b.len(),
    ensures
        lex_cmp(a, i, b, j) == -lex_cmp(b, j, a, i),
    decreases a.len() - i,
{
    if i < a.len() && j < b.len() && (a[i] as int) == (b[j] as int) {
        lemma_lex_cmp_flip(a, i + 1, b, j + 1);
    }
}

proof fn lemma_lex_cmp_trans(
    a: Seq<char>, i: int,
    b: Seq<char>, j: int,
    c: Seq<char>, k: int,
)
    requires
        0 <= i <= a.len(),
        0 <= j <= b.len(),
        0 <= k <= c.len(),
        lex_cmp(a, i, b, j) <= 0,
        lex_cmp(b, j, c, k) <= 0,
    ensures
        lex_cmp(a, i, c, k) <= 0,
    decreases a.len() - i,
{
    if i < a.len() && j < b.len() && k < c.len() {
        if (a[i] as int) == (b[j] as int) && (b[j] as int) == (c[k] as int) {
            lemma_lex_cmp_trans(a, i + 1, b, j + 1, c, k + 1);
        }
    }
}

proof fn lemma_lex_cmp_zero(a: Seq<char>, i: int, b: Seq<char>, j: int)
    requires
        0 <= i <= a.len(),
        0 <= j <= b.len(),
        lex_cmp(a, i, b, j) == 0,
    ensures
        a.len() - i == b.len() - j,
        forall|k: int| i <= k < a.len() ==> #[trigger] a[k] == b[j + k - i],
    decreases a.len() - i,
{
    if i < a.len() && j < b.len() && (a[i] as int) == (b[j] as int) {
        lemma_lex_cmp_zero(a, i + 1, b, j + 1);
        assert forall|k: int| i <= k < a.len() implies #[trigger] a[k] == b[j + k - i] by {
            if k > i {
                assert(a[k] == b[(j + 1) + k - (i + 1)]);
            }
        }
    }
}

proof fn lemma_nat_cmp_flip(a: Seq<char>, i: int, b: Seq<char>, j: int)
    requires
        0 <= i <= a.len(),
        0 <= j <= b.len(),
    ensures
        nat_cmp_from(a, i, b, j) == -nat_cmp_from(b, j, a, i),
    decreases a.len() - i + b.len() - j,
{
    if i < a.len() && j < b.len() {
        if is_digit_char(a[i]) && is_digit_char(b[j]) {
            lemma_run_end(a, i);
            lemma_run_end(b, j);
            let ea = run_end(a, i);
            let eb = run_end(b, j);
            lemma_zeros_end(a, i, ea);
            lemma_zeros_end(b, j, eb);
            let za = zeros_end(a, i, ea);
            let zb = zeros_end(b, j, eb);
            if ea - za == eb - zb {
                lemma_range_cmp_flip(a, za, b, zb, ea - za);
                if range_cmp(a, za, b, zb, ea - za) == 0 {
                    lemma_nat_cmp_flip(a, ea, b, eb);
                }
            }
        } else {
            if fold_code(a[i]) == fold_code(b[j]) {
                lemma_nat_cmp_flip(a, i + 1, b, j + 1);
            }
        }
    }
}

proof fn lemma_nat_cmp_trans(
    a: Seq<char>, i: int,
    b: Seq<char>, j: int,
    c: Seq<char>, k: int,
)
    requires
        0 <= i <= a.len(),
        0 <= j <= b.len(),
        0 <= k <= c.len(),
        nat_cmp_from(a, i, b, j) <= 0,
        nat_cmp_from(b, j, c, k) <= 0,
    ensures
        nat_cmp_from(a, i, c, k) <= 0,
    decreases a.len() - i + b.len() - j + c.len() - k,
{
    if i >= a.len() {
        // nothing of a is left, so the comparison with c is 0 or -1
    } else {
        assert(j < b.len());
        assert(k < c.len());
        let da = is_digit_char(a[i]);
        let db = is_digit_char(b[j]);
        let dc = is_digit_char(c[k]);
        // A digit keeps its code under folding, and only digits fold into
        // the digit codes; so mixed digit/non-digit heads compare strictly.
        assert(da ==> fold_code(a[i]) == a[i] as int && 48 <= fold_code(a[i]) <= 57);
        assert(!da ==> !(48 <= fold_code(a[i]) <= 57));
        assert(db ==> fold_code(b[j]) == b[j] as int && 48 <= fold_code(b[j]) <= 57);
        assert(!db ==> !(48 <= fold_code(b[j]) <= 57));
        assert(dc ==> fold_code(c[k]) == c[k] as int && 48 <= fold_code(c[k]) <= 57);
        assert(!dc ==> !(48 <= fold_code(c[k]) <= 57));
        if da && db && dc {
            lemma_run_end(a, i);
            lemma_run_end(b, j);
            lemma_run_end(c, k);
            let ea = run_end(a, i);
            let eb = run_end(b, j);
            let ec = run_end(c, k);
            lemma_zeros_end(a, i, ea);
            lemma_zeros_end(b, j, eb);
            lemma_zeros_end(c, k, ec);
            let za = zeros_end(a, i, ea);
            let zb = zeros_end(b, j, eb);
            let zc = zeros_end(c, k, ec);
            let la = ea - za;
            let lb = eb - zb;
            let lc = ec - zc;
            assert(la <= lb && lb <= lc);
            if la == lc {
                lemma_range_cmp_trans(a, za, b, zb, c, zc, la);
                if range_cmp(a, za, c, zc, la) == 0 {
                    lemma_nat_cmp_trans(a, ea, b, eb, c, ec);
                }
            }
        } else if !da && !db && !dc {
            assert(fold_code(a[i]) <= fold_code(b[j]));
            assert(fold_code(b[j]) <= fold_code(c[k]));
            if fold_code(a[i]) == fold_code(c[k]) {
                lemma_nat_cmp_trans(a, i + 1, b, j + 1, c, k + 1);
            }
        } else {
            // Mixed heads: the digit side folds into [48, 57], the other side
            // cannot, so one of the three comparisons is strict and decides.
            if da && !db {
                assert(fold_code(a[i]) < fold_code(b[j]));
                assert(fold_code(b[j]) > 57);
                if dc {
                    assert(nat_cmp_from(b, j, c, k) == 1);
                } else {
                    assert(fold_code(b[j]) <= fold_code(c[k]));
                }
            } else if !da {
                assert(fold_code(a[i]) <= fold_code(b[j]));
                if db {
                    assert(fold_code(a[i]) < 48);
                } else {
                    assert(dc);
                    assert(fold_code(b[j]) < 48);
                    assert(fold_code(a[i]) < 48);
                }
            } else {
                // da && db && !dc
                assert(fold_code(b[j]) < fold_code(c[k]));
                assert(fold_code(c[k]) > 57);
            }
        }
    }
}

/// Natural order is reflexive: every name ties with itself.
pub proof fn lemma_nat_le_refl(a: Seq<char>)
    ensures
        nat_le(a, a),
{
    lemma_nat_cmp_flip(a, 0, a, 0);
    lemma_lex_cmp_flip(a, 0, a, 0);
}

/// Any two names are comparable in natural order.
pub proof fn lemma_nat_le_total(a: Seq<char>, b: Seq<char>)
    ensures
        nat_le(a, b) || nat_le(b, a),
{
    lemma_nat_cmp_flip(a, 0, b, 0);
    lemma_lex_cmp_flip(a, 0, b, 0);
}

/// Two names that each precede the other are the same name: natural order
/// never judges distinct names both-less-than.
pub proof fn lemma_nat_le_antisym(a: Seq<char>, b: Seq<char>)
    requires
        nat_le(a, b),
        nat_le(b, a),
    ensures
        a == b,
{
    lemma_nat_cmp_flip(a, 0, b, 0);
    lemma_lex_cmp_flip(a, 0, b, 0);
    lemma_lex_cmp_zero(a, 0, b, 0);
    assert forall|k: int| 0 <= k < a.len() implies a[k] == b[k] by {
        assert(a[k] == b[0 + k - 0]);
    }
    assert(a =~= b);
}

/// Natural order is transitive.
pub proof fn lemma_nat_le_trans(a: Seq<char>, b: Seq<char>, c: Seq<char>)
    requires
        nat_le(a, b),
        nat_le(b, c),
    ensures
        nat_le(a, c),
{
    let cab = nat_cmp_from(a, 0, b, 0);
    let cbc = nat_cmp_from(b, 0, c, 0);
    lemma_nat_cmp_trans(a, 0, b, 0, c, 0);
    let cac = nat_cmp_from(a, 0, c, 0);
    lemma_nat_cmp_flip(a, 0, b, 0);
    lemma_nat_cmp_flip(b, 0, c, 0);
    lemma_nat_cmp_flip(a, 0, c, 0);
    if cab == 0 && cbc == 0 {
        lemma_nat_cmp_trans(c, 0, b, 0, a, 0);
        assert(cac == 0);
        lemma_lex_cmp_trans(a, 0, b, 0, c, 0);
    } else {
        if cac == 0 {
            if cab < 0 {
                lemma_nat_cmp_trans(c, 0, a, 0, b, 0);
                assert(cbc == 0);
                lemma_nat_cmp_trans(b, 0, c, 0, a, 0);
                assert(false);
            } else {
                lemma_nat_cmp_trans(c, 0, a, 0, b, 0);
                assert(false);
            }
        }
    }
}

/// Natural order on owned names, as the sort states it.
pub open spec fn string_nat_le(x: String, y: String) -> bool {
    nat_le(x@, y@)
}

fn digit_exec(c: char) -> (r: bool)
    ensures
        r == is_digit_char(c),
{
    let u = c as u32;
    48 <= u && u <= 57
}

fn fold_exec(c: char) -> (r: u32)
    ensures
        r as int == fold_code(c),
{
    let u = c as u32;
    if 65 <= u && u <= 90 {
        u + 32
    } else {
        u
    }
}

fn run_end_exec(s: &str, i: usize, n: usize) -> (r: usize)
    requires
        n == s@.len(),
        i <= n,
    ensures
        r as int == run_end(s@, i as int),
        i <= r <= n,
{
    let mut r = i;
    while r < n && digit_exec(s.get_char(r))
        invariant
            i <= r <= n,
            n == s@.len(),
            run_end(s@, i as int) == run_end(s@, r as int),
        decreases n - r,
    {
        r = r + 1;
    }
    r
}

fn zeros_end_exec(s: &str, i: usize, e: usize) -> (r: usize)
    requires
        e <= s@.len(),
        i <= e,
    ensures
        r as int == zeros_end(s@, i as int, e as int),
        i <= r <= e,
{
    let mut r = i;
    while r < e && s.get_char(r) == '0'
        invariant
            i <= r <= e,
            e <= s@.len(),
            zeros_end(s@, i as int, e as int) == zeros_end(s@, r as int, e as int),
        decreases e - r,
    {
        r = r + 1;
    }
    r
}

fn range_cmp_exec(a: &str, i: usize, b: &str, j: usize, n: usize) -> (r: i8)
    requires
        i + n <= a@.len(),
        j + n <= b@.len(),
        a@.len() <= usize::MAX,
        b@.len() <= usize::MAX,
    ensures
        r as int == range_cmp(a@, i as int, b@, j as int, n as int),
{
    let mut t: usize = 0;
    while t < n
        invariant
            t <= n,
            i + n <= a@.len(),
            j + n <= b@.len(),
            a@.len() <= usize::MAX,
            b@.len() <= usize::MAX,
            range_cmp(a@, i as int, b@, j as int, n as int) == range_cmp(
                a@, i + t, b@, j + t, n - t),
        decreases n - t,
    {
        let ca = a.get_char(i + t);
        let cb = b.get_char(j + t);
        if (ca as u32) < (cb as u32) {
            return -1;
        }
        if (ca as u32) > (cb as u32) {
            return 1;
        }
        t = t + 1;
    }
    0
}

fn nat_cmp_exec(a: &str, b: &str) -> (r: i8)
    ensures
        r as int == nat_cmp_from(a@, 0, b@, 0),
{
    let alen = a.unicode_len();
    let blen = b.unicode_len();
    let mut i: usize = 0;
    let mut j: usize = 0;
    let mut res: i8 = 0;
    loop
        invariant_except_break
            i <= alen,
            j <= blen,
            alen == a@.len(),
            blen == b@.len(),
            res == 0,
            nat_cmp_from(a@, 0, b@, 0) == nat_cmp_from(a@, i as int, b@, j as int),
        ensures
            res as int == nat_cmp_from(a@, 0, b@, 0),
        decreases alen - i + blen - j,
    {
        if i == alen && j == blen {
            break;
        } else if i == alen {
            res = -1;
            break;
        } else if j == blen {
            res = 1;
            break;
        }
        let ca = a.get_char(i);
        let cb = b.get_char(j);
        if digit_exec(ca) && digit_exec(cb) {
            let ea = run_end_exec(a, i, alen);
            let eb = run_end_exec(b, j, blen);
            proof {
                lemma_run_end(a@, i as int);
                lemma_run_end(b@, j as int);
            }
            let za = zeros_end_exec(a, i, ea);
            let zb = zeros_end_exec(b, j, eb);
            proof {
                lemma_zeros_end(a@, i as int, ea as int);
                lemma_zeros_end(b@, j as int, eb as int);
            }
            let la = ea - za;
            let lb = eb - zb;
            if la < lb {
                res = -1;
                break;
            } else if la > lb {
                res = 1;
                break;
            } else {
                let c = range_cmp_exec(a, za, b, zb, la);
                if c != 0 {
                    res = c;
                    break;
                }
                i = ea;
                j = eb;
            }
        } else {
            let fa = fold_exec(ca);
            let fb = fold_exec(cb);
            if fa < fb {
                res = -1;
                break;
            } else if fa > fb {
                res = 1;
                break;
            }
            i = i + 1;
            j = j + 1;
        }
    }
    res
}

fn lex_le_exec(a: &str, b: &str) -> (r: bool)
    ensures
        r == (lex_cmp(a@, 0, b@, 0) <= 0),
{
    let alen = a.unicode_len();
    let blen = b.unicode_len();
    let mut i: usize = 0;
    loop
        invariant
            i <= alen,
            i <= blen,
            alen == a@.len(),
            blen == b@.len(),
            lex_cmp(a@, 0, b@, 0) == lex_cmp(a@, i as int, b@, i as int),
        decreases alen - i,
    {
        if i == alen {
            return true;
        }
        if i == blen {
            return false;
        }
        let ca = a.get_char(i);
        let cb = b.get_char(i);
        if (ca as u32) < (cb as u32) {
            return true;
        }
        if (ca as u32) > (cb as u32) {
            return false;
        }
        i = i + 1;
    }
}

/// True when `a` precedes `b`, or ties with it, in natural order.
pub fn natural_le(a: &str, b: &str) -> (r: bool)
    ensures
        r == nat_le(a@, b@),
{
    let c = nat_cmp_exec(a, b);
    if c < 0 {
        true
    } else if c > 0 {
        false
    } else {
        lex_le_exec(a, b)
    }
}

proof fn lemma_swap_adjacent_multiset<A>(s: Seq<A>, j: int)
    requires
        1 <= j < s.len(),
    ensures
        s.remove(j).insert(j - 1, s[j]).to_multiset() == s.to_multiset(),
{
    broadcast use vstd::seq_lib::group_to_multiset_ensures;
    broadcast use vstd::multiset::group_multiset_axioms;

    let x = s[j];
    let s2 = s.remove(j);
    let s3 = s2.insert(j - 1, x);
    assert(s3.remove(j - 1) =~= s2);
    assert(s3[j - 1] == x);
    assert(s3.to_multiset().remove(x) == s.to_multiset().remove(x));
    assert(s.to_multiset().count(x) > 0);
    assert(s3.to_multiset().count(x) > 0);
    assert forall|y: A| s3.to_multiset().count(y) == s.to_multiset().count(y) by {
        assert(s3.to_multiset().remove(x).count(y) == s.to_multiset().remove(x).count(y));
    }
    assert(s3.to_multiset() =~= s.to_multiset());
}

fn le_at(v: &Vec<String>, p: usize, q: usize) -> (r: bool)
    requires
        p < v@.len(),
        q < v@.len(),
    ensures
        r == nat_le(v@[p as int]@, v@[q as int]@),
{
    let s1: &String = &v[p];
    let s2: &String = &v[q];
    natural_le(s1.as_str(), s2.as_str())
}

/// Sort names into natural order: the result is a permutation of the input
/// in which every earlier name precedes (or ties with) every later one.
pub fn natural_sort_strings(v: &mut Vec<String>)
    ensures
        final(v)@.len() == old(v)@.len(),
        final(v)@.to_multiset() == old(v)@.to_multiset(),
        sorted_by(final(v)@, |x: String, y: String| string_nat_le(x, y)),
{
    let leq = Ghost(|x: String, y: String| string_nat_le(x, y));
    let n = v.len();
    let mut idx: usize = 1;
    while idx < n
        invariant
            1 <= idx,
            idx <= n || n <= 1,
            n == v@.len(),
            v@.len() == old(v)@.len(),
            v@.to_multiset() == old(v)@.to_multiset(),
            forall|p: int, q: int| 0 <= p < q < idx && q < n
                ==> #[trigger] nat_le(v@[p]@, v@[q]@),
        decreases n - idx,
    {
        let mut j: usize = idx;
        while j > 0 && !le_at(v, j - 1, j)
            invariant
                0 <= j <= idx < n,
                n == v@.len(),
                v@.len() == old(v)@.len(),
                v@.to_multiset() == old(v)@.to_multiset(),
                forall|p: int, q: int| 0 <= p < q <= idx && q != j
                    ==> #[trigger] nat_le(v@[p]@, v@[q]@),
                forall|q: int| j < q <= idx ==> #[trigger] nat_le(v@[j as int]@, v@[q]@),
            decreases j,
        {
            proof {
                lemma_nat_le_total(v@[j - 1]@, v@[j as int]@);
                lemma_swap_adjacent_multiset(v@, j as int);
            }
            let ghost before = v@;
            let x = v.remove(j);
            v.insert(j - 1, x);
            proof {
                assert(v@ =~= before.remove(j as int).insert(j as int - 1, before[j as int]));
                assert forall|p: int, q: int| 0 <= p < q <= idx && q != j - 1
                    implies #[trigger] nat_le(v@[p]@, v@[q]@) by {
                    if q == j {
                        if p == j - 1 {
                        } else {
                            assert(nat_le(before[p]@, before[j - 1]@));
                        }
                    } else {
                        if p == j - 1 {
                            assert(nat_le(before[j as int]@, before[q]@));
                        } else if p == j {
                            assert(nat_le(before[j - 1]@, before[q]@));
                        } else {
                            assert(nat_le(before[p]@, before[q]@));
                        }
                    }
                }
                assert forall|q: int| j - 1 < q <= idx
                    implies #[trigger] nat_le(v@[j - 1]@, v@[q]@) by {
                    if q == j {
                    } else {
                        assert(nat_le(before[j as int]@, before[q]@));
                    }
                }
            }
            j = j - 1;
        }
        proof {
            assert forall|p: int, q: int| 0 <= p < q <= idx
                implies #[trigger] nat_le(v@[p]@, v@[q]@) by {
                if q == j {
                    if j > 0 {
                        assert(nat_le(v@[j - 1]@, v@[j as int]@));
                        if p < j - 1 {
                            assert(nat_le(v@[p]@, v@[j - 1]@));
                            lemma_nat_le_trans(v@[p]@, v@[j - 1]@, v@[j as int]@);
                        }
                    }
                }
            }
        }
        idx = idx + 1;
    }
    proof {
        if n > 1 {
            assert(idx == n);
        }
        assert forall|p: int, q: int| 0 <= p < q < v@.len()
            implies (|x: String, y: String| string_nat_le(x, y))(v@[p], v@[q]) by {
            assert(nat_le(v@[p]@, v@[q]@));
        }
    }
}

/// Natural order is a total ordering on names: reflexive, antisymmetric,
/// transitive, and any two names compare — a strict weak ordering in which
/// no two distinct names are judged both-less-than.
pub proof fn lemma_natural_order_total()
    ensures
        total_ordering(|a: Seq<char>, b: Seq<char>| nat_le(a, b)),
{
    let leq = |a: Seq<char>, b: Seq<char>| nat_le(a, b);
    assert forall|a: Seq<char>| #[trigger] leq(a, a) by {
        lemma_nat_le_refl(a);
    }
    assert forall|a: Seq<char>, b: Seq<char>| #[trigger] leq(a, b) && #[trigger] leq(b, a)
        implies a == b by {
        lemma_nat_le_antisym(a, b);
    }
    assert forall|a: Seq<char>, b: Seq<char>, c: Seq<char>|
        #[trigger] leq(a, b) && #[trigger] leq(b, c) implies leq(a, c) by {
        lemma_nat_le_trans(a, b, c);
    }
    assert forall|a: Seq<char>, b: Seq<char>| #[trigger] leq(a, b) || #[trigger] leq(b, a) by {
        lemma_nat_le_total(a, b);
    }
}

/// Any two name sequences in natural order holding the same names are the
/// same sequence: sorting pins the order completely.
pub proof fn lemma_natural_sorted_unique(x: Seq<Seq<char>>, y: Seq<Seq<char>>)
    requires
        sorted_by(x, |a: Seq<char>, b: Seq<char>| nat_le(a, b)),
        sorted_by(y, |a: Seq<char>, b: Seq<char>| nat_le(a, b)),
        x.to_multiset() == y.to_multiset(),
    ensures
        x == y,
{
    lemma_natural_order_total();
    vstd::seq_lib::lemma_sorted_unique(x, y, |a: Seq<char>, b: Seq<char>| nat_le(a, b));
    assert(x =~= y);
}

} // verus!
