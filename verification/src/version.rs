use vstd::prelude::*;
use crate::text::chars_of;

verus! {

/// `s` without its leading `v` characters, as `trim_start_matches('v')` gives it.
pub open spec fn strip_v(s: Seq<char>) -> Seq<char>
    decreases s.len(),
{
    if s.len() > 0 && s[0] == 'v' {
        strip_v(s.drop_first())
    } else {
        s
    }
}

/// The pieces of `s` between its `.` characters, as `split('.')` yields
/// them: one more piece than there are dots, empty pieces included.
pub open spec fn split_dots(s: Seq<char>) -> Seq<Seq<char>>
    decreases s.len(),
{
    if s.len() == 0 {
        seq![Seq::empty()]
    } else {
        let front = split_dots(s.drop_last());
        if s.last() == '.' {
            front.push(Seq::empty())
        } else {
            front.update(front.len() - 1, front.last().push(s.last()))
        }
    }
}

pub open spec fn is_digit(c: char) -> bool {
    '0' <= c <= '9'
}

pub open spec fn all_digits(d: Seq<char>) -> bool {
    forall|i: int| 0 <= i < d.len() ==> is_digit(#[trigger] d[i])
}

/// The number that the decimal digits `d` spell.
pub open spec fn digits_value(d: Seq<char>) -> nat
    decreases d.len(),
{
    if d.len() == 0 {
        0
    } else {
        digits_value(d.drop_last()) * 10 + ((d.last() as u32) - ('0' as u32)) as nat
    }
}

/// The digits of a version component: what follows an optional leading
/// `+` when that is one or more ASCII digits, and nothing otherwise.
pub open spec fn component_digits(p: Seq<char>) -> Seq<char> {
    let d = if p.len() > 0 && p[0] == '+' {
        p.drop_first()
    } else {
        p
    };
    if d.len() > 0 && all_digits(d) {
        d
    } else {
        Seq::empty()
    }
}

/// The number a version component counts as: the value of its digits, or 0
/// where it is not a number.
pub open spec fn component_value(p: Seq<char>) -> nat {
    digits_value(component_digits(p))
}

/// The numbers of a version string: its dot-separated components after the
/// leading `v`s, each read as a number.
pub open spec fn version_numbers(v: Seq<char>) -> Seq<nat> {
    split_dots(strip_v(v)).map_values(|p: Seq<char>| component_value(p))
}

/// The `k`-th number, where missing numbers count as 0.
pub open spec fn number_at(ns: Seq<nat>, k: int) -> nat {
    if 0 <= k < ns.len() {
        ns[k]
    } else {
        0
    }
}

/// `a` is greater than `b` in the order that compares numbers position by
/// position, missing positions counting as 0.
pub open spec fn numbers_greater(a: Seq<nat>, b: Seq<nat>) -> bool {
    exists|k: nat|
        #![trigger number_at(a, k as int)]
        number_at(a, k as int) > number_at(b, k as int) && forall|j: nat|
            j < k ==> number_at(a, j as int) == number_at(b, j as int)
}

/// The release `latest` is numerically newer than the release `current`.
pub open spec fn version_newer(latest: Seq<char>, current: Seq<char>) -> bool {
    numbers_greater(version_numbers(latest), version_numbers(current))
}

/// How one number stands to another.
#[derive(Clone, Copy, PartialEq, Eq, Structural, Debug)]
pub enum Rank {
    Below,
    Same,
    Above,
}

/// How `x` stands to `y`.
pub open spec fn rank_of(x: nat, y: nat) -> Rank {
    if x < y {
        Rank::Below
    } else if x == y {
        Rank::Same
    } else {
        Rank::Above
    }
}

/// `d` with zeros in front, `n` digits in all.
pub open spec fn pad_digits(d: Seq<char>, n: nat) -> Seq<char> {
    Seq::new((n - d.len()) as nat, |i: int| '0') + d
}

proof fn lemma_zeros_value(m: nat)
    ensures
        digits_value(Seq::new(m, |i: int| '0')) == 0,
        all_digits(Seq::new(m, |i: int| '0')),
    decreases m,
{
    if m > 0 {
        let z = Seq::new(m, |i: int| '0');
        assert(z.drop_last() =~= Seq::new((m - 1) as nat, |i: int| '0'));
        lemma_zeros_value((m - 1) as nat);
    }
}

/// Leading zeros do not change the value of a digit string.
proof fn lemma_pad_value(d: Seq<char>, n: nat)
    requires
        d.len() <= n,
        all_digits(d),
    ensures
        digits_value(pad_digits(d, n)) == digits_value(d),
        all_digits(pad_digits(d, n)),
        pad_digits(d, n).len() == n,
    decreases d.len(),
{
    let z = Seq::new((n - d.len()) as nat, |i: int| '0');
    lemma_zeros_value((n - d.len()) as nat);
    if d.len() == 0 {
        assert(pad_digits(d, n) =~= z);
    } else {
        let front = d.drop_last();
        assert(all_digits(front));
        lemma_pad_value(front, (n - 1) as nat);
        assert(pad_digits(d, n).drop_last() =~= pad_digits(front, (n - 1) as nat));
        assert(pad_digits(d, n).last() == d.last());
    }
    assert forall|i: int| 0 <= i < pad_digits(d, n).len() implies is_digit(
        #[trigger] pad_digits(d, n)[i],
    ) by {
        if i < z.len() {
            assert(pad_digits(d, n)[i] == z[i]);
        } else {
            assert(pad_digits(d, n)[i] == d[i - z.len()]);
        }
    }
}

proof fn lemma_component_digits_are_digits(p: Seq<char>)
    ensures
        all_digits(component_digits(p)),
{
}

proof fn lemma_split_dots_nonempty(s: Seq<char>)
    ensures
        split_dots(s).len() >= 1,
    decreases s.len(),
{
    if s.len() > 0 {
        lemma_split_dots_nonempty(s.drop_last());
    }
}

/// Where the text that `strip_v` keeps starts in `cs`.
fn strip_v_start(cs: &Vec<char>) -> (i: usize)
    ensures
        i <= cs@.len(),
        cs@.subrange(i as int, cs@.len() as int) == strip_v(cs@),
{
    let n = cs.len();
    let mut i: usize = 0;
    assert(cs@.subrange(0, n as int) =~= cs@);
    while i < n && cs[i] == 'v'
        invariant
            n == cs@.len(),
            i <= n,
            strip_v(cs@) == strip_v(cs@.subrange(i as int, n as int)),
        decreases n - i,
    {
        assert(cs@.subrange(i as int, n as int).drop_first() =~= cs@.subrange(i + 1, n as int));
        i = i + 1;
    }
    i
}

/// The digits of the version component `cs[a..b]`.
fn component_digits_of(cs: &Vec<char>, a: usize, b: usize) -> (r: Vec<char>)
    requires
        a <= b <= cs@.len(),
    ensures
        r@ == component_digits(cs@.subrange(a as int, b as int)),
{
    let ghost p = cs@.subrange(a as int, b as int);
    let start = if a < b && cs[a] == '+' {
        a + 1
    } else {
        a
    };
    let ghost d = cs@.subrange(start as int, b as int);
    assert(d =~= (if p.len() > 0 && p[0] == '+' {
        p.drop_first()
    } else {
        p
    }));
    let mut r: Vec<char> = Vec::new();
    if start == b {
        return r;
    }
    let mut k: usize = start;
    while k < b
        invariant
            start <= k <= b <= cs@.len(),
            d == cs@.subrange(start as int, b as int),
            d.len() > 0,
            p == cs@.subrange(a as int, b as int),
            component_digits(p) == (if all_digits(d) {
                d
            } else {
                Seq::<char>::empty()
            }),
            r@ == d.take(k - start),
            all_digits(r@),
        decreases b - k,
    {
        let c = cs[k];
        if !('0' <= c && c <= '9') {
            assert(d[k - start] == c);
            assert(!all_digits(d));
            let none: Vec<char> = Vec::new();
            assert(none@ =~= Seq::<char>::empty());
            return none;
        }
        r.push(c);
        assert(r@ =~= d.take(k + 1 - start));
        k = k + 1;
    }
    assert(d.take(d.len() as int) =~= d);
    r
}

/// The digits of each component of the version string `s`: its
/// dot-separated components after the leading `v`s, each kept where it is a
/// number (after an optional `+`) and empty where it is not.
pub fn version_components(s: &str) -> (r: Vec<Vec<char>>)
    ensures
        r@.map_values(|d: Vec<char>| d@) == split_dots(strip_v(s@)).map_values(
            |p: Seq<char>| component_digits(p),
        ),
{
    let cs = chars_of(s);
    let n = cs.len();
    let st = strip_v_start(&cs);
    let mut vals: Vec<Vec<char>> = Vec::new();
    let mut seg: usize = st;
    let mut i: usize = st;
    assert(cs@.subrange(st as int, st as int) =~= Seq::<char>::empty());
    while i < n
        invariant
            n == cs@.len(),
            st <= seg <= i <= n,
            split_dots(cs@.subrange(st as int, i as int)).len() >= 1,
            split_dots(cs@.subrange(st as int, i as int)).drop_last().map_values(
                |p: Seq<char>| component_digits(p),
            ) == vals@.map_values(|d: Vec<char>| d@),
            split_dots(cs@.subrange(st as int, i as int)).last() == cs@.subrange(
                seg as int,
                i as int,
            ),
        decreases n - i,
    {
        let ghost t = cs@.subrange(st as int, i as int);
        let ghost t2 = cs@.subrange(st as int, i + 1);
        assert(t2.drop_last() =~= t);
        assert(t2.last() == cs@[i as int]);
        let ghost sp = split_dots(t);
        if cs[i] == '.' {
            let v = component_digits_of(&cs, seg, i);
            assert(v@ == component_digits(sp.last()));
            let ghost before = vals@;
            vals.push(v);
            assert(vals@.map_values(|d: Vec<char>| d@) =~= before.map_values(|d: Vec<char>| d@).push(
                v@,
            ));
            assert(split_dots(t2) == sp.push(Seq::empty()));
            assert(split_dots(t2).drop_last() =~= sp);
            assert(sp =~= sp.drop_last().push(sp.last()));
            assert(sp.map_values(|p: Seq<char>| component_digits(p)) =~= sp.drop_last().map_values(
                |p: Seq<char>| component_digits(p),
            ).push(component_digits(sp.last())));
            seg = i + 1;
            assert(cs@.subrange(seg as int, i + 1) =~= Seq::<char>::empty());
        } else {
            assert(split_dots(t2) == sp.update(sp.len() - 1, sp.last().push(cs@[i as int])));
            assert(split_dots(t2).drop_last() =~= sp.drop_last());
            assert(split_dots(t2).last() =~= cs@.subrange(seg as int, i + 1));
        }
        i = i + 1;
    }
    let v = component_digits_of(&cs, seg, n);
    let ghost sp = split_dots(cs@.subrange(st as int, n as int));
    assert(v@ == component_digits(sp.last()));
    let ghost before = vals@;
    vals.push(v);
    assert(vals@.map_values(|d: Vec<char>| d@) =~= before.map_values(|d: Vec<char>| d@).push(v@));
    assert(sp =~= sp.drop_last().push(sp.last()));
    assert(sp.map_values(|p: Seq<char>| component_digits(p)) =~= sp.drop_last().map_values(
        |p: Seq<char>| component_digits(p),
    ).push(component_digits(sp.last())));
    vals
}

proof fn lemma_take_step(p: Seq<char>, i: int)
    requires
        0 <= i < p.len(),
        all_digits(p),
    ensures
        digits_value(p.take(i + 1)) == digits_value(p.take(i)) * 10 + ((p[i] as u32) - (
        '0' as u32)) as nat,
        (p[i] as u32) - ('0' as u32) <= 9,
{
    assert(p.take(i + 1).drop_last() =~= p.take(i));
    assert(p.take(i + 1).last() == p[i]);
    assert(is_digit(p[i]));
}

proof fn lemma_rank_step(x: nat, y: nat, da: nat, db: nat)
    requires
        da <= 9,
        db <= 9,
    ensures
        rank_of(x, y) == Rank::Above ==> rank_of(x * 10 + da, y * 10 + db) == Rank::Above,
        rank_of(x, y) == Rank::Below ==> rank_of(x * 10 + da, y * 10 + db) == Rank::Below,
        rank_of(x, y) == Rank::Same ==> rank_of(x * 10 + da, y * 10 + db) == rank_of(da, db),
{
}

/// How the number spelled by the digits `a` stands to the one spelled by `b`.
/// The digits are compared from the left, the shorter string padded with
/// zeros in front, so numbers of any size compare correctly.
pub fn rank_digits(a: &Vec<char>, b: &Vec<char>) -> (r: Rank)
    requires
        all_digits(a@),
        all_digits(b@),
    ensures
        r == rank_of(digits_value(a@), digits_value(b@)),
{
    let la = a.len();
    let lb = b.len();
    let n = if la >= lb {
        la
    } else {
        lb
    };
    let ghost pa = pad_digits(a@, n as nat);
    let ghost pb = pad_digits(b@, n as nat);
    proof {
        lemma_pad_value(a@, n as nat);
        lemma_pad_value(b@, n as nat);
        assert(pa.take(0) =~= Seq::<char>::empty());
        assert(pb.take(0) =~= Seq::<char>::empty());
    }
    let mut r = Rank::Same;
    let mut i: usize = 0;
    while i < n
        invariant
            la == a@.len(),
            lb == b@.len(),
            la <= n,
            lb <= n,
            i <= n,
            pa == pad_digits(a@, n as nat),
            pb == pad_digits(b@, n as nat),
            pa.len() == n,
            pb.len() == n,
            all_digits(pa),
            all_digits(pb),
            r == rank_of(digits_value(pa.take(i as int)), digits_value(pb.take(i as int))),
        decreases n - i,
    {
        let ca = if i < n - la {
            '0'
        } else {
            a[i - (n - la)]
        };
        let cb = if i < n - lb {
            '0'
        } else {
            b[i - (n - lb)]
        };
        assert(ca == pa[i as int]);
        assert(cb == pb[i as int]);
        assert(is_digit(pa[i as int]) && is_digit(pb[i as int]));
        let da = (ca as u32) - ('0' as u32);
        let db = (cb as u32) - ('0' as u32);
        proof {
            lemma_take_step(pa, i as int);
            lemma_take_step(pb, i as int);
            lemma_rank_step(
                digits_value(pa.take(i as int)),
                digits_value(pb.take(i as int)),
                da as nat,
                db as nat,
            );
        }
        if r == Rank::Same {
            if da > db {
                r = Rank::Above;
            } else if da < db {
                r = Rank::Below;
            }
        }
        i = i + 1;
    }
    assert(pa.take(n as int) =~= pa);
    assert(pb.take(n as int) =~= pb);
    r
}

/// `s` without its leading `v` characters.
pub fn strip_leading_v(s: &str) -> (r: String)
    ensures
        r@ == strip_v(s@),
{
    let cs = chars_of(s);
    let i = strip_v_start(&cs);
    s.substring_char(i, cs.len()).to_string()
}

/// Returns `true` if `latest` is numerically newer than `current`: their
/// dot-separated components, after any leading `v`, are compared as numbers
/// from the left, a missing or non-numeric component counting as 0.
pub fn is_version_newer(latest: &str, current: &str) -> (r: bool)
    ensures
        r == version_newer(latest@, current@),
{
    let l = version_components(latest);
    let c = version_components(current);
    let ghost ln = version_numbers(latest@);
    let ghost cn = version_numbers(current@);
    let ghost lsp = split_dots(strip_v(latest@));
    let ghost csp = split_dots(strip_v(current@));
    assert(l@.len() == lsp.len() && c@.len() == csp.len()) by {
        assert(l@.map_values(|d: Vec<char>| d@).len() == l@.len());
        assert(c@.map_values(|d: Vec<char>| d@).len() == c@.len());
    }
    let n = if l.len() >= c.len() {
        l.len()
    } else {
        c.len()
    };
    let empty: Vec<char> = Vec::new();
    let mut i: usize = 0;
    while i < n
        invariant
            ln == version_numbers(latest@),
            cn == version_numbers(current@),
            lsp == split_dots(strip_v(latest@)),
            csp == split_dots(strip_v(current@)),
            l@.map_values(|d: Vec<char>| d@) == lsp.map_values(|p: Seq<char>| component_digits(p)),
            c@.map_values(|d: Vec<char>| d@) == csp.map_values(|p: Seq<char>| component_digits(p)),
            l@.len() == lsp.len(),
            c@.len() == csp.len(),
            empty@ == Seq::<char>::empty(),
            n >= l@.len(),
            n >= c@.len(),
            i <= n,
            forall|j: nat| j < i ==> number_at(ln, j as int) == number_at(cn, j as int),
        decreases n - i,
    {
        let ld = if i < l.len() {
            &l[i]
        } else {
            &empty
        };
        let cd = if i < c.len() {
            &c[i]
        } else {
            &empty
        };
        proof {
            if i < l.len() {
                assert(l@.map_values(|d: Vec<char>| d@)[i as int] == ld@);
                assert(lsp.map_values(|p: Seq<char>| component_digits(p))[i as int]
                    == component_digits(lsp[i as int]));
                lemma_component_digits_are_digits(lsp[i as int]);
                assert(ln[i as int] == component_value(lsp[i as int]));
            }
            if i < c.len() {
                assert(c@.map_values(|d: Vec<char>| d@)[i as int] == cd@);
                assert(csp.map_values(|p: Seq<char>| component_digits(p))[i as int]
                    == component_digits(csp[i as int]));
                lemma_component_digits_are_digits(csp[i as int]);
                assert(cn[i as int] == component_value(csp[i as int]));
            }
        }
        assert(digits_value(ld@) == number_at(ln, i as int));
        assert(digits_value(cd@) == number_at(cn, i as int));
        let rank = rank_digits(ld, cd);
        if rank == Rank::Above {
            let ghost k = i as nat;
            assert(number_at(ln, k as int) > number_at(cn, k as int));
            return true;
        }
        if rank == Rank::Below {
            assert(!numbers_greater(ln, cn)) by {
                if numbers_greater(ln, cn) {
                    let k = choose|k: nat|
                        #![trigger number_at(ln, k as int)]
                        number_at(ln, k as int) > number_at(cn, k as int) && forall|j: nat|
                            j < k ==> number_at(ln, j as int) == number_at(cn, j as int);
                    if k > i {
                        assert(number_at(ln, i as int) == number_at(cn, i as int));
                    }
                }
            }
            return false;
        }
        i = i + 1;
    }
    assert(!numbers_greater(ln, cn)) by {
        if numbers_greater(ln, cn) {
            let k = choose|k: nat|
                #![trigger number_at(ln, k as int)]
                number_at(ln, k as int) > number_at(cn, k as int) && forall|j: nat|
                    j < k ==> number_at(ln, j as int) == number_at(cn, j as int);
            assert(k >= n);
        }
    }
    false
}

/// No release is newer than itself.
pub proof fn lemma_version_newer_irreflexive(v: Seq<char>)
    ensures
        !version_newer(v, v),
{
}

/// Of two releases, at most one is newer than the other.
pub proof fn lemma_version_newer_asymmetric(a: Seq<char>, b: Seq<char>)
    ensures
        version_newer(a, b) ==> !version_newer(b, a),
{
    let an = version_numbers(a);
    let bn = version_numbers(b);
    if version_newer(a, b) && version_newer(b, a) {
        let k1 = choose|k: nat|
            #![trigger number_at(an, k as int)]
            number_at(an, k as int) > number_at(bn, k as int) && forall|j: nat|
                j < k ==> number_at(an, j as int) == number_at(bn, j as int);
        let k2 = choose|k: nat|
            #![trigger number_at(bn, k as int)]
            number_at(bn, k as int) > number_at(an, k as int) && forall|j: nat|
                j < k ==> number_at(bn, j as int) == number_at(an, j as int);
        if k1 < k2 {
            assert(number_at(bn, k1 as int) == number_at(an, k1 as int));
        } else if k2 < k1 {
            assert(number_at(an, k2 as int) == number_at(bn, k2 as int));
        }
    }
}

/// A release newer than a second one, which is newer than a third, is
/// newer than the third.
pub proof fn lemma_version_newer_transitive(a: Seq<char>, b: Seq<char>, c: Seq<char>)
    requires
        version_newer(a, b),
        version_newer(b, c),
    ensures
        version_newer(a, c),
{
    let an = version_numbers(a);
    let bn = version_numbers(b);
    let cn = version_numbers(c);
    let k1 = choose|k: nat|
        #![trigger number_at(an, k as int)]
        number_at(an, k as int) > number_at(bn, k as int) && forall|j: nat|
            j < k ==> number_at(an, j as int) == number_at(bn, j as int);
    let k2 = choose|k: nat|
        #![trigger number_at(bn, k as int)]
        number_at(bn, k as int) > number_at(cn, k as int) && forall|j: nat|
            j < k ==> number_at(bn, j as int) == number_at(cn, j as int);
    let k = if k1 <= k2 {
        k1
    } else {
        k2
    };
    assert(number_at(an, k as int) > number_at(cn, k as int));
    assert forall|j: nat| j < k implies number_at(an, j as int) == number_at(cn, j as int) by {
        assert(number_at(an, j as int) == number_at(bn, j as int));
        assert(number_at(bn, j as int) == number_at(cn, j as int));
    }
}

/// A leading `v` makes no difference to which release is newer.
pub proof fn lemma_version_newer_ignores_v_prefix(a: Seq<char>, b: Seq<char>)
    ensures
        version_newer(seq!['v'] + a, b) == version_newer(a, b),
        version_newer(a, seq!['v'] + b) == version_newer(a, b),
{
    assert((seq!['v'] + a).drop_first() =~= a);
    assert((seq!['v'] + b).drop_first() =~= b);
    assert(strip_v(seq!['v'] + a) == strip_v(a));
    assert(strip_v(seq!['v'] + b) == strip_v(b));
}

proof fn lemma_strip_v_append(a: Seq<char>, t: Seq<char>)
    requires
        t.len() > 0,
        t[0] != 'v',
    ensures
        strip_v(a + t) == strip_v(a) + t,
    decreases a.len(),
{
    if a.len() > 0 && a[0] == 'v' {
        assert((a + t).drop_first() =~= a.drop_first() + t);
        lemma_strip_v_append(a.drop_first(), t);
    } else if a.len() == 0 {
        assert(a + t =~= t);
        assert(strip_v(a) + t =~= t);
    }
}

proof fn lemma_same_numbers_same_order(a1: Seq<nat>, a2: Seq<nat>, b: Seq<nat>)
    requires
        forall|k: int| #[trigger] number_at(a1, k) == number_at(a2, k),
    ensures
        numbers_greater(a1, b) == numbers_greater(a2, b),
        numbers_greater(b, a1) == numbers_greater(b, a2),
{
    if numbers_greater(a1, b) {
        let k = choose|k: nat|
            #![trigger number_at(a1, k as int)]
            number_at(a1, k as int) > number_at(b, k as int) && forall|j: nat|
                j < k ==> number_at(a1, j as int) == number_at(b, j as int);
        assert(number_at(a2, k as int) > number_at(b, k as int));
        assert forall|j: nat| j < k implies number_at(a2, j as int) == number_at(b, j as int) by {
            assert(number_at(a1, j as int) == number_at(b, j as int));
        }
    }
    if numbers_greater(a2, b) {
        let k = choose|k: nat|
            #![trigger number_at(a2, k as int)]
            number_at(a2, k as int) > number_at(b, k as int) && forall|j: nat|
                j < k ==> number_at(a2, j as int) == number_at(b, j as int);
        assert(number_at(a1, k as int) > number_at(b, k as int));
        assert forall|j: nat| j < k implies number_at(a1, j as int) == number_at(b, j as int) by {
            assert(number_at(a2, j as int) == number_at(b, j as int));
        }
    }
    if numbers_greater(b, a1) {
        let k = choose|k: nat|
            #![trigger number_at(b, k as int)]
            number_at(b, k as int) > number_at(a1, k as int) && forall|j: nat|
                j < k ==> number_at(b, j as int) == number_at(a1, j as int);
        assert(number_at(b, k as int) > number_at(a2, k as int));
        assert forall|j: nat| j < k implies number_at(b, j as int) == number_at(a2, j as int) by {
            assert(number_at(b, j as int) == number_at(a1, j as int));
        }
    }
    if numbers_greater(b, a2) {
        let k = choose|k: nat|
            #![trigger number_at(b, k as int)]
            number_at(b, k as int) > number_at(a2, k as int) && forall|j: nat|
                j < k ==> number_at(b, j as int) == number_at(a2, j as int);
        assert(number_at(b, k as int) > number_at(a1, k as int));
        assert forall|j: nat| j < k implies number_at(b, j as int) == number_at(a1, j as int) by {
            assert(number_at(b, j as int) == number_at(a2, j as int));
        }
    }
}

/// A trailing `.0` makes no difference to which release is newer: missing
/// components count as 0, so `1.2` and `1.2.0` are the same release.
pub proof fn lemma_version_newer_ignores_trailing_zero(a: Seq<char>, b: Seq<char>)
    ensures
        version_newer(a + seq!['.', '0'], b) == version_newer(a, b),
        version_newer(b, a + seq!['.', '0']) == version_newer(b, a),
{
    let t = seq!['.', '0'];
    lemma_strip_v_append(a, t);
    let x = strip_v(a);
    let xd = x + seq!['.'];
    assert((x + t).drop_last() =~= xd);
    assert(xd.drop_last() =~= x);
    assert(split_dots(xd) == split_dots(x).push(Seq::empty()));
    lemma_split_dots_nonempty(x);
    let sp = split_dots(x + t);
    assert(sp =~= split_dots(x).push(seq!['0']));
    assert(seq!['0'].drop_last() =~= Seq::<char>::empty());
    assert(seq!['0'].last() == '0');
    assert(digits_value(seq!['0']) == digits_value(Seq::<char>::empty()) * 10 + (('0' as u32) - (
    '0' as u32)) as nat);
    assert(all_digits(seq!['0']));
    assert(component_value(seq!['0']) == 0);
    let na = version_numbers(a);
    let nat_ = version_numbers(a + t);
    assert(nat_ =~= na.push(0));
    assert forall|k: int| #[trigger] number_at(nat_, k) == number_at(na, k) by {
        if 0 <= k < na.len() {
            assert(nat_[k] == na[k]);
        }
    }
    lemma_same_numbers_same_order(nat_, na, version_numbers(b));
}

proof fn lemma_split_dots_append_plain(z: Seq<char>, x: Seq<char>)
    requires
        forall|k: int| 0 <= k < x.len() ==> x[k] != '.',
    ensures
        split_dots(z + x) == split_dots(z).update(
            split_dots(z).len() - 1,
            split_dots(z).last() + x,
        ),
    decreases x.len(),
{
    lemma_split_dots_nonempty(z);
    if x.len() == 0 {
        assert(z + x =~= z);
        assert(split_dots(z).last() + x =~= split_dots(z).last());
        assert(split_dots(z).update(split_dots(z).len() - 1, split_dots(z).last())
            =~= split_dots(z));
    } else {
        let x0 = x.drop_last();
        lemma_split_dots_append_plain(z, x0);
        assert((z + x).drop_last() =~= z + x0);
        assert((z + x).last() == x.last());
        let sp = split_dots(z + x0);
        assert(split_dots(z + x) == sp.update(sp.len() - 1, sp.last().push(x.last())));
        let last_ix = split_dots(z).len();
        assert(sp.len() == last_ix);
        assert(sp.last() == split_dots(z).last() + x0);
        assert((split_dots(z).last() + x0).push(x.last()) =~= split_dots(z).last() + x);
        assert(split_dots(z + x) =~= split_dots(z).update(
            split_dots(z).len() - 1,
            split_dots(z).last() + x,
        ));
    }
}

proof fn lemma_digits_component(x: Seq<char>)
    requires
        x.len() > 0,
        all_digits(x),
    ensures
        component_value(x) == digits_value(x),
        forall|k: int| 0 <= k < x.len() ==> x[k] != '.' && x[k] != 'v',
{
    assert(is_digit(x[0]));
}

/// A version whose last component is the number `x` follows `a`: reading
/// `a.x` gives the numbers of `a` followed by `x`.
proof fn lemma_numbers_of_dotted(a: Seq<char>, x: Seq<char>)
    requires
        x.len() > 0,
        all_digits(x),
    ensures
        version_numbers(a + seq!['.'] + x) == version_numbers(a).push(digits_value(x)),
{
    lemma_digits_component(x);
    let t = seq!['.'] + x;
    assert(a + seq!['.'] + x =~= a + t);
    lemma_strip_v_append(a, t);
    let z = strip_v(a);
    assert(z + t =~= (z + seq!['.']) + x);
    lemma_split_dots_append_plain(z + seq!['.'], x);
    let zd = z + seq!['.'];
    assert(zd.drop_last() =~= z);
    assert(split_dots(zd) == split_dots(z).push(Seq::empty()));
    assert(Seq::<char>::empty() + x =~= x);
    let sp = split_dots(z + t);
    assert(sp =~= split_dots(z).push(x));
    let f = |p: Seq<char>| component_value(p);
    assert(sp.map_values(f) =~= split_dots(z).map_values(f).push(component_value(x)));
}

/// Between two releases that agree up to their last component, where that
/// component is a number, the one with the greater number is newer, however
/// many digits the numbers have.
pub proof fn lemma_version_newer_compares_last_component(a: Seq<char>, x: Seq<char>, y: Seq<char>)
    requires
        x.len() > 0,
        y.len() > 0,
        all_digits(x),
        all_digits(y),
    ensures
        version_newer(a + seq!['.'] + x, a + seq!['.'] + y) <==> digits_value(x) > digits_value(
            y,
        ),
{
    lemma_numbers_of_dotted(a, x);
    lemma_numbers_of_dotted(a, y);
    let na = version_numbers(a);
    let nx = na.push(digits_value(x));
    let ny = na.push(digits_value(y));
    let m = na.len();
    if digits_value(x) > digits_value(y) {
        assert forall|j: nat| j < m implies number_at(nx, j as int) == number_at(ny, j as int) by {
            assert(nx[j as int] == na[j as int] && ny[j as int] == na[j as int]);
        }
        assert(number_at(nx, m as int) > number_at(ny, m as int));
    }
    if numbers_greater(nx, ny) {
        let k = choose|k: nat|
            #![trigger number_at(nx, k as int)]
            number_at(nx, k as int) > number_at(ny, k as int) && forall|j: nat|
                j < k ==> number_at(nx, j as int) == number_at(ny, j as int);
        if k < m {
            assert(nx[k as int] == na[k as int] && ny[k as int] == na[k as int]);
        }
        assert(k == m);
    }
}

/// A release that is a single number is newer than another exactly when
/// its number is greater, however many digits the numbers have.
pub proof fn lemma_version_newer_compares_numbers(x: Seq<char>, y: Seq<char>)
    requires
        x.len() > 0,
        y.len() > 0,
        all_digits(x),
        all_digits(y),
    ensures
        version_newer(x, y) <==> digits_value(x) > digits_value(y),
{
    lemma_digits_component(x);
    lemma_digits_component(y);
    assert(strip_v(x) == x);
    assert(strip_v(y) == y);
    lemma_split_dots_append_plain(Seq::empty(), x);
    lemma_split_dots_append_plain(Seq::empty(), y);
    assert(Seq::<char>::empty() + x =~= x);
    assert(Seq::<char>::empty() + y =~= y);
    assert(split_dots(x) =~= seq![x]);
    assert(split_dots(y) =~= seq![y]);
    let nx = version_numbers(x);
    let ny = version_numbers(y);
    assert(nx =~= seq![digits_value(x)]);
    assert(ny =~= seq![digits_value(y)]);
    if digits_value(x) > digits_value(y) {
        assert(number_at(nx, 0) > number_at(ny, 0));
    }
    if numbers_greater(nx, ny) {
        let k = choose|k: nat|
            #![trigger number_at(nx, k as int)]
            number_at(nx, k as int) > number_at(ny, k as int) && forall|j: nat|
                j < k ==> number_at(nx, j as int) == number_at(ny, j as int);
        assert(k == 0);
    }
}

} // verus!
