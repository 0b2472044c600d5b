use vstd::prelude::*;
use vstd::string::*;

verus! {

pub open spec fn is_digit(c: char) -> bool {
    '0' <= c && c <= '9'
}

/// The value of a run of decimal digits.
pub open spec fn digits_value(s: Seq<char>) -> nat
    decreases s.len(),
{
    if s.len() == 0 {
        0
    } else {
        digits_value(s.drop_last()) * 10 + (s.last() as nat - '0' as nat) as nat
    }
}

/// `s` without a leading `+`.
pub open spec fn unsigned_body(s: Seq<char>) -> Seq<char> {
    if s.len() > 0 && s[0] == '+' {
        s.drop_first()
    } else {
        s
    }
}

pub open spec fn all_digits(s: Seq<char>) -> bool {
    forall|i: int| 0 <= i < s.len() ==> is_digit(#[trigger] s[i])
}

/// What `str::parse::<u32>` accepts: an optional `+`, then one or more
/// decimal digits whose value fits in 32 bits.
pub open spec fn parse_u32(s: Seq<char>) -> Option<u32> {
    let body = unsigned_body(s);
    if body.len() > 0 && all_digits(body) && digits_value(body) <= u32::MAX {
        Some(digits_value(body) as u32)
    } else {
        None
    }
}

/// The pieces of `s` between dots.
pub open spec fn segments(s: Seq<char>) -> Seq<Seq<char>>
    decreases s.len(),
{
    if s.len() == 0 {
        seq![Seq::empty()]
    } else {
        let r = segments(s.drop_last());
        if s.last() == '.' {
            r.push(Seq::empty())
        } else {
            r.update(r.len() - 1, r.last().push(s.last()))
        }
    }
}

/// The pieces that parse as numbers, in order.
pub open spec fn numbers(parts: Seq<Seq<char>>) -> Seq<u32>
    decreases parts.len(),
{
    if parts.len() == 0 {
        Seq::empty()
    } else {
        let rest = numbers(parts.drop_last());
        match parse_u32(parts.last()) {
            Some(x) => rest.push(x),
            None => rest,
        }
    }
}

pub open spec fn nth_or_zero(s: Seq<u32>, i: int) -> int {
    if 0 <= i < s.len() {
        s[i] as int
    } else {
        0
    }
}

/// Major, minor and patch of a version text: its first three numeric
/// pieces, missing ones read as zero.
pub open spec fn version_of(s: Seq<char>) -> (int, int, int) {
    let n = numbers(segments(s));
    (nth_or_zero(n, 0), nth_or_zero(n, 1), nth_or_zero(n, 2))
}

pub open spec fn newer(a: (int, int, int), b: (int, int, int)) -> bool {
    a.0 > b.0 || (a.0 == b.0 && (a.1 > b.1 || (a.1 == b.1 && a.2 > b.2)))
}

pub open spec fn capped(n: nat) -> nat {
    if n > 0x1_0000_0000 {
        0x1_0000_0000
    } else {
        n
    }
}

fn parse_number(s: &str) -> (r: Option<u32>)
    ensures
        r == parse_u32(s@),
{
    let n = s.unicode_len();
    let mut k: usize = 0;
    if n > 0 && s.get_char(0) == '+' {
        k = 1;
    }
    let ghost body = unsigned_body(s@);
    let start = k;
    if k >= n {
        assert(body.len() == 0);
        return None;
    }
    assert(body =~= s@.subrange(start as int, n as int));
    let mut value: u64 = 0;
    assert(s@.subrange(start as int, start as int) =~= Seq::<char>::empty());
    while k < n
        invariant
            n == s@.len(),
            start <= k <= n,
            start < n,
            body == s@.subrange(start as int, n as int),
            body == unsigned_body(s@),
            forall|i: int| start <= i < k ==> is_digit(#[trigger] s@[i]),
            value as nat == capped(digits_value(s@.subrange(start as int, k as int))),
        decreases n - k,
    {
        let c = s.get_char(k);
        if !('0' <= c && c <= '9') {
            assert(!is_digit(body[k - start]));
            assert(!all_digits(body));
            return None;
        }
        let ghost prev = s@.subrange(start as int, k as int);
        let ghost next = s@.subrange(start as int, k as int + 1);
        proof {
            assert(next.drop_last() =~= prev);
            assert(next.last() == c);
            let dv = digits_value(prev);
            let d = (c as nat - '0' as nat) as nat;
            assert(digits_value(next) == dv * 10 + d);
            assert(dv * 10 + d >= dv) by (nonlinear_arith);
            if dv > 0x1_0000_0000 {
                assert(capped(dv) * 10 + d >= 0x1_0000_0000) by (nonlinear_arith)
                    requires
                        capped(dv) == 0x1_0000_0000,
                ;
            }
        }
        let d = (c as u32 - '0' as u32) as u64;
        value = value * 10 + d;
        if value > 0x1_0000_0000 {
            value = 0x1_0000_0000;
        }
        k = k + 1;
    }
    assert(body =~= s@.subrange(start as int, n as int));
    if value > 0xffff_ffff {
        None
    } else {
        Some(value as u32)
    }
}

fn version_numbers(v: &str) -> (r: Vec<u32>)
    ensures
        r@ == numbers(segments(v@)),
{
    let n = v.unicode_len();
    let mut nums: Vec<u32> = Vec::new();
    let mut start: usize = 0;
    let mut i: usize = 0;
    let ghost mut done: Seq<Seq<char>> = Seq::empty();
    assert(v@.subrange(0, 0) =~= Seq::<char>::empty());
    assert(segments(Seq::<char>::empty()) =~= done.push(Seq::<char>::empty()));
    while i < n
        invariant
            n == v@.len(),
            start <= i <= n,
            segments(v@.subrange(0, i as int)) == done.push(v@.subrange(start as int, i as int)),
            nums@ == numbers(done),
        decreases n - i,
    {
        let c = v.get_char(i);
        proof {
            let pre = v@.subrange(0, i as int + 1);
            assert(pre.drop_last() =~= v@.subrange(0, i as int));
            assert(pre.last() == c);
        }
        if c == '.' {
            let seg = v.substring_char(start, i);
            if let Some(x) = parse_number(seg) {
                nums.push(x);
            }
            proof {
                let d2 = done.push(seg@);
                assert(d2.drop_last() =~= done);
                done = d2;
                assert(v@.subrange(i as int + 1, i as int + 1) =~= Seq::<char>::empty());
            }
            start = i + 1;
        } else {
            proof {
                assert(v@.subrange(start as int, i as int + 1) =~= v@.subrange(start as int, i as int).push(c));
                assert(done.push(v@.subrange(start as int, i as int)).update(done.len() as int, v@.subrange(start as int, i as int + 1))
                    =~= done.push(v@.subrange(start as int, i as int + 1)));
            }
        }
        i = i + 1;
    }
    let seg = v.substring_char(start, n);
    if let Some(x) = parse_number(seg) {
        nums.push(x);
    }
    proof {
        assert(v@.subrange(0, n as int) =~= v@);
        let all = done.push(seg@);
        assert(all.drop_last() =~= done);
    }
    nums
}

fn nth_or_zero_of(s: &Vec<u32>, i: usize) -> (r: u32)
    ensures
        r as int == nth_or_zero(s@, i as int),
{
    if i < s.len() {
        s[i]
    } else {
        0
    }
}

/// Whether version `latest` comes after `current`, comparing major, minor
/// and patch in turn.
pub fn is_newer(latest: &str, current: &str) -> (r: bool)
    ensures
        r == newer(version_of(latest@), version_of(current@)),
{
    let a = version_numbers(latest);
    let b = version_numbers(current);
    let (a0, a1, a2) = (nth_or_zero_of(&a, 0), nth_or_zero_of(&a, 1), nth_or_zero_of(&a, 2));
    let (b0, b1, b2) = (nth_or_zero_of(&b, 0), nth_or_zero_of(&b, 1), nth_or_zero_of(&b, 2));
    a0 > b0 || (a0 == b0 && (a1 > b1 || (a1 == b1 && a2 > b2)))
}

} // verus!
