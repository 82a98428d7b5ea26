//! JSON values as the request decoder sees them, and number and hex-string
//! parsing over their characters.
use vstd::prelude::*;
use vstd::string::StrSliceExecFns;

verus! {

/// A JSON value. Numbers other than non-negative integers that fit in 64 bits
/// are kept only as `OtherNumber`.
#[derive(Debug)]
pub enum Json {
    Null,
    Bool(bool),
    Number(u64),
    OtherNumber,
    Str(String),
    Array(Vec<Json>),
    Object(Vec<(String, Json)>),
}

pub open spec fn hex_digit(c: char) -> Option<nat> {
    if '0' <= c && c <= '9' {
        Some((c as nat - '0' as nat) as nat)
    } else if 'a' <= c && c <= 'f' {
        Some((c as nat - 'a' as nat + 10) as nat)
    } else if 'A' <= c && c <= 'F' {
        Some((c as nat - 'A' as nat + 10) as nat)
    } else {
        None
    }
}

pub open spec fn dec_digit(c: char) -> Option<nat> {
    if '0' <= c && c <= '9' {
        Some((c as nat - '0' as nat) as nat)
    } else {
        None
    }
}

/// Value of a string of digits in `base`, or `None` if a character is not a digit.
pub open spec fn digits_value(s: Seq<char>, base: nat) -> Option<nat>
    decreases s.len(),
{
    if s.len() == 0 {
        Some(0)
    } else {
        let d = if base == 16 {
            hex_digit(s.last())
        } else {
            dec_digit(s.last())
        };
        match (digits_value(s.drop_last(), base), d) {
            (Some(v), Some(x)) => Some(v * base + x),
            _ => None,
        }
    }
}

/// A non-empty digit string whose value is at most `max`.
pub open spec fn parse_digits(s: Seq<char>, base: nat, max: nat) -> Option<nat> {
    if s.len() == 0 {
        None
    } else {
        match digits_value(s, base) {
            Some(v) => if v <= max {
                Some(v)
            } else {
                None
            },
            None => None,
        }
    }
}

pub open spec fn has_hex_prefix(s: Seq<char>) -> bool {
    s.len() >= 2 && s[0] == '0' && s[1] == 'x'
}

/// Value of the hex digits after a `0x` prefix.
pub open spec fn hex_number(s: Seq<char>, max: nat) -> Option<nat> {
    parse_digits(s.subrange(2, s.len() as int), 16, max)
}

/// Bytes written as `0x` followed by exactly two hex digits per byte.
pub open spec fn fixed_hex(s: Seq<char>, n: nat) -> Option<Seq<u8>> {
    if has_hex_prefix(s) && s.len() == 2 + 2 * n && (forall|i: int|
        2 <= i < s.len() ==> (#[trigger] hex_digit(s[i])) is Some) {
        Some(
            Seq::new(
                n,
                |k: int|
                    (hex_digit(s[2 + 2 * k]).unwrap() * 16 + hex_digit(s[3 + 2 * k]).unwrap()) as u8,
            ),
        )
    } else {
        None
    }
}

/// `0x` and one to 64 hex digits, widened with leading zero digits to 64.
pub open spec fn widened_quantity(s: Seq<char>) -> Seq<char> {
    seq!['0', 'x'] + Seq::new((66 - s.len()) as nat, |i: int| '0') + s.subrange(2, s.len() as int)
}

/// The 32 big-endian bytes of a number written as `0x` and one to 64 hex digits.
pub open spec fn quantity_hex(s: Seq<char>) -> Option<Seq<u8>> {
    if has_hex_prefix(s) && 3 <= s.len() <= 66 {
        fixed_hex(widened_quantity(s), 32)
    } else {
        None
    }
}

/// The characters of a string.
pub fn chars_of(s: &str) -> (r: Vec<char>)
    ensures
        r@ == s@,
{
    let n = s.unicode_len();
    let mut r: Vec<char> = Vec::new();
    let mut i: usize = 0;
    while i < n
        invariant
            n == s@.len(),
            i <= n,
            r@ == s@.subrange(0, i as int),
        decreases n - i,
    {
        r.push(s.get_char(i));
        i = i + 1;
        proof {
            assert(r@ =~= s@.subrange(0, i as int));
        }
    }
    proof {
        assert(r@ =~= s@);
    }
    r
}

pub fn chars_eq(a: &Vec<char>, b: &Vec<char>) -> (r: bool)
    ensures
        r == (a@ == b@),
{
    if a.len() != b.len() {
        return false;
    }
    let mut i: usize = 0;
    while i < a.len()
        invariant
            a@.len() == b@.len(),
            i <= a@.len(),
            forall|k: int| 0 <= k < i ==> a@[k] == b@[k],
        decreases a@.len() - i,
    {
        if a[i] != b[i] {
            return false;
        }
        i = i + 1;
    }
    proof {
        assert(a@ =~= b@);
    }
    true
}

/// Whether `s` holds exactly the characters of `lit`.
pub fn text_is(s: &Vec<char>, lit: Vec<char>) -> (r: bool)
    ensures
        r == (s@ == lit@),
{
    chars_eq(s, &lit)
}

pub fn hex_digit_exec(c: char) -> (r: Option<u8>)
    ensures
        match hex_digit(c) {
            Some(v) => r == Some(v as u8),
            None => r is None,
        },
        r matches Some(v) ==> v < 16,
{
    if '0' <= c && c <= '9' {
        Some(((c as u32) - ('0' as u32)) as u8)
    } else if 'a' <= c && c <= 'f' {
        Some(((c as u32) - ('a' as u32) + 10) as u8)
    } else if 'A' <= c && c <= 'F' {
        Some(((c as u32) - ('A' as u32) + 10) as u8)
    } else {
        None
    }
}

/// Parses the digits `s[from..]` in base 16 or 10 into a value at most `max`.
pub fn parse_digits_exec(s: &Vec<char>, from: usize, base: u64, max: u64) -> (r: Option<u64>)
    requires
        from <= s@.len(),
        base == 16 || base == 10,
    ensures
        r == (match parse_digits(s@.subrange(from as int, s@.len() as int), base as nat, max as nat) {
            Some(v) => Some(v as u64),
            None => None::<u64>,
        }),
{
    let ghost t = s@.subrange(from as int, s@.len() as int);
    if from == s.len() {
        return None;
    }
    let mut v: u64 = 0;
    let mut i: usize = from;
    while i < s.len()
        invariant
            from <= i <= s@.len(),
            t == s@.subrange(from as int, s@.len() as int),
            base == 16 || base == 10,
            digits_value(s@.subrange(from as int, i as int), base as nat) == Some(v as nat),
            v <= max,
        decreases s@.len() - i,
    {
        let ghost pre = s@.subrange(from as int, i as int);
        let ghost next = s@.subrange(from as int, i + 1);
        proof {
            assert(next.drop_last() =~= pre);
            assert(next.last() == s@[i as int]);
        }
        let c = s[i];
        let d: Option<u8> = if base == 16 {
            hex_digit_exec(c)
        } else {
            if '0' <= c && c <= '9' {
                Some(((c as u32) - ('0' as u32)) as u8)
            } else {
                None
            }
        };
        match d {
            None => {
                proof {
                    lemma_digits_none(t, base as nat, (i - from) as int);
                    assert(t.subrange(0, (i - from) + 1) =~= next);
                }
                return None;
            },
            Some(x) => {
                if (x as u64) > max || v > (max - x as u64) / base {
                    proof {
                        let nv: int = v as int * base as int + x as int;
                        if (x as u64) <= max {
                            assert(nv > max as int) by (nonlinear_arith)
                                requires
                                    (v as int) > ((max as int) - (x as int)) / (base as int),
                                    base > 0,
                                    nv == v as int * base as int + x as int,
                            ;
                        }
                        assert(t.subrange(0, (i - from) + 1) =~= next);
                        lemma_digits_grow(t, base as nat, (i - from) + 1);
                    }
                    return None;
                }
                proof {
                    assert((v as int) * (base as int) + (x as int) <= max as int) by (nonlinear_arith)
                        requires
                            (v as int) <= ((max as int) - (x as int)) / (base as int),
                            base > 0,
                    ;
                }
                v = v * base + x as u64;
                i = i + 1;
            },
        }
    }
    proof {
        assert(s@.subrange(from as int, i as int) =~= t);
    }
    Some(v)
}

/// A prefix with a bad digit makes the whole string fail.
pub proof fn lemma_digits_none(t: Seq<char>, base: nat, k: int)
    requires
        0 <= k < t.len(),
        (if base == 16 {
            hex_digit(t[k])
        } else {
            dec_digit(t[k])
        }) is None,
    ensures
        parse_digits(t, base, 0) is None,
        forall|m: nat| #[trigger] parse_digits(t, base, m) is None,
{
    lemma_digits_none_prefix(t, base, k, t.len() as int);
    assert(t.subrange(0, t.len() as int) =~= t);
}

pub proof fn lemma_digits_none_prefix(t: Seq<char>, base: nat, k: int, j: int)
    requires
        0 <= k < j <= t.len(),
        (if base == 16 {
            hex_digit(t[k])
        } else {
            dec_digit(t[k])
        }) is None,
    ensures
        digits_value(t.subrange(0, j), base) is None,
    decreases j,
{
    let p = t.subrange(0, j);
    assert(p.drop_last() =~= t.subrange(0, j - 1));
    if k < j - 1 {
        lemma_digits_none_prefix(t, base, k, j - 1);
    }
    if j == t.len() {
        assert(p =~= t);
    }
}

/// Values only grow as digits are added.
pub proof fn lemma_digits_grow(t: Seq<char>, base: nat, j: int)
    requires
        0 <= j <= t.len(),
        base >= 1,
    ensures
        digits_value(t, base) is Some ==> digits_value(t.subrange(0, j), base) is Some,
        digits_value(t.subrange(0, j), base) matches Some(a) ==> (digits_value(t, base) matches Some(
            b,
        ) ==> a <= b),
    decreases t.len() - j,
{
    if j < t.len() {
        lemma_digits_grow(t, base, j + 1);
        let p = t.subrange(0, j + 1);
        assert(p.drop_last() =~= t.subrange(0, j));
        if let Some(a) = digits_value(t.subrange(0, j), base) {
            if let Some(b) = digits_value(p, base) {
                assert(a <= b) by (nonlinear_arith)
                    requires
                        b >= a * base,
                        base >= 1,
                ;
            }
        }
    } else {
        assert(t.subrange(0, j) =~= t);
    }
}

/// Parses `0x` followed by exactly two hex digits per byte, `n` bytes.
pub fn parse_fixed_hex(s: &Vec<char>, n: usize) -> (r: Option<Vec<u8>>)
    ensures
        r matches Some(b) ==> fixed_hex(s@, n as nat) == Some(b@),
        r is None ==> fixed_hex(s@, n as nat) is None,
{
    if s.len() < 2 || s[0] != '0' || s[1] != 'x' || (s.len() - 2) / 2 != n || (s.len() - 2) % 2
        != 0 {
        return None;
    }
    let mut out: Vec<u8> = Vec::new();
    let mut k: usize = 0;
    while k < n
        invariant
            has_hex_prefix(s@),
            s@.len() == 2 + 2 * n,
            s@.len() <= usize::MAX,
            k <= n,
            out@.len() == k,
            forall|i: int| 2 <= i < 2 + 2 * k ==> (#[trigger] hex_digit(s@[i])) is Some,
            forall|m: int|
                0 <= m < k ==> #[trigger] out@[m] == (hex_digit(s@[2 + 2 * m]).unwrap() * 16
                    + hex_digit(s@[3 + 2 * m]).unwrap()) as u8,
        decreases n - k,
    {
        let hi = hex_digit_exec(s[2 + 2 * k]);
        let lo = hex_digit_exec(s[3 + 2 * k]);
        match (hi, lo) {
            (Some(h), Some(l)) => {
                out.push(h * 16 + l);
            },
            _ => {
                proof {
                    let bad: int = if hi is None {
                        2 + 2 * k
                    } else {
                        3 + 2 * k
                    };
                    assert(hex_digit(s@[bad]) is None);
                }
                return None;
            },
        }
        k = k + 1;
    }
    proof {
        assert(out@ =~= fixed_hex(s@, n as nat).unwrap());
    }
    Some(out)
}

/// Parses a number written as `0x` and one to 64 hex digits into 32
/// big-endian bytes.
pub fn parse_quantity_hex(s: &Vec<char>) -> (r: Option<Vec<u8>>)
    ensures
        r matches Some(b) ==> quantity_hex(s@) == Some(b@),
        r is None ==> quantity_hex(s@) is None,
{
    if s.len() < 3 || s.len() > 66 || s[0] != '0' || s[1] != 'x' {
        return None;
    }
    let mut w: Vec<char> = vec!['0', 'x'];
    while w.len() < 68 - s.len()
        invariant
            3 <= s@.len() <= 66,
            2 <= w@.len() <= 68 - s@.len(),
            w@[0] == '0' && w@[1] == 'x',
            forall|k: int| 2 <= k < w@.len() ==> w@[k] == '0',
        decreases 68 - s@.len() - w@.len(),
    {
        w.push('0');
    }
    let mut i: usize = 2;
    while i < s.len()
        invariant
            3 <= s@.len() <= 66,
            2 <= i <= s@.len(),
            w@ == seq!['0', 'x'] + Seq::new((66 - s@.len()) as nat, |k: int| '0') + s@.subrange(2, i as int),
        decreases s@.len() - i,
    {
        proof {
            if i == 2 {
                assert(s@.subrange(2, 2) =~= Seq::<char>::empty());
            }
        }
        w.push(s[i]);
        i = i + 1;
        proof {
            assert(w@ =~= seq!['0', 'x'] + Seq::new((66 - s@.len()) as nat, |k: int| '0') + s@.subrange(2, i as int));
        }
    }
    proof {
        assert(w@ =~= widened_quantity(s@));
    }
    parse_fixed_hex(&w, 32)
}

} // verus!
