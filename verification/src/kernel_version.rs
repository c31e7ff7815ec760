//! Parsing and comparison of Linux kernel release versions.
//!
//! A release string such as `5.10.50-38.132.amzn2int.x86_64` yields the
//! version `5.10.50`: the first three dot-separated components, with the
//! third truncated at its first non-digit character.  Obtaining the release
//! string from the running kernel is a system call and lives with the
//! caller; this module holds the parsing and the value type.

use vstd::prelude::*;
use vstd::string::StringExecFns;
use vstd::std_specs::iter::IteratorSpec;

verus! {

/// Describes the errors which may occur while obtaining or parsing a kernel
/// version.
#[derive(Clone, Copy, Debug, PartialEq, Eq, Structural)]
pub enum KernelVersionError {
    /// The system call asking the kernel for its release string failed.
    Uname,
    /// The release bytes were not valid UTF-8.
    InvalidUtf8,
    /// The release string does not hold three dot-separated components.
    InvalidFormat,
    /// A version component is not an unsigned 16-bit decimal number.
    InvalidInt,
}

/// A kernel version, ordered by major, then minor, then patch number.
#[derive(Debug, PartialEq, Eq, PartialOrd)]
pub struct KernelVersion {
    major: u16,
    minor: u16,
    patch: u16,
}

/// Whether `c` is an ASCII decimal digit.
pub open spec fn spec_is_digit(c: char) -> bool {
    48 <= c as u32 <= 57
}

/// The index of the first `'.'` in `s` at or after `from`, or the length of
/// `s` if there is none.
pub open spec fn spec_find_dot(s: Seq<char>, from: int) -> int
    decreases s.len() - from,
{
    if from < 0 || from >= s.len() {
        s.len() as int
    } else if s[from] == '.' {
        from
    } else {
        spec_find_dot(s, from + 1)
    }
}

/// The index of the first non-digit in `s` within `[from, to)`, or `to` if
/// all of that range is digits.
pub open spec fn spec_digit_end(s: Seq<char>, from: int, to: int) -> int
    decreases to - from,
{
    if from < 0 || from >= to || from >= s.len() {
        to
    } else if !spec_is_digit(s[from]) {
        from
    } else {
        spec_digit_end(s, from + 1, to)
    }
}

/// The decimal value of a digit string, most significant digit first.
pub open spec fn spec_dec_value(s: Seq<char>) -> int
    decreases s.len(),
{
    if s.len() == 0 {
        0
    } else {
        spec_dec_value(s.drop_last()) * 10 + (s.last() as u32 - 48)
    }
}

/// The 16-bit number a version component stands for: defined exactly when
/// the component is nonempty, all digits, and within 16 bits.
pub open spec fn spec_token_u16(s: Seq<char>) -> Option<u16> {
    if s.len() > 0 && (forall|i: int| 0 <= i < s.len() ==> spec_is_digit(s[i]))
        && spec_dec_value(s) <= 0xffff {
        Some(spec_dec_value(s) as u16)
    } else {
        None
    }
}

/// What parsing a release string `s` yields: an error when there are fewer
/// than three dot-separated components, an error when the major, minor, or
/// digit-prefix of the patch component is not a 16-bit number, and the three
/// numbers otherwise.
pub open spec fn spec_parse_release(s: Seq<char>) -> Result<(u16, u16, u16), KernelVersionError> {
    let i = spec_find_dot(s, 0);
    let j = spec_find_dot(s, i + 1);
    let k = spec_find_dot(s, j + 1);
    let pe = spec_digit_end(s, j + 1, k);
    if i == s.len() || j == s.len() {
        Result::<(u16, u16, u16), KernelVersionError>::Err(KernelVersionError::InvalidFormat)
    } else {
        match (spec_token_u16(s.subrange(0, i)), spec_token_u16(s.subrange(i + 1, j)),
        spec_token_u16(s.subrange(j + 1, pe))) {
            (Some(ma), Some(mi), Some(pa)) => Result::<(u16, u16, u16), KernelVersionError>::Ok(
                (ma, mi, pa),
            ),
            _ => Result::<(u16, u16, u16), KernelVersionError>::Err(KernelVersionError::InvalidInt),
        }
    }
}

/// The digit character for a value below ten.
pub open spec fn spec_digit_char(d: int) -> char {
    if d == 0 {
        '0'
    } else if d == 1 {
        '1'
    } else if d == 2 {
        '2'
    } else if d == 3 {
        '3'
    } else if d == 4 {
        '4'
    } else if d == 5 {
        '5'
    } else if d == 6 {
        '6'
    } else if d == 7 {
        '7'
    } else if d == 8 {
        '8'
    } else {
        '9'
    }
}

/// The decimal rendering of a non-negative number, without leading zeroes
/// (a lone zero for zero itself).
pub open spec fn spec_dec_chars(n: int) -> Seq<char>
    decreases n,
{
    if n < 0 {
        Seq::<char>::empty()
    } else if n < 10 {
        seq![spec_digit_char(n)]
    } else {
        spec_dec_chars(n / 10).push(spec_digit_char(n % 10))
    }
}

/// Collects the characters of `s` into a vector.
fn str_chars_vec(s: &str) -> (r: Vec<char>)
    ensures
        r@ == s@,
{
    let mut it = s.chars();
    let mut v: Vec<char> = Vec::new();
    loop
        invariant
            it.obeys_prophetic_iter_laws(),
            it.decrease() is Some,
            v@ + it.remaining() == s@,
        decreases it.decrease()->0,
    {
        match it.next() {
            Some(c) => {
                proof {
                    assert(v@.push(c) + it.remaining()
                        =~= s@);
                }
                v.push(c);
            },
            None => {
                proof {
                    assert(v@ =~= s@);
                }
                return v;
            },
        }
    }
}

/// Finds the first `'.'` at or after `from`.
fn find_dot(v: &Vec<char>, from: usize) -> (r: usize)
    requires
        from <= v@.len(),
    ensures
        r == spec_find_dot(v@, from as int),
        from <= r <= v@.len(),
{
    let n = v.len();
    let mut i = from;
    while i < n
        invariant
            from <= i <= n == v@.len(),
            spec_find_dot(v@, from as int) == spec_find_dot(v@, i as int),
        decreases n - i,
    {
        if v[i] == '.' {
            return i;
        }
        i = i + 1;
    }
    n
}

/// Finds the first non-digit in `[from, to)`, or `to`.
fn digit_end(v: &Vec<char>, from: usize, to: usize) -> (r: usize)
    requires
        from <= to <= v@.len(),
    ensures
        r == spec_digit_end(v@, from as int, to as int),
        from <= r <= to,
{
    let mut i = from;
    while i < to
        invariant
            from <= i <= to <= v@.len(),
            spec_digit_end(v@, from as int, to as int) == spec_digit_end(v@, i as int, to as int),
        decreases to - i,
    {
        let u = v[i] as u32;
        if u < 48 || u > 57 {
            return i;
        }
        i = i + 1;
    }
    to
}

proof fn lemma_dec_value_nonneg(s: Seq<char>)
    requires
        forall|i: int| 0 <= i < s.len() ==> spec_is_digit(s[i]),
    ensures
        spec_dec_value(s) >= 0,
    decreases s.len(),
{
    if s.len() > 0 {
        lemma_dec_value_nonneg(s.drop_last());
        assert(spec_dec_value(s.drop_last()) * 10 >= 0) by (nonlinear_arith)
            requires
                spec_dec_value(s.drop_last()) >= 0,
        ;
    }
}

/// Parses the component `[start, end)` of `v` as a 16-bit decimal number.
fn parse_u16_component(v: &Vec<char>, start: usize, end: usize) -> (r: Option<u16>)
    requires
        start <= end <= v@.len(),
    ensures
        r == spec_token_u16(v@.subrange(start as int, end as int)),
{
    let ghost tok = v@.subrange(start as int, end as int);
    if start == end {
        return None;
    }
    let mut acc: u32 = 0;
    let mut i = start;
    while i < end
        invariant
            start <= i <= end <= v@.len(),
            tok == v@.subrange(start as int, end as int),
            forall|k: int| start <= k < i ==> spec_is_digit(v@[k]),
            ({
                let t = v@.subrange(start as int, i as int);
                acc == if spec_dec_value(t) > 0xffff {
                    0x10000int
                } else {
                    spec_dec_value(t)
                }
            }),
        decreases end - i,
    {
        let u = v[i] as u32;
        if u < 48 || u > 57 {
            proof {
                assert(!spec_is_digit(tok[i - start]));
            }
            return None;
        }
        let d = u - 48;
        proof {
            let t = v@.subrange(start as int, i as int);
            let t2 = v@.subrange(start as int, i as int + 1);
            assert(t2.drop_last() =~= t);
            assert(t2.last() == v@[i as int]);
            assert(spec_dec_value(t2) == spec_dec_value(t) * 10 + d);
            assert(forall|k: int| 0 <= k < t.len() ==> spec_is_digit(t[k]));
            lemma_dec_value_nonneg(t);
            if spec_dec_value(t) > 0xffff {
                assert(spec_dec_value(t) * 10 + d > 0xffff) by (nonlinear_arith)
                    requires
                        spec_dec_value(t) > 0xffff,
                        d >= 0,
                ;
            }
        }
        acc = acc * 10 + d;
        if acc > 0xffff {
            acc = 0x10000;
        }
        i = i + 1;
    }
    proof {
        assert(tok =~= v@.subrange(start as int, end as int));
        lemma_dec_value_nonneg(tok);
    }
    if acc > 0xffff {
        None
    } else {
        Some(acc as u16)
    }
}

/// Appends the decimal rendering of `n` to `out`.
fn push_dec_u16(out: &mut String, n: u16)
    ensures
        final(out)@ == old(out)@ + spec_dec_chars(n as int),
    decreases n,
{
    if n >= 10 {
        push_dec_u16(out, n / 10);
    }
    let d = n % 10;
    let c: &str = match d {
        0 => "0",
        1 => "1",
        2 => "2",
        3 => "3",
        4 => "4",
        5 => "5",
        6 => "6",
        7 => "7",
        8 => "8",
        _ => "9",
    };
    proof {
        reveal_strlit("0");
        reveal_strlit("1");
        reveal_strlit("2");
        reveal_strlit("3");
        reveal_strlit("4");
        reveal_strlit("5");
        reveal_strlit("6");
        reveal_strlit("7");
        reveal_strlit("8");
        reveal_strlit("9");
        assert(c@ =~= seq![spec_digit_char(d as int)]);
        if n >= 10 {
            assert(spec_dec_chars(n as int) == spec_dec_chars(n as int / 10).push(
                spec_digit_char(n as int % 10),
            ));
            assert(old(out)@ + spec_dec_chars(n as int) =~= (old(out)@ + spec_dec_chars(
                n as int / 10,
            )) + seq![spec_digit_char(n as int % 10)]);
        } else {
            assert(old(out)@ + spec_dec_chars(n as int) =~= old(out)@ + seq![
                spec_digit_char(n as int),
            ]);
        }
    }
    out.append(c);
}

impl KernelVersion {
    /// The major number.
    pub closed spec fn spec_major(&self) -> u16 {
        self.major
    }

    /// The minor number.
    pub closed spec fn spec_minor(&self) -> u16 {
        self.minor
    }

    /// The patch number.
    pub closed spec fn spec_patch(&self) -> u16 {
        self.patch
    }

    /// Builds a version from its three numbers.
    pub fn new(major: u16, minor: u16, patch: u16) -> (r: Self)
        ensures
            r.spec_major() == major,
            r.spec_minor() == minor,
            r.spec_patch() == patch,
    {
        Self { major, minor, patch }
    }

    /// Parses a kernel release string: the first three dot-separated
    /// components, the third truncated at its first non-digit character.
    pub fn parse(release: String) -> (r: Result<Self, KernelVersionError>)
        ensures
            match spec_parse_release(release@) {
                Ok((ma, mi, pa)) => r is Ok && r.unwrap().spec_major() == ma
                    && r.unwrap().spec_minor() == mi && r.unwrap().spec_patch() == pa,
                Err(e) => r == Result::<Self, KernelVersionError>::Err(e),
            },
    {
        let v = str_chars_vec(release.as_str());
        let n = v.len();
        let i = find_dot(&v, 0);
        if i == n {
            return Err(KernelVersionError::InvalidFormat);
        }
        let j = find_dot(&v, i + 1);
        if j == n {
            return Err(KernelVersionError::InvalidFormat);
        }
        let k = find_dot(&v, j + 1);
        let pe = digit_end(&v, j + 1, k);
        let major = parse_u16_component(&v, 0, i);
        let minor = parse_u16_component(&v, i + 1, j);
        let patch = parse_u16_component(&v, j + 1, pe);
        match (major, minor, patch) {
            (Some(ma), Some(mi), Some(pa)) => Ok(Self::new(ma, mi, pa)),
            _ => Err(KernelVersionError::InvalidInt),
        }
    }

    /// The version as `major.minor.patch`.
    pub fn to_version_string(&self) -> (r: String)
        ensures
            r@ == spec_dec_chars(self.spec_major() as int) + seq!['.'] + spec_dec_chars(
                self.spec_minor() as int,
            ) + seq!['.'] + spec_dec_chars(self.spec_patch() as int),
    {
        let mut s = String::new();
        push_dec_u16(&mut s, self.major);
        proof {
            reveal_strlit(".");
        }
        s.append(".");
        push_dec_u16(&mut s, self.minor);
        s.append(".");
        push_dec_u16(&mut s, self.patch);
        proof {
            assert(s@ =~= spec_dec_chars(self.spec_major() as int) + seq!['.']
                + spec_dec_chars(self.spec_minor() as int) + seq!['.'] + spec_dec_chars(
                self.spec_patch() as int,
            ));
        }
        s
    }
}

} // verus!
