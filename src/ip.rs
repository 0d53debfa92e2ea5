use vstd::prelude::*;
use crate::text::{split_char, split_spec, views};

verus! {

pub const ERROR_STRING_INVALID_IP: &'static str = "Invalid IP address";
pub const ERROR_STRING_INVALID_PORT: &'static str = "Invalid port number";
pub const ERROR_STRING_INVALID_NO_PORT: &'static str = "No port number provided";
pub const ERROR_STRING_INVALID_IP_OCT1: &'static str = "Invalid IP Address (octet 1)";
pub const ERROR_STRING_INVALID_IP_OCT2: &'static str = "Invalid IP Address (octet 2)";
pub const ERROR_STRING_INVALID_IP_OCT3: &'static str = "Invalid IP Address (octet 3)";
pub const ERROR_STRING_INVALID_IP_OCT4: &'static str = "Invalid IP Address (octet 4)";

pub const OCTET_MAX: u32 = 255;
pub const PORT_MAX: u32 = 65535;

pub open spec fn is_digit(c: char) -> bool {
    '0' <= c && c <= '9'
}

pub open spec fn digit_value(c: char) -> nat {
    ((c as u32) - ('0' as u32)) as nat
}

/// The number that a run of decimal digits writes.
pub open spec fn digits_value(s: Seq<char>) -> nat
    decreases s.len(),
{
    if s.len() == 0 {
        0
    } else {
        digits_value(s.drop_last()) * 10 + digit_value(s.last())
    }
}

/// The digits of an unsigned number: one leading `+` is allowed.
pub open spec fn unsigned_digits(s: Seq<char>) -> Seq<char> {
    if s.len() > 0 && s[0] == '+' {
        s.drop_first()
    } else {
        s
    }
}

/// The value of `s` read as a `u32` in decimal, as `str::parse::<u32>` reads
/// it: an optional `+`, then one or more digits, and no more than `u32::MAX`.
pub open spec fn parse_u32_spec(s: Seq<char>) -> Option<nat> {
    let d = unsigned_digits(s);
    if d.len() == 0 || exists|i: int| 0 <= i < d.len() && !is_digit(#[trigger] d[i]) {
        None
    } else if digits_value(d) > u32::MAX {
        None
    } else {
        Some(digits_value(d))
    }
}

/// A field is valid when it reads as a number no greater than `max`.
pub open spec fn field_ok(s: Seq<char>, max: u32) -> bool {
    match parse_u32_spec(s) {
        Some(v) => v <= max,
        None => false,
    }
}

/// The fault of an address written `a.b.c.d:port`, or `None` when it is valid.
/// Faults are reported in this order: not four dot-separated parts, no single
/// port after the last part, each octet above 255 or not a number, the port
/// above 65535 or not a number.
pub open spec fn ip_fault(ip: Seq<char>) -> Option<Seq<char>> {
    let f = split_spec(ip, '.');
    if f.len() != 4 {
        Some(ERROR_STRING_INVALID_IP@)
    } else {
        let s = split_spec(f[3], ':');
        if s.len() != 2 {
            Some(ERROR_STRING_INVALID_NO_PORT@)
        } else if !field_ok(f[0], OCTET_MAX) {
            Some(ERROR_STRING_INVALID_IP_OCT1@)
        } else if !field_ok(f[1], OCTET_MAX) {
            Some(ERROR_STRING_INVALID_IP_OCT2@)
        } else if !field_ok(f[2], OCTET_MAX) {
            Some(ERROR_STRING_INVALID_IP_OCT3@)
        } else if !field_ok(s[0], OCTET_MAX) {
            Some(ERROR_STRING_INVALID_IP_OCT4@)
        } else if !field_ok(s[1], PORT_MAX) {
            Some(ERROR_STRING_INVALID_PORT@)
        } else {
            None
        }
    }
}

proof fn lemma_digits_monotone(d: Seq<char>, k: int)
    requires
        0 <= k <= d.len(),
    ensures
        digits_value(d) >= digits_value(d.take(k)),
    decreases d.len(),
{
    if k < d.len() {
        let init = d.drop_last();
        assert(init.take(k) =~= d.take(k));
        lemma_digits_monotone(init, k);
    } else {
        assert(d.take(k) =~= d);
    }
}

/// A listening address, `a.b.c.d:port`, known to be valid.
pub struct IP {
    ip: String,
}

impl View for IP {
    type V = Seq<char>;

    closed spec fn view(&self) -> Seq<char> {
        self.ip@
    }
}

impl IP {
    /// Accepts a valid address and keeps its text; else the first fault found.
    pub fn new(ip: &str) -> (r: Result<Self, &'static str>)
        ensures
            match r {
                Ok(x) => ip_fault(ip@) is None && x@ == ip@,
                Err(e) => ip_fault(ip@) == Some(e@),
            },
    {
        match Self::validate(ip) {
            Ok(()) => Ok(Self { ip: String::from_str(ip) }),
            Err(e) => Err(e),
        }
    }

    /// The address as it was given.
    pub fn get(&self) -> (r: String)
        ensures
            r@ == self@,
    {
        self.ip.clone()
    }

    fn validate(ip: &str) -> (r: Result<(), &'static str>)
        ensures
            match r {
                Ok(()) => ip_fault(ip@) is None,
                Err(e) => ip_fault(ip@) == Some(e@),
            },
    {
        let fields = split_char(ip, '.');
        proof {
            assert(views(fields@).len() == fields@.len());
        }
        if fields.len() != 4 {
            return Err(ERROR_STRING_INVALID_IP);
        }
        let s = split_char(fields[3].as_str(), ':');
        proof {
            assert(views(s@).len() == s@.len());
            assert(views(fields@)[0] == fields@[0]@);
            assert(views(fields@)[1] == fields@[1]@);
            assert(views(fields@)[2] == fields@[2]@);
            assert(views(fields@)[3] == fields@[3]@);
        }
        if s.len() != 2 {
            return Err(ERROR_STRING_INVALID_NO_PORT);
        }
        proof {
            assert(views(s@)[0] == s@[0]@);
            assert(views(s@)[1] == s@[1]@);
        }
        if !Self::validate_field(fields[0].as_str(), OCTET_MAX) {
            return Err(ERROR_STRING_INVALID_IP_OCT1);
        }
        if !Self::validate_field(fields[1].as_str(), OCTET_MAX) {
            return Err(ERROR_STRING_INVALID_IP_OCT2);
        }
        if !Self::validate_field(fields[2].as_str(), OCTET_MAX) {
            return Err(ERROR_STRING_INVALID_IP_OCT3);
        }
        if !Self::validate_field(s[0].as_str(), OCTET_MAX) {
            return Err(ERROR_STRING_INVALID_IP_OCT4);
        }
        if !Self::validate_field(s[1].as_str(), PORT_MAX) {
            return Err(ERROR_STRING_INVALID_PORT);
        }
        Ok(())
    }

    fn validate_field(value: &str, max: u32) -> (r: bool)
        ensures
            r == field_ok(value@, max),
    {
        let n = value.unicode_len();
        let mut start: usize = 0;
        if n > 0 && value.get_char(0) == '+' {
            start = 1;
        }
        let ghost d = unsigned_digits(value@);
        proof {
            if start == 1 {
                assert(d =~= value@.subrange(1, n as int));
            } else {
                assert(d =~= value@.subrange(0, n as int));
            }
        }
        if start == n {
            return false;
        }
        let mut acc: u64 = 0;
        let mut i: usize = start;
        proof {
            assert(d.take(0) =~= Seq::<char>::empty());
        }
        while i < n
            invariant
                n == value@.len(),
                start <= i <= n,
                start < n,
                d == value@.subrange(start as int, n as int),
                d == unsigned_digits(value@),
                acc == digits_value(d.take(i - start)),
                acc <= u32::MAX,
                forall|j: int| 0 <= j < i - start ==> is_digit(#[trigger] d[j]),
            decreases n - i,
        {
            let c = value.get_char(i);
            assert(d[i - start] == c);
            if !('0' <= c && c <= '9') {
                proof {
                    assert(!is_digit(d[i - start]));
                }
                return false;
            }
            let ghost t = d.take(i - start + 1);
            proof {
                assert(t.drop_last() =~= d.take(i - start));
                assert(t.last() == c);
                assert(acc * 10 <= 42949672950) by (nonlinear_arith)
                    requires
                        acc <= u32::MAX,
                ;
            }
            acc = acc * 10 + ((c as u32) - ('0' as u32)) as u64;
            proof {
                assert(acc == digits_value(t));
            }
            if acc > u32::MAX as u64 {
                proof {
                    if forall|j: int| 0 <= j < d.len() ==> is_digit(#[trigger] d[j]) {
                        lemma_digits_monotone(d, i - start + 1);
                    }
                }
                return false;
            }
            i = i + 1;
        }
        proof {
            assert(d.take(i - start) =~= d);
        }
        acc <= max as u64
    }
}

} // verus!
