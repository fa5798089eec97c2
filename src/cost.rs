use vstd::prelude::*;

verus! {

/// Bytes reserved for the pointer that the exec mechanism stores for every
/// argument and environment entry. Eight bytes is assumed everywhere, since
/// 32-bit binaries may run on 64-bit systems and inherit their limits.
pub const POINTER_SIZE: u128 = 8;

/// The byte-cost model of a target platform, chosen once for a whole run.
#[derive(Clone, Copy, Debug, PartialEq, Eq, Structural)]
pub enum Platform {
    /// Arguments and environment are arrays of pointers to NUL-terminated byte
    /// strings.
    Unix,
    /// Arguments are joined into one quoted command line of UTF-16 units; the
    /// environment is a list of NUL-terminated UTF-16 strings.
    Windows,
    /// A cautious estimate for an unknown platform: pointer-array storage with
    /// one extra byte per string.
    Conservative,
}

/// The UTF-16 units that a byte of WTF-8 text adds: none for a continuation
/// byte, two for the lead byte of a four-byte sequence, else one. With
/// `escaped`, backslash and double quote count twice, as they are escaped on a
/// quoted command line.
pub open spec fn unit_weight(b: u8, escaped: bool) -> nat {
    if 0x80 <= b && b < 0xc0 {
        0
    } else if b >= 0xf0 {
        2
    } else if escaped && (b == 0x5c || b == 0x22) {
        2
    } else {
        1
    }
}

/// The number of UTF-16 units of the WTF-8 text `s`, each backslash and double
/// quote counted twice when `escaped`.
pub open spec fn wide_len(s: Seq<u8>, escaped: bool) -> nat
    decreases s.len(),
{
    if s.len() == 0 {
        0
    } else {
        wide_len(s.drop_last(), escaped) + unit_weight(s.last(), escaped)
    }
}

impl Platform {
    /// The length of a string in the platform's native units.
    pub open spec fn str_cost(self, s: Seq<u8>) -> nat {
        match self {
            Platform::Unix => s.len(),
            Platform::Windows => wide_len(s, false),
            Platform::Conservative => s.len() + 1,
        }
    }

    /// What one argument costs in the argument space.
    pub open spec fn arg_cost(self, s: Seq<u8>) -> nat {
        match self {
            // char * {arg}\0
            Platform::Unix | Platform::Conservative => (POINTER_SIZE + self.str_cost(s) + 1) as nat,
            // "{arg}" followed by a space or NUL
            Platform::Windows => wide_len(s, true) + 3,
        }
    }

    /// What the key of an environment entry costs, `=` included.
    pub open spec fn env_key_cost(self, k: Seq<u8>) -> nat {
        match self {
            // char * {k}=
            Platform::Unix | Platform::Conservative => (POINTER_SIZE + self.str_cost(k) + 1) as nat,
            Platform::Windows => self.str_cost(k) + 1,
        }
    }

    /// What the value of an environment entry costs, its terminator included.
    pub open spec fn env_val_cost(self, v: Seq<u8>) -> nat {
        self.str_cost(v) + 1
    }

    /// What a whole `key=value` environment entry costs.
    pub open spec fn env_pair_cost(self, k: Seq<u8>, v: Seq<u8>) -> nat {
        self.env_key_cost(k) + self.env_val_cost(v)
    }

    /// The platform's native length of `s`.
    pub fn str_len(&self, s: &[u8]) -> (r: u128)
        ensures
            r == self.str_cost(s@),
            r <= 2 * usize::MAX + 1,
    {
        let n = s.len();
        match self {
            Platform::Unix => n as u128,
            Platform::Windows => wide_count(s, false),
            Platform::Conservative => n as u128 + 1,
        }
    }

    /// The cost of `arg` as one argument.
    pub fn arg_len(&self, arg: &[u8]) -> (r: u128)
        ensures
            r == self.arg_cost(arg@),
            r <= 2 * usize::MAX + 10,
    {
        match self {
            Platform::Windows => wide_count(arg, true) + 3,
            _ => POINTER_SIZE + self.str_len(arg) + 1,
        }
    }

    /// The cost of the key part of an environment entry.
    pub fn env_key_len(&self, k: &[u8]) -> (r: u128)
        ensures
            r == self.env_key_cost(k@),
            r <= 2 * usize::MAX + 10,
    {
        match self {
            Platform::Windows => self.str_len(k) + 1,
            _ => POINTER_SIZE + self.str_len(k) + 1,
        }
    }

    /// The cost of the value part of an environment entry.
    pub fn env_val_len(&self, v: &[u8]) -> (r: u128)
        ensures
            r == self.env_val_cost(v@),
            r <= 2 * usize::MAX + 2,
    {
        self.str_len(v) + 1
    }

    /// The cost of a whole environment entry.
    pub fn env_pair_len(&self, k: &[u8], v: &[u8]) -> (r: u128)
        ensures
            r == self.env_pair_cost(k@, v@),
            r <= 4 * usize::MAX + 12,
    {
        self.env_key_len(k) + self.env_val_len(v)
    }
}

/// Counts the UTF-16 units of the WTF-8 text `s`.
fn wide_count(s: &[u8], escaped: bool) -> (r: u128)
    ensures
        r == wide_len(s@, escaped),
        r <= 2 * usize::MAX,
{
    let mut total: u128 = 0;
    let mut i: usize = 0;
    while i < s.len()
        invariant
            i <= s@.len(),
            total == wide_len(s@.take(i as int), escaped),
            total <= 2 * i,
        decreases s@.len() - i,
    {
        let b = s[i];
        let w: u128 = if 0x80 <= b && b < 0xc0 {
            0
        } else if b >= 0xf0 {
            2
        } else if escaped && (b == 0x5c || b == 0x22) {
            2
        } else {
            1
        };
        proof {
            assert(s@.take(i + 1).drop_last() == s@.take(i as int));
        }
        total = total + w;
        i = i + 1;
    }
    proof {
        assert(s@.take(i as int) == s@);
    }
    assert(i <= usize::MAX);
    total
}

} // verus!
