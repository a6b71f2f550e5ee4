//! Decoding of the standard base64 alphabet with `=` padding, as carried by
//! HTTP basic authentication.
use vstd::prelude::*;

verus! {

/// The six-bit value of an alphabet byte.
pub open spec fn sextet(b: u8) -> Option<int> {
    if 65 <= b <= 90 {
        Some(b - 65)
    } else if 97 <= b <= 122 {
        Some(b - 97 + 26)
    } else if 48 <= b <= 57 {
        Some(b - 48 + 52)
    } else if b == 43 {
        Some(62)
    } else if b == 47 {
        Some(63)
    } else {
        None
    }
}

pub open spec fn byte_of(n: int) -> u8 {
    (n % 256) as u8
}

/// The bytes that the four symbols at `at` stand for. Only a final group
/// (`last`) may end in one or two `=`.
pub open spec fn group(s: Seq<u8>, at: int, last: bool) -> Option<Seq<u8>> {
    let (a, b, c, d) = (sextet(s[at]), sextet(s[at + 1]), sextet(s[at + 2]), sextet(s[at + 3]));
    if a is None || b is None {
        None
    } else {
        let (x, y) = (a->0, b->0);
        let first = byte_of(x * 4 + y / 16);
        if c is Some && d is Some {
            let (z, w) = (c->0, d->0);
            Some(seq![first, byte_of((y % 16) * 16 + z / 4), byte_of((z % 4) * 64 + w)])
        } else if last && c is Some && s[at + 3] == 61 {
            let z = c->0;
            Some(seq![first, byte_of((y % 16) * 16 + z / 4)])
        } else if last && s[at + 2] == 61 && s[at + 3] == 61 {
            Some(seq![first])
        } else {
            None
        }
    }
}

/// The bytes of the first `k` groups, none of them padded.
pub open spec fn groups(s: Seq<u8>, k: nat) -> Option<Seq<u8>>
    decreases k,
{
    if k == 0 {
        Some(Seq::empty())
    } else {
        match (groups(s, (k - 1) as nat), group(s, 4 * (k - 1), false)) {
            (Some(head), Some(tail)) => Some(head + tail),
            _ => None,
        }
    }
}

/// What `s` decodes to, if it is well-formed base64.
pub open spec fn decoded(s: Seq<u8>) -> Option<Seq<u8>> {
    if s.len() % 4 != 0 {
        None
    } else if s.len() == 0 {
        Some(Seq::empty())
    } else {
        let n = s.len() / 4;
        match (groups(s, (n - 1) as nat), group(s, 4 * (n - 1), true)) {
            (Some(head), Some(tail)) => Some(head + tail),
            _ => None,
        }
    }
}

fn sextet_of(b: u8) -> (r: Option<u32>)
    ensures
        match sextet(b) {
            Some(v) => r == Some(v as u32),
            None => r is None,
        },
{
    if 65 <= b && b <= 90 {
        Some((b - 65) as u32)
    } else if 97 <= b && b <= 122 {
        Some((b - 97 + 26) as u32)
    } else if 48 <= b && b <= 57 {
        Some((b - 48 + 52) as u32)
    } else if b == 43 {
        Some(62)
    } else if b == 47 {
        Some(63)
    } else {
        None
    }
}

/// Appends the bytes of the group at `at` to `out`; false where it is malformed.
fn push_group(s: &[u8], at: usize, last: bool, out: &mut Vec<u8>) -> (ok: bool)
    requires
        at + 4 <= s@.len(),
    ensures
        ok == group(s@, at as int, last) is Some,
        ok ==> final(out)@ == old(out)@ + group(s@, at as int, last)->0,
{
    let a = sextet_of(s[at]);
    let b = sextet_of(s[at + 1]);
    let c = sextet_of(s[at + 2]);
    let d = sextet_of(s[at + 3]);
    let (x, y) = match (a, b) {
        (Some(x), Some(y)) => (x, y),
        _ => return false,
    };
    let first = ((x * 4 + y / 16) % 256) as u8;
    match (c, d) {
        (Some(z), Some(w)) => {
            out.push(first);
            out.push((((y % 16) * 16 + z / 4) % 256) as u8);
            out.push((((z % 4) * 64 + w) % 256) as u8);
            true
        },
        (Some(z), None) => {
            if last && s[at + 3] == 61 {
                out.push(first);
                out.push((((y % 16) * 16 + z / 4) % 256) as u8);
                true
            } else {
                false
            }
        },
        _ => {
            if last && s[at + 2] == 61 && s[at + 3] == 61 {
                out.push(first);
                true
            } else {
                false
            }
        },
    }
}

/// Decodes `s`; `None` exactly where it is not well-formed base64.
pub fn decode(s: &[u8]) -> (r: Option<Vec<u8>>)
    ensures
        match decoded(s@) {
            Some(v) => r is Some && r->0@ == v,
            None => r is None,
        },
{
    if s.len() % 4 != 0 {
        return None;
    }
    let mut out: Vec<u8> = Vec::new();
    if s.len() == 0 {
        return Some(out);
    }
    let n: usize = s.len() / 4;
    let mut k: usize = 0;
    assert(4 * n == s@.len());
    while k + 1 < n
        invariant
            n == s@.len() / 4,
            4 * n == s@.len(),
            s@.len() <= usize::MAX,
            n >= 1,
            k + 1 <= n,
            groups(s@, k as nat) == Some(out@),
        decreases n - k,
    {
        if !push_group(s, 4 * k, false, &mut out) {
            assert(groups(s@, (k + 1) as nat) is None);
            assert forall|j: nat| k + 1 <= j <= n - 1 implies #[trigger] groups(s@, j) is None by {
                lemma_groups_fail(s@, (k + 1) as nat, j);
            }
            return None;
        }
        k = k + 1;
    }
    if push_group(s, 4 * k, true, &mut out) {
        Some(out)
    } else {
        None
    }
}

/// Once a prefix of groups fails to decode, every longer prefix fails.
proof fn lemma_groups_fail(s: Seq<u8>, k: nat, j: nat)
    requires
        groups(s, k) is None,
        k <= j,
    ensures
        groups(s, j) is None,
    decreases j - k,
{
    if k < j {
        lemma_groups_fail(s, k, (j - 1) as nat);
    }
}

} // verus!
