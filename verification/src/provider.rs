//! Helpers for security-context providers.
//!
//! The provider itself (credential acquisition and handshake-token
//! generation) is an external capability that callers supply; the library
//! only prepares its plain-value inputs: wide strings for OS interfaces,
//! and the identity/domain split of an explicit principal name.

use vstd::prelude::*;
use vstd::string::StrSliceExecFns;

verus! {

/// The UTF-16 code units of one character: one unit inside the basic plane,
/// a surrogate pair above it.
pub open spec fn utf16_units(c: char) -> Seq<u16> {
    if (c as u32) < 0x10000 {
        seq![(c as u32) as u16]
    } else {
        seq![
            (0xD800 + ((c as u32 - 0x10000) / 0x400)) as u16,
            (0xDC00 + ((c as u32 - 0x10000) % 0x400)) as u16,
        ]
    }
}

/// The UTF-16 encoding of a character sequence.
pub open spec fn utf16_encode(s: Seq<char>) -> Seq<u16>
    decreases s.len(),
{
    if s.len() == 0 {
        Seq::empty()
    } else {
        utf16_encode(s.drop_last()) + utf16_units(s.last())
    }
}

/// Encodes a string as a null-terminated UTF-16 wide string, as OS security
/// interfaces expect.
pub fn to_wide(s: &str) -> (r: Vec<u16>)
    ensures
        r@ == utf16_encode(s@) + seq![0u16],
{
    let n = s.unicode_len();
    let mut out: Vec<u16> = Vec::new();
    let mut i: usize = 0;
    while i < n
        invariant
            0 <= i <= n,
            n == s@.len(),
            out@ =~= utf16_encode(s@.take(i as int)),
        decreases n - i,
    {
        let c = s.get_char(i);
        let cv = c as u32;
        if cv < 0x10000 {
            out.push(cv as u16);
        } else {
            let v = cv - 0x10000;
            out.push((0xD800 + (v / 0x400)) as u16);
            out.push((0xDC00 + (v % 0x400)) as u16);
        }
        proof {
            assert(s@.take(i + 1).drop_last() =~= s@.take(i as int));
            assert(s@.take(i + 1).last() == s@[i as int]);
        }
        i += 1;
    }
    proof {
        assert(s@.take(n as int) =~= s@);
    }
    out.push(0);
    out
}

/// Where a character first occurs in a string, if anywhere.
pub open spec fn spec_find(s: Seq<char>, c: char) -> Option<int>
    decreases s.len(),
{
    if s.len() == 0 {
        None
    } else if s[0] == c {
        Some(0)
    } else {
        match spec_find(s.drop_first(), c) {
            Some(i) => Some(i + 1),
            None => None,
        }
    }
}

proof fn lemma_spec_find(s: Seq<char>, c: char, i: int)
    requires
        0 <= i <= s.len(),
        forall|j: int| 0 <= j < i ==> s[j] != c,
        i == s.len() || s[i] == c,
    ensures
        spec_find(s, c) == if i == s.len() {
            Option::<int>::None
        } else {
            Option::<int>::Some(i)
        },
    decreases i,
{
    if s.len() == 0 {
    } else if i == 0 {
    } else {
        lemma_spec_find(s.drop_first(), c, i - 1);
    }
}

/// Finds the first occurrence of `c` in `s`.
fn find_char(s: &str, c: char) -> (r: Option<usize>)
    ensures
        match r {
            Some(i) => i < s@.len() && spec_find(s@, c) == Some(i as int),
            None => spec_find(s@, c) is None,
        },
{
    let n = s.unicode_len();
    let mut i: usize = 0;
    while i < n
        invariant
            0 <= i <= n,
            n == s@.len(),
            forall|j: int| 0 <= j < i ==> s@[j] != c,
        decreases n - i,
    {
        if s.get_char(i) == c {
            proof {
                lemma_spec_find(s@, c, i as int);
            }
            return Some(i);
        }
        i += 1;
    }
    proof {
        lemma_spec_find(s@, c, n as int);
    }
    None
}

/// How an explicit principal name splits into identity and domain:
/// `user@DOMAIN` and `DOMAIN\user` forms yield the two parts, any other
/// name is all identity with an empty domain. An `@` takes precedence over
/// a backslash.
pub open spec fn spec_split_user_domain(name: Seq<char>) -> (Seq<char>, Seq<char>) {
    match spec_find(name, '@') {
        Some(i) => (name.take(i), name.skip(i + 1)),
        None => match spec_find(name, '\\') {
            Some(i) => (name.skip(i + 1), name.take(i)),
            None => (name, Seq::empty()),
        },
    }
}

/// Splits an explicit principal name into its identity and domain parts,
/// as a provider must before passing them to the underlying mechanism.
pub fn split_user_domain(name: &str) -> (r: (String, String))
    ensures
        (r.0@, r.1@) == spec_split_user_domain(name@),
{
    let n = name.unicode_len();
    if let Some(pos) = find_char(name, '@') {
        let user = name.substring_char(0, pos).to_owned();
        let domain = name.substring_char(pos + 1, n).to_owned();
        (user, domain)
    } else if let Some(pos) = find_char(name, '\\') {
        let domain = name.substring_char(0, pos).to_owned();
        let user = name.substring_char(pos + 1, n).to_owned();
        (user, domain)
    } else {
        (name.to_owned(), String::new())
    }
}

} // verus!
