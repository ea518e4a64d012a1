//! Data exchanged with the node-network service, and the verified part of
//! page fetching: validating and splitting a page address.  The transport
//! itself (HTTP, JSON) is the application shell's business; it hands the
//! plain values in and out.

use vstd::prelude::*;

use crate::text::{chars_of, string_from_chars};

verus! {

/// A node known to the network, as reported by the service.
#[derive(Debug, Clone)]
pub struct Node {
    pub destination_hash: String,
    pub identity_hash: String,
    pub display_name: Option<String>,
    pub aspect: String,
    pub created_at: i64,
    pub updated_at: i64,
}

/// The service's own status report.
#[derive(Debug, Clone)]
pub struct ApiStatus {
    pub status: String,
    pub address: String,
}

/// How many times the address separator occurs in `s`.
pub open spec fn colon_count(s: Seq<char>) -> int
    decreases s.len(),
{
    if s.len() == 0 {
        0
    } else {
        (if s[0] == ':' {
            1int
        } else {
            0int
        }) + colon_count(s.skip(1))
    }
}

pub proof fn lemma_colon_count_push(s: Seq<char>, c: char)
    ensures
        colon_count(s.push(c)) == colon_count(s) + (if c == ':' {
            1int
        } else {
            0int
        }),
    decreases s.len(),
{
    assert(s.push(c).len() == s.len() + 1);
    assert(colon_count(s.push(c)) == (if s.push(c)[0] == ':' {
        1int
    } else {
        0int
    }) + colon_count(s.push(c).skip(1)));
    if s.len() == 0 {
        assert(s.push(c)[0] == c);
        assert(s.push(c).skip(1) =~= Seq::<char>::empty());
    } else {
        lemma_colon_count_push(s.skip(1), c);
        assert(s.push(c)[0] == s[0]);
        assert(s.push(c).skip(1) =~= s.skip(1).push(c));
    }
}

/// The message returned for an address that is not `hash:path`.
pub open spec fn invalid_address_message() -> Seq<char> {
    "Invalid address format. Use: hash:/page/path"@
}

/// Split a page address of the form `<destination>:<path>` into the
/// destination hash and the page path.  Valid exactly when the separator
/// occurs once; anything else is rejected with the error message shown to
/// the user.
pub fn split_address(address: &str) -> (r: Result<(String, String), String>)
    ensures
        match r {
            Ok(p) => colon_count(address@) == 1 && address@ == p.0@ + seq![':'] + p.1@
                && !p.0@.contains(':') && !p.1@.contains(':'),
            Err(e) => colon_count(address@) != 1 && e@ == invalid_address_message(),
        },
{
    let cs = chars_of(address);
    let mut before: Vec<char> = Vec::new();
    let mut after: Vec<char> = Vec::new();
    let mut ncolon: usize = 0;
    let mut i: usize = 0;
    proof {
        assert(cs@.take(0) =~= Seq::<char>::empty());
    }
    while i < cs.len()
        invariant
            i <= cs@.len(),
            ncolon <= i,
            ncolon == colon_count(cs@.take(i as int)),
            forall|m: int| 0 <= m < before@.len() ==> before@[m] != ':',
            forall|m: int| 0 <= m < after@.len() ==> after@[m] != ':',
            ncolon == 0 ==> before@ == cs@.take(i as int) && after@ == Seq::<char>::empty(),
            ncolon == 1 ==> cs@.take(i as int) == before@ + seq![':'] + after@,
        decreases cs@.len() - i,
    {
        let c = cs[i];
        proof {
            lemma_colon_count_push(cs@.take(i as int), c);
            assert(cs@.take(i + 1) =~= cs@.take(i as int).push(c));
        }
        if c == ':' {
            ncolon = ncolon + 1;
            proof {
                if ncolon == 1 {
                    assert(cs@.take(i + 1) =~= before@ + seq![':'] + after@);
                }
            }
        } else if ncolon == 0 {
            before.push(c);
            proof {
                assert(before@ =~= cs@.take(i + 1));
            }
        } else {
            after.push(c);
            proof {
                if ncolon == 1 {
                    assert(cs@.take(i + 1) =~= before@ + seq![':'] + after@);
                }
            }
        }
        i = i + 1;
    }
    proof {
        assert(cs@.take(cs@.len() as int) =~= cs@);
    }
    if ncolon == 1 {
        let hash = string_from_chars(&before);
        let path = string_from_chars(&after);
        Ok((hash, path))
    } else {
        Err("Invalid address format. Use: hash:/page/path".to_owned())
    }
}

} // verus!
