//! Decoding of the todo source's plain-text response.
//!
//! The source answers with newline-separated items. Fetching happens
//! outside the library; this module checks the body is UTF-8 and splits it
//! into its lines.

use crate::errors::Error;
use crate::text::{check_utf8, is_utf8};
use vstd::prelude::*;

verus! {

/// The pieces of `s` from `i` on, split at `\n`, with `cur` the part of the
/// current piece already seen. Unlike a line scanner, the split keeps every
/// piece, the empty trailing one included.
pub open spec fn split_nl_acc(s: Seq<u8>, i: int, cur: Seq<u8>) -> Seq<Seq<u8>>
    decreases s.len() - i when i <= s.len()
{
    if i < 0 || i >= s.len() {
        seq![cur]
    } else if s[i] == 10 {
        seq![cur] + split_nl_acc(s, i + 1, seq![])
    } else {
        split_nl_acc(s, i + 1, cur.push(s[i]))
    }
}

/// The pieces of `s`, split at `\n`.
pub open spec fn split_nl(s: Seq<u8>) -> Seq<Seq<u8>> {
    split_nl_acc(s, 0, seq![])
}

/// The models of a sequence of byte strings.
pub open spec fn byte_lines(s: Seq<Vec<u8>>) -> Seq<Seq<u8>> {
    s.map_values(|l: Vec<u8>| l@)
}

/// Split a todo response body into its items, one per line: exactly the
/// `\n`-separated pieces of the body, in order. The one error is a body
/// that is not valid UTF-8.
pub fn get_todos(body: &[u8]) -> (r: Result<Vec<Vec<u8>>, Error>)
    ensures
        match r {
            Ok(items) => is_utf8(body@) && byte_lines(items@) == split_nl(body@),
            Err(e) => !is_utf8(body@) && e matches Error::ParseUtf8,
        },
{
    if !check_utf8(body) {
        return Err(Error::ParseUtf8);
    }
    let mut items: Vec<Vec<u8>> = Vec::new();
    let mut cur: Vec<u8> = Vec::new();
    let mut i: usize = 0;
    let n = body.len();
    while i < n
        invariant
            i <= n,
            n == body@.len(),
            split_nl(body@) == byte_lines(items@) + split_nl_acc(body@, i as int, cur@),
        decreases n - i,
    {
        let b = body[i];
        if b == 10 {
            proof {
                assert(split_nl_acc(body@, i as int, cur@) == seq![cur@] + split_nl_acc(
                    body@,
                    i as int + 1,
                    seq![],
                ));
            }
            let ghost items_old = items@;
            items.push(cur);
            cur = Vec::new();
            proof {
                assert(byte_lines(items@) =~= byte_lines(items_old).push(items@[items@.len()
                    - 1]@));
                assert(byte_lines(items_old) + (seq![items@[items@.len() - 1]@] + split_nl_acc(
                    body@,
                    i as int + 1,
                    seq![],
                )) =~= byte_lines(items@) + split_nl_acc(body@, i as int + 1, seq![]));
            }
        } else {
            cur.push(b);
        }
        i = i + 1;
    }
    proof {
        assert(split_nl_acc(body@, i as int, cur@) == seq![cur@]);
    }
    let ghost items_old = items@;
    items.push(cur);
    proof {
        assert(byte_lines(items@) =~= byte_lines(items_old).push(items@[items@.len() - 1]@));
        assert(byte_lines(items_old) + seq![items@[items@.len() - 1]@] =~= byte_lines(items@));
    }
    Ok(items)
}

} // verus!
