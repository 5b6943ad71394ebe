//! Address helpers: forming a loopback address from a port's text and
//! reading the port back out of an address.

use vstd::prelude::*;
use vstd::string::StrSliceExecFns;
use vstd::string::StringExecFns;
use crate::digits::spec_parse_usize;
use crate::digits::parse_usize;
use crate::text::spec_split;
use crate::text::views_of;
use crate::text::split_str;
use crate::text::spec_join;
use crate::text::lemma_split_join;

verus! {

/// The loopback address that carries the given port text.
pub open spec fn spec_local_address(port: Seq<char>) -> Seq<char> {
    "127.0.0.1:"@ + port
}

/// The port of an address: its text after the last `:`, when that text is a
/// decimal number that fits; nothing otherwise.
pub open spec fn spec_get_port(dir: Seq<char>) -> Option<usize> {
    spec_parse_usize(spec_split(dir, ':').last())
}

pub fn local_address_with_port(port: &str) -> (r: String)
    ensures
        r@ == spec_local_address(port@),
{
    let mut s = "127.0.0.1:".to_owned();
    s.append(port);
    s
}

pub fn get_port_from_dir(dir: &str) -> (r: Option<usize>)
    ensures
        r == spec_get_port(dir@),
{
    let parts = split_str(dir, ':');
    let n = parts.len();
    let last = &parts[n - 1];
    proof {
        assert(views_of(parts@)[n - 1] == parts@[n - 1]@);
        assert(views_of(parts@).last() == views_of(parts@)[n - 1]);
    }
    parse_usize(last.as_str())
}

/// The port read back from a loopback address is the port text it was made
/// from, as long as that text has no `:` of its own.
pub proof fn lemma_port_of_local_address(t: Seq<char>)
    requires
        !t.contains(':'),
    ensures
        spec_get_port(spec_local_address(t)) == spec_parse_usize(t),
{
    reveal_strlit("127.0.0.1:");
    reveal_strlit("127.0.0.1");
    let head = "127.0.0.1"@;
    let parts = seq![head, t];
    assert(spec_join(parts, ':') == spec_local_address(t)) by {
        assert(parts.drop_first() =~= seq![t]);
        assert(spec_join(seq![t], ':') == t);
        assert(head + seq![':'] + t =~= "127.0.0.1:"@ + t);
    }
    assert(!head.contains(':')) by {
        if head.contains(':') {
            let j = choose|j: int| 0 <= j < head.len() && head[j] == ':';
            assert(head[j] == ':');
        }
    }
    assert(forall|k: int| 0 <= k < parts.len() ==> !(#[trigger] parts[k]).contains(':'));
    lemma_split_join(parts, ':');
    assert(spec_split(spec_local_address(t), ':').last() == t);
}

} // verus!
