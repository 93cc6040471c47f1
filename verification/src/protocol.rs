//! Typed commands and responses, and the abstract effect of command
//! sequences on the store content.
//!
//! A framed request unit is decoded outside this crate into one of the
//! commands below (or found unsupported); a response is encoded back into a
//! framed unit outside this crate. Here both are plain values.

use vstd::prelude::*;

verus! {

/// A well-formed command, the result of decoding one framed request unit.
#[derive(Debug, PartialEq)]
pub enum Command {
    /// The wire GET command: read one key.
    Get { key: String },
    /// The wire SET command: bind one key to a value.
    Put { key: String, value: Vec<u8> },
}

/// One response unit, written back before the next request is read.
#[derive(Debug, PartialEq)]
pub enum Response {
    /// Acknowledges a `Put`.
    Ack,
    /// The value bound to the key of a `Get`.
    Value(Vec<u8>),
    /// The explicit absent marker for a `Get` on an unbound key; distinct
    /// from an empty value and not an error.
    Absent,
}

/// What one command does to the abstract store content: `Put` binds its
/// key, `Get` changes nothing.
pub open spec fn apply_command(m: Map<Seq<char>, Seq<u8>>, c: Command) -> Map<
    Seq<char>,
    Seq<u8>,
> {
    match c {
        Command::Get { key } => m,
        Command::Put { key, value } => m.insert(key@, value@),
    }
}

/// `c` writes to key `k`.
pub open spec fn sets_key(c: Command, k: Seq<char>) -> bool {
    match c {
        Command::Get { key } => false,
        Command::Put { key, value } => key@ == k,
    }
}

/// `c` writes value `v` to key `k`.
pub open spec fn sets_key_to(c: Command, k: Seq<char>, v: Seq<u8>) -> bool {
    match c {
        Command::Get { key } => false,
        Command::Put { key, value } => key@ == k && value@ == v,
    }
}

/// The store content after a whole command sequence has been applied in
/// order, starting from `m`. Since every applied write is linearized by the
/// store's mutual exclusion, any interleaving of producers yields one such
/// sequence.
pub open spec fn apply_commands(m: Map<Seq<char>, Seq<u8>>, cs: Seq<Command>) -> Map<
    Seq<char>,
    Seq<u8>,
>
    decreases cs.len(),
{
    if cs.len() == 0 {
        m
    } else {
        apply_command(apply_commands(m, cs.drop_last()), cs.last())
    }
}

/// No lost or stale writes: once a `Put` of `v` to `k` is applied, every
/// later read of `k` sees `v` until some later `Put` to the same key is
/// applied. So a `Get` issued strictly after that `Put`'s reply was
/// observed returns `v`, or the value of a later `Put` to `k`.
pub proof fn lemma_no_lost_writes(
    m: Map<Seq<char>, Seq<u8>>,
    cs: Seq<Command>,
    i: int,
    k: Seq<char>,
    v: Seq<u8>,
)
    requires
        0 <= i < cs.len(),
        sets_key_to(cs[i], k, v),
        forall|j: int| i < j < cs.len() ==> !sets_key(#[trigger] cs[j], k),
    ensures
        apply_commands(m, cs).contains_key(k),
        apply_commands(m, cs)[k] == v,
    decreases cs.len(),
{
    if i == cs.len() - 1 {
    } else {
        assert(cs.drop_last()[i] == cs[i]);
        assert forall|j: int| i < j < cs.drop_last().len() implies !sets_key(
            #[trigger] cs.drop_last()[j],
            k,
        ) by {
            assert(cs.drop_last()[j] == cs[j]);
        }
        lemma_no_lost_writes(m, cs.drop_last(), i, k, v);
        assert(!sets_key(cs.last(), k));
    }
}

/// A key never written stays unbound: a `Get` for it returns the absent
/// marker, not an error.
pub proof fn lemma_never_set_is_absent(m: Map<Seq<char>, Seq<u8>>, cs: Seq<Command>, k: Seq<char>)
    requires
        !m.contains_key(k),
        forall|j: int| 0 <= j < cs.len() ==> !sets_key(#[trigger] cs[j], k),
    ensures
        !apply_commands(m, cs).contains_key(k),
    decreases cs.len(),
{
    if cs.len() > 0 {
        assert forall|j: int| 0 <= j < cs.drop_last().len() implies !sets_key(
            #[trigger] cs.drop_last()[j],
            k,
        ) by {
            assert(cs.drop_last()[j] == cs[j]);
        }
        lemma_never_set_is_absent(m, cs.drop_last(), k);
        assert(!sets_key(cs.last(), k));
    }
}

} // verus!
