//! Keys of the key-value cache: integers stored as eight big-endian bytes, and the events
//! the cache reports.

use vstd::prelude::*;
use crate::dispatch::failure_view;
use crate::error::{Error, Failure};
use crate::settings::be_value;

verus! {

/// A type that can key the cache: written as bytes, and read back from them.
pub trait CacheKey: Sized {
    /// The bytes the key is stored under.
    spec fn key_bytes(&self) -> Seq<u8>;

    /// The bytes the key is stored under.
    fn to_cache_key(&self) -> (b: Vec<u8>)
        ensures
            b@ == self.key_bytes(),
    ;

    /// The key stored under the given bytes, or an error when they are not laid out as such
    /// a key. A key read back is stored under the very bytes it was read from.
    fn from_bytes(v: &[u8]) -> (r: Result<Self, Error>)
        ensures
            r matches Ok(k) ==> k.key_bytes() == v@,
    ;
}

/// A name that sets the cache's keys of one kind apart from the others.
pub trait Prefix {
    /// The bytes that start every key of this kind.
    fn prefix() -> &'static str;
}

/// An integer key: eight bytes, most significant first.
#[derive(Debug, Clone, Copy, PartialEq, Eq, Structural)]
pub struct IntegerKey {
    val: u64,
}

/// The eight bytes of `v`, most significant first.
pub open spec fn be_bytes(v: u64) -> Seq<u8> {
    seq![
        (v >> 56u64) as u8,
        (v >> 48u64) as u8,
        (v >> 40u64) as u8,
        (v >> 32u64) as u8,
        (v >> 24u64) as u8,
        (v >> 16u64) as u8,
        (v >> 8u64) as u8,
        v as u8,
    ]
}

proof fn lemma_be_bytes_value(v: u64)
    ensures
        be_value(be_bytes(v)) == v,
        be_bytes(v).len() == 8,
{
    let b = be_bytes(v);
    reveal_with_fuel(be_value, 9);
    assert(b.drop_last().drop_last().drop_last().drop_last().drop_last().drop_last().drop_last().drop_last() =~= Seq::<u8>::empty());
    assert(((v >> 56u64) as u8) as int * 0x100000000000000 + ((v >> 48u64) as u8) as int * 0x1000000000000
        + ((v >> 40u64) as u8) as int * 0x10000000000 + ((v >> 32u64) as u8) as int * 0x100000000
        + ((v >> 24u64) as u8) as int * 0x1000000 + ((v >> 16u64) as u8) as int * 0x10000
        + ((v >> 8u64) as u8) as int * 0x100 + (v as u8) as int == v) by (bit_vector);
}

proof fn lemma_be_value_bound(b: Seq<u8>)
    ensures
        be_value(b) < pow256(b.len()),
    decreases b.len(),
{
    if b.len() > 0 {
        lemma_be_value_bound(b.drop_last());
        assert(be_value(b) == be_value(b.drop_last()) * 256 + (b.last() as nat));
        assert(be_value(b.drop_last()) * 256 + 256 <= pow256(b.drop_last().len()) * 256) by (nonlinear_arith)
            requires
                be_value(b.drop_last()) < pow256(b.drop_last().len()),
        ;
    }
}

/// 256 to the power `n`.
pub open spec fn pow256(n: nat) -> nat
    decreases n,
{
    if n == 0 {
        1
    } else {
        pow256((n - 1) as nat) * 256
    }
}

impl IntegerKey {
    /// The key of `i`.
    pub fn new(i: u64) -> (k: IntegerKey)
        ensures
            k.value() == i,
    {
        IntegerKey { val: i }
    }

    /// The integer of the key.
    pub closed spec fn value(&self) -> u64 {
        self.val
    }

    /// The integer of the key.
    pub fn get(&self) -> (v: u64)
        ensures
            v == self.value(),
    {
        self.val
    }

    /// The key of a signed integer, taken with the same bits.
    pub fn from_i64(n: i64) -> (k: IntegerKey)
        ensures
            k.value() == n as u64,
    {
        IntegerKey { val: n as u64 }
    }
}

impl CacheKey for IntegerKey {
    open spec fn key_bytes(&self) -> Seq<u8> {
        be_bytes(self.value())
    }

    fn to_cache_key(&self) -> (b: Vec<u8>) {
        let v = self.val;
        let mut b: Vec<u8> = Vec::new();
        b.push((v >> 56u64) as u8);
        b.push((v >> 48u64) as u8);
        b.push((v >> 40u64) as u8);
        b.push((v >> 32u64) as u8);
        b.push((v >> 24u64) as u8);
        b.push((v >> 16u64) as u8);
        b.push((v >> 8u64) as u8);
        b.push(v as u8);
        assert(b@ =~= be_bytes(v));
        b
    }

    /// Eight bytes give the integer they spell, most significant first; any other length is
    /// refused as a bad layout.
    fn from_bytes(v: &[u8]) -> (r: Result<IntegerKey, Error>)
        ensures
            v@.len() == 8 ==> (r matches Ok(k) && k.value() == be_value(v@)),
            v@.len() != 8 ==> (r matches Err(e) && e@ == failure_view(Failure::BadLayout)),
    {
        let r = integer_key_from_bytes(v);
        proof {
            if v@.len() == 8 {
                lemma_be_value_bytes(v@);
            }
        }
        r
    }
}

/// The integer key laid out in `v`: eight bytes, most significant first; any other length is
/// an error.
pub fn integer_key_from_bytes(v: &[u8]) -> (r: Result<IntegerKey, Error>)
    ensures
        v@.len() == 8 ==> (r matches Ok(k) && k.value() == be_value(v@)),
        v@.len() != 8 ==> (r matches Err(e) && e@ == failure_view(Failure::BadLayout)),
{
    if v.len() != 8 {
        return Err(Failure::BadLayout.into_error());
    }
    let mut acc: u64 = 0;
    let mut i: usize = 0;
    while i < 8
        invariant
            i <= 8,
            v@.len() == 8,
            acc == be_value(v@.take(i as int)),
        decreases 8 - i,
    {
        proof {
            lemma_be_value_bound(v@.take(i as int));
            assert(pow256(i as nat) <= 0x100000000000000) by {
                reveal_with_fuel(pow256, 8);
            }
            assert(v@.take(i + 1).drop_last() =~= v@.take(i as int));
        }
        acc = acc * 256 + (v[i] as u64);
        i = i + 1;
    }
    assert(v@.take(8) =~= v@);
    Ok(IntegerKey { val: acc })
}

proof fn lemma_be_value_bytes(b: Seq<u8>)
    requires
        b.len() == 8,
    ensures
        be_value(b) <= u64::MAX,
        be_bytes(be_value(b) as u64) == b,
{
    reveal_with_fuel(be_value, 9);
    let b0 = b[0];
    let b1 = b[1];
    let b2 = b[2];
    let b3 = b[3];
    let b4 = b[4];
    let b5 = b[5];
    let b6 = b[6];
    let b7 = b[7];
    assert(b.drop_last().drop_last().drop_last().drop_last().drop_last().drop_last().drop_last().drop_last() =~= Seq::<u8>::empty());
    assert(be_value(b) == ((((((b0 as nat * 256 + b1 as nat) * 256 + b2 as nat) * 256 + b3 as nat) * 256 + b4 as nat) * 256 + b5 as nat) * 256 + b6 as nat) * 256 + b7 as nat);
    let sum: int = (b0 as int) * 0x100000000000000 + (b1 as int) * 0x1000000000000 + (b2 as int) * 0x10000000000
        + (b3 as int) * 0x100000000 + (b4 as int) * 0x1000000 + (b5 as int) * 0x10000 + (b6 as int) * 0x100 + (b7 as int);
    let x: u64 = sum as u64;
    assert(x == sum);
    assert(x == ((((((b0 as nat * 256 + b1 as nat) * 256 + b2 as nat) * 256 + b3 as nat) * 256 + b4 as nat) * 256 + b5 as nat) * 256 + b6 as nat) * 256 + b7 as nat);
    assert((x >> 56u64) as u8 == b0 && (x >> 48u64) as u8 == b1 && (x >> 40u64) as u8 == b2
        && (x >> 32u64) as u8 == b3 && (x >> 24u64) as u8 == b4 && (x >> 16u64) as u8 == b5
        && (x >> 8u64) as u8 == b6 && x as u8 == b7) by (bit_vector)
        requires
            x == (b0 as u64) * 0x100000000000000 + (b1 as u64) * 0x1000000000000 + (b2 as u64) * 0x10000000000
                + (b3 as u64) * 0x100000000 + (b4 as u64) * 0x1000000 + (b5 as u64) * 0x10000 + (b6 as u64) * 0x100 + (b7 as u64),
    ;
    assert(be_bytes(x) =~= b);
}

/// Reading an integer key back from the bytes it is stored under gives the same key.
pub proof fn integer_key_round_trip(k: IntegerKey)
    ensures
        k.key_bytes().len() == 8,
        be_value(k.key_bytes()) == k.value(),
{
    lemma_be_bytes_value(k.value());
}

/// Two integer keys stored under the same bytes are the same key.
pub proof fn integer_key_injective(a: IntegerKey, b: IntegerKey)
    requires
        a.key_bytes() == b.key_bytes(),
    ensures
        a == b,
{
    lemma_be_bytes_value(a.value());
    lemma_be_bytes_value(b.value());
}

/// A change the cache reports for a key.
#[derive(Debug, Clone)]
pub enum Event<K, V> {
    /// The key now holds the value.
    Insert { key: K, value: V },
    /// The key was removed.
    Remove { key: K },
}

impl<K, V> Event<K, V> {
    /// The key the change is about.
    pub fn key(&self) -> (k: &K)
        ensures
            *k == match *self {
                Event::Insert { key, .. } => key,
                Event::Remove { key } => key,
            },
    {
        match self {
            Event::Insert { key, .. } => key,
            Event::Remove { key } => key,
        }
    }
}

} // verus!
