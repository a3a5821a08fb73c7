//! Universally unique identifiers and their texts.

use vstd::prelude::*;

verus! {

/// A UUID by its 128 bits.
#[derive(Clone, Copy, PartialEq, Eq, Structural, Debug)]
pub struct Uuid {
    pub bits: u128,
}

/// The lower case hexadecimal digit of `d`.
pub open spec fn hex_digit(d: int) -> char {
    if d < 10 {
        (('0' as u32) + d) as char
    } else {
        (('a' as u32) + (d - 10)) as char
    }
}

/// The lowest `n` hexadecimal digits of `x`.
pub open spec fn hex_digits(x: nat, n: nat) -> Seq<char>
    decreases n,
{
    if n == 0 {
        Seq::empty()
    } else {
        hex_digits(x / 16, (n - 1) as nat).push(hex_digit((x % 16) as int))
    }
}

/// The text of a UUID: its 32 digits in groups of 8, 4, 4, 4 and 12.
pub open spec fn hyphenated(bits: u128) -> Seq<char> {
    let d = hex_digits(bits as nat, 32);
    d.subrange(0, 8) + seq!['-'] + d.subrange(8, 12) + seq!['-'] + d.subrange(12, 16) + seq!['-']
        + d.subrange(16, 20) + seq!['-'] + d.subrange(20, 32)
}

/// `16` to the power `n`.
pub open spec fn hex_pow(n: nat) -> nat
    decreases n,
{
    if n == 0 {
        1
    } else {
        16 * hex_pow((n - 1) as nat)
    }
}

proof fn lemma_hex_digit(a: int, b: int)
    requires
        0 <= a < 16,
        0 <= b < 16,
        hex_digit(a) == hex_digit(b),
    ensures
        a == b,
{
}

proof fn lemma_hex_digits(x: nat, y: nat, n: nat)
    requires
        x < hex_pow(n),
        y < hex_pow(n),
    ensures
        hex_digits(x, n).len() == n,
        hex_digits(x, n) == hex_digits(y, n) ==> x == y,
    decreases n,
{
    if n > 0 {
        lemma_hex_digits(x / 16, y / 16, (n - 1) as nat);
        if hex_digits(x, n) == hex_digits(y, n) {
            assert(hex_digits(x, n).last() == hex_digits(y, n).last());
            lemma_hex_digit((x % 16) as int, (y % 16) as int);
            assert(hex_digits(x, n).drop_last() =~= hex_digits(x / 16, (n - 1) as nat));
            assert(hex_digits(y, n).drop_last() =~= hex_digits(y / 16, (n - 1) as nat));
        }
    }
}

/// Different UUIDs have different texts, of 36 characters each.
pub proof fn uuid_texts_differ(a: Uuid, b: Uuid)
    ensures
        hyphenated(a.bits).len() == 36,
        a != b ==> hyphenated(a.bits) != hyphenated(b.bits),
{
    reveal_with_fuel(hex_pow, 33);
    lemma_hex_digits(a.bits as nat, b.bits as nat, 32);
    lemma_hex_digits(b.bits as nat, a.bits as nat, 32);
    let x = hex_digits(a.bits as nat, 32);
    let y = hex_digits(b.bits as nat, 32);
    let s = hyphenated(a.bits);
    let t = hyphenated(b.bits);
    if s == t {
        assert(s.subrange(0, 8) =~= x.subrange(0, 8));
        assert(t.subrange(0, 8) =~= y.subrange(0, 8));
        assert(s.subrange(9, 13) =~= x.subrange(8, 12));
        assert(t.subrange(9, 13) =~= y.subrange(8, 12));
        assert(s.subrange(14, 18) =~= x.subrange(12, 16));
        assert(t.subrange(14, 18) =~= y.subrange(12, 16));
        assert(s.subrange(19, 23) =~= x.subrange(16, 20));
        assert(t.subrange(19, 23) =~= y.subrange(16, 20));
        assert(s.subrange(24, 36) =~= x.subrange(20, 32));
        assert(t.subrange(24, 36) =~= y.subrange(20, 32));
        assert(x =~= x.subrange(0, 8) + x.subrange(8, 12) + x.subrange(12, 16) + x.subrange(16, 20)
            + x.subrange(20, 32));
        assert(y =~= y.subrange(0, 8) + y.subrange(8, 12) + y.subrange(12, 16) + y.subrange(16, 20)
            + y.subrange(20, 32));
    }
}

/// Calls `uuid::Uuid::new_v4`. Of the random bits the contract claims only what
/// holds of every such UUID: the version bits say 4 and the variant bits say 2. The
/// call panics where the system has no random bytes to give.
#[verifier::external_body]
fn random_bits() -> (r: u128)
    ensures
        (r >> 76) & 0xf == 4,
        (r >> 62) & 0x3 == 2,
{
    uuid::Uuid::new_v4().as_u128()
}

/// Formats the UUID of the given bits through `uuid::Uuid`'s `Display`: 32 lower
/// case hexadecimal digits, the highest first, in hyphenated groups.
#[verifier::external_body]
fn hyphenate(bits: u128) -> (r: String)
    ensures
        r@ == hyphenated(bits),
{
    uuid::Uuid::from_u128(bits).to_string()
}

impl Uuid {
    /// What holds of every random UUID: the version bits say 4 and the variant bits
    /// say 2.
    pub open spec fn is_v4(self) -> bool {
        &&& (self.bits >> 76) & 0xf == 4
        &&& (self.bits >> 62) & 0x3 == 2
    }

    /// A random UUID
    pub fn new_v4() -> (r: Self)
        ensures
            r.is_v4(),
    {
        Uuid { bits: random_bits() }
    }

    /// The text of the UUID
    pub fn to_text(&self) -> (r: String)
        ensures
            r@ == hyphenated(self.bits),
    {
        hyphenate(self.bits)
    }
}

/// `name` with the UUID behind it.
pub open spec fn with_uuid(name: Seq<char>, uuid: Uuid) -> Seq<char> {
    name + "_"@ + hyphenated(uuid.bits)
}

/// `name` with the UUID behind it
pub fn name_with_uuid(name: &str, uuid: &Uuid) -> (r: String)
    ensures
        r@ == with_uuid(name@, *uuid),
        r@ == name@ + "_"@ + hyphenated(uuid.bits),
{
    let mut r: String = name.to_owned();
    r.append("_");
    r.append(uuid.to_text().as_str());
    r
}

/// Names with the UUIDs of two different networks behind them never meet, whatever
/// the names are, and under one UUID different names stay different.
pub proof fn names_with_uuid_differ(a: Seq<char>, u: Uuid, b: Seq<char>, v: Uuid)
    requires
        a != b || u != v,
    ensures
        with_uuid(a, u) != with_uuid(b, v),
{
    uuid_texts_differ(u, v);
    uuid_texts_differ(v, u);
    let s = with_uuid(a, u);
    let t = with_uuid(b, v);
    if s == t {
        let n = s.len() - 36;
        assert(s.skip(n) =~= hyphenated(u.bits));
        assert(t.skip(n) =~= hyphenated(v.bits));
        assert(s.take(n) =~= a + "_"@);
        assert(t.take(n) =~= b + "_"@);
        assert(a =~= (a + "_"@).take(n - "_"@.len()));
        assert(b =~= (b + "_"@).take(n - "_"@.len()));
    }
}

} // verus!
