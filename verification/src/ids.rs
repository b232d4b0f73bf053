//! Identifiers of the nodes, clusters and changes that commands speak of.

use crate::text::decimal_text;
#[allow(unused_imports)]
use crate::text::{decimal, decimal_value, digit, law_decimal_reads_back};
#[allow(unused_imports)]
use vstd::arithmetic::power::pow;
use vstd::prelude::*;

verus! {

/// The identifier of an actor (a node of the cluster): a UUID, as the number its bytes make in
/// big-endian order.
#[derive(Debug, Clone, Copy, PartialEq, Eq, Structural)]
pub struct ActorId(pub u128);

/// The identifier of a cluster.
#[derive(Debug, Clone, Copy, PartialEq, Eq, Structural)]
pub struct ClusterId(pub u16);

/// The version of an actor's database after one of its transactions.
#[derive(Debug, Clone, Copy, PartialEq, Eq, Structural)]
pub struct CrsqlDbVersion(pub u64);

/// The place of a change within its transaction.
#[derive(Debug, Clone, Copy, PartialEq, Eq, Structural)]
pub struct CrsqlSeq(pub u64);

/// The character of a hexadecimal digit, in lower case.
pub open spec fn hex_digit(d: nat) -> char {
    if d < 10 {
        digit(d)
    } else {
        (87 + d) as char
    }
}

/// The hexadecimal digit of a 128-bit number at a place counted from the most significant one.
pub open spec fn hex_place(id: u128, place: int) -> nat {
    ((id as int / pow(16, (31 - place) as nat)) % 16) as nat
}

/// A UUID in the hyphenated form: 32 hexadecimal digits in groups of 8, 4, 4, 4 and 12, with a
/// hyphen between each two groups.
pub open spec fn hyphenated(id: u128) -> Seq<char> {
    Seq::new(
        36,
        |i: int|
            if i == 8 || i == 13 || i == 18 || i == 23 {
                '-'
            } else {
                let hyphens: int = if i < 8 {
                    0
                } else if i < 13 {
                    1
                } else if i < 18 {
                    2
                } else if i < 23 {
                    3
                } else {
                    4
                };
                hex_digit(hex_place(id, i - hyphens))
            },
    )
}

/// The `Display` text of a `uuid::Uuid` that `Uuid::from_u128` made: the hyphenated form, in
/// lower case, most significant digit first.
#[verifier::external_body]
pub(crate) fn uuid_text(id: u128) -> (text: String)
    ensures
        text@ == hyphenated(id),
{
    uuid::Uuid::from_u128(id).to_string()
}

impl ActorId {
    /// The identifier as it is shown.
    pub open spec fn shown(self) -> Seq<char> {
        hyphenated(self.0)
    }

    /// Writes the identifier as it is shown.
    pub fn text(&self) -> (text: String)
        ensures
            text@ == self.shown(),
    {
        uuid_text(self.0)
    }
}

impl ClusterId {
    /// The identifier as it is shown.
    pub open spec fn shown(self) -> Seq<char> {
        decimal(self.0 as nat)
    }

    /// Writes the identifier as it is shown.
    pub fn text(&self) -> (text: String)
        ensures
            text@ == self.shown(),
    {
        decimal_text(self.0 as u64)
    }
}

/// What a hexadecimal digit in lower case says.
pub open spec fn hex_value(c: char) -> int {
    if '0' <= c <= '9' {
        c as int - '0' as int
    } else {
        c as int - 'a' as int + 10
    }
}

/// What a text of hexadecimal digits and hyphens says, the hyphens aside.
pub open spec fn uuid_value(text: Seq<char>) -> int
    decreases text.len(),
{
    if text.len() == 0 {
        0
    } else if text.last() == '-' {
        uuid_value(text.drop_last())
    } else {
        uuid_value(text.drop_last()) * 16 + hex_value(text.last())
    }
}

/// How many of the first characters of a hyphenated UUID are digits.
spec fn digits_within(k: int) -> int {
    if k <= 8 {
        k
    } else if k <= 13 {
        k - 1
    } else if k <= 18 {
        k - 2
    } else if k <= 23 {
        k - 3
    } else {
        k - 4
    }
}

proof fn lemma_hex_digit(d: nat)
    requires
        d < 16,
    ensures
        hex_digit(d) != '-',
        hex_value(hex_digit(d)) == d,
        '0' <= hex_digit(d) <= '9' || 'a' <= hex_digit(d) <= 'f',
{
}

proof fn lemma_uuid_prefix(id: u128, k: int)
    requires
        0 <= k <= 36,
    ensures
        uuid_value(hyphenated(id).take(k)) == id as int / pow(16, (32 - digits_within(k)) as nat),
    decreases k,
{
    let text = hyphenated(id);
    if k == 0 {
        lemma_sixteen();
        assert(text.take(0) =~= Seq::<char>::empty());
        vstd::arithmetic::div_mod::lemma_basic_div(id as int, pow(16, 32));
    } else {
        lemma_uuid_prefix(id, k - 1);
        assert(text.take(k).drop_last() =~= text.take(k - 1));
        assert(text.take(k).last() == text[k - 1]);
        let i = k - 1;
        if i == 8 || i == 13 || i == 18 || i == 23 {
            assert(text[i] == '-');
            assert(digits_within(k) == digits_within(k - 1));
        } else {
            let place = digits_within(k - 1);
            assert(text[i] == hex_digit(hex_place(id, place)));
            let low = pow(16, (31 - place) as nat);
            vstd::arithmetic::power::lemma_pow_positive(16, (31 - place) as nat);
            let x = id as int / low;
            vstd::arithmetic::div_mod::lemma_div_denominator(id as int, low, 16);
            assert(pow(16, (32 - place) as nat) == low * 16) by {
                vstd::arithmetic::power::lemma_pow1(16);
                vstd::arithmetic::power::lemma_pow_adds(16, (31 - place) as nat, 1);
            }
            vstd::arithmetic::div_mod::lemma_fundamental_div_mod(x, 16);
            vstd::arithmetic::div_mod::lemma_div_pos_is_pos(id as int, low);
            lemma_hex_digit(hex_place(id, place));
            assert(digits_within(k) == place + 1);
        }
    }
}

proof fn lemma_sixteen()
    ensures
        pow(16, 32) == u128::MAX + 1,
{
    vstd::arithmetic::power::lemma_pow1(16);
    vstd::arithmetic::power::lemma_pow_adds(16, 1, 1);
    assert(pow(16, 2) == 0x100);
    vstd::arithmetic::power::lemma_pow_adds(16, 2, 2);
    assert(pow(16, 4) == 0x1_0000);
    vstd::arithmetic::power::lemma_pow_adds(16, 4, 4);
    assert(pow(16, 8) == 0x1_0000_0000);
    vstd::arithmetic::power::lemma_pow_adds(16, 8, 8);
    assert(pow(16, 16) == 0x1_0000_0000_0000_0000);
    vstd::arithmetic::power::lemma_pow_adds(16, 16, 16);
    assert(0x1_0000_0000_0000_0000int * 0x1_0000_0000_0000_0000int == u128::MAX + 1)
        by (nonlinear_arith);
}

/// An actor's identifier can be read back from how it is shown: 36 characters, of which four are
/// hyphens at fixed places and the others hexadecimal digits in lower case.
pub proof fn law_actor_id_reads_back(actor_id: ActorId)
    ensures
        actor_id.shown() == hyphenated(actor_id.0),
        uuid_value(actor_id.shown()) == actor_id.0,
        actor_id.shown().len() == 36,
        forall|i: int|
            0 <= i < 36 ==> if i == 8 || i == 13 || i == 18 || i == 23 {
                #[trigger] actor_id.shown()[i] == '-'
            } else {
                '0' <= actor_id.shown()[i] <= '9' || 'a' <= actor_id.shown()[i] <= 'f'
            },
{
    let text = hyphenated(actor_id.0);
    lemma_uuid_prefix(actor_id.0, 36);
    assert(text.take(36) =~= text);
    vstd::arithmetic::power::lemma_pow0(16);
    assert forall|i: int| 0 <= i < 36 implies if i == 8 || i == 13 || i == 18 || i == 23 {
        #[trigger] text[i] == '-'
    } else {
        '0' <= text[i] <= '9' || 'a' <= text[i] <= 'f'
    } by {
        if !(i == 8 || i == 13 || i == 18 || i == 23) {
            lemma_hex_digit(hex_place(actor_id.0, digits_within(i)));
        }
    }
}

/// A cluster's identifier can be read back from how it is shown, in decimal.
pub proof fn law_cluster_id_reads_back(cluster_id: ClusterId)
    ensures
        cluster_id.shown() == decimal(cluster_id.0 as nat),
        decimal_value(cluster_id.shown()) == cluster_id.0,
{
    law_decimal_reads_back(cluster_id.0 as nat);
}

} // verus!
