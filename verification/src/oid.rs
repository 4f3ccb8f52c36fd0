use vstd::prelude::*;
use vstd::string::StrSliceExecFns;

verus! {

/// An opaque record identifier: the 96-bit value carried by a 24-character
/// hexadecimal object-id string, as the backing store assigns them.
#[derive(Clone, Copy, PartialEq, Eq, Structural, Debug)]
pub struct RecordId {
    pub value: u128,
}

pub open spec fn is_hex_digit(c: char) -> bool {
    ('0' as int <= c as int && c as int <= '9' as int) || ('a' as int <= c as int && c as int
        <= 'f' as int) || ('A' as int <= c as int && c as int <= 'F' as int)
}

pub open spec fn hex_digit_value(c: char) -> int {
    if '0' as int <= c as int && c as int <= '9' as int {
        c as int - '0' as int
    } else if 'a' as int <= c as int && c as int <= 'f' as int {
        c as int - 'a' as int + 10
    } else {
        c as int - 'A' as int + 10
    }
}

/// A syntactically valid object-id string: exactly 24 hexadecimal digits.
pub open spec fn is_object_id_hex(s: Seq<char>) -> bool {
    s.len() == 24 && (forall|i: int| 0 <= i < s.len() ==> is_hex_digit(#[trigger] s[i]))
}

/// The integer value of a big-endian string of hexadecimal digits.
pub open spec fn hex_value(s: Seq<char>) -> int
    decreases s.len(),
{
    if s.len() == 0 {
        0
    } else {
        hex_value(s.drop_last()) * 16 + hex_digit_value(s.last())
    }
}

pub open spec fn pow16(n: nat) -> int
    decreases n,
{
    if n == 0 {
        1
    } else {
        16 * pow16((n - 1) as nat)
    }
}

proof fn lemma_pow16_increases(m: nat, n: nat)
    requires
        m <= n,
    ensures
        pow16(m) <= pow16(n),
    decreases n,
{
    if m < n {
        lemma_pow16_increases(m, (n - 1) as nat);
        assert(pow16((n - 1) as nat) >= 1) by {
            lemma_pow16_increases(0, (n - 1) as nat);
        }
    }
}

proof fn lemma_pow16_24()
    ensures
        pow16(24) == 0x1000000000000000000000000,
{
    reveal_with_fuel(pow16, 25);
}

proof fn lemma_hex_value_bound(s: Seq<char>)
    requires
        forall|i: int| 0 <= i < s.len() ==> is_hex_digit(#[trigger] s[i]),
    ensures
        0 <= hex_value(s) < pow16(s.len()),
    decreases s.len(),
{
    if s.len() > 0 {
        assert(forall|i: int|
            0 <= i < s.drop_last().len() ==> is_hex_digit(#[trigger] s.drop_last()[i]));
        lemma_hex_value_bound(s.drop_last());
        assert(is_hex_digit(s.last()));
        assert(0 <= hex_digit_value(s.last()) < 16);
    }
}

/// The value of a valid object-id string fits in 96 bits.
pub proof fn lemma_hex_value_fits(s: Seq<char>)
    requires
        is_object_id_hex(s),
    ensures
        0 <= hex_value(s) < 0x1000000000000000000000000,
{
    lemma_hex_value_bound(s);
    lemma_pow16_24();
}

impl RecordId {
    /// Parses the 24-hex-digit textual form of an identifier, as object-id
    /// strings are written; any other string is rejected.
    pub fn parse_str(s: &str) -> (r: Option<RecordId>)
        ensures
            r is Some <==> is_object_id_hex(s@),
            r matches Some(id) ==> id.value == hex_value(s@),
    {
        let n = s.unicode_len();
        if n != 24 {
            return None;
        }
        let mut value: u128 = 0;
        let mut i: usize = 0;
        while i < 24
            invariant
                0 <= i <= 24,
                s@.len() == 24,
                forall|j: int| 0 <= j < i ==> is_hex_digit(#[trigger] s@[j]),
                value == hex_value(s@.take(i as int)),
                value < pow16(i as nat),
            decreases 24 - i,
        {
            let c = s.get_char(i);
            let u = c as u32;
            let d: u32;
            if 48 <= u && u <= 57 {
                d = u - 48;
            } else if 97 <= u && u <= 102 {
                d = u - 87;
            } else if 65 <= u && u <= 70 {
                d = u - 55;
            } else {
                proof {
                    assert(!is_hex_digit(s@[i as int]));
                }
                return None;
            }
            proof {
                assert(is_hex_digit(s@[i as int]));
                assert(hex_digit_value(s@[i as int]) == d as int);
                let t = s@.take(i + 1);
                assert(t.drop_last() =~= s@.take(i as int));
                assert(t.last() == s@[i as int]);
                assert(hex_value(t) == value * 16 + d as int);
                lemma_pow16_increases((i + 1) as nat, 24);
                lemma_pow16_24();
            }
            value = value * 16 + d as u128;
            i = i + 1;
        }
        proof {
            assert(s@.take(24) =~= s@);
        }
        Some(RecordId { value })
    }
}

/// Relies on mongodb's `ObjectId::new` and `ObjectId::to_hex`: a freshly
/// generated object id rendered as its 24 lowercase hexadecimal characters.
/// The id drawn depends on the clock and a process-wide counter, so nothing
/// is promised of the value beyond its textual shape.
#[verifier::external_body]
pub(crate) fn fresh_object_id_hex() -> (r: String)
    ensures
        is_object_id_hex(r@),
{
    mongodb::bson::oid::ObjectId::new().to_hex()
}

} // verus!
