//! What texts and numerals are for.
use crate::text::{
    copy_byte_strings, copy_bytes, copy_texts, decimal, decimal_text, decode, decode_all, encode,
    encode_all, enclosed, join, prefixed, same_bytes, same_text, signed_decimal_text,
};
use vstd::prelude::*;
use vstd::utf8::*;

verus! {

/// The number that a sequence of digits stands for.
pub open spec fn digits_stand_for(s: Seq<char>) -> nat
    decreases s.len(),
{
    if s.len() == 0 {
        0
    } else {
        10 * digits_stand_for(s.drop_last()) + (s.last() as nat - '0' as nat) as nat
    }
}

/// A numeral of a number: digits that stand for it, at least one and no zero in front of
/// others.
pub open spec fn is_numeral(s: Seq<char>, n: nat) -> bool {
    &&& s.len() > 0
    &&& forall|i: int| 0 <= i < s.len() ==> '0' <= #[trigger] s[i] <= '9'
    &&& s.len() > 1 ==> s[0] != '0'
    &&& digits_stand_for(s) == n
}

/// Decimal numerals are numerals.
pub proof fn numerals_are_decimal(n: nat)
    ensures
        is_numeral(decimal(n), n),
        n > 0 ==> decimal(n)[0] != '0',
    decreases n,
{
    let s = decimal(n);
    if n < 10 {
        assert(s.drop_last() =~= Seq::<char>::empty());
        assert(digits_stand_for(s.drop_last()) == 0);
    } else {
        numerals_are_decimal(n / 10);
        assert(s.drop_last() =~= decimal(n / 10));
        assert(s.last() as nat - '0' as nat == n % 10);
        assert(s[0] == decimal(n / 10)[0]);
    }
}

/// Numbers are written as numerals, with a minus sign in front of negative ones.
pub proof fn numbers_are_written(n: u128, text: String, m: i64, signed: String)
    requires
        call_ensures(decimal_text, (n,), text),
        call_ensures(signed_decimal_text, (m,), signed),
    ensures
        is_numeral(text@, n as nat),
        m >= 0 ==> is_numeral(signed@, m as nat),
        m < 0 ==> signed@.len() > 0 && signed@[0] == '-' && is_numeral(
            signed@.drop_first(),
            (-m) as nat,
        ),
{
    numerals_are_decimal(n as nat);
    if m >= 0 {
        numerals_are_decimal(m as nat);
    } else {
        numerals_are_decimal((-m) as nat);
        assert(signed@.drop_first() =~= decimal((-m) as nat));
    }
}

/// Encoding a text and decoding it again gives the text back, and so it is with lists.
pub proof fn encoding_is_undone(
    text: String,
    bytes: Vec<u8>,
    back: String,
    list: Vec<String>,
    encoded: Vec<Vec<u8>>,
    decoded: Vec<String>,
)
    requires
        exists|s: &str| s@ == text@ && #[trigger] call_ensures(encode, (s,), bytes),
        call_ensures(decode, (&bytes,), back),
        call_ensures(encode_all, (&list,), encoded),
        call_ensures(decode_all, (&encoded,), decoded),
    ensures
        bytes@ == encode_utf8(text@),
        back@ == text@,
        encoded@.len() == list@.len(),
        forall|i: int|
            0 <= i < list@.len() ==> (#[trigger] encoded@[i])@ == encode_utf8(list@[i]@),
        decoded@.len() == list@.len(),
        forall|i: int| 0 <= i < list@.len() ==> (#[trigger] decoded@[i])@ == list@[i]@,
{
    encode_utf8_decode_utf8(text@);
    let names = list@.map_values(|s: String| s@);
    let codes = encoded@.map_values(|b: Vec<u8>| b@);
    let again = decoded@.map_values(|s: String| s@);
    assert(names.len() == list@.len() && codes.len() == encoded@.len() && again.len()
        == decoded@.len());
    assert forall|i: int| 0 <= i < list@.len() implies (#[trigger] encoded@[i])@ == encode_utf8(
        list@[i]@,
    ) by {
        assert(codes[i] == encoded@[i]@ && names[i] == list@[i]@);
    }
    assert forall|i: int| 0 <= i < list@.len() implies (#[trigger] decoded@[i])@ == list@[i]@ by {
        assert(again[i] == decoded@[i]@ && codes[i] == encoded@[i]@ && names[i] == list@[i]@);
        encode_utf8_decode_utf8(list@[i]@);
    }
}

/// Byte strings and texts are the same exactly if they hold the same, and copies hold the
/// same as what was copied.
pub proof fn copies_are_the_same(
    a: Vec<u8>,
    b: Vec<u8>,
    same: bool,
    copy: Vec<u8>,
    list: Vec<Vec<u8>>,
    copies: Vec<Vec<u8>>,
    texts: Vec<String>,
    text_copies: Vec<String>,
)
    requires
        call_ensures(same_bytes, (&a, &b), same),
        call_ensures(copy_bytes, (&a,), copy),
        call_ensures(copy_byte_strings, (&list,), copies),
        call_ensures(copy_texts, (&texts,), text_copies),
    ensures
        same <==> a@ == b@,
        copy@ == a@,
        copies@.len() == list@.len(),
        forall|i: int| 0 <= i < list@.len() ==> (#[trigger] copies@[i])@ == list@[i]@,
        text_copies@.len() == texts@.len(),
        forall|i: int| 0 <= i < texts@.len() ==> (#[trigger] text_copies@[i])@ == texts@[i]@,
{
    let was = list@.map_values(|b: Vec<u8>| b@);
    let now = copies@.map_values(|b: Vec<u8>| b@);
    assert(was.len() == list@.len() && now.len() == copies@.len());
    assert forall|i: int| 0 <= i < list@.len() implies (#[trigger] copies@[i])@ == list@[i]@ by {
        assert(was[i] == list@[i]@ && now[i] == copies@[i]@);
    }
}

/// Texts are put together from their parts in order.
pub proof fn texts_are_put_together(
    before: &str,
    middle: &str,
    after: &str,
    same: bool,
    around: String,
    in_front: String,
)
    requires
        call_ensures(same_text, (before, middle), same),
        call_ensures(enclosed, (before, middle, after), around),
        call_ensures(prefixed, (before, middle), in_front),
    ensures
        same <==> before@ == middle@,
        around@ == before@ + middle@ + after@,
        in_front@ == before@ + middle@,
{
}

/// Joining no lines gives nothing and joining one gives that line. One more line behind others
/// comes with one separator in front of it.
pub proof fn joined_lines_are_separated(
    lines: Vec<String>,
    more: Vec<String>,
    line: String,
    separator: &str,
    joined: String,
    joined_more: String,
)
    requires
        more@ == lines@.push(line),
        call_ensures(join, (&lines, separator), joined),
        call_ensures(join, (&more, separator), joined_more),
    ensures
        lines@.len() == 0 ==> joined@.len() == 0 && joined_more@ == line@,
        lines@.len() > 0 ==> joined_more@ == joined@ + separator@ + line@,
{
    let texts = lines@.map_values(|s: String| s@);
    let all = more@.map_values(|s: String| s@);
    assert(all =~= texts.push(line@));
    assert(all.drop_last() =~= texts);
}

} // verus!
