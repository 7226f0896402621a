//! One-line dumps of a received frame: id, length code and data bytes.
use vstd::prelude::*;
use crate::id::{CanId, get_raw_id, raw_of};
use crate::text::{
    all_digits, concat_map, digits_value, lemma_digits_value, lemma_hex_digits_len, lemma_padded_digits,
    lemma_radix_len_case, pow16, push_padded, radix_text, zero_pad,
};

verus! {

/// One data byte of a dump: a space and two lower-case hex digits.
pub open spec fn dump_byte_text(b: u8) -> Seq<char> {
    seq![' '] + zero_pad(radix_text(b as nat, 16, false), 2)
}

/// The data bytes of a dump, each as `dump_byte_text` gives it.
pub open spec fn dump_data_text(data: Seq<u8>) -> Seq<char> {
    concat_map(data, |b: u8| dump_byte_text(b))
}

/// A dump line: the raw id in upper-case hex of at least eight digits, two spaces, the
/// length code in decimal in brackets, a space, then the data bytes.
pub open spec fn dump_text(raw: u32, dlc: nat, data: Seq<u8>) -> Seq<char> {
    zero_pad(radix_text(raw as nat, 16, true), 8) + seq![' ', ' ', '['] + radix_text(dlc, 10, true)
        + seq![']', ' '] + dump_data_text(data)
}

/// The dump line of a frame with identifier `id`, length code `dlc` and data `data`,
/// e.g. `00000123  [2]  0a 0b`.
pub fn frame_to_string(id: &CanId, dlc: usize, data: &[u8]) -> (text: String)
    ensures
        text@ == dump_text(raw_of(*id), dlc as nat, data@),
{
    let raw = get_raw_id(id);
    let mut text = String::new();
    push_padded(&mut text, raw as u64, 16, true, 8);
    text.append("  [");
    push_padded(&mut text, dlc as u64, 10, true, 0);
    text.append("] ");
    let ghost head = text@;
    let mut i: usize = 0;
    while i < data.len()
        invariant
            i <= data@.len(),
            text@ == head + dump_data_text(data@.take(i as int)),
        decreases data@.len() - i,
    {
        text.append(" ");
        push_padded(&mut text, data[i] as u64, 16, false, 2);
        proof {
            reveal_strlit(" ");
            let t = data@.take(i + 1);
            assert(t.drop_last() =~= data@.take(i as int));
            assert(dump_data_text(t) == dump_data_text(t.drop_last()) + dump_byte_text(t.last()));
        }
        i = i + 1;
    }
    assert(data@.take(i as int) =~= data@);
    proof {
        reveal_strlit("  [");
        reveal_strlit("] ");
    }
    text
}

/// The data of a dump holds three characters per byte, in order: a space and two lower-case
/// hex digits that read back as the byte.
pub proof fn lemma_dump_data_text(data: Seq<u8>)
    ensures
        dump_data_text(data).len() == 3 * data.len(),
        forall|i: int| 0 <= i < data.len() ==> {
            let t = #[trigger] dump_data_text(data).subrange(3 * i, 3 * i + 3);
            &&& t[0] == ' '
            &&& all_digits(t.subrange(1, 3), 16, false)
            &&& digits_value(t.subrange(1, 3), 16) == data[i]
        },
    decreases data.len(),
{
    if data.len() > 0 {
        let prev = data.drop_last();
        lemma_dump_data_text(prev);
        let b = data.last();
        let d = zero_pad(radix_text(b as nat, 16, false), 2);
        lemma_padded_digits(b as nat, 16, false, 2);
        assert(d.len() == 2) by {
            reveal_with_fuel(pow16, 3);
            lemma_hex_digits_len(b as nat, 2);
            lemma_radix_len_case(b as nat, 16, false);
        }
        let whole = dump_data_text(data);
        assert(whole == dump_data_text(prev) + dump_byte_text(b));
        assert forall|i: int| 0 <= i < data.len() implies {
            let t = #[trigger] dump_data_text(data).subrange(3 * i, 3 * i + 3);
            &&& t[0] == ' '
            &&& all_digits(t.subrange(1, 3), 16, false)
            &&& digits_value(t.subrange(1, 3), 16) == data[i]
        } by {
            let t = whole.subrange(3 * i, 3 * i + 3);
            if i < data.len() - 1 {
                assert(t =~= dump_data_text(prev).subrange(3 * i, 3 * i + 3));
                assert(prev[i] == data[i]);
            } else {
                assert(t =~= dump_byte_text(b));
                assert(t.subrange(1, 3) =~= d);
            }
        }
    }
}

/// A dump line is the id's upper-case hex digits (at least eight, reading back as the raw
/// id), two spaces, the length code's decimal digits (reading back as it) in brackets, a
/// space, and the data as `lemma_dump_data_text` describes it, with every byte.
pub proof fn lemma_dump_text_parts(raw: u32, dlc: nat, data: Seq<u8>)
    ensures
        exists|t: Seq<char>, d: Seq<char>|
            dump_text(raw, dlc, data) == t + seq![' ', ' ', '['] + d + seq![']', ' '] + dump_data_text(data)
                && t.len() >= 8 && all_digits(t, 16, true) && #[trigger] digits_value(t, 16) == raw
                && all_digits(d, 10, true) && #[trigger] digits_value(d, 10) == dlc,
{
    let t = zero_pad(radix_text(raw as nat, 16, true), 8);
    let d = radix_text(dlc, 10, true);
    lemma_padded_digits(raw as nat, 16, true, 8);
    lemma_digits_value(dlc, 10, true);
    assert(digits_value(t, 16) == raw && digits_value(d, 10) == dlc);
}

} // verus!
