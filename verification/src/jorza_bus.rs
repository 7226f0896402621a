//! Frames of the bus exposed to C++ and Python: an id and data bytes, with a short
//! hex description.
use vstd::prelude::*;
use crate::error::JcanError;
use crate::text::{all_digits, concat_map, digits_value, lemma_digits_value, push_radix, radix_text};

verus! {

/// A frame as handed across the C++ and Python bindings: an id and its data bytes.
#[derive(Debug, Clone)]
pub struct JorzaFrame {
    pub id: u32,
    pub data: Vec<u8>,
}

/// One data byte of a description: its upper-case hex digits, unpadded, and a space.
pub open spec fn short_byte_text(b: u8) -> Seq<char> {
    radix_text(b as nat, 16, true) + seq![' ']
}

/// The data bytes of a description, each as `short_byte_text` gives it.
pub open spec fn short_data_text(data: Seq<u8>) -> Seq<char> {
    concat_map(data, |b: u8| short_byte_text(b))
}

/// The description of a frame: `ID: 0x`, the id in upper-case hex, ` Data: `, then each
/// byte in hex followed by a space.
pub open spec fn jorza_frame_text(id: u32, data: Seq<u8>) -> Seq<char> {
    "ID: 0x"@ + radix_text(id as nat, 16, true) + " Data: "@ + short_data_text(data)
}

/// A frame of the given id and data; every id and data length is taken as it is.
pub fn new_jorzaframe(id: u32, data: Vec<u8>) -> (r: Result<JorzaFrame, JcanError>)
    ensures
        r matches Ok(f) && f.id == id && f.data@ == data@,
{
    Ok(JorzaFrame { id, data })
}

impl JorzaFrame {
    /// The frame's description, e.g. `ID: 0x123 Data: A 1B `.
    pub fn to_string(&self) -> (text: String)
        ensures
            text@ == jorza_frame_text(self.id, self.data@),
    {
        let mut text = String::from_str("ID: 0x");
        push_radix(&mut text, self.id as u64, 16, true);
        text.append(" Data: ");
        let ghost head = text@;
        let mut i: usize = 0;
        while i < self.data.len()
            invariant
                i <= self.data@.len(),
                text@ == head + short_data_text(self.data@.take(i as int)),
            decreases self.data@.len() - i,
        {
            push_radix(&mut text, self.data[i] as u64, 16, true);
            text.append(" ");
            proof {
                reveal_strlit(" ");
                let t = self.data@.take(i + 1);
                assert(t.drop_last() =~= self.data@.take(i as int));
                assert(short_data_text(t) == short_data_text(t.drop_last()) + short_byte_text(t.last()));
            }
            i = i + 1;
        }
        assert(self.data@.take(i as int) =~= self.data@);
        text
    }
}

/// A description starts with `ID: 0x` and the id's hex digits, which read back as the whole
/// id, followed by ` Data: ` and the description of the data bytes.
pub proof fn lemma_jorza_frame_text_id(id: u32, data: Seq<u8>)
    ensures
        exists|t: Seq<char>|
            jorza_frame_text(id, data) == "ID: 0x"@ + t + " Data: "@ + short_data_text(data) && all_digits(t, 16, true)
                && #[trigger] digits_value(t, 16) == id,
{
    let t = radix_text(id as nat, 16, true);
    lemma_digits_value(id as nat, 16, true);
    assert(digits_value(t, 16) == id);
}

/// The description of no bytes is empty, and describing one more byte appends its hex
/// digits, which read back as the byte, and a space.
pub proof fn lemma_short_data_text_push(data: Seq<u8>, b: u8)
    ensures
        short_data_text(Seq::empty()) == Seq::<char>::empty(),
        exists|t: Seq<char>|
            short_data_text(data.push(b)) == short_data_text(data) + t + seq![' '] && all_digits(t, 16, true)
                && #[trigger] digits_value(t, 16) == b,
{
    let t = radix_text(b as nat, 16, true);
    lemma_digits_value(b as nat, 16, true);
    assert(data.push(b).drop_last() =~= data);
    assert(short_data_text(data.push(b)) == short_data_text(data) + t + seq![' ']);
    assert(digits_value(t, 16) == b);
}

} // verus!
