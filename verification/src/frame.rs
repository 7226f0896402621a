//! `JFrame`: a CAN frame of an id and up to eight data bytes.
use vstd::prelude::*;
use crate::error::JcanError;
use crate::id::{MAX_EXTENDED_ID, MAX_STANDARD_ID, id_for_raw, raw_of};
use vstd::std_specs::cmp::PartialEqSpecImpl;
use crate::text::{
    all_digits, digits_value, lemma_padded_digits,
    concat_map, hex_value, is_hex_char, lemma_hex_digits_len, lemma_padded_hex, pow16, push_padded, radix_text,
    zero_pad,
};

verus! {

/// The largest number of data bytes that a frame carries.
pub const MAX_DATA_LEN: usize = 8;

/// A CAN frame: an identifier and at most eight bytes of data.
#[derive(Debug)]
pub struct JFrame {
    id: u32,
    data: Vec<u8>,
}

impl JFrame {
    /// Every frame carries at most eight data bytes.
    #[verifier::type_invariant]
    spec fn data_fits(self) -> bool {
        self.data.len() <= MAX_DATA_LEN
    }
}

impl View for JFrame {
    type V = (u32, Seq<u8>);

    /// The frame's id and data bytes.
    closed spec fn view(&self) -> (u32, Seq<u8>) {
        (self.id, self.data@)
    }
}

/// The text of one data byte: two upper-case hex digits.
pub open spec fn byte_text(b: u8) -> Seq<char> {
    zero_pad(radix_text(b as nat, 16, true), 2)
}

/// The number of hex digits that the id of a frame is written with: three for an id that
/// fits in 11 bits (a standard id), eight otherwise (an extended id).
pub open spec fn id_width(id: u32) -> nat {
    if id <= MAX_STANDARD_ID {
        3
    } else {
        8
    }
}

/// The id of a frame in upper-case hex, widened by leading zeros to `id_width`.
pub open spec fn id_text(id: u32) -> Seq<char> {
    zero_pad(radix_text(id as nat, 16, true), id_width(id))
}

/// The text of all data bytes, each as `byte_text` gives it.
pub open spec fn data_text(data: Seq<u8>) -> Seq<char> {
    concat_map(data, |b: u8| byte_text(b))
}

/// The printed form of a frame, as `cansend` takes it (`123#AABBCCDD`): the id as
/// `id_text` gives it (three digits for a standard id, eight for an extended one), `#`,
/// then each data byte as two upper-case hex digits.
pub open spec fn frame_text(id: u32, data: Seq<u8>) -> Seq<char> {
    id_text(id) + seq!['#'] + data_text(data)
}

/// What building a frame from `id` and `data` gives: the frame, or the error for data
/// longer than eight bytes.
pub open spec fn build_result(id: u32, data: Seq<u8>, r: Result<JFrame, JcanError>) -> bool {
    if data.len() <= MAX_DATA_LEN {
        r matches Ok(f) && f@ == (id, data)
    } else {
        r == Err::<JFrame, JcanError>(JcanError::DataTooLong(data.len() as usize))
    }
}

/// Builds a frame from an id and data bytes; the data may hold at most eight bytes.
pub fn new_jframe(id: u32, data: Vec<u8>) -> (r: Result<JFrame, JcanError>)
    ensures
        build_result(id, data@, r),
{
    JFrame::build(id, data)
}

impl JFrame {
    /// Builds a frame from an id and data bytes; the data may hold at most eight bytes.
    pub fn build(id: u32, data: Vec<u8>) -> (r: Result<JFrame, JcanError>)
        ensures
            build_result(id, data@, r),
    {
        let mut frame = JFrame { id: 0, data: Vec::new() };
        let _ = frame.set_id(id);
        match frame.set_data(data) {
            Ok(()) => Ok(frame),
            Err(e) => Err(e),
        }
    }

    /// Sets the frame's id; any id is accepted.
    pub fn set_id(&mut self, id: u32) -> (r: Result<(), JcanError>)
        ensures
            r is Ok,
            final(self)@ == (id, old(self)@.1),
    {
        proof {
            use_type_invariant(&*self);
        }
        self.id = id;
        Ok(())
    }

    /// The frame's id.
    pub fn get_id(&self) -> (id: u32)
        ensures
            id == self@.0,
    {
        self.id
    }

    /// Replaces the frame's data; data longer than eight bytes is refused and leaves the
    /// frame as it was.
    pub fn set_data(&mut self, data: Vec<u8>) -> (r: Result<(), JcanError>)
        ensures
            data@.len() <= MAX_DATA_LEN ==> r is Ok && final(self)@ == (old(self)@.0, data@),
            data@.len() > MAX_DATA_LEN ==> r == Err::<(), JcanError>(JcanError::DataTooLong(data@.len() as usize))
                && final(self)@ == old(self)@,
    {
        if data.len() > MAX_DATA_LEN {
            return Err(JcanError::DataTooLong(data.len()));
        }
        self.data = data;
        Ok(())
    }

    /// A copy of the frame's data bytes, at most eight of them.
    pub fn get_data(&self) -> (data: Vec<u8>)
        ensures
            data@ == self@.1,
            data@.len() <= MAX_DATA_LEN,
    {
        proof {
            use_type_invariant(self);
        }
        let data = self.data.clone();
        assert(data@ =~= self.data@);
        data
    }

    /// The frame in the form that `cansend` takes, e.g. `123#0A0B` or `18DAF110#01`, as
    /// `frame_text` states it.
    pub fn to_string(&self) -> (text: String)
        ensures
            text@ == frame_text(self@.0, self@.1),
    {
        let mut text = String::new();
        let width: u64 = if self.id <= MAX_STANDARD_ID { 3 } else { 8 };
        push_padded(&mut text, self.id as u64, 16, true, width);
        text.append("#");
        let ghost head = text@;
        let mut i: usize = 0;
        while i < self.data.len()
            invariant
                i <= self.data@.len(),
                text@ == head + data_text(self.data@.take(i as int)),
            decreases self.data@.len() - i,
        {
            push_padded(&mut text, self.data[i] as u64, 16, true, 2);
            proof {
                let t = self.data@.take(i + 1);
                assert(t.drop_last() =~= self.data@.take(i as int));
                assert(data_text(t) == data_text(t.drop_last()) + byte_text(t.last()));
            }
            i = i + 1;
        }
        assert(self.data@.take(i as int) =~= self.data@);
        proof {
            reveal_strlit("#");
        }
        text
    }
}

/// A frame put on the wire under the identifier chosen for its id, and rebuilt from the raw
/// id and data read back, is the same frame.
pub proof fn lemma_frame_wire_round_trip(id: u32, data: Seq<u8>, rebuilt: Result<JFrame, JcanError>)
    requires
        id <= MAX_EXTENDED_ID,
        data.len() <= MAX_DATA_LEN,
        build_result(raw_of(id_for_raw(id)), data, rebuilt),
    ensures
        rebuilt matches Ok(f) && f@ == (id, data),
{
}

/// A byte is written with exactly two hex digits, which read back as the byte.
proof fn lemma_byte_text(b: u8)
    ensures
        byte_text(b).len() == 2,
        hex_value(byte_text(b)) == b,
{
    reveal_with_fuel(pow16, 3);
    lemma_hex_digits_len(b as nat, 2);
    lemma_padded_hex(b as nat, 2);
}

/// The id of a frame is written with exactly `id_width` hex digits, which read back as
/// the id.
proof fn lemma_id_text(id: u32)
    ensures
        id_text(id).len() == id_width(id),
        hex_value(id_text(id)) == id,
        forall|i: int| 0 <= i < id_text(id).len() ==> is_hex_char(#[trigger] id_text(id)[i]),
{
    reveal_with_fuel(pow16, 9);
    if id <= MAX_STANDARD_ID {
        lemma_hex_digits_len(id as nat, 3);
    } else {
        lemma_hex_digits_len(id as nat, 8);
    }
    lemma_padded_hex(id as nat, id_width(id));
}

/// The data text holds two characters per byte, the `i`-th pair being `byte_text` of the
/// `i`-th byte.
proof fn lemma_data_text(data: Seq<u8>)
    ensures
        data_text(data).len() == 2 * data.len(),
        forall|i: int| 0 <= i < data.len() ==> #[trigger] data_text(data).subrange(2 * i, 2 * i + 2) == byte_text(data[i]),
    decreases data.len(),
{
    if data.len() > 0 {
        let prev = data.drop_last();
        lemma_data_text(prev);
        lemma_byte_text(data.last());
        let t = data_text(data);
        assert(t == data_text(prev) + byte_text(data.last()));
        assert forall|i: int| 0 <= i < data.len() implies #[trigger] data_text(data).subrange(2 * i, 2 * i + 2) == byte_text(data[i]) by {
            if i < data.len() - 1 {
                assert(data_text(prev).subrange(2 * i, 2 * i + 2) == byte_text(prev[i]));
                assert(t.subrange(2 * i, 2 * i + 2) =~= data_text(prev).subrange(2 * i, 2 * i + 2));
            } else {
                assert(t.subrange(2 * i, 2 * i + 2) =~= byte_text(data.last()));
            }
        }
    }
}

/// A printed frame is the id's upper-case hex digits (three for an id of at most `0x7FF`,
/// eight otherwise), which read back as the id, then `#`, then two upper-case hex digits
/// per data byte, in order, each pair reading back as its byte.
pub proof fn lemma_frame_text_parts(id: u32, data: Seq<u8>)
    ensures
        exists|t: Seq<char>|
            frame_text(id, data) == t + seq!['#'] + data_text(data) && all_digits(t, 16, true)
                && t.len() == (if id <= MAX_STANDARD_ID { 3nat } else { 8nat }) && #[trigger] digits_value(t, 16) == id,
        data_text(data).len() == 2 * data.len(),
        forall|i: int| 0 <= i < data.len() ==> {
            let p = #[trigger] data_text(data).subrange(2 * i, 2 * i + 2);
            all_digits(p, 16, true) && digits_value(p, 16) == data[i]
        },
{
    lemma_id_text(id);
    lemma_padded_digits(id as nat, 16, true, id_width(id));
    let t = id_text(id);
    assert(digits_value(t, 16) == id);
    lemma_data_text(data);
    assert forall|i: int| 0 <= i < data.len() implies {
        let p = #[trigger] data_text(data).subrange(2 * i, 2 * i + 2);
        all_digits(p, 16, true) && digits_value(p, 16) == data[i]
    } by {
        lemma_padded_digits(data[i] as nat, 16, true, 2);
    }
}

/// The printed form identifies the frame: two frames that print alike have the same id and
/// the same data bytes.
pub proof fn lemma_frame_text_identifies(id1: u32, data1: Seq<u8>, id2: u32, data2: Seq<u8>)
    requires
        frame_text(id1, data1) == frame_text(id2, data2),
    ensures
        id1 == id2,
        data1 == data2,
{
    let t = frame_text(id1, data1);
    lemma_id_text(id1);
    lemma_id_text(id2);
    let w1 = id_width(id1) as int;
    let w2 = id_width(id2) as int;
    assert(t[w1] == '#');
    assert(frame_text(id2, data2)[w2] == '#');
    if w1 < w2 {
        assert(frame_text(id2, data2)[w1] == id_text(id2)[w1]);
        assert(is_hex_char(id_text(id2)[w1]));
    } else if w2 < w1 {
        assert(t[w2] == id_text(id1)[w2]);
        assert(is_hex_char(id_text(id1)[w2]));
    }
    assert(w1 == w2);
    assert(t.subrange(0, w1) =~= id_text(id1));
    assert(frame_text(id2, data2).subrange(0, w2) =~= id_text(id2));
    assert(id_text(id1) == id_text(id2));
    assert(t.subrange(w1 + 1, t.len() as int) =~= data_text(data1));
    assert(frame_text(id2, data2).subrange(w2 + 1, t.len() as int) =~= data_text(data2));
    lemma_data_text(data1);
    lemma_data_text(data2);
    assert(data1.len() == data2.len());
    assert forall|i: int| 0 <= i < data1.len() implies data1[i] == data2[i] by {
        assert(data_text(data1).subrange(2 * i, 2 * i + 2) == byte_text(data1[i]));
        assert(data_text(data2).subrange(2 * i, 2 * i + 2) == byte_text(data2[i]));
        lemma_byte_text(data1[i]);
        lemma_byte_text(data2[i]);
    }
    assert(data1 =~= data2);
}

impl Clone for JFrame {
    /// A frame with the same id and data.
    fn clone(&self) -> (copy: JFrame)
        ensures
            copy@ == self@,
    {
        proof {
            use_type_invariant(self);
        }
        let data = self.data.clone();
        assert(data@ =~= self.data@);
        JFrame { id: self.id, data }
    }
}

impl PartialEq for JFrame {
    /// Frames are equal when their ids and their data bytes are.
    fn eq(&self, other: &JFrame) -> (same: bool) {
        if self.id != other.id || self.data.len() != other.data.len() {
            return false;
        }
        let mut i: usize = 0;
        while i < self.data.len()
            invariant
                i <= self.data@.len(),
                self.data@.len() == other.data@.len(),
                forall|j: int| 0 <= j < i ==> self.data@[j] == other.data@[j],
            decreases self.data@.len() - i,
        {
            if self.data[i] != other.data[i] {
                return false;
            }
            i = i + 1;
        }
        assert(self.data@ =~= other.data@);
        true
    }
}

impl PartialEqSpecImpl for JFrame {
    open spec fn obeys_eq_spec() -> bool {
        true
    }

    open spec fn eq_spec(&self, other: &JFrame) -> bool {
        self@ == other@
    }
}

} // verus!
