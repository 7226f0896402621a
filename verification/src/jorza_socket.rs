//! Frames and errors of the socket reader, with their printed forms.
use vstd::prelude::*;
use crate::text::{all_digits, digits_value, lemma_digits_value, push_radix, radix_text};

verus! {

/// A received frame: its raw id, data bytes and data length code.
#[derive(Debug, Clone)]
pub struct JorzaFrame {
    pub id: u32,
    pub data: Vec<u8>,
    pub dlc: u8,
}

/// An error of the socket reader, carried as its message.
#[derive(Debug, Clone)]
pub struct JorzaError {
    pub message: String,
}

/// The bytes in decimal, separated by `, ` (empty for no bytes).
pub open spec fn list_items_text(data: Seq<u8>) -> Seq<char>
    decreases data.len(),
{
    if data.len() == 0 {
        Seq::empty()
    } else if data.len() == 1 {
        radix_text(data[0] as nat, 10, true)
    } else {
        list_items_text(data.drop_last()) + seq![',', ' '] + radix_text(data.last() as nat, 10, true)
    }
}

/// The printed form of a frame: `JorzaFrame { id: `, the id in decimal, `, data: `, the
/// bytes in decimal as a bracketed list, `, dlc: `, the length code in decimal, ` }`.
pub open spec fn socket_frame_text(id: u32, data: Seq<u8>, dlc: u8) -> Seq<char> {
    "JorzaFrame { id: "@ + radix_text(id as nat, 10, true) + ", data: ["@ + list_items_text(data)
        + "], dlc: "@ + radix_text(dlc as nat, 10, true) + " }"@
}

/// The printed form of an error: `JorzaError { message: `, the message, ` }`.
pub open spec fn socket_error_text(message: Seq<char>) -> Seq<char> {
    "JorzaError { message: "@ + message + " }"@
}

/// The list of no bytes is empty, and listing one more byte appends `, ` (unless the list
/// was empty) and its decimal digits, which read back as the byte.
pub proof fn lemma_list_items_push(data: Seq<u8>, b: u8)
    ensures
        list_items_text(Seq::empty()) == Seq::<char>::empty(),
        exists|t: Seq<char>|
            list_items_text(data.push(b)) == list_items_text(data) + (if data.len() == 0 {
                Seq::<char>::empty()
            } else {
                seq![',', ' ']
            }) + t && all_digits(t, 10, true) && #[trigger] digits_value(t, 10) == b,
{
    let t = radix_text(b as nat, 10, true);
    lemma_digits_value(b as nat, 10, true);
    let d = data.push(b);
    assert(d.drop_last() =~= data);
    if data.len() == 0 {
        assert(d[0] == b);
        assert(list_items_text(d) =~= list_items_text(data) + Seq::<char>::empty() + t);
    } else {
        assert(list_items_text(d) == list_items_text(data) + seq![',', ' '] + t);
    }
    assert(digits_value(t, 10) == b);
}

/// The printed form of a frame holds the id's decimal digits (reading back as the id), the
/// bracketed list of all data bytes, and the length code's decimal digits (reading back as
/// it).
pub proof fn lemma_socket_frame_text_parts(id: u32, data: Seq<u8>, dlc: u8)
    ensures
        exists|t: Seq<char>, d: Seq<char>|
            socket_frame_text(id, data, dlc) == "JorzaFrame { id: "@ + t + ", data: ["@ + list_items_text(data)
                + "], dlc: "@ + d + " }"@ && all_digits(t, 10, true) && #[trigger] digits_value(t, 10) == id
                && all_digits(d, 10, true) && #[trigger] digits_value(d, 10) == dlc,
{
    let t = radix_text(id as nat, 10, true);
    let d = radix_text(dlc as nat, 10, true);
    lemma_digits_value(id as nat, 10, true);
    lemma_digits_value(dlc as nat, 10, true);
    assert(digits_value(t, 10) == id && digits_value(d, 10) == dlc);
}

/// The printed form of an error holds its whole message, after `JorzaError { message: `
/// and before ` }`.
pub proof fn lemma_socket_error_text(message: Seq<char>)
    ensures
        socket_error_text(message).len() == message.len() + 24,
        socket_error_text(message).subrange(22, 22 + message.len() as int) == message,
{
    reveal_strlit("JorzaError { message: ");
    reveal_strlit(" }");
    assert(socket_error_text(message).subrange(22, 22 + message.len() as int) =~= message);
}

impl JorzaFrame {
    /// The frame's printed form, e.g. `JorzaFrame { id: 291, data: [1, 2], dlc: 2 }`.
    pub fn to_string(&self) -> (text: String)
        ensures
            text@ == socket_frame_text(self.id, self.data@, self.dlc),
    {
        let mut text = String::from_str("JorzaFrame { id: ");
        push_radix(&mut text, self.id as u64, 10, true);
        text.append(", data: [");
        let ghost head = text@;
        let mut i: usize = 0;
        while i < self.data.len()
            invariant
                i <= self.data@.len(),
                text@ == head + list_items_text(self.data@.take(i as int)),
            decreases self.data@.len() - i,
        {
            if i > 0 {
                text.append(", ");
                proof {
                    reveal_strlit(", ");
                }
            }
            push_radix(&mut text, self.data[i] as u64, 10, true);
            proof {
                let t = self.data@.take(i + 1);
                assert(t.drop_last() =~= self.data@.take(i as int));
                if i == 0 {
                    assert(self.data@.take(0) =~= Seq::<u8>::empty());
                    assert(t[0] == self.data@[0]);
                }
            }
            i = i + 1;
        }
        assert(self.data@.take(i as int) =~= self.data@);
        text.append("], dlc: ");
        push_radix(&mut text, self.dlc as u64, 10, true);
        text.append(" }");
        text
    }
}

impl JorzaError {
    /// The error's printed form, e.g. `JorzaError { message: no such device }`.
    pub fn to_string(&self) -> (text: String)
        ensures
            text@ == socket_error_text(self.message@),
    {
        let mut text = String::from_str("JorzaError { message: ");
        text.append(self.message.as_str());
        text.append(" }");
        text
    }
}

} // verus!
