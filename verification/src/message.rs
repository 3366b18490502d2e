//! The unit of exchange between sockets: an immutable byte payload plus an
//! optional header. The header is a short routing prefix prepended and
//! stripped by the request/reply and survey protocols; on the wire header and
//! body travel as one payload.

use vstd::prelude::*;

verus! {

#[derive(Debug)]
pub struct Message {
    pub header: Vec<u8>,
    pub body: Vec<u8>,
}

impl Message {
    /// The bytes this message occupies on the wire, header first.
    pub open spec fn payload(self) -> Seq<u8> {
        self.header@ + self.body@
    }

    pub fn with_body(body: Vec<u8>) -> (r: Message)
        ensures
            r.header@ == Seq::<u8>::empty(),
            r.body@ == body@,
    {
        Message { header: Vec::new(), body }
    }

    pub fn with_header_and_body(header: Vec<u8>, body: Vec<u8>) -> (r: Message)
        ensures
            r.header@ == header@,
            r.body@ == body@,
    {
        Message { header, body }
    }

    pub fn get_header(&self) -> (r: &Vec<u8>)
        ensures
            r@ == self.header@,
    {
        &self.header
    }

    pub fn get_body(&self) -> (r: &Vec<u8>)
        ensures
            r@ == self.body@,
    {
        &self.body
    }

    pub fn len(&self) -> (r: usize)
        requires
            self.header@.len() + self.body@.len() <= usize::MAX,
        ensures
            r == self.payload().len(),
    {
        self.header.len() + self.body.len()
    }

    /// Consumes the message into one flat buffer, header first.
    pub fn to_buffer(self) -> (r: Vec<u8>)
        requires
            self.header@.len() + self.body@.len() <= usize::MAX,
        ensures
            r@ == self.payload(),
    {
        if self.header.len() == 0 {
            proof {
                assert(self.payload() =~= self.body@);
            }
            self.body
        } else {
            let mut buffer = self.header;
            let mut body = self.body;
            let ghost head_snap = buffer@;
            let ghost body_snap = body@;
            buffer.append(&mut body);
            proof {
                assert(buffer@ =~= head_snap + body_snap);
            }
            buffer
        }
    }

    /// Splits the message back into its header and its body.
    pub fn explode(self) -> (r: (Vec<u8>, Vec<u8>))
        ensures
            r.0@ == self.header@,
            r.1@ == self.body@,
    {
        (self.header, self.body)
    }
}

impl Clone for Message {
    /// A clone carries the same header and the same body; broadcast patterns
    /// rely on every copy being byte-for-byte identical.
    fn clone(&self) -> (r: Message)
        ensures
            r.header@ == self.header@,
            r.body@ == self.body@,
    {
        let header = self.header.clone();
        let body = self.body.clone();
        proof {
            assert(header@ =~= self.header@);
            assert(body@ =~= self.body@);
        }
        Message { header, body }
    }
}

} // verus!
