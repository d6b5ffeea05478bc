//! Collecting an HTTP response body read in chunks, with a safety cap.

use vstd::prelude::*;
use vstd::utf8::{decode_utf8, valid_utf8};

verus! {

/// Once a body holds more than this many bytes, reading stops.
pub const BODY_CAP: usize = 262_144;

/// What `String::from_utf8_lossy` makes of `bytes`: the decoded text, with
/// every invalid sequence replaced by U+FFFD.
pub uninterp spec fn lossy_text(bytes: Seq<u8>) -> Seq<char>;

/// `String::from_utf8_lossy`, made an owned `String`. Claimed: the result is
/// a function of the bytes alone, and valid UTF-8 is decoded unchanged.
#[verifier::external_body]
fn lossy_string(bytes: &[u8]) -> (r: String)
    ensures
        r@ == lossy_text(bytes@),
        valid_utf8(bytes@) ==> r@ == decode_utf8(bytes@),
{
    String::from_utf8_lossy(bytes).into_owned()
}

/// The bytes of a response body read so far.
pub struct ResponseBody {
    bytes: Vec<u8>,
}

impl View for ResponseBody {
    type V = Seq<u8>;

    closed spec fn view(&self) -> Seq<u8> {
        self.bytes@
    }
}

impl ResponseBody {
    /// An empty body.
    pub fn new() -> (r: ResponseBody)
        ensures
            r@ == Seq::<u8>::empty(),
    {
        ResponseBody { bytes: Vec::new() }
    }

    /// Takes the bytes of one read and says whether to read on: an empty
    /// read ends the body; otherwise the bytes are kept, and reading goes on
    /// while the body stays within [`BODY_CAP`].
    pub fn take_chunk(&mut self, chunk: &[u8]) -> (more: bool)
        ensures
            chunk@.len() == 0 ==> !more && final(self)@ == old(self)@,
            chunk@.len() > 0 ==> final(self)@ == old(self)@ + chunk@,
            chunk@.len() > 0 ==> more == (final(self)@.len() <= BODY_CAP),
    {
        if chunk.len() == 0 {
            return false;
        }
        let ghost start = self.bytes@;
        let mut i: usize = 0;
        while i < chunk.len()
            invariant
                i <= chunk@.len(),
                self.bytes@ == start + chunk@.subrange(0, i as int),
            decreases chunk@.len() - i,
        {
            self.bytes.push(chunk[i]);
            i = i + 1;
            assert(self.bytes@ =~= start + chunk@.subrange(0, i as int));
        }
        assert(chunk@.subrange(0, chunk@.len() as int) =~= chunk@);
        self.bytes.len() <= BODY_CAP
    }

    /// The body as text, invalid UTF-8 sequences replaced by U+FFFD.
    pub fn text(&self) -> (r: String)
        ensures
            r@ == lossy_text(self@),
            valid_utf8(self@) ==> r@ == decode_utf8(self@),
    {
        lossy_string(self.bytes.as_slice())
    }
}

}
