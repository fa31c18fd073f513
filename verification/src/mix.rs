//! The command value object: one `Mix` per incoming request, holding the raw
//! command name, the decoded key list, a validity flag and the originating
//! protocol frame.

use vstd::prelude::*;

verus! {

/// A protocol frame as this core carries it: the argument-vector form of an
/// incoming command, or the opaque raw payload a store reply arrives as.
#[derive(Debug, Clone, PartialEq, Eq)]
pub enum Frame {
    Array(Vec<Vec<u8>>),
    Raw(Vec<u8>),
}

impl Frame {
    /// An empty array frame, the placeholder carried by values built outside
    /// the frame-parsing path.
    pub fn array() -> (r: Frame)
        ensures
            r matches Frame::Array(v) && v@.len() == 0,
    {
        Frame::Array(Vec::new())
    }
}

#[verifier::external_type_specification]
#[verifier::external_body]
pub struct ExBytes(bytes::Bytes);

/// The bytes a `bytes::Bytes` value holds.
pub uninterp spec fn bytes_content(b: bytes::Bytes) -> Seq<u8>;

/// Relies on bytes::Bytes::as_ref (its AsRef<[u8]> impl): it returns a slice
/// of exactly the bytes the value holds.
#[verifier::external_body]
fn bytes_slice(b: &bytes::Bytes) -> (r: &[u8])
    ensures
        r@ == bytes_content(*b),
{
    b.as_ref()
}

/// What `String::from_utf8_lossy` decodes a byte string to; the decoding
/// depends on the bytes alone.
pub uninterp spec fn lossy_utf8_of(b: Seq<u8>) -> Seq<char>;

/// Relies on String::from_utf8_lossy: the result is a function of the bytes
/// alone, and an empty input decodes to an empty string.
#[verifier::external_body]
fn lossy_string(b: &[u8]) -> (r: String)
    ensures
        r@ == lossy_utf8_of(b@),
        b@.len() == 0 ==> r@.len() == 0,
{
    String::from_utf8_lossy(b).to_string()
}

/// One incoming request's executable unit: command bytes, key list, validity
/// flag and originating frame. Created at parse time, consumed once by
/// execution, then discarded.
#[derive(Debug, Clone, PartialEq, Eq)]
pub struct Mix {
    pub cmd: Vec<u8>,
    pub keys: Vec<String>,
    pub valid: bool,
    pub frame: Frame,
}

impl Mix {
    /// Read-only view of the key list.
    pub fn keys(&self) -> (r: &Vec<String>)
        ensures
            r@ == self.keys@,
    {
        &self.keys
    }

    /// Appends one key; used only while a frame is being parsed.
    pub fn add_key(&mut self, key: String)
        ensures
            final(self).keys@ == old(self).keys@.push(key),
            final(self).cmd@ == old(self).cmd@,
            final(self).valid == old(self).valid,
            final(self).frame == old(self).frame,
    {
        self.keys.push(key);
    }

    /// Builds the value carried by one request on the frame-parsing path:
    /// the command name, every key the frame parser yielded before reporting
    /// exhaustion, and the originating frame.
    pub fn parse_frames(cmd: Vec<u8>, keys: Vec<String>, frame: Frame) -> (r: Mix)
        ensures
            r.cmd@ == cmd@,
            r.keys@ == keys@,
            r.valid,
            r.frame == frame,
    {
        Mix { cmd, keys, valid: true, frame }
    }

    /// Builds the value carried by one request from an already-materialized
    /// argument vector: an empty vector yields the marked-invalid sentinel,
    /// anything else decodes every element as a loosely-decoded string key.
    pub fn parse_argv(argv: &Vec<bytes::Bytes>) -> (r: Mix)
        ensures
            r.cmd@.len() == 0,
            r.frame matches Frame::Array(v) && v@.len() == 0,
            argv@.len() == 0 ==> !r.valid && r.keys@.len() == 0,
            argv@.len() > 0 ==> r.valid && r.keys@.len() == argv@.len() && (forall|i: int|
                0 <= i < argv@.len() ==> r.keys@[i]@ == lossy_utf8_of(bytes_content(argv@[i]))),
    {
        if argv.len() == 0 {
            return Mix::new_invalid();
        }
        let mut keys: Vec<String> = Vec::new();
        let mut i: usize = 0;
        while i < argv.len()
            invariant
                0 <= i <= argv@.len(),
                keys@.len() == i,
                forall|q: int| 0 <= q < i ==> keys@[q]@ == lossy_utf8_of(bytes_content(argv@[q])),
            decreases argv@.len() - i,
        {
            keys.push(lossy_string(bytes_slice(&argv[i])));
            i += 1;
        }
        Mix { cmd: Vec::new(), keys, valid: true, frame: Frame::array() }
    }

    /// The canonical no-op sentinel: no command, no keys, marked invalid.
    pub fn new_invalid() -> (r: Mix)
        ensures
            !r.valid,
            r.cmd@.len() == 0,
            r.keys@.len() == 0,
            r.frame matches Frame::Array(v) && v@.len() == 0,
    {
        Mix { cmd: Vec::new(), keys: Vec::new(), valid: false, frame: Frame::array() }
    }

    /// The representative key the command is routed by: its first key, when
    /// it has one.
    pub fn router_key(&self) -> (r: Option<&String>)
        ensures
            self.keys@.len() == 0 ==> r is None,
            self.keys@.len() > 0 ==> (r matches Some(k) && k@ == self.keys@[0]@),
    {
        if self.keys.len() == 0 {
            None
        } else {
            Some(&self.keys[0])
        }
    }
}

impl Default for Mix {
    /// A fresh, valid `Mix` with nothing in it yet.
    fn default() -> (r: Mix)
        ensures
            r.valid,
            r.cmd@.len() == 0,
            r.keys@.len() == 0,
            r.frame matches Frame::Array(v) && v@.len() == 0,
    {
        Mix { cmd: Vec::new(), keys: Vec::new(), valid: true, frame: Frame::array() }
    }
}

} // verus!
