use vstd::prelude::*;

verus! {

broadcast use vstd::seq_lib::group_seq_properties;

/// The version of the stored command format that this library writes and reads.
pub const COMMAND_VERSION: u8 = 1;

/// The four bytes that open a stored command: `ICMD`.
pub open spec fn command_magic() -> Seq<u8> {
    seq![73u8, 67u8, 77u8, 68u8]
}

/// Why stored bytes do not frame a command body.
#[derive(Debug, PartialEq, Eq, Structural)]
pub enum CodecError {
    /// Fewer bytes than the header takes.
    Truncated,
    /// The bytes do not open with the magic.
    InvalidHeader,
    /// The header names a version this library does not read.
    UnsupportedVersion { version: u8 },
}

/// A stored command: the magic, the version, then the encoded body.
pub open spec fn framed(body: Seq<u8>) -> Seq<u8> {
    command_magic() + seq![COMMAND_VERSION] + body
}

/// The body that stored bytes frame, or why they frame none. The header is checked before
/// anything is read of the body.
pub open spec fn unframed(bytes: Seq<u8>) -> Result<Seq<u8>, CodecError> {
    if bytes.len() < 5 {
        Err(CodecError::Truncated)
    } else if bytes.take(4) != command_magic() {
        Err(CodecError::InvalidHeader)
    } else if bytes[4] != COMMAND_VERSION {
        Err(CodecError::UnsupportedVersion { version: bytes[4] })
    } else {
        Ok(bytes.skip(5))
    }
}

/// Frames an encoded command body for storage.
pub fn encode(body: &[u8]) -> (bytes: Vec<u8>)
    ensures
        bytes@ == framed(body@),
{
    let mut bytes: Vec<u8> = vec![73u8, 67u8, 77u8, 68u8, COMMAND_VERSION];
    let ghost head = bytes@;
    let mut i: usize = 0;
    while i < body.len()
        invariant
            head == command_magic() + seq![COMMAND_VERSION],
            i <= body.len(),
            bytes@ == head + body@.take(i as int),
        decreases body.len() - i,
    {
        bytes.push(body[i]);
        proof {
            assert(body@.take(i as int + 1) =~= body@.take(i as int).push(body@[i as int]));
            assert(bytes@ =~= head + body@.take(i as int + 1));
        }
        i = i + 1;
    }
    proof {
        assert(body@.take(body.len() as int) =~= body@);
    }
    bytes
}

/// The encoded command body of stored bytes, once the header is checked.
pub fn decode(bytes: &[u8]) -> (r: Result<Vec<u8>, CodecError>)
    ensures
        match r {
            Ok(body) => unframed(bytes@) == Ok::<Seq<u8>, CodecError>(body@),
            Err(e) => unframed(bytes@) == Err::<Seq<u8>, CodecError>(e),
        },
{
    if bytes.len() < 5 {
        return Err(CodecError::Truncated);
    }
    if bytes[0] != 73u8 || bytes[1] != 67u8 || bytes[2] != 77u8 || bytes[3] != 68u8 {
        proof {
            assert(bytes@.take(4) != command_magic()) by {
                if bytes@.take(4) == command_magic() {
                    assert(bytes@.take(4)[0] == bytes@[0]);
                    assert(bytes@.take(4)[1] == bytes@[1]);
                    assert(bytes@.take(4)[2] == bytes@[2]);
                    assert(bytes@.take(4)[3] == bytes@[3]);
                }
            }
        }
        return Err(CodecError::InvalidHeader);
    }
    proof {
        assert(bytes@.take(4) =~= command_magic());
    }
    if bytes[4] != COMMAND_VERSION {
        return Err(CodecError::UnsupportedVersion { version: bytes[4] });
    }
    let mut body: Vec<u8> = Vec::new();
    let mut i: usize = 5;
    while i < bytes.len()
        invariant
            5 <= i <= bytes@.len(),
            body@ == bytes@.subrange(5, i as int),
        decreases bytes.len() - i,
    {
        body.push(bytes[i]);
        proof {
            assert(body@ =~= bytes@.subrange(5, i as int + 1));
        }
        i = i + 1;
    }
    proof {
        assert(body@ =~= bytes@.skip(5));
    }
    Ok(body)
}

/// Reading back what was stored gives the body that was stored.
pub proof fn law_stored_command_reads_back(body: Seq<u8>)
    ensures
        unframed(framed(body)) == Ok::<Seq<u8>, CodecError>(body),
{
    let b = framed(body);
    assert(b.take(4) =~= command_magic());
    assert(b.skip(5) =~= body);
}

} // verus!
