//! The failure classes of the upload pipeline and their display text.
//! A read failure and a transport failure keep the underlying cause text;
//! a status failure keeps the HTTP status code; a decode failure covers a
//! malformed answer body as well as malformed base64 in it.

use vstd::prelude::*;

verus! {

/// A failed step of the pipeline, as the spec level sees it.
pub ghost enum ErrorV {
    /// The selected file could not be read as bytes.
    Read { detail: Seq<u8> },
    /// The request never completed.
    Transport { detail: Seq<u8> },
    /// The request completed with a non-success status.
    Status { code: u16 },
    /// The answer body was not a well-formed mask payload.
    Decode,
}

/// A failed step of the pipeline.
#[derive(Debug)]
pub enum UploadError {
    /// The selected file could not be read as bytes.
    Read { detail: Vec<u8> },
    /// The request never completed.
    Transport { detail: Vec<u8> },
    /// The request completed with a non-success status.
    Status { code: u16 },
    /// The answer body was not a well-formed mask payload.
    Decode,
}

impl View for UploadError {
    type V = ErrorV;

    open spec fn view(&self) -> ErrorV {
        match self {
            UploadError::Read { detail } => ErrorV::Read { detail: detail@ },
            UploadError::Transport { detail } => ErrorV::Transport { detail: detail@ },
            UploadError::Status { code } => ErrorV::Status { code: *code },
            UploadError::Decode => ErrorV::Decode,
        }
    }
}

/// The decimal digits of a number, most significant first.
pub open spec fn spec_decimal(n: int) -> Seq<u8>
    recommends
        n >= 0,
    decreases n,
{
    if n < 10 {
        seq![(48 + n) as u8]
    } else {
        spec_decimal(n / 10) + seq![(48 + n % 10) as u8]
    }
}

/// The text `file read failed: `.
pub open spec fn read_prefix() -> Seq<u8> {
    seq![102u8, 105u8, 108u8, 101u8, 32u8, 114u8, 101u8, 97u8, 100u8, 32u8, 102u8, 97u8, 105u8, 108u8, 101u8, 100u8, 58u8, 32u8]
}

/// The text `sending the image failed: `.
pub open spec fn transport_prefix() -> Seq<u8> {
    seq![115u8, 101u8, 110u8, 100u8, 105u8, 110u8, 103u8, 32u8, 116u8, 104u8, 101u8, 32u8, 105u8, 109u8, 97u8, 103u8, 101u8, 32u8, 102u8, 97u8, 105u8, 108u8, 101u8, 100u8, 58u8, 32u8]
}

/// The text `server answered with status `.
pub open spec fn status_prefix() -> Seq<u8> {
    seq![115u8, 101u8, 114u8, 118u8, 101u8, 114u8, 32u8, 97u8, 110u8, 115u8, 119u8, 101u8, 114u8, 101u8, 100u8, 32u8, 119u8, 105u8, 116u8, 104u8, 32u8, 115u8, 116u8, 97u8, 116u8, 117u8, 115u8, 32u8]
}

/// The text `the response was not a valid mask payload`.
pub open spec fn decode_text() -> Seq<u8> {
    seq![116u8, 104u8, 101u8, 32u8, 114u8, 101u8, 115u8, 112u8, 111u8, 110u8, 115u8, 101u8, 32u8, 119u8, 97u8, 115u8, 32u8, 110u8, 111u8, 116u8, 32u8, 97u8, 32u8, 118u8, 97u8, 108u8, 105u8, 100u8, 32u8, 109u8, 97u8, 115u8, 107u8, 32u8, 112u8, 97u8, 121u8, 108u8, 111u8, 97u8, 100u8]
}

/// The display text of a failure: a short statement of the failed step,
/// keeping the underlying cause text or the status code.
pub open spec fn spec_message(e: ErrorV) -> Seq<u8> {
    match e {
        ErrorV::Read { detail } => read_prefix() + detail,
        ErrorV::Transport { detail } => transport_prefix() + detail,
        ErrorV::Status { code } => status_prefix() + spec_decimal(code as int),
        ErrorV::Decode => decode_text(),
    }
}

/// A failure's display text is never empty.
pub proof fn lemma_message_nonempty(e: ErrorV)
    ensures
        spec_message(e).len() > 0,
{
}

/// The decimal digits of a status code, as `spec_decimal` gives them.
fn decimal(n: u16) -> (r: Vec<u8>)
    ensures
        r@ == spec_decimal(n as int),
    decreases n,
{
    if n < 10 {
        let mut v: Vec<u8> = Vec::new();
        v.push(48 + n as u8);
        proof {
            assert(v@ =~= spec_decimal(n as int));
        }
        v
    } else {
        let mut v = decimal(n / 10);
        v.push(48 + (n % 10) as u8);
        proof {
            assert(v@ =~= spec_decimal(n as int));
        }
        v
    }
}

impl UploadError {
    /// The display text of this failure, as `spec_message` gives it.
    pub fn message(&self) -> (r: Vec<u8>)
        ensures
            r@ == spec_message(self@),
            r@.len() > 0,
    {
        match self {
            UploadError::Read { detail } => {
                let a: [u8; 18] = [102, 105, 108, 101, 32, 114, 101, 97, 100, 32, 102, 97, 105, 108, 101, 100, 58, 32];
                let mut v: Vec<u8> = Vec::new();
                v.extend_from_slice(a.as_slice());
                proof {
                    assert(v@ =~= read_prefix());
                }
                v.extend_from_slice(detail.as_slice());
                proof {
                    assert(v@ =~= read_prefix() + detail@);
                }
                v
            },
            UploadError::Transport { detail } => {
                let a: [u8; 26] = [115, 101, 110, 100, 105, 110, 103, 32, 116, 104, 101, 32, 105, 109, 97, 103, 101, 32, 102, 97, 105, 108, 101, 100, 58, 32];
                let mut v: Vec<u8> = Vec::new();
                v.extend_from_slice(a.as_slice());
                proof {
                    assert(v@ =~= transport_prefix());
                }
                v.extend_from_slice(detail.as_slice());
                proof {
                    assert(v@ =~= transport_prefix() + detail@);
                }
                v
            },
            UploadError::Status { code } => {
                let a: [u8; 28] = [115, 101, 114, 118, 101, 114, 32, 97, 110, 115, 119, 101, 114, 101, 100, 32, 119, 105, 116, 104, 32, 115, 116, 97, 116, 117, 115, 32];
                let mut v: Vec<u8> = Vec::new();
                v.extend_from_slice(a.as_slice());
                proof {
                    assert(v@ =~= status_prefix());
                }
                let mut d = decimal(*code);
                v.append(&mut d);
                v
            },
            UploadError::Decode => {
                let a: [u8; 41] = [116, 104, 101, 32, 114, 101, 115, 112, 111, 110, 115, 101, 32, 119, 97, 115, 32, 110, 111, 116, 32, 97, 32, 118, 97, 108, 105, 100, 32, 109, 97, 115, 107, 32, 112, 97, 121, 108, 111, 97, 100];
                let mut v: Vec<u8> = Vec::new();
                v.extend_from_slice(a.as_slice());
                proof {
                    assert(v@ =~= decode_text());
                }
                v
            },
        }
    }
}


/// The text `the selected file was empty`.
pub open spec fn empty_read_detail() -> Seq<u8> {
    seq![116u8, 104u8, 101u8, 32u8, 115u8, 101u8, 108u8, 101u8, 99u8, 116u8, 101u8, 100u8, 32u8, 102u8, 105u8, 108u8, 101u8, 32u8, 119u8, 97u8, 115u8, 32u8, 101u8, 109u8, 112u8, 116u8, 121u8]
}

/// The text `the selected file was empty` as bytes.
pub fn empty_read_detail_vec() -> (r: Vec<u8>)
    ensures
        r@ == empty_read_detail(),
{
    let a: [u8; 27] = [116, 104, 101, 32, 115, 101, 108, 101, 99, 116, 101, 100, 32, 102, 105, 108, 101, 32, 119, 97, 115, 32, 101, 109, 112, 116, 121];
    let mut v: Vec<u8> = Vec::new();
    v.extend_from_slice(a.as_slice());
    proof {
        assert(v@ =~= empty_read_detail());
    }
    v
}

} // verus!
