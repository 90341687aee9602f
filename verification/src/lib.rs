pub mod b64;
pub(crate) mod bytes;
pub mod controller;
pub mod error;
pub mod json;
pub mod view;

use vstd::prelude::*;

verus! {

/// The spec-level value of a `FileDetails`.
#[verifier::ext_equal]
pub ghost struct DetailsV {
    pub file_name: Seq<u8>,
    pub file_type: Seq<u8>,
    pub data: Seq<u8>,
}

/// A named image: file name, MIME type and the raw bytes of its content.
///
/// The same shape is used for the locally selected satellite image and for
/// the mask that the segmentation service returns. Text (the name and the
/// MIME type) is carried as UTF-8 bytes; `data` is the decoded image payload.
#[derive(Debug)]
pub struct FileDetails {
    pub file_name: Vec<u8>,
    pub file_type: Vec<u8>,
    pub data: Vec<u8>,
}

impl FileDetails {
    /// An image built from a completed read or a successful response always
    /// carries at least one byte of payload.
    pub open spec fn wf(&self) -> bool {
        self.data@.len() > 0
    }
}

impl View for FileDetails {
    type V = DetailsV;

    open spec fn view(&self) -> DetailsV {
        DetailsV {
            file_name: self.file_name@,
            file_type: self.file_type@,
            data: self.data@,
        }
    }
}

} // verus!
