//! Pure rendering: the display is a function of the controller state and
//! of nothing else. The two panels are rendered side by side: the source
//! panel for the satellite image and the result panel for the mask. An
//! image is shown through a `data:` URI holding its base64-encoded bytes.

use crate::b64;
use crate::bytes::copy_bytes;
use crate::controller::Controller;
use crate::controller::Phase;
use crate::controller::StateV;
use crate::error::spec_message;
use crate::DetailsV;
use crate::FileDetails;
use vstd::prelude::*;

verus! {

/// The spec-level source panel.
pub ghost enum SourcePanelV {
    /// No file uploaded.
    Empty,
    /// The satellite image, under its file name.
    Image { heading: Seq<u8>, uri: Seq<u8> },
}

/// The spec-level result panel.
pub ghost enum ResultPanelV {
    /// No mask image.
    Empty,
    /// The answer is still outstanding.
    Pending,
    /// The mask image, under its file name.
    Image { heading: Seq<u8>, uri: Seq<u8> },
    /// The failure's display text.
    Message { text: Seq<u8> },
}

/// The spec-level rendered display.
#[verifier::ext_equal]
pub ghost struct RenderV {
    pub source: SourcePanelV,
    pub result: ResultPanelV,
}

/// The rendered source panel.
#[derive(Debug, PartialEq, Eq)]
pub enum SourcePanel {
    /// No file uploaded.
    Empty,
    /// The satellite image, under its file name.
    Image { heading: Vec<u8>, uri: Vec<u8> },
}

/// The rendered result panel.
#[derive(Debug, PartialEq, Eq)]
pub enum ResultPanel {
    /// No mask image.
    Empty,
    /// The answer is still outstanding.
    Pending,
    /// The mask image, under its file name.
    Image { heading: Vec<u8>, uri: Vec<u8> },
    /// The failure's display text.
    Message { text: Vec<u8> },
}

/// The rendered display: two panels side by side.
#[derive(Debug, PartialEq, Eq)]
pub struct Rendered {
    pub source: SourcePanel,
    pub result: ResultPanel,
}

impl View for SourcePanel {
    type V = SourcePanelV;

    open spec fn view(&self) -> SourcePanelV {
        match self {
            SourcePanel::Empty => SourcePanelV::Empty,
            SourcePanel::Image { heading, uri } => SourcePanelV::Image {
                heading: heading@,
                uri: uri@,
            },
        }
    }
}

impl View for ResultPanel {
    type V = ResultPanelV;

    open spec fn view(&self) -> ResultPanelV {
        match self {
            ResultPanel::Empty => ResultPanelV::Empty,
            ResultPanel::Pending => ResultPanelV::Pending,
            ResultPanel::Image { heading, uri } => ResultPanelV::Image {
                heading: heading@,
                uri: uri@,
            },
            ResultPanel::Message { text } => ResultPanelV::Message { text: text@ },
        }
    }
}

impl View for Rendered {
    type V = RenderV;

    open spec fn view(&self) -> RenderV {
        RenderV { source: self.source@, result: self.result@ }
    }
}

/// The text `data:`.
pub open spec fn data_uri_prefix() -> Seq<u8> {
    seq![100u8, 97u8, 116u8, 97u8, 58u8]
}

/// The text `;base64,`.
pub open spec fn base64_marker() -> Seq<u8> {
    seq![59u8, 98u8, 97u8, 115u8, 101u8, 54u8, 52u8, 44u8]
}

/// The inline form of an image: `data:<MIME type>;base64,<payload>`.
pub open spec fn spec_data_uri(d: DetailsV) -> Seq<u8> {
    data_uri_prefix() + d.file_type + base64_marker() + b64::spec_b64_encode(d.data)
}

/// What the display shows for a state: the source panel holds the
/// satellite image whenever one is present; the result panel holds the
/// mask if it came, else the recorded failure, else a pending note while
/// the image is on its way to the service.
pub open spec fn spec_render(s: StateV) -> RenderV {
    RenderV {
        source: match s.satellite {
            Some(d) => SourcePanelV::Image { heading: d.file_name, uri: spec_data_uri(d) },
            None => SourcePanelV::Empty,
        },
        result: match s.mask {
            Some(m) => ResultPanelV::Image { heading: m.file_name, uri: spec_data_uri(m) },
            None => match s.failure {
                Some(e) => ResultPanelV::Message { text: spec_message(e) },
                None => match s.phase {
                    Phase::HasImage => ResultPanelV::Pending,
                    Phase::Sending => ResultPanelV::Pending,
                    _ => ResultPanelV::Empty,
                },
            },
        },
    }
}

/// The inline form of an image, as `spec_data_uri` gives it.
pub fn data_uri(d: &FileDetails) -> (r: Vec<u8>)
    ensures
        r@ == spec_data_uri(d@),
{
    let a: [u8; 5] = [100, 97, 116, 97, 58];
    let m: [u8; 8] = [59, 98, 97, 115, 101, 54, 52, 44];
    let mut v: Vec<u8> = Vec::new();
    v.extend_from_slice(a.as_slice());
    proof {
        assert(v@ =~= data_uri_prefix());
    }
    let ghost v1 = v@;
    v.extend_from_slice(d.file_type.as_slice());
    proof {
        assert(v@ =~= v1 + d.file_type@);
    }
    let ghost v2 = v@;
    v.extend_from_slice(m.as_slice());
    proof {
        assert(v@ =~= v2 + base64_marker());
    }
    let mut e = b64::b64_encode(&d.data);
    v.append(&mut e);
    proof {
        assert(v@ =~= spec_data_uri(d@));
    }
    v
}

/// Renders the display for the controller's current state, exactly as
/// `spec_render` gives it.
pub fn render(c: &Controller) -> (r: Rendered)
    ensures
        r@ == spec_render(c@),
{
    let source = match c.satellite_image() {
        Some(d) => SourcePanel::Image { heading: copy_bytes(&d.file_name), uri: data_uri(d) },
        None => SourcePanel::Empty,
    };
    let result = match c.mask_image() {
        Some(m) => ResultPanel::Image { heading: copy_bytes(&m.file_name), uri: data_uri(m) },
        None => match c.failure() {
            Some(e) => ResultPanel::Message { text: e.message() },
            None => match c.phase() {
                Phase::HasImage => ResultPanel::Pending,
                Phase::Sending => ResultPanel::Pending,
                _ => ResultPanel::Empty,
            },
        },
    };
    let r = Rendered { source, result };
    proof {
        assert(r@ =~= spec_render(c@));
    }
    r
}

/// Rendering is pure: the display is determined by the state alone, so
/// rendering the same state twice gives the same display.
pub proof fn lemma_render_deterministic(a: StateV, b: StateV)
    requires
        a == b,
    ensures
        spec_render(a) == spec_render(b),
{
}

} // verus!
