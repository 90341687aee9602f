//! The upload controller: the state machine that carries a selected file
//! through read, send and answer, and owns the two display slots.
//!
//! Every pipeline run is tagged with the generation that was current when
//! its file was selected; a completion whose tag is no longer the current
//! generation is discarded, so a newer selection can never be overwritten
//! by the leftovers of an older one.

use crate::b64;
use crate::bytes::bytes_eq;
use crate::bytes::copy_bytes;
use crate::error::ErrorV;
use crate::error::UploadError;
use crate::error::empty_read_detail;
use crate::error::empty_read_detail_vec;
use crate::json;
use crate::DetailsV;
use crate::FileDetails;
use vstd::prelude::*;

verus! {

/// Where the pipeline of the current selection stands.
#[derive(Clone, Copy, Debug, PartialEq, Eq, Structural)]
pub enum Phase {
    /// Nothing has been selected yet.
    Idle,
    /// The local read of the selected file is in flight.
    Reading,
    /// The satellite image is ready; the request has not been issued yet.
    HasImage,
    /// The request to the segmentation service is in flight.
    Sending,
    /// Both the satellite image and its mask are present.
    HasMask,
    /// The pipeline failed; the failure slot holds the cause.
    Failed,
}

/// The spec-level value of one tracked in-flight read.
pub ghost struct PendingV {
    pub name: Seq<u8>,
    pub generation: u64,
}

/// One tracked in-flight read: the file's name and the generation of the
/// selection that started it.
pub struct PendingRead {
    pub file_name: Vec<u8>,
    pub generation: u64,
}

impl View for PendingRead {
    type V = PendingV;

    open spec fn view(&self) -> PendingV {
        PendingV { name: self.file_name@, generation: self.generation }
    }
}

/// The spec-level value of the whole controller state.
#[verifier::ext_equal]
pub ghost struct StateV {
    pub server_url: Seq<u8>,
    pub generation: u64,
    pub pending: Seq<PendingV>,
    pub satellite: Option<DetailsV>,
    pub mask: Option<DetailsV>,
    pub failure: Option<ErrorV>,
    pub phase: Phase,
}

impl StateV {
    /// What always holds of a reachable state: the slots agree with the
    /// phase, a registered read is never newer than the current generation,
    /// and no file name is registered twice.
    pub open spec fn wf(self) -> bool {
        &&& match self.phase {
            Phase::Idle => self.satellite is None && self.mask is None && self.failure is None,
            Phase::Reading => self.satellite is None && self.mask is None && self.failure is None,
            Phase::HasImage => (self.satellite matches Some(d) && d.data.len() > 0)
                && self.mask is None && self.failure is None,
            Phase::Sending => (self.satellite matches Some(d) && d.data.len() > 0)
                && self.mask is None && self.failure is None,
            Phase::HasMask => (self.satellite matches Some(d) && d.data.len() > 0) && (
            self.mask matches Some(m)
                && m.data.len() > 0) && self.failure is None,
            Phase::Failed => self.mask is None && self.failure is Some && (
            self.satellite matches Some(d) ==> d.data.len() > 0),
        }
        &&& forall|i: int, j: int|
            0 <= i < j < self.pending.len() ==> self.pending[i].name != self.pending[j].name
        &&& forall|i: int|
            0 <= i < self.pending.len() ==> #[trigger] self.pending[i].generation
                <= self.generation
    }
}

/// The state a fresh controller starts in.
pub open spec fn spec_init(server_url: Seq<u8>) -> StateV {
    StateV {
        server_url,
        generation: 0,
        pending: Seq::empty(),
        satellite: None,
        mask: None,
        failure: None,
        phase: Phase::Idle,
    }
}

/// Selecting a file: both display slots and any failure are cleared at
/// once, the generation moves on, and the read of the named file is
/// registered under the new generation, replacing any older registration
/// of the same name.
pub open spec fn spec_select(s: StateV, name: Seq<u8>) -> StateV
    recommends
        s.generation < u64::MAX,
{
    let g = (s.generation + 1) as u64;
    StateV {
        generation: g,
        pending: s.pending.filter(|p: PendingV| p.name != name).push(
            PendingV { name, generation: g },
        ),
        satellite: None,
        mask: None,
        failure: None,
        phase: Phase::Reading,
        ..s
    }
}

/// A finished read: its registration is dropped in every case. If its tag
/// is stale, or the controller is not waiting for a read, nothing else
/// changes. A read that yielded bytes fills the satellite slot exactly
/// with them; an empty or failed read moves to the failed state, keeping
/// the cause.
pub open spec fn spec_finish_read(
    s: StateV,
    g: u64,
    name: Seq<u8>,
    mime: Seq<u8>,
    outcome: Result<Seq<u8>, Seq<u8>>,
) -> StateV {
    let s1 = StateV {
        pending: s.pending.filter(|p: PendingV| !(p.name == name && p.generation == g)),
        ..s
    };
    if g != s.generation || s.phase != Phase::Reading {
        s1
    } else {
        match outcome {
            Ok(data) => if data.len() > 0 {
                StateV {
                    satellite: Some(DetailsV { file_name: name, file_type: mime, data }),
                    phase: Phase::HasImage,
                    ..s1
                }
            } else {
                StateV {
                    failure: Some(ErrorV::Read { detail: empty_read_detail() }),
                    phase: Phase::Failed,
                    ..s1
                }
            },
            Err(detail) => StateV {
                failure: Some(ErrorV::Read { detail }),
                phase: Phase::Failed,
                ..s1
            },
        }
    }
}

/// Issuing the request: once the satellite image is in place the request
/// for its bytes goes out, and the controller waits for the answer.
pub open spec fn spec_begin_send(s: StateV) -> (StateV, Option<DetailsV>) {
    if s.phase == Phase::HasImage {
        match s.satellite {
            Some(d) => ((StateV { phase: Phase::Sending, ..s }), Some(d)),
            None => (s, None),
        }
    } else {
        (s, None)
    }
}

/// A finished request: a stale tag, or a controller that is not waiting
/// for an answer, changes nothing. A good answer fills the mask slot; an
/// empty mask payload fails closed; a failure keeps the satellite image
/// and records the cause.
pub open spec fn spec_finish_send(s: StateV, g: u64, outcome: Result<DetailsV, ErrorV>) -> StateV {
    if g != s.generation || s.phase != Phase::Sending {
        s
    } else {
        match outcome {
            Ok(d) => if d.data.len() > 0 {
                StateV { mask: Some(d), phase: Phase::HasMask, ..s }
            } else {
                StateV { failure: Some(ErrorV::Decode), phase: Phase::Failed, ..s }
            },
            Err(e) => StateV { failure: Some(e), phase: Phase::Failed, ..s },
        }
    }
}

/// The service's answer, judged: success is owed exactly on a success
/// status with a well-formed body whose base64 payload decodes to at least
/// one byte; every other answer is the corresponding failure.
pub open spec fn spec_process_response(status: u16, body: Seq<u8>) -> Result<DetailsV, ErrorV> {
    if !(200 <= status < 300) {
        Err(ErrorV::Status { code: status })
    } else {
        match json::spec_parse_details(body) {
            Some(t) => match b64::spec_b64_decode(t.2) {
                Some(data) => if data.len() > 0 {
                    Ok(DetailsV { file_name: t.0, file_type: t.1, data })
                } else {
                    Err(ErrorV::Decode)
                },
                None => Err(ErrorV::Decode),
            },
            None => Err(ErrorV::Decode),
        }
    }
}

/// Every entry of a filtered sequence is an entry of the sequence it
/// was filtered from.
proof fn lemma_filter_entries(p: Seq<PendingV>, pred: spec_fn(PendingV) -> bool)
    ensures
        forall|k: int|
            0 <= k < p.filter(pred).len() ==> exists|j: int|
                0 <= j < p.len() && p[j] == #[trigger] p.filter(pred)[k],
    decreases p.len(),
{
    reveal(Seq::filter);
    if p.len() > 0 {
        let dl = p.drop_last();
        lemma_filter_entries(dl, pred);
        let fp = p.filter(pred);
        let fd = dl.filter(pred);
        assert forall|k: int| 0 <= k < fp.len() implies exists|j: int|
            0 <= j < p.len() && p[j] == #[trigger] fp[k] by {
            if k < fd.len() {
                let j = choose|j: int| 0 <= j < dl.len() && dl[j] == fd[k];
                assert(p[j] == fp[k]);
            } else {
                assert(fp[k] == p[p.len() - 1]);
            }
        }
    }
}

/// Filtering keeps the registry's well-formedness: names stay pairwise
/// distinct and generations stay bounded.
proof fn lemma_filter_wf(p: Seq<PendingV>, pred: spec_fn(PendingV) -> bool, g: u64)
    requires
        forall|i: int, j: int| 0 <= i < j < p.len() ==> p[i].name != p[j].name,
        forall|i: int| 0 <= i < p.len() ==> #[trigger] p[i].generation <= g,
    ensures
        forall|i: int, j: int|
            0 <= i < j < p.filter(pred).len() ==> p.filter(pred)[i].name != p.filter(pred)[j].name,
        forall|i: int|
            0 <= i < p.filter(pred).len() ==> #[trigger] p.filter(pred)[i].generation <= g,
    decreases p.len(),
{
    reveal(Seq::filter);
    lemma_filter_entries(p, pred);
    let fp = p.filter(pred);
    assert forall|i: int| 0 <= i < fp.len() implies #[trigger] fp[i].generation <= g by {
        let j = choose|j: int| 0 <= j < p.len() && p[j] == fp[i];
    }
    if p.len() > 0 {
        let dl = p.drop_last();
        lemma_filter_wf(dl, pred, g);
        lemma_filter_entries(dl, pred);
        let fd = dl.filter(pred);
        assert forall|i: int, j: int| 0 <= i < j < fp.len() implies fp[i].name != fp[j].name by {
            if j < fd.len() {
                assert(fp[i] == fd[i] && fp[j] == fd[j]);
            } else if j == fd.len() && fp.len() == fd.len() + 1 {
                assert(fp[i] == fd[i]);
                assert(fp[j] == p[p.len() - 1]);
                let k = choose|k: int| 0 <= k < dl.len() && dl[k] == fd[i];
                assert(p[k] == fd[i]);
                assert(p[k].name != p[p.len() - 1].name);
            }
        }
    }
}

/// Keeps the entries that are not registrations of `name`, in order, as
/// the matching filter gives them.
#[verifier::loop_isolation(false)]
fn remove_pending_by_name(pending: &Vec<PendingRead>, name: &Vec<u8>) -> (r: Vec<PendingRead>)
    ensures
        r@.map_values(|p: PendingRead| p@) == pending@.map_values(|p: PendingRead| p@).filter(
            |p: PendingV| p.name != name@,
        ),
{
    let ghost f = |p: PendingRead| p@;
    let ghost pred = |p: PendingV| p.name != name@;
    let ghost full = pending@.map_values(f);
    let mut kept: Vec<PendingRead> = Vec::new();
    let mut i: usize = 0;
    while i < pending.len()
        invariant
            0 <= i <= pending@.len(),
            full == pending@.map_values(f),
            kept@.map_values(f) == full.take(i as int).filter(pred),
        decreases pending@.len() - i,
    {
        let ghost prev = kept@.map_values(f);
        let keep = !bytes_eq(&pending[i].file_name, name);
        if keep {
            kept.push(
                PendingRead {
                    file_name: copy_bytes(&pending[i].file_name),
                    generation: pending[i].generation,
                },
            );
        }
        proof {
            reveal_with_fuel(Seq::<PendingV>::filter, 3);
            let x = full[i as int];
            let single = seq![x];
            assert(full.take(i + 1) =~= full.take(i as int) + single);
            Seq::<PendingV>::filter_distributes_over_add(full.take(i as int), single, pred);
            assert(x == pending@[i as int]@);
            assert(single.drop_last() =~= Seq::<PendingV>::empty());
            assert(single.last() == x);
            assert(Seq::<PendingV>::empty().filter(pred) =~= Seq::<PendingV>::empty());
            if keep {
                assert(pred(x));
                assert(single.filter(pred) =~= Seq::<PendingV>::empty().push(x));
                assert(kept@.map_values(f) =~= prev.push(x));
                assert(kept@.map_values(f) =~= full.take(i + 1).filter(pred));
            } else {
                assert(!pred(x));
                assert(single.filter(pred) =~= Seq::<PendingV>::empty());
                assert(kept@.map_values(f) =~= full.take(i + 1).filter(pred));
            }
        }
        i = i + 1;
    }
    proof {
        assert(full.take(pending@.len() as int) =~= full);
    }
    kept
}

/// Keeps the entries that are not the registration of `name` under
/// generation `g`, in order, as the matching filter gives them.
#[verifier::loop_isolation(false)]
fn remove_pending_entry(pending: &Vec<PendingRead>, name: &Vec<u8>, g: u64) -> (r: Vec<
    PendingRead,
>)
    ensures
        r@.map_values(|p: PendingRead| p@) == pending@.map_values(|p: PendingRead| p@).filter(
            |p: PendingV| !(p.name == name@ && p.generation == g),
        ),
{
    let ghost f = |p: PendingRead| p@;
    let ghost pred = |p: PendingV| !(p.name == name@ && p.generation == g);
    let ghost full = pending@.map_values(f);
    let mut kept: Vec<PendingRead> = Vec::new();
    let mut i: usize = 0;
    while i < pending.len()
        invariant
            0 <= i <= pending@.len(),
            full == pending@.map_values(f),
            kept@.map_values(f) == full.take(i as int).filter(pred),
        decreases pending@.len() - i,
    {
        let ghost prev = kept@.map_values(f);
        let keep = !(bytes_eq(&pending[i].file_name, name) && pending[i].generation == g);
        if keep {
            kept.push(
                PendingRead {
                    file_name: copy_bytes(&pending[i].file_name),
                    generation: pending[i].generation,
                },
            );
        }
        proof {
            reveal_with_fuel(Seq::filter, 3);
            assert(full.take(i + 1) =~= full.take(i as int) + seq![full[i as int]]);
            Seq::<PendingV>::filter_distributes_over_add(
                full.take(i as int),
                seq![full[i as int]],
                pred,
            );
            assert(seq![full[i as int]].drop_last() =~= Seq::<PendingV>::empty());
            if keep {
                assert(seq![full[i as int]].filter(pred) =~= seq![full[i as int]]);
                assert(kept@.map_values(f) =~= prev.push(full[i as int]));
                assert(kept@.map_values(f) =~= full.take(i + 1).filter(pred));
            } else {
                assert(seq![full[i as int]].filter(pred) =~= Seq::<PendingV>::empty());
                assert(kept@.map_values(f) =~= full.take(i + 1).filter(pred));
            }
        }
        i = i + 1;
    }
    proof {
        assert(full.take(pending@.len() as int) =~= full);
    }
    kept
}

/// The upload controller.
pub struct Controller {
    server_url: Vec<u8>,
    generation: u64,
    pending: Vec<PendingRead>,
    satellite_image: Option<FileDetails>,
    mask_image: Option<FileDetails>,
    failure: Option<UploadError>,
    phase: Phase,
}

impl View for Controller {
    type V = StateV;

    closed spec fn view(&self) -> StateV {
        StateV {
            server_url: self.server_url@,
            generation: self.generation,
            pending: self.pending@.map_values(|p: PendingRead| p@),
            satellite: match self.satellite_image {
                Some(d) => Some(d@),
                None => None,
            },
            mask: match self.mask_image {
                Some(d) => Some(d@),
                None => None,
            },
            failure: match self.failure {
                Some(e) => Some(e@),
                None => None,
            },
            phase: self.phase,
        }
    }
}

impl Controller {
    /// A fresh controller for the service at `server_url`.
    pub fn new(server_url: Vec<u8>) -> (c: Controller)
        ensures
            c@ == spec_init(server_url@),
            c@.wf(),
    {
        let c = Controller {
            server_url,
            generation: 0,
            pending: Vec::new(),
            satellite_image: None,
            mask_image: None,
            failure: None,
            phase: Phase::Idle,
        };
        proof {
            assert(c@ =~= spec_init(c.server_url@));
        }
        c
    }

    /// The user selects a file: both slots are cleared at once and the read
    /// is registered under the new generation, which is returned so the
    /// read's completion can be tagged with it.
    pub fn select_file(&mut self, file_name: &Vec<u8>) -> (g: u64)
        requires
            old(self)@.generation < u64::MAX,
        ensures
            final(self)@ == spec_select(old(self)@, file_name@),
            g == final(self)@.generation == old(self)@.generation + 1,
    {
        let kept = remove_pending_by_name(&self.pending, file_name);
        self.pending = kept;
        self.generation = self.generation + 1;
        let g = self.generation;
        self.pending.push(PendingRead { file_name: copy_bytes(file_name), generation: g });
        self.satellite_image = None;
        self.mask_image = None;
        self.failure = None;
        self.phase = Phase::Reading;
        proof {
            assert(self.pending@.map_values(|p: PendingRead| p@) =~= old(
                self,
            )@.pending.filter(|p: PendingV| p.name != file_name@).push(
                PendingV { name: file_name@, generation: g },
            ));
            assert(self@ =~= spec_select(old(self)@, file_name@));
        }
        g
    }

    /// A read completed: its registration is dropped; if it is the current
    /// one and bytes came back, they become the satellite image, exactly as
    /// read; otherwise the failure is recorded.
    pub fn finish_read(
        &mut self,
        g: u64,
        file_name: &Vec<u8>,
        file_type: &Vec<u8>,
        outcome: Result<Vec<u8>, Vec<u8>>,
    )
        ensures
            final(self)@ == spec_finish_read(
                old(self)@,
                g,
                file_name@,
                file_type@,
                match outcome {
                    Ok(d) => Ok(d@),
                    Err(e) => Err(e@),
                },
            ),
    {
        let kept = remove_pending_entry(&self.pending, file_name, g);
        self.pending = kept;
        proof {
            assert(self@ =~= StateV {
                pending: old(self)@.pending.filter(
                    |p: PendingV| !(p.name == file_name@ && p.generation == g),
                ),
                ..old(self)@
            });
        }
        if g != self.generation {
            return ;
        }
        match self.phase {
            Phase::Reading => {},
            _ => {
                return ;
            },
        }
        match outcome {
            Ok(data) => {
                if data.len() > 0 {
                    self.satellite_image = Some(
                        FileDetails {
                            file_name: copy_bytes(file_name),
                            file_type: copy_bytes(file_type),
                            data,
                        },
                    );
                    self.phase = Phase::HasImage;
                } else {
                    self.failure = Some(UploadError::Read { detail: empty_read_detail_vec() });
                    self.phase = Phase::Failed;
                }
            },
            Err(detail) => {
                self.failure = Some(UploadError::Read { detail });
                self.phase = Phase::Failed;
            },
        }
    }

    /// Once the satellite image is in place, hands out the request that is
    /// to be sent for it — the image's bytes, name and MIME type — and
    /// waits for the answer. In every other phase, nothing to send.
    pub fn begin_send(&mut self) -> (r: Option<FileDetails>)
        ensures
            final(self)@ == spec_begin_send(old(self)@).0,
            match r {
                Some(d) => spec_begin_send(old(self)@).1 == Some(d@),
                None => spec_begin_send(old(self)@).1 is None,
            },
    {
        match self.phase {
            Phase::HasImage => {},
            _ => {
                return None;
            },
        }
        let req = match &self.satellite_image {
            Some(d) => FileDetails {
                file_name: copy_bytes(&d.file_name),
                file_type: copy_bytes(&d.file_type),
                data: copy_bytes(&d.data),
            },
            None => {
                return None;
            },
        };
        self.phase = Phase::Sending;
        Some(req)
    }

    /// The request completed: if its tag is the current one and the answer
    /// carried a mask, the mask slot is filled; on a failure the satellite
    /// image stays and the cause is recorded; a stale completion changes
    /// nothing.
    pub fn finish_send(&mut self, g: u64, outcome: Result<FileDetails, UploadError>)
        ensures
            final(self)@ == spec_finish_send(
                old(self)@,
                g,
                match outcome {
                    Ok(d) => Ok(d@),
                    Err(e) => Err(e@),
                },
            ),
    {
        if g != self.generation {
            return ;
        }
        match self.phase {
            Phase::Sending => {},
            _ => {
                return ;
            },
        }
        match outcome {
            Ok(d) => {
                if d.data.len() > 0 {
                    self.mask_image = Some(d);
                    self.phase = Phase::HasMask;
                } else {
                    self.failure = Some(UploadError::Decode);
                    self.phase = Phase::Failed;
                }
            },
            Err(e) => {
                self.failure = Some(e);
                self.phase = Phase::Failed;
            },
        }
    }

    /// The current phase.
    pub fn phase(&self) -> (p: Phase)
        ensures
            p == self@.phase,
    {
        self.phase
    }

    /// The current generation.
    pub fn generation(&self) -> (g: u64)
        ensures
            g == self@.generation,
    {
        self.generation
    }

    /// The configured base address of the segmentation service.
    pub fn server_url(&self) -> (r: &Vec<u8>)
        ensures
            r@ == self@.server_url,
    {
        &self.server_url
    }

    /// The registered in-flight reads.
    pub fn pending_reads(&self) -> (r: &Vec<PendingRead>)
        ensures
            r@.map_values(|p: PendingRead| p@) == self@.pending,
    {
        &self.pending
    }

    /// The satellite image slot.
    pub fn satellite_image(&self) -> (r: &Option<FileDetails>)
        ensures
            match r {
                Some(d) => self@.satellite == Some(d@),
                None => self@.satellite is None,
            },
    {
        &self.satellite_image
    }

    /// The mask image slot.
    pub fn mask_image(&self) -> (r: &Option<FileDetails>)
        ensures
            match r {
                Some(d) => self@.mask == Some(d@),
                None => self@.mask is None,
            },
    {
        &self.mask_image
    }

    /// The recorded failure, if the pipeline failed.
    pub fn failure(&self) -> (r: &Option<UploadError>)
        ensures
            match r {
                Some(e) => self@.failure == Some(e@),
                None => self@.failure is None,
            },
    {
        &self.failure
    }
}

/// Judges the service's answer, as `spec_process_response` gives it: `Ok`
/// exactly on a success status whose body parses and whose base64 payload
/// decodes to a non-empty mask.
pub fn process_response(status: u16, body: &Vec<u8>) -> (r: Result<FileDetails, UploadError>)
    ensures
        match r {
            Ok(d) => spec_process_response(status, body@) == Ok::<DetailsV, ErrorV>(d@),
            Err(e) => spec_process_response(status, body@) == Err::<DetailsV, ErrorV>(e@),
        },
{
    if !(200 <= status && status < 300) {
        return Err(UploadError::Status { code: status });
    }
    match json::parse_details(body) {
        Some(t) => {
            let (n, ty, d64) = t;
            match b64::b64_decode(&d64) {
                Some(data) => {
                    if data.len() > 0 {
                        Ok(FileDetails { file_name: n, file_type: ty, data })
                    } else {
                        Err(UploadError::Decode)
                    }
                },
                None => Err(UploadError::Decode),
            }
        },
        None => Err(UploadError::Decode),
    }
}

/// Every transition keeps a well-formed state well formed.
pub proof fn lemma_select_preserves_wf(s: StateV, name: Seq<u8>)
    requires
        s.wf(),
        s.generation < u64::MAX,
    ensures
        spec_select(s, name).wf(),
{
    let pred = |p: PendingV| p.name != name;
    let fp = s.pending.filter(pred);
    lemma_filter_wf(s.pending, pred, s.generation);
    lemma_filter_entries(s.pending, pred);
    let g = (s.generation + 1) as u64;
    let out = fp.push(PendingV { name, generation: g });
    assert forall|i: int, j: int| 0 <= i < j < out.len() implies out[i].name != out[j].name by {
        if j < fp.len() {
        } else {
            s.pending.lemma_filter_pred(pred, i);
        }
    }
}

/// See `lemma_select_preserves_wf`.
pub proof fn lemma_finish_read_preserves_wf(
    s: StateV,
    g: u64,
    name: Seq<u8>,
    mime: Seq<u8>,
    outcome: Result<Seq<u8>, Seq<u8>>,
)
    requires
        s.wf(),
    ensures
        spec_finish_read(s, g, name, mime, outcome).wf(),
{
    let pred = |p: PendingV| !(p.name == name && p.generation == g);
    lemma_filter_wf(s.pending, pred, s.generation);
}

/// See `lemma_select_preserves_wf`.
pub proof fn lemma_begin_send_preserves_wf(s: StateV)
    requires
        s.wf(),
    ensures
        spec_begin_send(s).0.wf(),
{
}

/// See `lemma_select_preserves_wf`.
pub proof fn lemma_finish_send_preserves_wf(s: StateV, g: u64, outcome: Result<DetailsV, ErrorV>)
    requires
        s.wf(),
    ensures
        spec_finish_send(s, g, outcome).wf(),
{
}

/// A request completion whose tag is not the current generation changes
/// nothing at all.
pub proof fn lemma_stale_send_ignored(s: StateV, g: u64, outcome: Result<DetailsV, ErrorV>)
    requires
        g != s.generation,
    ensures
        spec_finish_send(s, g, outcome) == s,
{
}

/// A read completion whose tag is not the current generation only clears
/// its own registration: the slots, the failure, the phase and the
/// generation stay as they were.
pub proof fn lemma_stale_read_keeps_slots(
    s: StateV,
    g: u64,
    name: Seq<u8>,
    mime: Seq<u8>,
    outcome: Result<Seq<u8>, Seq<u8>>,
)
    requires
        g != s.generation,
    ensures
        spec_finish_read(s, g, name, mime, outcome).satellite == s.satellite,
        spec_finish_read(s, g, name, mime, outcome).mask == s.mask,
        spec_finish_read(s, g, name, mime, outcome).failure == s.failure,
        spec_finish_read(s, g, name, mime, outcome).phase == s.phase,
        spec_finish_read(s, g, name, mime, outcome).generation == s.generation,
{
}

/// A read that completes under the current generation with bytes fills the
/// satellite slot with exactly those bytes, under the captured name and
/// MIME type.
pub proof fn lemma_read_fills_satellite(s: StateV, name: Seq<u8>, mime: Seq<u8>, data: Seq<u8>)
    requires
        s.phase == Phase::Reading,
        data.len() > 0,
    ensures
        spec_finish_read(s, s.generation, name, mime, Ok(data)).satellite == Some(
            DetailsV { file_name: name, file_type: mime, data },
        ),
        spec_finish_read(s, s.generation, name, mime, Ok(data)).phase == Phase::HasImage,
{
}

/// A well-formed answer under a success status, carrying the encoding of
/// a non-empty mask, is owed acceptance: it decodes to exactly that mask.
pub proof fn lemma_good_answer_accepted(
    status: u16,
    body: Seq<u8>,
    name: Seq<u8>,
    mime: Seq<u8>,
    data: Seq<u8>,
)
    requires
        200 <= status < 300,
        json::spec_parse_details(body) == Some((name, mime, b64::spec_b64_encode(data))),
        data.len() > 0,
    ensures
        spec_process_response(status, body) == Ok::<DetailsV, ErrorV>(
            DetailsV { file_name: name, file_type: mime, data },
        ),
{
    b64::lemma_b64_round_trip(data);
}

/// A non-success status always fails the pipeline with a status failure
/// whose display text is non-empty, whatever the body holds; the satellite
/// image stays.
pub proof fn lemma_error_status_fails(s: StateV, status: u16, body: Seq<u8>)
    requires
        s.phase == Phase::Sending,
        !(200 <= status < 300),
    ensures
        spec_process_response(status, body) == Err::<DetailsV, ErrorV>(
            ErrorV::Status { code: status },
        ),
        spec_finish_send(s, s.generation, spec_process_response(status, body)).phase
            == Phase::Failed,
        spec_finish_send(s, s.generation, spec_process_response(status, body)).satellite
            == s.satellite,
        crate::error::spec_message(ErrorV::Status { code: status }).len() > 0,
{
}

/// A success status with a body that does not parse fails the pipeline
/// with a decode failure rather than anything worse; the satellite image
/// stays.
pub proof fn lemma_malformed_body_fails(s: StateV, status: u16, body: Seq<u8>)
    requires
        s.phase == Phase::Sending,
        200 <= status < 300,
        json::spec_parse_details(body) is None,
    ensures
        spec_process_response(status, body) == Err::<DetailsV, ErrorV>(ErrorV::Decode),
        spec_finish_send(s, s.generation, spec_process_response(status, body)).phase
            == Phase::Failed,
        spec_finish_send(s, s.generation, spec_process_response(status, body)).satellite
            == s.satellite,
{
}

/// The newest selection wins: a request completion that was tagged before
/// a newer selection can never overwrite that selection's state, because
/// selecting always moves to a generation no older completion can carry.
pub proof fn lemma_new_selection_wins(
    s: StateV,
    name: Seq<u8>,
    g: u64,
    outcome: Result<DetailsV, ErrorV>,
)
    requires
        g <= s.generation < u64::MAX,
    ensures
        spec_finish_send(spec_select(s, name), g, outcome) == spec_select(s, name),
{
}

} // verus!
