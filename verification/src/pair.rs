//! Pair programming: authentication of inbound signed frames (TOFU identity
//! pinning, fail-closed unsigned frames, anti-replay, `from` binding and host
//! authority), the late-joiner replay buffer, invites and room identifiers.

use vstd::prelude::*;
use vstd::hash_map::StringHashMap;
use vstd::utf8::{decode_utf8, encode_utf8, valid_utf8};
use std::collections::VecDeque;
use base64::Engine;
use crate::text::{chars_of, concat3, owned, push_char, str_eq, string_from_chars};
use crate::tools::sandbox::{is_white_space, skip_white};
use crate::session::{trim_owned, trim_white, trim_white_end};
use crate::pty::cap_bytes;

verus! {

/// One roster line of a `SessionMeta` frame.
#[derive(Clone, Debug)]
pub struct RosterEntry {
    pub member_id: String,
    pub name: String,
    pub role: String,
}

/// An application frame exchanged inside a pair room.
#[derive(Clone, Debug)]
pub enum PairFrame {
    /// Driver keystrokes, navigator to host.
    TermInput { from: String, data: Vec<u8> },
    /// A member's cursor position.
    Cursor { from: String, row: u16, col: u16 },
    /// A navigator asks for the driver seat.
    RequestControl { from: String },
    /// A navigator announces itself (display name and identity pubkey).
    Join { from: String, name: String, pubkey: String },
    /// Host PTY output, with the cumulative byte offset after this chunk.
    PtyOutput { data: Vec<u8>, offset: u64 },
    /// Host terminal size.
    Resize { cols: u16, rows: u16 },
    /// The driver seat moved.
    DriverChanged { new_driver: String, old_driver: String },
    /// Recent terminal state replayed to one late joiner.
    Snapshot { data: Vec<u8>, cols: u16, rows: u16, driver: String, target: String, offset: u64 },
    /// Session metadata and roster, announced by the host.
    SessionMeta {
        host: String,
        host_name: String,
        cols: u16,
        rows: u16,
        allow_takeover: bool,
        roster: Vec<RosterEntry>,
    },
}

impl PairFrame {
    /// Frames that only the pinned host may originate.
    pub open spec fn host_only(&self) -> bool {
        match self {
            PairFrame::PtyOutput { .. } => true,
            PairFrame::Resize { .. } => true,
            PairFrame::DriverChanged { .. } => true,
            PairFrame::Snapshot { .. } => true,
            PairFrame::SessionMeta { .. } => true,
            _ => false,
        }
    }

    /// The member a navigator frame claims to come from, if it names one.
    pub open spec fn claimed_from(&self) -> Option<Seq<char>> {
        match self {
            PairFrame::TermInput { from, .. } => Some(from@),
            PairFrame::Cursor { from, .. } => Some(from@),
            PairFrame::RequestControl { from } => Some(from@),
            PairFrame::Join { from, .. } => Some(from@),
            _ => None,
        }
    }

    /// The frame's wire type tag.
    pub open spec fn type_tag(&self) -> Seq<char> {
        match self {
            PairFrame::TermInput { .. } => "term_input"@,
            PairFrame::Cursor { .. } => "cursor"@,
            PairFrame::RequestControl { .. } => "request_control"@,
            PairFrame::Join { .. } => "join"@,
            PairFrame::PtyOutput { .. } => "pty_output"@,
            PairFrame::Resize { .. } => "resize"@,
            PairFrame::DriverChanged { .. } => "driver_changed"@,
            PairFrame::Snapshot { .. } => "snapshot"@,
            PairFrame::SessionMeta { .. } => "session_meta"@,
        }
    }

    /// Whether only the host may send this frame.
    pub fn is_host_only(&self) -> (r: bool)
        ensures
            r == self.host_only(),
    {
        match self {
            PairFrame::PtyOutput { .. } => true,
            PairFrame::Resize { .. } => true,
            PairFrame::DriverChanged { .. } => true,
            PairFrame::Snapshot { .. } => true,
            PairFrame::SessionMeta { .. } => true,
            _ => false,
        }
    }

    /// The frame's wire type tag.
    pub fn frame_type(&self) -> (r: &'static str)
        ensures
            r@ == self.type_tag(),
    {
        match self {
            PairFrame::TermInput { .. } => "term_input",
            PairFrame::Cursor { .. } => "cursor",
            PairFrame::RequestControl { .. } => "request_control",
            PairFrame::Join { .. } => "join",
            PairFrame::PtyOutput { .. } => "pty_output",
            PairFrame::Resize { .. } => "resize",
            PairFrame::DriverChanged { .. } => "driver_changed",
            PairFrame::Snapshot { .. } => "snapshot",
            PairFrame::SessionMeta { .. } => "session_meta",
        }
    }
}

/// A member's role in a pair session.
#[derive(Clone, Copy, Debug, PartialEq, Eq, Structural)]
pub enum PairRole {
    Driver,
    Navigator,
}

/// A change in the host's pair session, as reported by the session manager.
#[derive(Clone, Debug)]
pub enum PairEvent {
    SessionCreated { session_id: String },
    SessionEnded { session_id: String },
    UserJoined { session_id: String, user_id: String, display_name: String, role: PairRole },
    UserLeft { session_id: String, user_id: String },
    DriverChanged { session_id: String, new_driver: String, old_driver: String },
    TerminalOutput { session_id: String, data: Vec<u8> },
    TerminalInput { session_id: String, from_user: String, data: Vec<u8> },
    CursorMoved { session_id: String, user_id: String, row: u16, col: u16 },
    Resized { session_id: String, cols: u16, rows: u16 },
    Error(String),
}

/// The wire frame a session event is announced with: terminal output, cursor
/// moves, resizes and driver changes ride a frame; keystrokes are never
/// echoed back, and lifecycle events travel on the relay's presence channel.
pub open spec fn event_frame(ev: PairEvent) -> Option<PairFrame> {
    match ev {
        PairEvent::TerminalOutput { data, .. } => Some(PairFrame::PtyOutput { data, offset: 0 }),
        PairEvent::CursorMoved { user_id, row, col, .. } => Some(PairFrame::Cursor { from: user_id, row, col }),
        PairEvent::Resized { cols, rows, .. } => Some(PairFrame::Resize { cols, rows }),
        PairEvent::DriverChanged { new_driver, old_driver, .. } => Some(
            PairFrame::DriverChanged { new_driver, old_driver },
        ),
        _ => None,
    }
}

/// Converts a session event into the frame that announces it to the room.
pub fn pair_event_to_frame(_session_id: &str, ev: PairEvent) -> (r: Option<PairFrame>)
    ensures
        r == event_frame(ev),
{
    match ev {
        PairEvent::TerminalOutput { data, .. } => Some(PairFrame::PtyOutput { data, offset: 0 }),
        PairEvent::TerminalInput { .. } => None,
        PairEvent::CursorMoved { user_id, row, col, .. } => Some(PairFrame::Cursor { from: user_id, row, col }),
        PairEvent::Resized { cols, rows, .. } => Some(PairFrame::Resize { cols, rows }),
        PairEvent::DriverChanged { new_driver, old_driver, .. } => Some(
            PairFrame::DriverChanged { new_driver, old_driver },
        ),
        PairEvent::SessionCreated { .. } => None,
        PairEvent::SessionEnded { .. } => None,
        PairEvent::UserJoined { .. } => None,
        PairEvent::UserLeft { .. } => None,
        PairEvent::Error(_) => None,
    }
}

/// A frame wrapped with its sender's identity, anti-replay counters and
/// signature. Empty `sig` or `pubkey` marks the legacy unsigned form.
#[derive(Clone, Debug)]
pub struct SignedPairFrame {
    pub member_id: String,
    pub pubkey: String,
    pub epoch: u64,
    pub seq: u64,
    pub sig: String,
    pub frame: PairFrame,
}

/// Why an inbound signed frame was dropped.
#[derive(Clone, Copy, Debug, PartialEq, Eq, Structural)]
pub enum FrameRejectReason {
    PubkeyMismatch,
    BadSignature,
    UnknownMember,
    StaleSeq,
    NotDriver,
    NotHost,
}

/// The verdict on an inbound signed frame.
#[derive(Clone, Copy, Debug, PartialEq, Eq, Structural)]
pub enum FrameVerifyResult {
    Accept,
    Reject(FrameRejectReason),
}

/// The pinned host capability: its identity pubkey (the authority anchor) and,
/// once known, its in-room member id.
#[derive(Clone, Debug)]
pub struct PinnedHost {
    pub member_id: Option<String>,
    pub pubkey: String,
}

/// The host pin as plain values.
pub struct HostPin {
    pub member_id: Option<Seq<char>>,
    pub pubkey: Seq<char>,
}

/// The authentication roster as plain values: member to pinned pubkey
/// (`None`: known but unpinned), member to last accepted `(epoch, seq)`, and
/// the pinned host.
pub struct AuthView {
    pub pubkeys: Map<Seq<char>, Option<Seq<char>>>,
    pub seqs: Map<Seq<char>, (u64, u64)>,
    pub host: Option<HostPin>,
}

pub open spec fn opt_str(o: Option<String>) -> Option<Seq<char>> {
    match o {
        Some(s) => Some(s@),
        None => None,
    }
}

/// Authentication state of the active pair session.
pub struct PairAuthState {
    /// member id to pinned identity pubkey (`None`: known but unpinned).
    pub member_pubkeys: StringHashMap<Option<String>>,
    /// member id to last accepted `(epoch, seq)`.
    pub last_seq: StringHashMap<(u64, u64)>,
    /// The pinned host; host-only frames are refused while it is `None`.
    pub pinned_host: Option<PinnedHost>,
}

impl View for PairAuthState {
    type V = AuthView;

    open spec fn view(&self) -> AuthView {
        AuthView {
            pubkeys: self.member_pubkeys@.map_values(|o: Option<String>| opt_str(o)),
            seqs: self.last_seq@,
            host: match self.pinned_host {
                Some(h) => Some(HostPin { member_id: opt_str(h.member_id), pubkey: h.pubkey@ }),
                None => None,
            },
        }
    }
}

/// A frame carries a signature and a pubkey (is not the legacy unsigned form).
pub open spec fn signed_ok(s: SignedPairFrame) -> bool {
    s.sig@.len() > 0 && s.pubkey@.len() > 0
}

/// `m` is pinned to a pubkey other than `pk`.
pub open spec fn pinned_to_other(pubkeys: Map<Seq<char>, Option<Seq<char>>>, m: Seq<char>, pk: Seq<char>) -> bool {
    pubkeys.contains_key(m) && match pubkeys[m] {
        Some(k) => k != pk,
        None => false,
    }
}

/// The pins after a `Join` from `m` carrying `pk`: unchanged when `m` is
/// pinned to another key, else `m` pinned to `pk`.
pub open spec fn join_pins(pubkeys: Map<Seq<char>, Option<Seq<char>>>, m: Seq<char>, pk: Seq<char>) -> Map<Seq<char>, Option<Seq<char>>> {
    if pinned_to_other(pubkeys, m, pk) {
        pubkeys
    } else {
        pubkeys.insert(m, Some(pk))
    }
}

/// The sender is pinned to a different pubkey than the one it carries.
pub open spec fn pubkey_conflict(v: AuthView, s: SignedPairFrame) -> bool {
    pinned_to_other(v.pubkeys, s.member_id@, s.pubkey@)
}

/// `(epoch, seq)` is strictly newer than `last`: a higher epoch, or the same
/// epoch with a higher seq.
pub open spec fn newer(epoch: u64, seq: u64, last: (u64, u64)) -> bool {
    epoch > last.0 || (epoch == last.0 && seq > last.1)
}

/// The lexicographic order on `(epoch, seq)`.
pub open spec fn seq_le(a: (u64, u64), b: (u64, u64)) -> bool {
    a.0 < b.0 || (a.0 == b.0 && a.1 <= b.1)
}

/// The frame is not newer than the last one accepted from its sender.
pub open spec fn stale(v: AuthView, s: SignedPairFrame) -> bool {
    v.seqs.contains_key(s.member_id@) && !newer(s.epoch, s.seq, v.seqs[s.member_id@])
}

/// The refusal owed when a frame's inner `from` names someone other than its
/// signer.
pub open spec fn from_refusal(s: SignedPairFrame) -> Option<FrameRejectReason> {
    match s.frame {
        PairFrame::TermInput { from, .. } => if from@ != s.member_id@ {
            Some(FrameRejectReason::NotDriver)
        } else {
            None
        },
        PairFrame::Cursor { from, .. } => if from@ != s.member_id@ {
            Some(FrameRejectReason::PubkeyMismatch)
        } else {
            None
        },
        PairFrame::RequestControl { from } => if from@ != s.member_id@ {
            Some(FrameRejectReason::PubkeyMismatch)
        } else {
            None
        },
        PairFrame::Join { from, .. } => if from@ != s.member_id@ {
            Some(FrameRejectReason::PubkeyMismatch)
        } else {
            None
        },
        _ => None,
    }
}

/// A host-only frame that the pinned host did not sign: no host is pinned,
/// the signer's pubkey is not the host's, or the host's member id is bound to
/// another member.
pub open spec fn host_refusal(v: AuthView, s: SignedPairFrame) -> bool {
    s.frame.host_only() && match v.host {
        Some(h) => h.pubkey != s.pubkey@ || match h.member_id {
            Some(mid) => mid != s.member_id@,
            None => false,
        },
        None => true,
    }
}

/// The verdict on `s`, checked in order: identity binding, signature (or
/// fail-closed refusal of unsigned frames), anti-replay, `from` binding, host
/// authority. `sig_valid` is whether the signature verifies against the
/// carried pubkey; it is consulted only for signed frames.
pub open spec fn verify_result(v: AuthView, require_signed: bool, s: SignedPairFrame, sig_valid: bool) -> FrameVerifyResult {
    if pubkey_conflict(v, s) {
        FrameVerifyResult::Reject(FrameRejectReason::PubkeyMismatch)
    } else if signed_ok(s) && !sig_valid {
        FrameVerifyResult::Reject(FrameRejectReason::BadSignature)
    } else if !signed_ok(s) && require_signed {
        FrameVerifyResult::Reject(FrameRejectReason::UnknownMember)
    } else if stale(v, s) {
        FrameVerifyResult::Reject(FrameRejectReason::StaleSeq)
    } else if signed_ok(s) && from_refusal(s) is Some {
        FrameVerifyResult::Reject(from_refusal(s)->0)
    } else if signed_ok(s) && host_refusal(v, s) {
        FrameVerifyResult::Reject(FrameRejectReason::NotHost)
    } else {
        FrameVerifyResult::Accept
    }
}

/// The roster after accepting `s`: a signed sender not yet in the roster is
/// pinned to its pubkey, its `(epoch, seq)` is recorded, and a host-only
/// frame binds the pinned host's member id if it was still unknown.
pub open spec fn accept_next(v: AuthView, s: SignedPairFrame) -> AuthView {
    AuthView {
        pubkeys: if signed_ok(s) && !v.pubkeys.contains_key(s.member_id@) {
            v.pubkeys.insert(s.member_id@, Some(s.pubkey@))
        } else {
            v.pubkeys
        },
        seqs: v.seqs.insert(s.member_id@, (s.epoch, s.seq)),
        host: match v.host {
            Some(h) => if signed_ok(s) && s.frame.host_only() && h.member_id is None {
                Some(HostPin { member_id: Some(s.member_id@), pubkey: h.pubkey })
            } else {
                Some(h)
            },
            None => None,
        },
    }
}

/// The roster after verifying `s`: changed only when the frame is accepted.
pub open spec fn verify_next(v: AuthView, require_signed: bool, s: SignedPairFrame, sig_valid: bool) -> AuthView {
    if verify_result(v, require_signed, s, sig_valid) is Accept {
        accept_next(v, s)
    } else {
        v
    }
}

/// Whether a frame from `sender` (`None`: the legacy unsigned path) may be
/// applied: frames that are not host-only always may; a host-only frame with
/// a verified sender only when that sender is the pinned host's member id.
pub open spec fn host_gate(v: AuthView, frame: PairFrame, sender: Option<Seq<char>>) -> bool {
    !frame.host_only() || match sender {
        None => true,
        Some(m) => match v.host {
            Some(h) => h.member_id == Some(m),
            None => false,
        },
    }
}

pub open spec fn opt_ref_str(o: Option<&str>) -> Option<Seq<char>> {
    match o {
        Some(s) => Some(s@),
        None => None,
    }
}

impl Default for PairAuthState {
    fn default() -> (r: Self)
        ensures
            r@.pubkeys == Map::<Seq<char>, Option<Seq<char>>>::empty(),
            r@.seqs == Map::<Seq<char>, (u64, u64)>::empty(),
            r@.host is None,
    {
        PairAuthState::new()
    }
}

impl PairAuthState {
    /// An empty roster with no pinned host.
    pub fn new() -> (r: Self)
        ensures
            r@.pubkeys == Map::<Seq<char>, Option<Seq<char>>>::empty(),
            r@.seqs == Map::<Seq<char>, (u64, u64)>::empty(),
            r@.host is None,
    {
        let r = PairAuthState {
            member_pubkeys: StringHashMap::new(),
            last_seq: StringHashMap::new(),
            pinned_host: None,
        };
        assert(r@.pubkeys =~= Map::<Seq<char>, Option<Seq<char>>>::empty());
        r
    }

    /// Authenticates an inbound signed frame and decides whether to apply or
    /// drop it. `signature_valid` is the outcome of checking `signed.sig`
    /// against `signed.pubkey` over the frame's canonical signing bytes; it is
    /// consulted only when the frame carries both. The roster changes only
    /// when the frame is accepted.
    pub fn verify_signed_frame(
        &mut self,
        require_signed: bool,
        signed: &SignedPairFrame,
        signature_valid: bool,
    ) -> (r: FrameVerifyResult)
        ensures
            r == verify_result(old(self)@, require_signed, *signed, signature_valid),
            final(self)@ == verify_next(old(self)@, require_signed, *signed, signature_valid),
    {
        let ghost v = self@;
        let mid: &str = signed.member_id.as_str();
        let pk: &str = signed.pubkey.as_str();
        // (1) identity binding
        match self.member_pubkeys.get(mid) {
            Some(Some(pinned)) => {
                if !str_eq(pinned.as_str(), pk) {
                    return FrameVerifyResult::Reject(FrameRejectReason::PubkeyMismatch);
                }
            },
            _ => {},
        }
        assert(!pubkey_conflict(v, *signed));
        // (2) signature, or fail closed on unsigned frames
        let is_signed = !signed.sig.as_str().is_empty() && !pk.is_empty();
        if is_signed {
            if !signature_valid {
                return FrameVerifyResult::Reject(FrameRejectReason::BadSignature);
            }
        } else if require_signed {
            return FrameVerifyResult::Reject(FrameRejectReason::UnknownMember);
        }
        // (3) anti-replay
        match self.last_seq.get(mid) {
            Some(last) => {
                let (last_epoch, last_seq) = *last;
                let is_newer = signed.epoch > last_epoch || (signed.epoch == last_epoch
                    && signed.seq > last_seq);
                if !is_newer {
                    return FrameVerifyResult::Reject(FrameRejectReason::StaleSeq);
                }
            },
            None => {},
        }
        // (4) the inner `from` must be the signer
        if is_signed {
            match &signed.frame {
                PairFrame::TermInput { from, .. } => {
                    if !str_eq(from.as_str(), mid) {
                        return FrameVerifyResult::Reject(FrameRejectReason::NotDriver);
                    }
                },
                PairFrame::Cursor { from, .. } => {
                    if !str_eq(from.as_str(), mid) {
                        return FrameVerifyResult::Reject(FrameRejectReason::PubkeyMismatch);
                    }
                },
                PairFrame::RequestControl { from } => {
                    if !str_eq(from.as_str(), mid) {
                        return FrameVerifyResult::Reject(FrameRejectReason::PubkeyMismatch);
                    }
                },
                PairFrame::Join { from, .. } => {
                    if !str_eq(from.as_str(), mid) {
                        return FrameVerifyResult::Reject(FrameRejectReason::PubkeyMismatch);
                    }
                },
                _ => {},
            }
        }
        // (5) host authority
        let mut bind_host: Option<String> = None;
        if is_signed && signed.frame.is_host_only() {
            match &self.pinned_host {
                Some(host) => {
                    if !str_eq(host.pubkey.as_str(), pk) {
                        return FrameVerifyResult::Reject(FrameRejectReason::NotHost);
                    }
                    match &host.member_id {
                        Some(hm) => {
                            if !str_eq(hm.as_str(), mid) {
                                return FrameVerifyResult::Reject(FrameRejectReason::NotHost);
                            }
                        },
                        None => {
                            bind_host = Some(owned(host.pubkey.as_str()));
                        },
                    }
                },
                None => {
                    return FrameVerifyResult::Reject(FrameRejectReason::NotHost);
                },
            }
        }
        assert(verify_result(v, require_signed, *signed, signature_valid) is Accept);
        // Accepted: record the binding, the counters and the host's member id.
        if is_signed && !self.member_pubkeys.contains_key(mid) {
            self.member_pubkeys.insert(owned(mid), Some(owned(pk)));
        }
        self.last_seq.insert(owned(mid), (signed.epoch, signed.seq));
        match bind_host {
            Some(host_pk) => {
                self.pinned_host = Some(PinnedHost { member_id: Some(owned(mid)), pubkey: host_pk });
            },
            None => {},
        }
        assert(self@.pubkeys =~= accept_next(v, *signed).pubkeys);
        FrameVerifyResult::Accept
    }

    /// Pins `member_id` to `pubkey` on a signed `Join`: no change for an empty
    /// pubkey or when the member is already pinned to a different key;
    /// otherwise the member is pinned to `pubkey`.
    pub fn pin_member_identity(&mut self, member_id: &str, pubkey: &str)
        ensures
            final(self)@.seqs == old(self)@.seqs,
            final(self)@.host == old(self)@.host,
            final(self)@.pubkeys == (if pubkey@.len() == 0 {
                old(self)@.pubkeys
            } else {
                join_pins(old(self)@.pubkeys, member_id@, pubkey@)
            }),
    {
        if pubkey.is_empty() {
            return;
        }
        let conflict = match self.member_pubkeys.get(member_id) {
            Some(Some(existing)) => !str_eq(existing.as_str(), pubkey),
            _ => false,
        };
        if !conflict {
            let ghost before = self@;
            self.member_pubkeys.insert(owned(member_id), Some(owned(pubkey)));
            assert(self@.pubkeys =~= before.pubkeys.insert(member_id@, Some(pubkey@)));
        }
    }

    /// Pins the session host: its pubkey, and its member id when one is given
    /// (an empty member id counts as none), which is then pinned to that
    /// pubkey too. No change for an empty pubkey.
    pub fn pin_host(&mut self, member_id: Option<&str>, pubkey: &str)
        ensures
            pubkey@.len() == 0 ==> final(self)@ == old(self)@,
            pubkey@.len() > 0 ==> {
                let mid = match member_id {
                    Some(m) => if m@.len() > 0 { Some(m@) } else { None },
                    None => None,
                };
                &&& final(self)@.host == Some(HostPin { member_id: mid, pubkey: pubkey@ })
                &&& final(self)@.seqs == old(self)@.seqs
                &&& final(self)@.pubkeys == match mid {
                    Some(m) => join_pins(old(self)@.pubkeys, m, pubkey@),
                    None => old(self)@.pubkeys,
                }
            },
    {
        if pubkey.is_empty() {
            return;
        }
        let mid: Option<&str> = match member_id {
            Some(m) => if m.is_empty() { None } else { Some(m) },
            None => None,
        };
        self.pinned_host = Some(PinnedHost {
            member_id: match mid {
                Some(m) => Some(owned(m)),
                None => None,
            },
            pubkey: owned(pubkey),
        });
        match mid {
            Some(m) => self.pin_member_identity(m, pubkey),
            None => {},
        }
    }

    /// Forgets a departed member's pin and counters, unless it is the pinned
    /// host, whose entries are kept.
    pub fn prune_member(&mut self, member_id: &str)
        ensures
            final(self)@.host == old(self)@.host,
            (old(self)@.host matches Some(h) && h.member_id == Some(member_id@)) ==> final(self)@ == old(self)@,
            !(old(self)@.host matches Some(h) && h.member_id == Some(member_id@)) ==> {
                &&& final(self)@.pubkeys == old(self)@.pubkeys.remove(member_id@)
                &&& final(self)@.seqs == old(self)@.seqs.remove(member_id@)
            },
    {
        let is_host = match &self.pinned_host {
            Some(h) => match &h.member_id {
                Some(hm) => str_eq(hm.as_str(), member_id),
                None => false,
            },
            None => false,
        };
        if is_host {
            return;
        }
        let ghost before = self@;
        self.member_pubkeys.remove(member_id);
        self.last_seq.remove(member_id);
        assert(self@.pubkeys =~= before.pubkeys.remove(member_id@));
    }

    /// Whether a frame from `verified_sender` may be applied under the host
    /// authority rule (`None`: the legacy unsigned path).
    pub fn host_authority_allows(&self, frame: &PairFrame, verified_sender: Option<&str>) -> (r: bool)
        ensures
            r == host_gate(self@, *frame, opt_ref_str(verified_sender)),
    {
        if !frame.is_host_only() {
            return true;
        }
        match verified_sender {
            None => true,
            Some(sender) => match &self.pinned_host {
                Some(h) => match &h.member_id {
                    Some(hm) => str_eq(hm.as_str(), sender),
                    None => false,
                },
                None => false,
            },
        }
    }
}

/// Under `require_signed`, a frame without a signature and pubkey is never
/// accepted, whatever the roster.
pub proof fn law_unsigned_fails_closed(v: AuthView, s: SignedPairFrame, sig_valid: bool)
    requires
        !signed_ok(s),
    ensures
        verify_result(v, true, s, sig_valid) is Reject,
{
}

/// A signed frame whose signature does not verify is never accepted.
pub proof fn law_bad_signature_rejected(v: AuthView, require_signed: bool, s: SignedPairFrame)
    requires
        signed_ok(s),
    ensures
        verify_result(v, require_signed, s, false) is Reject,
{
}

/// Trust on first use: once a member is pinned to a pubkey, a frame from that
/// member carrying another pubkey is refused as `PubkeyMismatch`.
pub proof fn law_pinned_member_rejects_other_key(
    v: AuthView,
    require_signed: bool,
    s: SignedPairFrame,
    sig_valid: bool,
    k: Seq<char>,
)
    requires
        v.pubkeys.contains_key(s.member_id@),
        v.pubkeys[s.member_id@] == Some(k),
        k != s.pubkey@,
    ensures
        verify_result(v, require_signed, s, sig_valid) == FrameVerifyResult::Reject(
            FrameRejectReason::PubkeyMismatch,
        ),
{
}

/// A pin, once made, is never changed by verifying a frame.
pub proof fn law_pins_are_stable(
    v: AuthView,
    require_signed: bool,
    s: SignedPairFrame,
    sig_valid: bool,
    m: Seq<char>,
    k: Seq<char>,
)
    requires
        v.pubkeys.contains_key(m),
        v.pubkeys[m] == Some(k),
    ensures
        verify_next(v, require_signed, s, sig_valid).pubkeys.contains_key(m),
        verify_next(v, require_signed, s, sig_valid).pubkeys[m] == Some(k),
{
}

/// The first accepted signed frame from an unknown member pins that member to
/// the frame's pubkey; every accepted signed frame carries its sender's
/// pinned key (if any).
pub proof fn law_accept_pins_signer(v: AuthView, require_signed: bool, s: SignedPairFrame, sig_valid: bool)
    requires
        verify_result(v, require_signed, s, sig_valid) is Accept,
        signed_ok(s),
    ensures
        !v.pubkeys.contains_key(s.member_id@) ==> verify_next(v, require_signed, s, sig_valid).pubkeys[s.member_id@]
            == Some(s.pubkey@),
        v.pubkeys.contains_key(s.member_id@) ==> (v.pubkeys[s.member_id@] is None
            || v.pubkeys[s.member_id@] == Some(s.pubkey@)),
{
}

/// Anti-replay: an accepted frame is strictly newer than the last one accepted
/// from its sender, and presenting it again right after is refused as
/// `StaleSeq`.
pub proof fn law_replay_rejected(v: AuthView, require_signed: bool, s: SignedPairFrame, sig_valid: bool)
    requires
        verify_result(v, require_signed, s, sig_valid) is Accept,
    ensures
        v.seqs.contains_key(s.member_id@) ==> newer(s.epoch, s.seq, v.seqs[s.member_id@]),
        verify_result(verify_next(v, require_signed, s, sig_valid), require_signed, s, sig_valid)
            == FrameVerifyResult::Reject(FrameRejectReason::StaleSeq),
{
    let n = verify_next(v, require_signed, s, sig_valid);
    assert(n.seqs[s.member_id@] == (s.epoch, s.seq));
    assert(!pubkey_conflict(n, s));
}

/// The recorded `(epoch, seq)` of every member only moves forward.
pub proof fn law_counters_monotone(
    v: AuthView,
    require_signed: bool,
    s: SignedPairFrame,
    sig_valid: bool,
    m: Seq<char>,
)
    requires
        v.seqs.contains_key(m),
    ensures
        verify_next(v, require_signed, s, sig_valid).seqs.contains_key(m),
        seq_le(v.seqs[m], verify_next(v, require_signed, s, sig_valid).seqs[m]),
{
}

/// An accepted signed frame's inner `from`, where it has one, names its
/// signer.
pub proof fn law_from_is_signer(v: AuthView, require_signed: bool, s: SignedPairFrame, sig_valid: bool)
    requires
        verify_result(v, require_signed, s, sig_valid) is Accept,
        signed_ok(s),
    ensures
        s.frame.claimed_from() is Some ==> s.frame.claimed_from() == Some(s.member_id@),
{
}

/// Host authority: an accepted signed host-only frame was signed with the
/// pinned host's pubkey, by the host's member id when that is known; with no
/// pinned host no such frame is accepted.
pub proof fn law_host_only_from_pinned_host(
    v: AuthView,
    require_signed: bool,
    s: SignedPairFrame,
    sig_valid: bool,
)
    requires
        verify_result(v, require_signed, s, sig_valid) is Accept,
        signed_ok(s),
        s.frame.host_only(),
    ensures
        v.host is Some,
        v.host->0.pubkey == s.pubkey@,
        v.host->0.member_id is None || v.host->0.member_id == Some(s.member_id@),
{
}

/// Verifying frames never changes the pinned host's pubkey, never pins or
/// unpins a host, and never rebinds a known host member id.
pub proof fn law_host_pin_stable(v: AuthView, require_signed: bool, s: SignedPairFrame, sig_valid: bool)
    ensures
        verify_next(v, require_signed, s, sig_valid).host is Some <==> v.host is Some,
        v.host is Some ==> verify_next(v, require_signed, s, sig_valid).host->0.pubkey == v.host->0.pubkey,
        (v.host is Some && v.host->0.member_id is Some) ==> verify_next(v, require_signed, s, sig_valid).host
            == v.host,
{
}

/// The apply-time host check agrees with verification: once a signed host-only
/// frame is accepted, its verified sender passes the host check.
pub proof fn law_accepted_host_frame_passes_gate(
    v: AuthView,
    require_signed: bool,
    s: SignedPairFrame,
    sig_valid: bool,
)
    requires
        verify_result(v, require_signed, s, sig_valid) is Accept,
        signed_ok(s),
    ensures
        host_gate(verify_next(v, require_signed, s, sig_valid), s.frame, Some(s.member_id@)),
{
}

/// Whether a pair room worker is brought up: collaboration enabled, a relay
/// configured, and no worker running yet.
pub fn pair_start_allowed(collab_enabled: bool, relay_url: &str, worker_running: bool) -> (r: bool)
    ensures
        r == (collab_enabled && relay_url@.len() > 0 && !worker_running),
{
    collab_enabled && !relay_url.is_empty() && !worker_running
}

/// The output offset after a chunk of `len` bytes (saturating).
pub fn next_output_offset(offset: u64, len: usize) -> (r: u64)
    ensures
        r == (if offset + len <= u64::MAX { (offset + len) as u64 } else { u64::MAX }),
{
    offset.saturating_add(len as u64)
}

/// What the app does with an authenticated inbound frame.
#[derive(Clone, Debug)]
pub enum FramePlan {
    /// Drop it.
    Drop,
    /// Write the keystrokes to the host PTY (still subject to the session
    /// manager's driver check).
    RelayInput { from: String, data: Vec<u8> },
    /// Pin the member's identity and register it in the roster.
    RegisterMember { from: String, name: String, pubkey: String },
    /// Hand the driver seat to `from` if the session allows takeovers.
    GrantControl { from: String },
    /// Show it in the pair panel.
    Forward(PairFrame),
}

impl PairAuthState {
    /// How an inbound frame is applied. Host-only frames must pass the host
    /// check; keystrokes are taken only by the host's PTY and only from the
    /// current driver (when both the sender and the driver are known), cut to
    /// their first `max_term_input` bytes; joins are registered only by the
    /// host; control requests are arbitrated only where the host's PTY is;
    /// everything else is shown in the panel.
    pub fn plan_frame(
        &self,
        frame: PairFrame,
        verified_sender: Option<&str>,
        owns_host_pane: bool,
        is_host: bool,
        driver: Option<&str>,
        max_term_input: usize,
    ) -> (r: FramePlan)
        ensures
            !host_gate(self@, frame, opt_ref_str(verified_sender)) ==> r is Drop,
            host_gate(self@, frame, opt_ref_str(verified_sender)) ==> match frame {
                PairFrame::TermInput { from, data } => if !owns_host_pane || (verified_sender matches Some(s)
                    && driver matches Some(d) && s@ != d@) {
                    r is Drop
                } else {
                    r matches FramePlan::RelayInput { from: f, data: d } && f == from
                        && d@ == cap_bytes(data@, max_term_input as nat)
                },
                PairFrame::Join { from, name, pubkey } => if !is_host {
                    r is Drop
                } else {
                    r matches FramePlan::RegisterMember { from: f, name: n, pubkey: k } && f == from && n == name
                        && k == pubkey
                },
                PairFrame::RequestControl { from } => if !owns_host_pane {
                    r is Drop
                } else {
                    r matches FramePlan::GrantControl { from: f } && f == from
                },
                _ => r matches FramePlan::Forward(g) && g == frame,
            },
    {
        if !self.host_authority_allows(&frame, verified_sender) {
            return FramePlan::Drop;
        }
        match frame {
            PairFrame::TermInput { from, data } => {
                if !owns_host_pane {
                    return FramePlan::Drop;
                }
                match (verified_sender, driver) {
                    (Some(s), Some(d)) => {
                        if !str_eq(s, d) {
                            return FramePlan::Drop;
                        }
                    },
                    _ => {},
                }
                let mut data = data;
                if data.len() > max_term_input {
                    let _dropped = data.split_off(max_term_input);
                }
                FramePlan::RelayInput { from, data }
            },
            PairFrame::Join { from, name, pubkey } => {
                if !is_host {
                    FramePlan::Drop
                } else {
                    FramePlan::RegisterMember { from, name, pubkey }
                }
            },
            PairFrame::RequestControl { from } => {
                if !owns_host_pane {
                    FramePlan::Drop
                } else {
                    FramePlan::GrantControl { from }
                }
            },
            other => FramePlan::Forward(other),
        }
    }
}

// ---------------------------------------------------------------------------
// Routing of room events
// ---------------------------------------------------------------------------

/// An event from the pair room connection.
#[derive(Clone, Debug)]
pub enum PairInbound {
    /// This client joined the room as `member_id`.
    RoomReady { session_id: String, member_id: String },
    /// A member joined the room (relay-level, unauthenticated).
    MemberJoined { member_id: String },
    /// A member left the room.
    MemberLeft { member_id: String },
    /// Current number of members.
    MemberCount { count: u32 },
    /// A bare, unsigned application frame (legacy wire form).
    Frame(PairFrame),
    /// A signed application frame, to be verified before it is applied.
    SignedFrame(SignedPairFrame),
    /// The room connection dropped.
    Disconnected,
    /// A transport or session error.
    Error(String),
}

/// An event shown by the pair panel.
#[derive(Clone, Debug, PartialEq, Eq)]
pub enum PairPanelEvent {
    Connected,
    MemberJoined(String),
    MemberLeft(String),
    MemberCount(u32),
    Disconnected,
    Error(String),
}

/// One thing the app does in response to a room event.
#[derive(Clone, Debug)]
pub enum PairPollAction {
    /// Forward an event to the pair panel.
    EmitEvent(PairPanelEvent),
    /// Send a full status snapshot to the host pane.
    SendStatus(u64),
    /// Host: re-announce the session metadata and roster.
    RebroadcastMeta(String),
    /// Navigator: send a `Join` (with display name and identity pubkey) as `from`.
    SendJoin { from: String },
    /// Host: register the member in the session manager.
    RegisterMember { session_id: String, member_id: String },
    /// Host: replay recent terminal state to the member.
    SendSnapshot { session_id: String, member_id: String },
    /// Forget the member's identity and anti-replay state.
    PruneMember(String),
    /// Apply a frame with no authenticated sender.
    ApplyFrame(PairFrame),
    /// Verify a signed frame and apply its inner frame only if accepted.
    VerifyAndApply(SignedPairFrame),
}

/// What a room event leads to. On `RoomReady` the panel is told it is
/// connected, the host pane (if any) gets a status snapshot, and then the host
/// re-announces its session while a navigator sends its `Join`. On
/// `MemberJoined` the host of a running session sends the member a snapshot,
/// and registers it at once only when signed joins are not required (otherwise
/// registration waits for the member's verified signed `Join`). A member that
/// left is pruned. A bare frame is applied only when signed joins are not
/// required; a signed one always goes through verification.
pub open spec fn route_pair_inbound_spec(
    is_host: bool,
    require_signed_join: bool,
    session_id: Option<String>,
    host_pane: Option<u64>,
    ev: PairInbound,
) -> Seq<PairPollAction> {
    match ev {
        PairInbound::RoomReady { session_id: sid, member_id } => {
            let status = match host_pane {
                Some(p) => seq![PairPollAction::SendStatus(p)],
                None => Seq::<PairPollAction>::empty(),
            };
            let announce = if is_host {
                PairPollAction::RebroadcastMeta(sid)
            } else {
                PairPollAction::SendJoin { from: member_id }
            };
            seq![PairPollAction::EmitEvent(PairPanelEvent::Connected)] + status + seq![announce]
        },
        PairInbound::MemberJoined { member_id } => {
            let host_part = match session_id {
                Some(s) => if is_host {
                    let register = if require_signed_join {
                        Seq::<PairPollAction>::empty()
                    } else {
                        seq![PairPollAction::RegisterMember { session_id: s, member_id }]
                    };
                    register + seq![PairPollAction::SendSnapshot { session_id: s, member_id }]
                } else {
                    Seq::<PairPollAction>::empty()
                },
                None => Seq::<PairPollAction>::empty(),
            };
            host_part + seq![PairPollAction::EmitEvent(PairPanelEvent::MemberJoined(member_id))]
        },
        PairInbound::MemberLeft { member_id } => seq![
            PairPollAction::PruneMember(member_id),
            PairPollAction::EmitEvent(PairPanelEvent::MemberLeft(member_id)),
        ],
        PairInbound::MemberCount { count } => seq![PairPollAction::EmitEvent(PairPanelEvent::MemberCount(count))],
        PairInbound::Frame(f) => if require_signed_join {
            Seq::<PairPollAction>::empty()
        } else {
            seq![PairPollAction::ApplyFrame(f)]
        },
        PairInbound::SignedFrame(s) => seq![PairPollAction::VerifyAndApply(s)],
        PairInbound::Disconnected => seq![PairPollAction::EmitEvent(PairPanelEvent::Disconnected)],
        PairInbound::Error(m) => seq![PairPollAction::EmitEvent(PairPanelEvent::Error(m))],
    }
}

/// Decide what one room event leads to; the app performs the actions in order.
pub fn route_pair_inbound(
    is_host: bool,
    require_signed_join: bool,
    session_id: Option<String>,
    host_pane: Option<u64>,
    ev: PairInbound,
) -> (r: Vec<PairPollAction>)
    ensures
        r@ == route_pair_inbound_spec(is_host, require_signed_join, session_id, host_pane, ev),
{
    let ghost sid0 = session_id;
    let ghost ev0 = ev;
    let mut r: Vec<PairPollAction> = Vec::new();
    match ev {
        PairInbound::RoomReady { session_id: sid, member_id } => {
            r.push(PairPollAction::EmitEvent(PairPanelEvent::Connected));
            match host_pane {
                Some(p) => r.push(PairPollAction::SendStatus(p)),
                None => {},
            }
            if is_host {
                r.push(PairPollAction::RebroadcastMeta(sid));
            } else {
                r.push(PairPollAction::SendJoin { from: member_id });
            }
        },
        PairInbound::MemberJoined { member_id } => {
            match session_id {
                Some(s) => {
                    if is_host {
                        if !require_signed_join {
                            r.push(PairPollAction::RegisterMember { session_id: s.clone(), member_id: member_id.clone() });
                        }
                        r.push(PairPollAction::SendSnapshot { session_id: s, member_id: member_id.clone() });
                    }
                },
                None => {},
            }
            r.push(PairPollAction::EmitEvent(PairPanelEvent::MemberJoined(member_id)));
        },
        PairInbound::MemberLeft { member_id } => {
            r.push(PairPollAction::PruneMember(member_id.clone()));
            r.push(PairPollAction::EmitEvent(PairPanelEvent::MemberLeft(member_id)));
        },
        PairInbound::MemberCount { count } => {
            r.push(PairPollAction::EmitEvent(PairPanelEvent::MemberCount(count)));
        },
        PairInbound::Frame(f) => {
            if !require_signed_join {
                r.push(PairPollAction::ApplyFrame(f));
            }
        },
        PairInbound::SignedFrame(s) => {
            r.push(PairPollAction::VerifyAndApply(s));
        },
        PairInbound::Disconnected => {
            r.push(PairPollAction::EmitEvent(PairPanelEvent::Disconnected));
        },
        PairInbound::Error(m) => {
            r.push(PairPollAction::EmitEvent(PairPanelEvent::Error(m)));
        },
    }
    assert(r@ =~= route_pair_inbound_spec(is_host, require_signed_join, sid0, host_pane, ev0));
    r
}

/// While signed joins are required, no room event registers a member (a
/// member enters the roster only through its verified signed `Join`), and a
/// navigator never registers one.
pub proof fn law_signed_join_required(
    is_host: bool,
    require_signed_join: bool,
    session_id: Option<String>,
    host_pane: Option<u64>,
    ev: PairInbound,
)
    ensures
        forall|i: int|
            0 <= i < route_pair_inbound_spec(is_host, require_signed_join, session_id, host_pane, ev).len()
                && (#[trigger] route_pair_inbound_spec(is_host, require_signed_join, session_id, host_pane, ev)[i]) is RegisterMember
                ==> is_host && !require_signed_join,
{
}

/// While signed joins are required, a bare unsigned frame is never applied.
pub proof fn law_unsigned_frames_fail_closed(
    is_host: bool,
    session_id: Option<String>,
    host_pane: Option<u64>,
    ev: PairInbound,
)
    ensures
        forall|i: int|
            0 <= i < route_pair_inbound_spec(is_host, true, session_id, host_pane, ev).len()
                ==> !((#[trigger] route_pair_inbound_spec(is_host, true, session_id, host_pane, ev)[i]) is ApplyFrame),
{
}

// ---------------------------------------------------------------------------
// Late-joiner replay buffer
// ---------------------------------------------------------------------------

/// Upper bound on the host's replay buffer (256 KiB of raw PTY output).
pub const MAX_SNAPSHOT_BYTES: usize = 256 * 1024;

/// The last `n` elements of `s` (all of `s` when it is shorter).
pub open spec fn keep_tail(s: Seq<u8>, n: nat) -> Seq<u8> {
    if s.len() <= n {
        s
    } else {
        s.skip(s.len() - n)
    }
}

/// A bounded buffer of the host's most recent raw PTY output, replayed to
/// late joiners; the oldest bytes are evicted first.
pub struct PairSnapshotBuffer {
    buf: VecDeque<u8>,
}

impl View for PairSnapshotBuffer {
    type V = Seq<u8>;

    closed spec fn view(&self) -> Seq<u8> {
        self.buf@
    }
}

impl Default for PairSnapshotBuffer {
    fn default() -> (r: Self)
        ensures
            r@ == Seq::<u8>::empty(),
    {
        PairSnapshotBuffer::new()
    }
}

impl PairSnapshotBuffer {
    /// An empty buffer.
    pub fn new() -> (r: Self)
        ensures
            r@ == Seq::<u8>::empty(),
    {
        PairSnapshotBuffer { buf: VecDeque::new() }
    }

    /// Appends a chunk of output and keeps only the newest
    /// `MAX_SNAPSHOT_BYTES` bytes.
    pub fn push(&mut self, data: &[u8])
        ensures
            final(self)@ == keep_tail(old(self)@ + data@, MAX_SNAPSHOT_BYTES as nat),
            final(self)@.len() <= MAX_SNAPSHOT_BYTES,
    {
        let ghost all = old(self)@ + data@;
        let n = data.len();
        if n >= MAX_SNAPSHOT_BYTES {
            self.buf.clear();
            let start = n - MAX_SNAPSHOT_BYTES;
            let mut i = start;
            while i < n
                invariant
                    start == n - MAX_SNAPSHOT_BYTES,
                    n == data@.len(),
                    start <= i <= n,
                    self.buf@ == data@.subrange(start as int, i as int),
                decreases n - i,
            {
                self.buf.push_back(data[i]);
                i += 1;
                assert(self.buf@ =~= data@.subrange(start as int, i as int));
            }
            assert(all.skip(all.len() - MAX_SNAPSHOT_BYTES) =~= data@.subrange(start as int, n as int));
            return;
        }
        let ghost before = self.buf@;
        let mut i: usize = 0;
        while i < n
            invariant
                n == data@.len(),
                0 <= i <= n,
                self.buf@ == before + data@.take(i as int),
            decreases n - i,
        {
            self.buf.push_back(data[i]);
            i += 1;
            assert(self.buf@ =~= before + data@.take(i as int));
        }
        assert(data@.take(n as int) =~= data@);
        let len = self.buf.len();
        if len > MAX_SNAPSHOT_BYTES {
            let overflow = len - MAX_SNAPSHOT_BYTES;
            let mut k: usize = 0;
            while k < overflow
                invariant
                    all == before + data@,
                    all.len() == len,
                    overflow == len - MAX_SNAPSHOT_BYTES,
                    0 <= k <= overflow,
                    self.buf@ == all.skip(k as int),
                decreases overflow - k,
            {
                self.buf.pop_front();
                k += 1;
                assert(self.buf@ =~= all.skip(k as int));
            }
        }
    }

    /// The buffered bytes, oldest first.
    pub fn snapshot(&self) -> (r: Vec<u8>)
        ensures
            r@ == self@,
    {
        let mut out: Vec<u8> = Vec::new();
        let n = self.buf.len();
        let mut i: usize = 0;
        while i < n
            invariant
                n == self.buf@.len(),
                0 <= i <= n,
                out@ == self.buf@.take(i as int),
            decreases n - i,
        {
            out.push(self.buf[i]);
            i += 1;
            assert(out@ =~= self.buf@.take(i as int));
        }
        assert(self.buf@.take(n as int) =~= self.buf@);
        out
    }

    /// Empties the buffer.
    pub fn clear(&mut self)
        ensures
            final(self)@ == Seq::<u8>::empty(),
    {
        self.buf.clear();
    }
}

/// Pushing two chunks one after the other leaves the same bytes as pushing
/// them as one chunk.
pub proof fn law_snapshot_push_composes(buf: Seq<u8>, a: Seq<u8>, b: Seq<u8>, n: nat)
    ensures
        keep_tail(keep_tail(buf + a, n) + b, n) == keep_tail(buf + a + b, n),
{
    let x = buf + a;
    let y = keep_tail(x, n);
    if b.len() >= n {
        assert((y + b).skip((y + b).len() - n) =~= b.skip(b.len() - n));
        assert((x + b).skip((x + b).len() - n) =~= b.skip(b.len() - n));
        if (y + b).len() == n {
            assert((y + b) =~= b);
            assert(b.skip(0) =~= b);
        }
        if (x + b).len() == n {
            assert((x + b) =~= b);
            assert(b.skip(0) =~= b);
        }
    } else if x.len() <= n {
        assert(y == x);
    } else {
        assert(y =~= x.skip(x.len() - n));
        assert(keep_tail(y + b, n) =~= keep_tail(x + b, n));
    }
    assert(buf + a + b =~= x + b);
}

// ---------------------------------------------------------------------------
// Invites
// ---------------------------------------------------------------------------

/// What `base64::engine::general_purpose::URL_SAFE_NO_PAD.encode` returns for
/// the given bytes.
pub uninterp spec fn base64url_encode(bytes: Seq<u8>) -> Seq<char>;

/// What `base64::engine::general_purpose::URL_SAFE_NO_PAD.decode` returns for
/// the given input (`None` for an error).
pub uninterp spec fn base64url_decode(text: Seq<u8>) -> Option<Seq<u8>>;

/// A character of the URL-safe base64 alphabet.
pub open spec fn is_url_safe_b64(c: char) -> bool {
    ('A' <= c && c <= 'Z') || ('a' <= c && c <= 'z') || ('0' <= c && c <= '9') || c == '-' || c == '_'
}

/// Length of the unpadded base64 encoding of `n` bytes.
pub open spec fn b64_nopad_len(n: nat) -> nat {
    n / 3 * 4 + if n % 3 == 0 {
        0nat
    } else if n % 3 == 1 {
        2nat
    } else {
        3nat
    }
}

#[verifier::external_type_specification]
#[verifier::external_body]
pub struct ExDecodeError(base64::DecodeError);

#[verifier::external_type_specification]
#[verifier::external_body]
pub struct ExFromUtf8Error(std::string::FromUtf8Error);

/// `URL_SAFE_NO_PAD.encode` (base64 crate). Claimed, as its source shows: the
/// output has `b64_nopad_len` characters of the URL-safe alphabet, and
/// decoding it with the same engine gives the input back. The length bound
/// excludes the input sizes on which the crate panics computing the output
/// size.
#[verifier::external_body]
fn b64url_encode(bytes: &[u8]) -> (r: String)
    requires
        b64_nopad_len(bytes@.len()) <= usize::MAX,
    ensures
        r@ == base64url_encode(bytes@),
        r@.len() == b64_nopad_len(bytes@.len()),
        forall|i: int| 0 <= i < r@.len() ==> is_url_safe_b64(#[trigger] r@[i]),
        base64url_decode(encode_utf8(r@)) == Some(bytes@),
{
    base64::engine::general_purpose::URL_SAFE_NO_PAD.encode(bytes)
}

/// `URL_SAFE_NO_PAD.decode` (base64 crate). Claimed: the result is the one
/// the name `base64url_decode` stands for.
#[verifier::external_body]
fn b64url_decode(text: &[u8]) -> (r: Result<Vec<u8>, base64::DecodeError>)
    ensures
        match r {
            Ok(b) => base64url_decode(text@) == Some(b@),
            Err(_) => base64url_decode(text@) is None,
        },
{
    base64::engine::general_purpose::URL_SAFE_NO_PAD.decode(text)
}

/// `String::from_utf8`. Claimed, as its documentation says: `Ok` exactly for
/// valid UTF-8, holding the decoded characters.
#[verifier::external_body]
fn string_from_utf8(bytes: Vec<u8>) -> (r: Result<String, std::string::FromUtf8Error>)
    ensures
        r is Ok <==> valid_utf8(bytes@),
        r matches Ok(s) ==> s@ == decode_utf8(bytes@),
{
    String::from_utf8(bytes)
}

/// `session_id ":" host_pubkey`, the invite's payload.
pub open spec fn invite_payload(session_id: Seq<char>, host_pubkey: Seq<char>) -> Seq<char> {
    session_id + seq![':'] + host_pubkey
}

/// Index of the first `:` in `s`.
pub open spec fn first_colon(s: Seq<char>) -> Option<int>
    decreases s.len(),
{
    if s.len() == 0 {
        None
    } else if s[0] == ':' {
        Some(0)
    } else {
        match first_colon(s.drop_first()) {
            Some(i) => Some(i + 1),
            None => None,
        }
    }
}

proof fn lemma_first_colon(s: Seq<char>, k: int)
    requires
        0 <= k <= s.len(),
        forall|j: int| 0 <= j < k ==> s[j] != ':',
        k == s.len() || s[k] == ':',
    ensures
        first_colon(s) == (if k < s.len() { Some(k) } else { None::<int> }),
    decreases s.len(),
{
    if s.len() > 0 && s[0] != ':' {
        lemma_first_colon(s.drop_first(), k - 1);
    }
}

/// The `(session_id, host_pubkey)` an invite text decodes to: base64url of
/// UTF-8 text with a non-empty part before its first `:`.
pub open spec fn decoded_invite(t: Seq<char>) -> Option<(Seq<char>, Seq<char>)> {
    match base64url_decode(encode_utf8(t)) {
        Some(b) => if valid_utf8(b) {
            let text = decode_utf8(b);
            match first_colon(text) {
                Some(k) => if k > 0 {
                    Some((text.take(k), text.skip(k + 1)))
                } else {
                    None
                },
                None => None,
            }
        } else {
            None
        },
        None => None,
    }
}

/// What an invite parses to: nothing for blank input; the decoded
/// `(session_id, host_pubkey)` when the trimmed input decodes as one; else the
/// trimmed input taken as a bare session id with no host pubkey.
pub open spec fn parse_invite_spec(invite: Seq<char>) -> Option<(Seq<char>, Seq<char>)> {
    let t = trim_white(invite);
    if t.len() == 0 {
        None
    } else {
        match decoded_invite(t) {
            Some(p) => Some(p),
            None => Some((t, Seq::<char>::empty())),
        }
    }
}

proof fn lemma_trim_alphabet(t: Seq<char>)
    requires
        t.len() > 0,
        forall|i: int| 0 <= i < t.len() ==> is_url_safe_b64(#[trigger] t[i]),
    ensures
        trim_white(t) == t,
{
    assert(!is_white_space(t[0]));
    assert(skip_white(t) == t);
    assert(!is_white_space(t.last()));
    assert(trim_white_end(t) == t);
}

/// Builds the invite for a host session: base64url (no padding) of
/// `session_id ":" host_pubkey`. An invite for a non-empty session id without
/// `:` parses back to exactly that session id and host pubkey.
pub fn make_invite(session_id: &str, host_pubkey: &str) -> (r: String)
    requires
        b64_nopad_len(encode_utf8(invite_payload(session_id@, host_pubkey@)).len()) <= usize::MAX,
    ensures
        r@ == base64url_encode(encode_utf8(invite_payload(session_id@, host_pubkey@))),
        (session_id@.len() > 0 && !session_id@.contains(':')) ==> parse_invite_spec(r@) == Some(
            (session_id@, host_pubkey@),
        ),
{
    let raw = concat3(session_id, ":", host_pubkey);
    proof {
        reveal_strlit(":");
        assert(raw@ =~= invite_payload(session_id@, host_pubkey@));
    }
    let r = b64url_encode(raw.as_str().as_bytes());
    proof {
        let payload = invite_payload(session_id@, host_pubkey@);
        if session_id@.len() > 0 && !session_id@.contains(':') {
            let n = encode_utf8(payload).len();
            if n == 0 {
                vstd::utf8::encode_utf8_decode_utf8(payload);
                assert(payload.len() > 0);
                assert(encode_utf8(payload) =~= Seq::<u8>::empty());
                assert(decode_utf8(Seq::<u8>::empty()) =~= Seq::<char>::empty());
            }
            assert(r@.len() > 0);
            lemma_trim_alphabet(r@);
            vstd::utf8::encode_utf8_valid_utf8(payload);
            vstd::utf8::encode_utf8_decode_utf8(payload);
            let k = session_id@.len() as int;
            assert forall|j: int| 0 <= j < k implies payload[j] != ':' by {
                assert(payload[j] == session_id@[j]);
                if payload[j] == ':' {
                    assert(session_id@.contains(':'));
                }
            }
            lemma_first_colon(payload, k);
            assert(payload.take(k) =~= session_id@);
            assert(payload.skip(k + 1) =~= host_pubkey@);
        }
    }
    r
}

/// Parses an invite into `(session_id, host_pubkey)`; a bare session id (no
/// decodable `:`) parses with an empty host pubkey. `None` only for blank
/// input.
pub fn parse_invite(invite: &str) -> (r: Option<(String, String)>)
    ensures
        match r {
            Some(p) => parse_invite_spec(invite@) == Some((p.0@, p.1@)),
            None => parse_invite_spec(invite@) is None,
        },
{
    let t = trim_owned(invite);
    if t.as_str().is_empty() {
        return None;
    }
    let ghost tv = t@;
    match b64url_decode(t.as_str().as_bytes()) {
        Ok(bytes) => {
            let ghost bv = bytes@;
            match string_from_utf8(bytes) {
                Ok(text) => {
                    let cs = chars_of(text.as_str());
                    let n = cs.len();
                    let mut k: usize = 0;
                    while k < n && cs[k] != ':'
                        invariant
                            cs@ == text@,
                            n == cs@.len(),
                            0 <= k <= n,
                            forall|j: int| 0 <= j < k ==> cs@[j] != ':',
                        decreases n - k,
                    {
                        k += 1;
                    }
                    proof {
                        lemma_first_colon(text@, k as int);
                    }
                    if k < n && k > 0 {
                        let sid = string_from_chars(&cs, 0, k);
                        let pk = string_from_chars(&cs, k + 1, n);
                        proof {
                            assert(sid@ =~= text@.take(k as int));
                            assert(pk@ =~= text@.skip(k + 1));
                        }
                        return Some((sid, pk));
                    }
                },
                Err(_) => {},
            }
        },
        Err(_) => {},
    }
    Some((t, String::new()))
}

// ---------------------------------------------------------------------------
// Room identifiers
// ---------------------------------------------------------------------------

/// A digit or a lowercase ASCII letter.
pub open spec fn is_lower_alnum(c: char) -> bool {
    ('0' <= c && c <= '9') || ('a' <= c && c <= 'z')
}

/// `rand::random::<u8>()`: a byte from the thread-local generator. Nothing is
/// claimed of its value (it depends on chance); the crate panics if the
/// operating system cannot seed the generator.
#[verifier::external_body]
fn random_byte() -> u8 {
    rand::random::<u8>()
}

/// The character for `idx` in `0-9a-z`.
fn alnum_char(idx: u8) -> (c: char)
    requires
        idx < 36,
    ensures
        is_lower_alnum(c),
        idx < 10 ==> c as u32 == '0' as u32 + idx,
        idx >= 10 ==> c as u32 == 'a' as u32 + idx - 10,
{
    if idx < 10 {
        ((48u8 + idx) as char)
    } else {
        ((97u8 + idx - 10) as char)
    }
}

/// `len` random characters from `0-9a-z`.
pub fn random_alnum(len: usize) -> (r: String)
    ensures
        r@.len() == len,
        forall|i: int| 0 <= i < len ==> is_lower_alnum(#[trigger] r@[i]),
{
    let mut out = String::new();
    let mut i: usize = 0;
    while i < len
        invariant
            0 <= i <= len,
            out@.len() == i,
            forall|j: int| 0 <= j < i ==> is_lower_alnum(#[trigger] out@[j]),
        decreases len - i,
    {
        let idx = random_byte() % 36;
        push_char(&mut out, alnum_char(idx));
        i += 1;
    }
    out
}

/// A 32-character session id (the room's capability secret).
pub fn generate_session_id() -> (r: String)
    ensures
        r@.len() == 32,
        forall|i: int| 0 <= i < 32 ==> is_lower_alnum(#[trigger] r@[i]),
{
    random_alnum(32)
}

/// A 16-character member id for this app within the room.
pub fn generate_member_id() -> (r: String)
    ensures
        r@.len() == 16,
        forall|i: int| 0 <= i < 16 ==> is_lower_alnum(#[trigger] r@[i]),
{
    random_alnum(16)
}

} // verus!
