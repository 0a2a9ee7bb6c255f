use jarvis::pair::{
    generate_member_id, generate_session_id, make_invite, pair_event_to_frame, parse_invite, random_alnum,
    FrameRejectReason, FrameVerifyResult, PairAuthState, PairEvent, PairFrame, PairRole, PairSnapshotBuffer,
    PinnedHost, SignedPairFrame, MAX_SNAPSHOT_BYTES,
};

fn signed(member_id: &str, pubkey: &str, epoch: u64, seq: u64, frame: PairFrame) -> SignedPairFrame {
    SignedPairFrame {
        member_id: member_id.into(),
        pubkey: pubkey.into(),
        epoch,
        seq,
        sig: "sig".into(),
        frame,
    }
}

fn pin_host(auth: &mut PairAuthState, host_member: &str, host_pubkey: &str) {
    auth.pinned_host = Some(PinnedHost { member_id: Some(host_member.to_string()), pubkey: host_pubkey.to_string() });
    auth.member_pubkeys.insert(host_member.to_string(), Some(host_pubkey.to_string()));
}

fn cursor(from: &str, col: u16) -> PairFrame {
    PairFrame::Cursor { from: from.into(), row: 0, col }
}

#[test]
fn terminal_input_event_is_not_rebroadcast() {
    let ev = PairEvent::TerminalInput { session_id: "sid".into(), from_user: "m2".into(), data: b"ls\n".to_vec() };
    assert!(pair_event_to_frame("sid", ev).is_none());
}

#[test]
fn terminal_output_event_maps_to_pty_output() {
    let ev = PairEvent::TerminalOutput { session_id: "sid".into(), data: vec![0x1b, b'[', b'2', b'J'] };
    match pair_event_to_frame("sid", ev) {
        Some(PairFrame::PtyOutput { data, .. }) => assert_eq!(data, vec![0x1b, b'[', b'2', b'J']),
        other => panic!("expected pty_output, got {other:?}"),
    }
}

#[test]
fn driver_changed_event_maps_to_frame() {
    let ev = PairEvent::DriverChanged { session_id: "sid".into(), new_driver: "m2".into(), old_driver: "m1".into() };
    assert!(matches!(pair_event_to_frame("sid", ev), Some(PairFrame::DriverChanged { .. })));
}

#[test]
fn lifecycle_events_carry_no_frame() {
    let _ = PairRole::Navigator;
    assert!(pair_event_to_frame(
        "sid",
        PairEvent::UserJoined {
            session_id: "sid".into(),
            user_id: "m2".into(),
            display_name: "Nav".into(),
            role: PairRole::Navigator,
        }
    )
    .is_none());
    assert!(pair_event_to_frame("sid", PairEvent::SessionEnded { session_id: "sid".into() }).is_none());
}

#[test]
fn snapshot_buffer_preserves_bytes_under_cap() {
    let mut b = PairSnapshotBuffer::default();
    assert!(b.snapshot().is_empty(), "empty buffer => empty snapshot");
    b.push(b"hello ");
    b.push(&[0x1b, b'[', b'2', b'J']);
    b.push(b"world");
    assert_eq!(b.snapshot(), b"hello \x1b[2Jworld");
}

#[test]
fn snapshot_buffer_evicts_oldest_over_cap() {
    let mut b = PairSnapshotBuffer::default();
    b.push(&vec![b'a'; MAX_SNAPSHOT_BYTES]);
    b.push(&vec![b'b'; 100]);
    let snap = b.snapshot();
    assert_eq!(snap.len(), MAX_SNAPSHOT_BYTES, "never grows past the cap");
    assert_eq!(&snap[snap.len() - 100..], &vec![b'b'; 100][..]);
    assert_eq!(snap[0], b'a');
}

#[test]
fn snapshot_buffer_handles_oversize_single_chunk() {
    let mut b = PairSnapshotBuffer::default();
    b.push(b"stale");
    let mut big = vec![b'x'; MAX_SNAPSHOT_BYTES + 50];
    *big.last_mut().unwrap() = b'Z';
    b.push(&big);
    let snap = b.snapshot();
    assert_eq!(snap.len(), MAX_SNAPSHOT_BYTES);
    assert_eq!(*snap.last().unwrap(), b'Z', "keeps the newest bytes");
}

#[test]
fn snapshot_buffer_clear_empties() {
    let mut b = PairSnapshotBuffer::default();
    b.push(b"data");
    b.clear();
    assert!(b.snapshot().is_empty());
}

#[test]
fn snapshot_buffer_split_pushes_equal_one_push() {
    let mut one = PairSnapshotBuffer::new();
    let mut two = PairSnapshotBuffer::new();
    let a = vec![b'a'; MAX_SNAPSHOT_BYTES - 3];
    let b = vec![b'b'; 10];
    one.push(&a);
    one.push(&b);
    let mut ab = a.clone();
    ab.extend_from_slice(&b);
    two.push(&ab);
    assert_eq!(one.snapshot(), two.snapshot());
}

#[test]
fn auth_good_signature_accepts_and_pins() {
    let mut auth = PairAuthState::default();
    let s = signed("m2", "PK2", 1, 1, PairFrame::Cursor { from: "m2".into(), row: 1, col: 1 });
    assert_eq!(auth.verify_signed_frame(true, &s, true), FrameVerifyResult::Accept);
    assert_eq!(auth.member_pubkeys.get("m2"), Some(&Some("PK2".to_string())));
    assert_eq!(auth.last_seq.get("m2"), Some(&(1, 1)));
}

#[test]
fn auth_tampered_frame_rejected() {
    let mut auth = PairAuthState::default();
    let s = signed("m2", "PK2", 1, 1, PairFrame::TermInput { from: "m2".into(), data: b"rm -rf /\n".to_vec() });
    // The signature was made over other bytes: it does not verify.
    assert_eq!(
        auth.verify_signed_frame(true, &s, false),
        FrameVerifyResult::Reject(FrameRejectReason::BadSignature)
    );
}

#[test]
fn auth_wrong_key_rejected() {
    let mut auth = PairAuthState::default();
    let s = signed("m2", "ATTACKER", 1, 1, cursor("m2", 0));
    assert_eq!(
        auth.verify_signed_frame(true, &s, false),
        FrameVerifyResult::Reject(FrameRejectReason::BadSignature)
    );
}

#[test]
fn auth_member_pubkey_mismatch_rejected() {
    let mut auth = PairAuthState::default();
    let first = signed("m2", "REAL", 1, 1, PairFrame::RequestControl { from: "m2".into() });
    assert_eq!(auth.verify_signed_frame(true, &first, true), FrameVerifyResult::Accept);
    let forged = signed("m2", "IMPOSTER", 1, 2, PairFrame::RequestControl { from: "m2".into() });
    assert_eq!(
        auth.verify_signed_frame(true, &forged, true),
        FrameVerifyResult::Reject(FrameRejectReason::PubkeyMismatch)
    );
}

#[test]
fn auth_replayed_seq_rejected() {
    let mut auth = PairAuthState::default();
    assert_eq!(auth.verify_signed_frame(true, &signed("m2", "PK", 1, 1, cursor("m2", 0)), true), FrameVerifyResult::Accept);
    assert_eq!(auth.verify_signed_frame(true, &signed("m2", "PK", 1, 2, cursor("m2", 1)), true), FrameVerifyResult::Accept);
    assert_eq!(
        auth.verify_signed_frame(true, &signed("m2", "PK", 1, 1, cursor("m2", 0)), true),
        FrameVerifyResult::Reject(FrameRejectReason::StaleSeq)
    );
}

#[test]
fn auth_unsigned_frame_failclosed_under_require_signed() {
    let mut auth = PairAuthState::default();
    let unsigned = SignedPairFrame {
        member_id: "m2".into(),
        pubkey: String::new(),
        epoch: 1,
        seq: 1,
        sig: String::new(),
        frame: PairFrame::TermInput { from: "m2".into(), data: b"x".to_vec() },
    };
    assert_eq!(
        auth.verify_signed_frame(true, &unsigned, false),
        FrameVerifyResult::Reject(FrameRejectReason::UnknownMember)
    );
    let mut auth2 = PairAuthState::default();
    assert_eq!(auth2.verify_signed_frame(false, &unsigned, false), FrameVerifyResult::Accept);
}

#[test]
fn auth_forged_from_rejected() {
    let mut auth = PairAuthState::default();
    let s = signed("m3", "PK3", 1, 1, PairFrame::TermInput { from: "m2".into(), data: b"ls\n".to_vec() });
    assert_eq!(auth.verify_signed_frame(true, &s, true), FrameVerifyResult::Reject(FrameRejectReason::NotDriver));
}

#[test]
fn auth_host_only_frame_from_non_host_rejected() {
    let mut auth = PairAuthState::default();
    pin_host(&mut auth, "host1", "HOSTPK");
    let forged_meta = signed(
        "evil",
        "EVILPK",
        1,
        1,
        PairFrame::SessionMeta {
            host: "evil".into(),
            host_name: "Evil".into(),
            cols: 80,
            rows: 24,
            allow_takeover: true,
            roster: vec![],
        },
    );
    assert_eq!(auth.verify_signed_frame(true, &forged_meta, true), FrameVerifyResult::Reject(FrameRejectReason::NotHost));
    let spoof = signed("evil", "EVILPK", 1, 2, PairFrame::PtyOutput { data: b"fake".to_vec(), offset: 0 });
    assert_eq!(auth.verify_signed_frame(true, &spoof, true), FrameVerifyResult::Reject(FrameRejectReason::NotHost));
}

#[test]
fn auth_host_only_frame_failclosed_when_unpinned() {
    let mut auth = PairAuthState::default();
    let out = signed("m9", "PK9", 1, 1, PairFrame::PtyOutput { data: b"x".to_vec(), offset: 0 });
    assert_eq!(auth.verify_signed_frame(true, &out, true), FrameVerifyResult::Reject(FrameRejectReason::NotHost));
}

#[test]
fn auth_host_only_frame_from_host_accepted() {
    let mut auth = PairAuthState::default();
    auth.pinned_host = Some(PinnedHost { member_id: None, pubkey: "HOSTPK".to_string() });
    let meta = signed(
        "host1",
        "HOSTPK",
        1,
        1,
        PairFrame::SessionMeta {
            host: "host1".into(),
            host_name: "Host".into(),
            cols: 80,
            rows: 24,
            allow_takeover: true,
            roster: vec![],
        },
    );
    assert_eq!(auth.verify_signed_frame(true, &meta, true), FrameVerifyResult::Accept);
    assert_eq!(auth.pinned_host.as_ref().unwrap().member_id.as_deref(), Some("host1"));
    let out = signed("host1", "HOSTPK", 1, 2, PairFrame::PtyOutput { data: b"hi".to_vec(), offset: 0 });
    assert_eq!(auth.verify_signed_frame(true, &out, true), FrameVerifyResult::Accept);
}

#[test]
fn auth_epoch_bump_resets_seq() {
    let mut auth = PairAuthState::default();
    assert_eq!(auth.verify_signed_frame(true, &signed("m2", "PK", 1, 20, cursor("m2", 0)), true), FrameVerifyResult::Accept);
    assert_eq!(auth.verify_signed_frame(true, &signed("m2", "PK", 2, 1, cursor("m2", 1)), true), FrameVerifyResult::Accept);
    assert_eq!(auth.last_seq.get("m2"), Some(&(2, 1)));
}

#[test]
fn auth_lower_epoch_rejected() {
    let mut auth = PairAuthState::default();
    assert_eq!(auth.verify_signed_frame(true, &signed("m2", "PK", 5, 1, cursor("m2", 0)), true), FrameVerifyResult::Accept);
    assert_eq!(
        auth.verify_signed_frame(true, &signed("m2", "PK", 4, 99, cursor("m2", 1)), true),
        FrameVerifyResult::Reject(FrameRejectReason::StaleSeq)
    );
}

#[test]
fn auth_replay_within_epoch_rejected() {
    let mut auth = PairAuthState::default();
    assert_eq!(auth.verify_signed_frame(true, &signed("m2", "PK", 3, 1, cursor("m2", 0)), true), FrameVerifyResult::Accept);
    assert_eq!(auth.verify_signed_frame(true, &signed("m2", "PK", 3, 2, cursor("m2", 1)), true), FrameVerifyResult::Accept);
    assert_eq!(
        auth.verify_signed_frame(true, &signed("m2", "PK", 3, 1, cursor("m2", 0)), true),
        FrameVerifyResult::Reject(FrameRejectReason::StaleSeq)
    );
}

#[test]
fn auth_relabeled_member_id_rejected() {
    let mut auth = PairAuthState::default();
    // Relabeled envelope: the signature no longer covers the member id.
    let s = signed("m3", "PK", 1, 1, cursor("m2", 0));
    assert_eq!(auth.verify_signed_frame(true, &s, false), FrameVerifyResult::Reject(FrameRejectReason::BadSignature));
}

#[test]
fn auth_signature_without_domain_tag_rejected() {
    let mut auth = PairAuthState::default();
    let s = signed("m2", "PK", 1, 1, cursor("m2", 0));
    assert_eq!(auth.verify_signed_frame(true, &s, false), FrameVerifyResult::Reject(FrameRejectReason::BadSignature));
}

#[test]
fn invite_roundtrips_session_and_pubkey() {
    let sid = "abcDEF0123456789abcDEF0123456789";
    let pk = "MFkwEwYHKoZIzj0CAQYI+abc/def==";
    let invite = make_invite(sid, pk);
    let (got_sid, got_pk) = parse_invite(&invite).unwrap();
    assert_eq!(got_sid, sid);
    assert_eq!(got_pk, pk);
}

#[test]
fn invite_bare_session_id_has_empty_pubkey() {
    let (sid, pk) = parse_invite("plainSessionId0123").unwrap();
    assert_eq!(sid, "plainSessionId0123");
    assert!(pk.is_empty());
}

#[test]
fn invite_is_base64url_without_padding() {
    assert_eq!(make_invite("ab", "c"), "YWI6Yw");
    assert_eq!(parse_invite("  YWI6Yw \n"), Some(("ab".to_string(), "c".to_string())));
    assert_eq!(parse_invite("   "), None);
}

#[test]
fn apply_host_only_frame_from_non_host_dropped() {
    let mut auth = PairAuthState::default();
    auth.pinned_host = Some(PinnedHost { member_id: Some("host1".into()), pubkey: "pk".into() });
    let host_only = PairFrame::PtyOutput { data: b"out".to_vec(), offset: 0 };
    assert!(!auth.host_authority_allows(&host_only, Some("evil")));
    assert!(auth.host_authority_allows(&host_only, Some("host1")));
}

#[test]
fn apply_host_authority_allows_nav_and_legacy() {
    let mut auth = PairAuthState::default();
    auth.pinned_host = Some(PinnedHost { member_id: Some("host1".into()), pubkey: "pk".into() });
    let host_only = PairFrame::PtyOutput { data: b"out".to_vec(), offset: 0 };
    assert!(auth.host_authority_allows(&cursor("m2", 1), Some("m2")));
    assert!(auth.host_authority_allows(&host_only, None));
    let fresh = PairAuthState::default();
    assert!(!fresh.host_authority_allows(&host_only, Some("anyone")));
}

#[test]
fn term_input_forged_driver_id_rejected() {
    let mut auth = PairAuthState::default();
    let forged = signed("m3", "PK3", 1, 1, PairFrame::TermInput { from: "driver".into(), data: b"evil\n".to_vec() });
    assert_eq!(auth.verify_signed_frame(true, &forged, true), FrameVerifyResult::Reject(FrameRejectReason::NotDriver));
}

#[test]
fn unsigned_join_rejected_when_require_signed() {
    let unsigned_join = SignedPairFrame {
        member_id: "m2".into(),
        pubkey: String::new(),
        epoch: 1,
        seq: 1,
        sig: String::new(),
        frame: PairFrame::Join { from: "m2".into(), name: "Nav".into(), pubkey: String::new() },
    };
    let mut auth = PairAuthState::default();
    assert_eq!(
        auth.verify_signed_frame(true, &unsigned_join, false),
        FrameVerifyResult::Reject(FrameRejectReason::UnknownMember)
    );
    assert!(auth.member_pubkeys.get("m2").is_none());
    let mut auth_off = PairAuthState::default();
    assert_eq!(auth_off.verify_signed_frame(false, &unsigned_join, false), FrameVerifyResult::Accept);
}

#[test]
fn signed_join_accepted_and_pins_identity() {
    let mut auth = PairAuthState::default();
    let join = signed("m2", "NAVPK", 1, 1, PairFrame::Join { from: "m2".into(), name: "Nav".into(), pubkey: "NAVPK".into() });
    assert_eq!(auth.verify_signed_frame(true, &join, true), FrameVerifyResult::Accept);
    assert_eq!(auth.member_pubkeys.get("m2"), Some(&Some("NAVPK".to_string())));
}

#[test]
fn rejected_frame_changes_nothing() {
    let mut auth = PairAuthState::default();
    assert_eq!(auth.verify_signed_frame(true, &signed("m2", "PK", 1, 5, cursor("m2", 0)), true), FrameVerifyResult::Accept);
    let stale = signed("m2", "PK", 1, 3, cursor("m2", 0));
    assert!(matches!(auth.verify_signed_frame(true, &stale, true), FrameVerifyResult::Reject(_)));
    assert_eq!(auth.last_seq.get("m2"), Some(&(1, 5)));
}

#[test]
fn pin_host_and_prune_member() {
    let mut auth = PairAuthState::new();
    auth.pin_host(Some("host1"), "HPK");
    assert_eq!(auth.member_pubkeys.get("host1"), Some(&Some("HPK".to_string())));
    auth.pin_host(Some("x"), "");
    assert_eq!(auth.pinned_host.as_ref().unwrap().pubkey, "HPK");
    auth.pin_member_identity("m2", "K2");
    auth.pin_member_identity("m2", "OTHER");
    assert_eq!(auth.member_pubkeys.get("m2"), Some(&Some("K2".to_string())));
    auth.prune_member("host1");
    assert!(auth.member_pubkeys.get("host1").is_some());
    auth.prune_member("m2");
    assert!(auth.member_pubkeys.get("m2").is_none());
}

#[test]
fn frame_types_and_host_only() {
    assert_eq!(cursor("a", 0).frame_type(), "cursor");
    assert!(PairFrame::Resize { cols: 1, rows: 1 }.is_host_only());
    assert!(!PairFrame::RequestControl { from: "a".into() }.is_host_only());
}

#[test]
fn generated_ids_are_lowercase_alnum() {
    let s = generate_session_id();
    let m = generate_member_id();
    assert_eq!(s.len(), 32);
    assert_eq!(m.len(), 16);
    assert!(s.chars().chain(m.chars()).all(|c| c.is_ascii_digit() || c.is_ascii_lowercase()));
    assert_eq!(random_alnum(0), "");
}

use jarvis::pair::{next_output_offset, pair_start_allowed, FramePlan};

#[test]
fn pair_start_needs_collab_relay_and_idle_worker() {
    assert!(pair_start_allowed(true, "wss://relay", false));
    assert!(!pair_start_allowed(false, "wss://relay", false));
    assert!(!pair_start_allowed(true, "", false));
    assert!(!pair_start_allowed(true, "wss://relay", true));
}

#[test]
fn output_offset_saturates() {
    assert_eq!(next_output_offset(10, 5), 15);
    assert_eq!(next_output_offset(u64::MAX - 1, 5), u64::MAX);
}

#[test]
fn plan_frame_relays_driver_input_only() {
    let auth = PairAuthState::new();
    let input = PairFrame::TermInput { from: "m2".into(), data: b"ls\n".to_vec() };
    match auth.plan_frame(input.clone(), Some("m2"), true, true, Some("m2"), 4096) {
        FramePlan::RelayInput { from, data } => {
            assert_eq!(from, "m2");
            assert_eq!(data, b"ls\n".to_vec());
        }
        other => panic!("expected relay, got {other:?}"),
    }
    assert!(matches!(auth.plan_frame(input.clone(), Some("m2"), true, true, Some("m3"), 4096), FramePlan::Drop));
    assert!(matches!(auth.plan_frame(input, Some("m2"), false, true, Some("m2"), 4096), FramePlan::Drop));
}

#[test]
fn plan_frame_caps_oversize_term_input() {
    let auth = PairAuthState::new();
    let big = PairFrame::TermInput { from: "m2".into(), data: vec![b'x'; 10] };
    match auth.plan_frame(big, Some("m2"), true, true, Some("m2"), 4) {
        FramePlan::RelayInput { data, .. } => assert_eq!(data, b"xxxx".to_vec()),
        other => panic!("expected relay, got {other:?}"),
    }
    let small = PairFrame::TermInput { from: "m2".into(), data: b"ab".to_vec() };
    match auth.plan_frame(small, None, true, true, None, 4) {
        FramePlan::RelayInput { data, .. } => assert_eq!(data, b"ab".to_vec()),
        other => panic!("expected relay, got {other:?}"),
    }
}

#[test]
fn plan_frame_joins_only_at_host_and_drops_unpinned_host_frames() {
    let auth = PairAuthState::new();
    let join = PairFrame::Join { from: "m2".into(), name: "Ann".into(), pubkey: "pk".into() };
    assert!(matches!(auth.plan_frame(join.clone(), Some("m2"), true, true, None, 4096), FramePlan::RegisterMember { .. }));
    assert!(matches!(auth.plan_frame(join, Some("m2"), true, false, None, 4096), FramePlan::Drop));
    let resize = PairFrame::Resize { cols: 80, rows: 24 };
    assert!(matches!(auth.plan_frame(resize, Some("m1"), false, false, None, 4096), FramePlan::Drop));
    let ask = PairFrame::RequestControl { from: "m2".into() };
    assert!(matches!(auth.plan_frame(ask.clone(), Some("m2"), true, true, None, 4096), FramePlan::GrantControl { .. }));
    assert!(matches!(auth.plan_frame(ask, Some("m2"), false, false, None, 4096), FramePlan::Drop));
    assert!(matches!(auth.plan_frame(cursor("m2", 3), Some("m2"), false, false, None, 4096), FramePlan::Forward(_)));
}

use jarvis::pair::{route_pair_inbound, PairInbound, PairPanelEvent, PairPollAction};

fn count_registers(actions: &[PairPollAction]) -> usize {
    actions.iter().filter(|a| matches!(a, PairPollAction::RegisterMember { .. })).count()
}

#[test]
fn room_ready_host_rebroadcasts_session_meta() {
    let ev = PairInbound::RoomReady { session_id: "sid".into(), member_id: "m1".into() };
    let r = route_pair_inbound(true, true, Some("sid".into()), Some(7), ev);
    assert_eq!(r.len(), 3);
    assert!(matches!(&r[0], PairPollAction::EmitEvent(PairPanelEvent::Connected)));
    assert!(matches!(&r[1], PairPollAction::SendStatus(7)));
    assert!(matches!(&r[2], PairPollAction::RebroadcastMeta(s) if s == "sid"));
}

#[test]
fn room_ready_navigator_sends_join() {
    let ev = PairInbound::RoomReady { session_id: "sid".into(), member_id: "m2".into() };
    let r = route_pair_inbound(false, true, None, None, ev);
    assert_eq!(r.len(), 2);
    assert!(matches!(&r[0], PairPollAction::EmitEvent(PairPanelEvent::Connected)));
    assert!(matches!(&r[1], PairPollAction::SendJoin { from } if from == "m2"));
}

#[test]
fn member_joined_waits_for_signed_join_when_required() {
    let ev = PairInbound::MemberJoined { member_id: "m2".into() };
    let r = route_pair_inbound(true, true, Some("sid".into()), None, ev);
    assert_eq!(count_registers(&r), 0);
    assert_eq!(r.len(), 2);
    assert!(matches!(&r[0], PairPollAction::SendSnapshot { session_id, member_id } if session_id == "sid" && member_id == "m2"));
    assert!(matches!(&r[1], PairPollAction::EmitEvent(PairPanelEvent::MemberJoined(m)) if m == "m2"));
}

#[test]
fn member_joined_registers_at_once_in_legacy_mode() {
    let ev = PairInbound::MemberJoined { member_id: "m2".into() };
    let r = route_pair_inbound(true, false, Some("sid".into()), None, ev);
    assert_eq!(r.len(), 3);
    assert!(matches!(&r[0], PairPollAction::RegisterMember { session_id, member_id } if session_id == "sid" && member_id == "m2"));
    assert!(matches!(&r[1], PairPollAction::SendSnapshot { .. }));
    let nav = route_pair_inbound(false, false, Some("sid".into()), None, PairInbound::MemberJoined { member_id: "m3".into() });
    assert_eq!(count_registers(&nav), 0);
    assert_eq!(nav.len(), 1);
}

#[test]
fn member_left_is_pruned_then_shown() {
    let r = route_pair_inbound(true, true, None, None, PairInbound::MemberLeft { member_id: "m2".into() });
    assert_eq!(r.len(), 2);
    assert!(matches!(&r[0], PairPollAction::PruneMember(m) if m == "m2"));
    assert!(matches!(&r[1], PairPollAction::EmitEvent(PairPanelEvent::MemberLeft(m)) if m == "m2"));
}

#[test]
fn unsigned_frame_dropped_when_signed_required() {
    let r = route_pair_inbound(true, true, None, None, PairInbound::Frame(cursor("m2", 1)));
    assert!(r.is_empty());
    let r = route_pair_inbound(true, false, None, None, PairInbound::Frame(cursor("m2", 1)));
    assert!(matches!(&r[..], [PairPollAction::ApplyFrame(PairFrame::Cursor { .. })]));
    let s = signed("m2", "pk", 1, 1, cursor("m2", 1));
    let r = route_pair_inbound(true, true, None, None, PairInbound::SignedFrame(s));
    assert!(matches!(&r[..], [PairPollAction::VerifyAndApply(f)] if f.member_id == "m2"));
}

#[test]
fn panel_events_for_count_disconnect_and_error() {
    let r = route_pair_inbound(false, true, None, None, PairInbound::MemberCount { count: 3 });
    assert!(matches!(&r[..], [PairPollAction::EmitEvent(PairPanelEvent::MemberCount(3))]));
    let r = route_pair_inbound(false, true, None, None, PairInbound::Disconnected);
    assert!(matches!(&r[..], [PairPollAction::EmitEvent(PairPanelEvent::Disconnected)]));
    let r = route_pair_inbound(false, true, None, None, PairInbound::Error("boom".into()));
    assert!(matches!(&r[..], [PairPollAction::EmitEvent(PairPanelEvent::Error(m))] if m == "boom"));
}
