use squelch::audio::{AudioConfig, FrameRouter, OPUS_FRAME_SAMPLES};
use squelch::ptt::PttState;

#[test]
fn ptt_press_release() {
    let ptt = PttState::new();
    assert!(!ptt.is_active());
    ptt.press();
    assert!(ptt.is_active());
    ptt.release();
    assert!(!ptt.is_active());
}

#[test]
fn ptt_shared_across_clones() {
    let ptt_a = PttState::new();
    let ptt_b = ptt_a.clone();
    ptt_a.press();
    assert!(ptt_b.is_active(), "clone should see the same atomic state");
}

#[test]
fn ptt_default_is_released() {
    let ptt = PttState::default();
    assert!(!ptt.is_active());
}

#[test]
fn audio_config_shares_ptt() {
    let ptt = PttState::new();
    let cfg = AudioConfig { ptt: ptt.clone() };
    ptt.press();
    assert!(cfg.ptt.is_active());
}

#[test]
fn frames_route_duo_always_and_leader_on_ptt() {
    assert_eq!(OPUS_FRAME_SAMPLES, 960);
    let mut router: FrameRouter<i32> = FrameRouter::new();
    let block: Vec<i32> = (0..1000).collect();
    let out = router.push(&block, false);
    assert_eq!(out.duo.len(), 1);
    assert_eq!(out.duo[0], (0..960).collect::<Vec<i32>>());
    assert!(out.leader.is_empty());

    let block2: Vec<i32> = (1000..2000).collect();
    let out2 = router.push(&block2, true);
    // 40 left over + 1000 new = 1040 -> one frame starting at sample 960
    assert_eq!(out2.duo.len(), 1);
    assert_eq!(out2.duo[0][0], 960);
    assert_eq!(out2.duo[0][959], 1919);
    // the leader net starts fresh with the PTT block
    assert_eq!(out2.leader.len(), 1);
    assert_eq!(out2.leader[0][0], 1000);
    assert_eq!(out2.leader[0][959], 1959);

    // PTT released: pending leader samples are dropped
    let out3 = router.push(&vec![7; 10], false);
    assert!(out3.duo.is_empty());
    assert!(out3.leader.is_empty());
    let out4 = router.push(&vec![1; 920], true);
    assert!(out4.leader.is_empty(), "leader buffer was cleared when PTT went off");
    assert_eq!(out4.duo.len(), 1);
}

#[test]
fn frames_keep_order_across_blocks() {
    let mut router: FrameRouter<u16> = FrameRouter::new();
    let mut seen: Vec<u16> = Vec::new();
    for b in 0..7u16 {
        let block: Vec<u16> = (b * 500..b * 500 + 500).collect();
        let out = router.push(&block, true);
        for f in out.duo {
            assert_eq!(f.len(), 960);
            seen.extend(f);
        }
    }
    assert_eq!(seen, (0..2880).collect::<Vec<u16>>());
}

#[test]
fn router_takes_ordinary_blocks() {
    let router: FrameRouter<i32> = FrameRouter::new();
    assert!(router.can_take(OPUS_FRAME_SAMPLES * 4));
    assert!(router.can_take(usize::MAX));
}
