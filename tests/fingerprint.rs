use ja4t::fingerprint::{ja4t_fingerprint, render_sequence};
use ja4t::frame::{classify_frame, is_selected, is_syn_without_ack, segment_fingerprint};
use ja4t::options::{walk_options, TcpOptionToken};

fn sequence_of(options: &[u8]) -> String {
    render_sequence(walk_options(options).tokens.as_slice())
}

/// An Ethernet frame carrying IPv4 carrying TCP with the given fields.
fn frame(ip_flags_byte: u8, ttl: u8, protocol: u8, dst_port: u16, flags: u8, window: u16, options: &[u8]) -> Vec<u8> {
    assert!(options.len() % 4 == 0);
    let tcp_len = 20 + options.len();
    let total = 20 + tcp_len;
    let mut f = vec![0x00, 0x11, 0x22, 0x33, 0x44, 0x55, 0x66, 0x77, 0x88, 0x99, 0xaa, 0xbb, 0x08, 0x00];
    f.extend_from_slice(&[0x45, 0x00, (total >> 8) as u8, total as u8, 0x12, 0x34, ip_flags_byte, 0x00, ttl, protocol, 0x00, 0x00]);
    f.extend_from_slice(&[192, 168, 1, 2, 10, 0, 0, 1]);
    f.extend_from_slice(&[0xC3, 0x50, (dst_port >> 8) as u8, dst_port as u8]);
    f.extend_from_slice(&[0, 0, 0, 1, 0, 0, 0, 0]);
    f.push(((tcp_len / 4) as u8) << 4);
    f.push(flags);
    f.extend_from_slice(&[(window >> 8) as u8, window as u8, 0, 0, 0, 0]);
    f.extend_from_slice(options);
    f
}

#[test]
fn scenario_mss_nop_ws_end() {
    let w = walk_options(&[2, 4, 0x05, 0xB4, 1, 3, 3, 7, 0]);
    assert_eq!(w.mss, Some(1460));
    assert_eq!(w.ws, Some(7));
    assert_eq!(
        w.tokens,
        vec![
            TcpOptionToken::MaxSegmentSize(1460),
            TcpOptionToken::NoOp,
            TcpOptionToken::WindowScale(7),
            TcpOptionToken::EndOfList
        ]
    );
    assert_eq!(render_sequence(w.tokens.as_slice()), "MSS,N,WS,E");
    let fp = ja4t_fingerprint(64, 0b010, 65535, &[2, 4, 0x05, 0xB4, 1, 3, 3, 7, 0], 0x02);
    assert_eq!(fp, "TTL=64|DF=1|MSS=1460;WS=7;SEQ=MSS,N,WS,E|WIN=65535|FLAGS=0x02");
}

#[test]
fn scenario_empty_options() {
    let w = walk_options(&[]);
    assert_eq!(w.mss, None);
    assert_eq!(w.ws, None);
    assert!(w.tokens.is_empty());
    assert_eq!(render_sequence(w.tokens.as_slice()), "");
    assert_eq!(
        ja4t_fingerprint(128, 0, 8192, &[], 0x02),
        "TTL=128|DF=0|MSS=?;WS=?;SEQ=|WIN=8192|FLAGS=0x02"
    );
}

#[test]
fn scenario_end_only() {
    assert_eq!(
        ja4t_fingerprint(64, 0b010, 65535, &[0], 0x02),
        "TTL=64|DF=1|MSS=?;WS=?;SEQ=E|WIN=65535|FLAGS=0x02"
    );
}

#[test]
fn scenario_unknown_kind_skips_declared_length() {
    let opts = [30, 6, 0xAA, 0xBB, 0xCC, 0xDD, 0];
    let w = walk_options(&opts);
    assert_eq!(w.tokens, vec![TcpOptionToken::Unknown(30), TcpOptionToken::EndOfList]);
    assert_eq!(render_sequence(w.tokens.as_slice()), "OPT1E,E");
}

#[test]
fn scenario_malformed_mss_length() {
    // Kind 2 declaring length 5: `?`, then the cursor moves 4 bytes on to the NOP.
    let opts = [2, 5, 0x05, 0xB4, 1, 0];
    let w = walk_options(&opts);
    assert_eq!(w.mss, None);
    assert_eq!(w.tokens, vec![TcpOptionToken::Malformed, TcpOptionToken::NoOp, TcpOptionToken::EndOfList]);
    assert_eq!(sequence_of(&opts), "?,N,E");
    assert_eq!(
        ja4t_fingerprint(64, 0, 1024, &opts, 0x02),
        "TTL=64|DF=0|MSS=?;WS=?;SEQ=?,N,E|WIN=1024|FLAGS=0x02"
    );
}

#[test]
fn malformed_ws_length_advances_three() {
    let opts = [3, 4, 9, 4, 2, 8, 1, 2, 3, 4, 5, 6, 7, 8];
    let w = walk_options(&opts);
    assert_eq!(w.ws, None);
    assert_eq!(sequence_of(&opts), "?,SACK,TS");
}

#[test]
fn token_count_never_exceeds_buffer_length() {
    let buffers: Vec<Vec<u8>> = vec![
        vec![],
        vec![1; 40],
        vec![2],
        vec![30],
        vec![30, 1],
        vec![30, 255, 1],
        vec![8, 10, 1, 2, 3, 4, 5, 6, 7, 8, 1, 1],
        vec![4, 2, 4, 2, 4, 2, 0, 1],
        (0..=255u8).collect(),
    ];
    for b in &buffers {
        assert!(walk_options(b).tokens.len() <= b.len());
    }
    assert_eq!(walk_options(&[1; 40]).tokens.len(), 40);
}

#[test]
fn truncated_mss_and_ws_stay_unset() {
    for opts in [vec![2u8], vec![2, 4], vec![2, 4, 5], vec![3], vec![3, 3], vec![1, 2, 4, 5], vec![1, 1, 3, 3]] {
        let w = walk_options(&opts);
        assert_eq!(w.mss, None);
        assert_eq!(w.ws, None);
        assert_eq!(w.tokens.last(), Some(&TcpOptionToken::Malformed));
    }
    assert_eq!(sequence_of(&[1, 2, 4, 5]), "N,?");
}

#[test]
fn unknown_kind_without_usable_length_stops() {
    assert_eq!(sequence_of(&[30]), "OPT1E");
    assert_eq!(sequence_of(&[30, 1, 1, 1]), "OPT1E");
    assert_eq!(sequence_of(&[1, 0xFE, 0, 1]), "N,OPTFE");
    assert_eq!(sequence_of(&[5, 200, 1]), "OPT05");
}

#[test]
fn end_of_list_ignores_rest() {
    assert_eq!(sequence_of(&[0, 2, 4, 5, 0xB4]), "E");
    assert_eq!(walk_options(&[0, 2, 4, 5, 0xB4]).mss, None);
}

#[test]
fn last_mss_wins() {
    let w = walk_options(&[2, 4, 0x05, 0xB4, 2, 4, 0x02, 0x18]);
    assert_eq!(w.mss, Some(536));
    assert_eq!(render_sequence(w.tokens.as_slice()), "MSS,MSS");
}

#[test]
fn fingerprint_is_deterministic() {
    let opts = [2, 4, 0x05, 0xB4, 4, 2, 8, 10, 0, 0, 0, 1, 0, 0, 0, 0, 1, 3, 3, 7];
    let a = ja4t_fingerprint(52, 2, 64240, &opts, 0x02);
    let b = ja4t_fingerprint(52, 2, 64240, &opts, 0x02);
    assert_eq!(a, b);
    assert_eq!(a, "TTL=52|DF=1|MSS=1460;WS=7;SEQ=MSS,SACK,TS,N,WS|WIN=64240|FLAGS=0x02");
}

#[test]
fn flags_render_lower_hex_and_values_decimal() {
    assert_eq!(
        ja4t_fingerprint(0, 0b101, 0, &[], 0xC2),
        "TTL=0|DF=0|MSS=?;WS=?;SEQ=|WIN=0|FLAGS=0xc2"
    );
    assert_eq!(
        ja4t_fingerprint(255, 0b111, 10, &[3, 3, 14], 0x0A),
        "TTL=255|DF=1|MSS=?;WS=14;SEQ=WS|WIN=10|FLAGS=0x0a"
    );
}

#[test]
fn filter_selects_syn_only_to_target() {
    assert!(is_syn_without_ack(0x02));
    assert!(is_syn_without_ack(0xC2));
    assert!(!is_syn_without_ack(0x12));
    assert!(!is_syn_without_ack(0x10));
    assert!(!is_syn_without_ack(0x00));
    assert!(is_selected(0x02, 443, 443));
    assert!(!is_selected(0x12, 443, 443));
    assert!(!is_selected(0x02, 80, 443));
}

#[test]
fn classify_selected_frame_and_fingerprint() {
    let opts = [2, 4, 0x05, 0xB4, 1, 3, 3, 7, 4, 2, 0, 0];
    let f = frame(0x40, 64, 6, 443, 0x02, 65535, &opts);
    let seg = classify_frame(&f, 443).expect("selected");
    assert_eq!(seg.source_ip, [192, 168, 1, 2]);
    assert_eq!(seg.destination_ip, [10, 0, 0, 1]);
    assert_eq!(seg.source_port, 50000);
    assert_eq!(seg.destination_port, 443);
    assert_eq!(seg.flags, 0x02);
    assert_eq!(seg.ttl, 64);
    assert_eq!(seg.ip_flags, 0b010);
    assert_eq!(seg.tcp_bytes.len(), 32);
    assert_eq!(
        segment_fingerprint(&seg).expect("readable"),
        "TTL=64|DF=1|MSS=1460;WS=7;SEQ=MSS,N,WS,SACK,E|WIN=65535|FLAGS=0x02"
    );
}

#[test]
fn classify_rejects_other_frames() {
    let opts: [u8; 0] = [];
    assert!(classify_frame(&frame(0x40, 64, 6, 443, 0x02, 1, &opts), 80).is_none());
    assert!(classify_frame(&frame(0x40, 64, 6, 443, 0x12, 1, &opts), 443).is_none());
    assert!(classify_frame(&frame(0x40, 64, 17, 443, 0x02, 1, &opts), 443).is_none());
    let mut not_ip = frame(0x40, 64, 6, 443, 0x02, 1, &opts);
    not_ip[12] = 0x86;
    not_ip[13] = 0xDD;
    assert!(classify_frame(&not_ip, 443).is_none());
    let whole = frame(0x40, 64, 6, 443, 0x02, 1, &opts);
    assert!(classify_frame(&whole[..13], 443).is_none());
    assert!(classify_frame(&whole[..30], 443).is_none());
    assert!(classify_frame(&whole[..50], 443).is_none());
    assert!(classify_frame(&whole, 443).is_some());
}

#[test]
fn unreadable_tcp_header_gives_no_fingerprint() {
    let mut f = frame(0x00, 128, 6, 22, 0x02, 512, &[]);
    // Data offset of eight words, but only five are present.
    f[14 + 20 + 12] = 8 << 4;
    let seg = classify_frame(&f, 22).expect("selected");
    assert_eq!(seg.ip_flags, 0);
    assert!(segment_fingerprint(&seg).is_none());
    f[14 + 20 + 12] = 5 << 4;
    let seg = classify_frame(&f, 22).expect("selected");
    assert_eq!(
        segment_fingerprint(&seg).expect("readable"),
        "TTL=128|DF=0|MSS=?;WS=?;SEQ=|WIN=512|FLAGS=0x02"
    );
}
