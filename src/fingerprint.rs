//! The fingerprint string of a SYN segment.
use vstd::prelude::*;
use vstd::string::StringExecFns;
use crate::options::{last_mss, last_ws, option_tokens, walk_options, OptionsWalk, TcpOptionToken};
use crate::text::{decimal, hex2_lower, hex2_upper, push_decimal, push_hex2_lower, push_hex2_upper};

verus! {

/// The text that stands for one token in the option sequence.
pub open spec fn token_text(t: TcpOptionToken) -> Seq<char> {
    match t {
        TcpOptionToken::EndOfList => "E"@,
        TcpOptionToken::NoOp => "N"@,
        TcpOptionToken::MaxSegmentSize(_) => "MSS"@,
        TcpOptionToken::WindowScale(_) => "WS"@,
        TcpOptionToken::SackPermitted => "SACK"@,
        TcpOptionToken::Timestamps => "TS"@,
        TcpOptionToken::Malformed => "?"@,
        TcpOptionToken::Unknown(kind) => "OPT"@ + hex2_upper(kind),
    }
}

/// The token texts joined by commas; empty for no tokens.
pub open spec fn sequence_text(t: Seq<TcpOptionToken>) -> Seq<char>
    decreases t.len(),
{
    if t.len() == 0 {
        Seq::empty()
    } else if t.len() == 1 {
        token_text(t[0])
    } else {
        sequence_text(t.drop_last()) + ","@ + token_text(t.last())
    }
}

/// A value that may be absent, rendered as its decimal form or as `?`.
pub open spec fn value_text(v: Option<nat>) -> Seq<char> {
    match v {
        Some(n) => decimal(n),
        None => "?"@,
    }
}

/// The maximum segment size among `t`, as a natural number.
pub open spec fn mss_value(t: Seq<TcpOptionToken>) -> Option<nat> {
    match last_mss(t) {
        Some(v) => Some(v as nat),
        None => None,
    }
}

/// The window scale shift among `t`, as a natural number.
pub open spec fn ws_value(t: Seq<TcpOptionToken>) -> Option<nat> {
    match last_ws(t) {
        Some(v) => Some(v as nat),
        None => None,
    }
}

/// The don't-fragment bit of the IPv4 flags field.
pub open spec fn df_bit(ip_flags: u8) -> nat {
    ((ip_flags as nat) / 2) % 2
}

/// The middle part of the fingerprint: `MSS=..;WS=..;SEQ=..`.
pub open spec fn options_text(t: Seq<TcpOptionToken>) -> Seq<char> {
    "MSS="@ + value_text(mss_value(t)) + ";WS="@ + value_text(ws_value(t)) + ";SEQ="@
        + sequence_text(t)
}

/// The fingerprint of a SYN: time to live, don't-fragment bit, the options
/// walk, window size and the flag byte, in this layout:
/// `TTL=<ttl>|DF=<0|1>|MSS=<v|?>;WS=<v|?>;SEQ=<tokens>|WIN=<window>|FLAGS=0x<hh>`.
pub open spec fn fingerprint_text(
    ttl: u8,
    ip_flags: u8,
    window_size: u16,
    options: Seq<u8>,
    tcp_flags: u8,
) -> Seq<char> {
    "TTL="@ + decimal(ttl as nat) + "|DF="@ + decimal(df_bit(ip_flags)) + "|"@ + options_text(
        option_tokens(options),
    ) + "|WIN="@ + decimal(window_size as nat) + "|FLAGS=0x"@ + hex2_lower(tcp_flags)
}

/// The fingerprint depends on its inputs alone: two computations from the
/// same inputs give the same string.
pub proof fn lemma_fingerprint_deterministic(
    ttl: u8,
    ip_flags: u8,
    window_size: u16,
    options: Seq<u8>,
    tcp_flags: u8,
    first: Seq<char>,
    second: Seq<char>,
)
    requires
        first == fingerprint_text(ttl, ip_flags, window_size, options, tcp_flags),
        second == fingerprint_text(ttl, ip_flags, window_size, options, tcp_flags),
    ensures
        first == second,
{
}

fn push_token(s: &mut String, t: TcpOptionToken)
    ensures
        final(s)@ == old(s)@ + token_text(t),
{
    match t {
        TcpOptionToken::EndOfList => s.append("E"),
        TcpOptionToken::NoOp => s.append("N"),
        TcpOptionToken::MaxSegmentSize(_) => s.append("MSS"),
        TcpOptionToken::WindowScale(_) => s.append("WS"),
        TcpOptionToken::SackPermitted => s.append("SACK"),
        TcpOptionToken::Timestamps => s.append("TS"),
        TcpOptionToken::Malformed => s.append("?"),
        TcpOptionToken::Unknown(kind) => {
            s.append("OPT");
            push_hex2_upper(s, kind);
        },
    }
    assert(final(s)@ =~= old(s)@ + token_text(t));
}

fn push_sequence(s: &mut String, tokens: &[TcpOptionToken])
    ensures
        final(s)@ == old(s)@ + sequence_text(tokens@),
{
    let ghost start = s@;
    let mut i: usize = 0;
    while i < tokens.len()
        invariant
            i <= tokens@.len(),
            s@ == start + sequence_text(tokens@.subrange(0, i as int)),
        decreases tokens.len() - i,
    {
        let ghost before = s@;
        if i > 0 {
            s.append(",");
        }
        push_token(s, tokens[i]);
        proof {
            let t = tokens@.subrange(0, i + 1);
            assert(t.drop_last() =~= tokens@.subrange(0, i as int));
            assert(t.last() == tokens@[i as int]);
            if i == 0 {
                assert(t.len() == 1);
                assert(sequence_text(tokens@.subrange(0, 0)) =~= Seq::<char>::empty());
            }
            assert(s@ =~= start + sequence_text(t));
        }
        i = i + 1;
    }
    assert(tokens@.subrange(0, tokens@.len() as int) =~= tokens@);
}

/// The option sequence text of `tokens`, such as `MSS,N,WS,E`.
pub fn render_sequence(tokens: &[TcpOptionToken]) -> (r: String)
    ensures
        r@ == sequence_text(tokens@),
{
    let mut s = String::new();
    push_sequence(&mut s, tokens);
    assert(s@ =~= sequence_text(tokens@));
    s
}

fn push_value(s: &mut String, v: Option<u32>)
    ensures
        final(s)@ == old(s)@ + value_text(
            match v {
                Some(n) => Some(n as nat),
                None => None,
            },
        ),
{
    match v {
        Some(n) => push_decimal(s, n),
        None => s.append("?"),
    }
}

/// Renders the `MSS=..;WS=..;SEQ=..` part from a finished options walk.
pub fn render_options(w: &OptionsWalk) -> (r: String)
    requires
        w.mss == last_mss(w.tokens@),
        w.ws == last_ws(w.tokens@),
    ensures
        r@ == options_text(w.tokens@),
{
    let mut s = String::new();
    s.append("MSS=");
    push_value(&mut s, match w.mss { Some(v) => Some(v as u32), None => None });
    s.append(";WS=");
    push_value(&mut s, match w.ws { Some(v) => Some(v as u32), None => None });
    s.append(";SEQ=");
    push_sequence(&mut s, w.tokens.as_slice());
    assert(s@ =~= options_text(w.tokens@));
    s
}

/// Computes the fingerprint of a SYN segment from the IPv4 time to live and
/// flags field, the TCP window size, the raw TCP options and the TCP flag byte.
pub fn ja4t_fingerprint(
    ttl: u8,
    ip_flags: u8,
    window_size: u16,
    options: &[u8],
    tcp_flags: u8,
) -> (r: String)
    ensures
        r@ == fingerprint_text(ttl, ip_flags, window_size, options@, tcp_flags),
{
    let walk = walk_options(options);
    let df = (ip_flags & 0x2) >> 1;
    assert(df as nat == df_bit(ip_flags)) by (bit_vector)
        requires
            df == (ip_flags & 0x2) >> 1,
    ;
    let mut s = String::new();
    s.append("TTL=");
    push_decimal(&mut s, ttl as u32);
    s.append("|DF=");
    push_decimal(&mut s, df as u32);
    s.append("|");
    let opts = render_options(&walk);
    s.append(opts.as_str());
    s.append("|WIN=");
    push_decimal(&mut s, window_size as u32);
    s.append("|FLAGS=0x");
    push_hex2_lower(&mut s, tcp_flags);
    assert(s@ =~= fingerprint_text(ttl, ip_flags, window_size, options@, tcp_flags));
    s
}

} // verus!
