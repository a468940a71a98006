//! The walk over a raw TCP options buffer.
use vstd::prelude::*;

verus! {

/// The 16-bit big-endian value held by `s[i]` and `s[i + 1]`.
pub open spec fn be_u16(s: Seq<u8>, i: int) -> u16 {
    (s[i] as int * 256 + s[i + 1] as int) as u16
}

/// Reads a big-endian 16-bit value from two bytes.
pub fn u16_from_be(hi: u8, lo: u8) -> (r: u16)
    ensures
        r as int == hi as int * 256 + lo as int,
{
    (hi as u16) * 256 + (lo as u16)
}

/// One entry of the option sequence, in the order the buffer holds them.
#[derive(Clone, Copy, Debug, PartialEq, Eq, Structural)]
pub enum TcpOptionToken {
    /// Kind 0: end of the option list.
    EndOfList,
    /// Kind 1: no operation.
    NoOp,
    /// Kind 2 with a well-formed length: the maximum segment size.
    MaxSegmentSize(u16),
    /// Kind 3 with a well-formed length: the window scale shift.
    WindowScale(u8),
    /// Kind 4: selective acknowledgement permitted.
    SackPermitted,
    /// Kind 8: timestamps.
    Timestamps,
    /// Kind 2 or 3 whose length byte is wrong or cut off.
    Malformed,
    /// Any other kind.
    Unknown(u8),
}

/// The token for a kind-2 option starting at `i`.
pub open spec fn mss_token(s: Seq<u8>, i: int) -> TcpOptionToken {
    if i + 3 < s.len() && s[i + 1] == 4 {
        TcpOptionToken::MaxSegmentSize(be_u16(s, i + 2))
    } else {
        TcpOptionToken::Malformed
    }
}

/// The token for a kind-3 option starting at `i`.
pub open spec fn ws_token(s: Seq<u8>, i: int) -> TcpOptionToken {
    if i + 2 < s.len() && s[i + 1] == 3 {
        TcpOptionToken::WindowScale(s[i + 2])
    } else {
        TcpOptionToken::Malformed
    }
}

/// The tokens that the walk produces from cursor position `i` on.
pub open spec fn tokens_from(s: Seq<u8>, i: nat) -> Seq<TcpOptionToken>
    decreases (if i >= s.len() { 0 } else { s.len() - i }),
{
    if i >= s.len() {
        Seq::empty()
    } else {
        let kind = s[i as int];
        if kind == 0 {
            seq![TcpOptionToken::EndOfList]
        } else if kind == 1 {
            seq![TcpOptionToken::NoOp] + tokens_from(s, i + 1)
        } else if kind == 2 {
            seq![mss_token(s, i as int)] + tokens_from(s, i + 4)
        } else if kind == 3 {
            seq![ws_token(s, i as int)] + tokens_from(s, i + 3)
        } else if kind == 4 {
            seq![TcpOptionToken::SackPermitted] + tokens_from(s, i + 2)
        } else if kind == 8 {
            seq![TcpOptionToken::Timestamps] + tokens_from(s, i + 10)
        } else if i + 1 < s.len() && s[i + 1 as int] >= 2 {
            seq![TcpOptionToken::Unknown(kind)] + tokens_from(s, i + s[i + 1 as int] as nat)
        } else {
            seq![TcpOptionToken::Unknown(kind)]
        }
    }
}

/// The tokens of a whole options buffer, the cursor starting at 0.
pub open spec fn option_tokens(s: Seq<u8>) -> Seq<TcpOptionToken> {
    tokens_from(s, 0)
}

/// The value of the last well-formed maximum segment size among `t`.
pub open spec fn last_mss(t: Seq<TcpOptionToken>) -> Option<u16>
    decreases t.len(),
{
    if t.len() == 0 {
        None
    } else {
        match t.last() {
            TcpOptionToken::MaxSegmentSize(v) => Some(v),
            _ => last_mss(t.drop_last()),
        }
    }
}

/// The value of the last well-formed window scale among `t`.
pub open spec fn last_ws(t: Seq<TcpOptionToken>) -> Option<u8>
    decreases t.len(),
{
    if t.len() == 0 {
        None
    } else {
        match t.last() {
            TcpOptionToken::WindowScale(v) => Some(v),
            _ => last_ws(t.drop_last()),
        }
    }
}

/// What the walk over an options buffer yields.
pub struct OptionsWalk {
    /// The tokens, in buffer order.
    pub tokens: Vec<TcpOptionToken>,
    /// The maximum segment size, if one was read.
    pub mss: Option<u16>,
    /// The window scale shift, if one was read.
    pub ws: Option<u8>,
}

impl OptionsWalk {
    /// The walk's result is the one `option_tokens` gives for `s`.
    pub open spec fn describes(&self, s: Seq<u8>) -> bool {
        &&& self.tokens@ == option_tokens(s)
        &&& self.mss == last_mss(self.tokens@)
        &&& self.ws == last_ws(self.tokens@)
    }
}

proof fn lemma_same_tail(s: Seq<u8>, a: nat, b: nat)
    requires
        a == b || (a >= s.len() && b >= s.len()),
    ensures
        tokens_from(s, a) == tokens_from(s, b),
{
}

proof fn lemma_push_last(t: Seq<TcpOptionToken>, x: TcpOptionToken)
    ensures
        last_mss(t.push(x)) == (match x {
            TcpOptionToken::MaxSegmentSize(v) => Some(v),
            _ => last_mss(t),
        }),
        last_ws(t.push(x)) == (match x {
            TcpOptionToken::WindowScale(v) => Some(v),
            _ => last_ws(t),
        }),
{
    assert(t.push(x).drop_last() =~= t);
}

proof fn lemma_tokens_from_bounded(s: Seq<u8>, i: nat)
    ensures
        i < s.len() ==> tokens_from(s, i).len() <= s.len() - i,
        i >= s.len() ==> tokens_from(s, i).len() == 0,
    decreases (if i >= s.len() { 0 } else { s.len() - i }),
{
    if i < s.len() {
        let kind = s[i as int];
        if kind == 1 {
            lemma_tokens_from_bounded(s, i + 1);
        } else if kind == 2 {
            lemma_tokens_from_bounded(s, i + 4);
        } else if kind == 3 {
            lemma_tokens_from_bounded(s, i + 3);
        } else if kind == 4 {
            lemma_tokens_from_bounded(s, i + 2);
        } else if kind == 8 {
            lemma_tokens_from_bounded(s, i + 10);
        } else if kind != 0 && i + 1 < s.len() && s[i + 1 as int] >= 2 {
            lemma_tokens_from_bounded(s, i + s[i + 1 as int] as nat);
        }
    }
}

/// The walk over any options buffer yields at most one token per byte of
/// the buffer. (That the walk ends at all is the `decreases` clause of
/// `walk_options`.)
pub proof fn lemma_token_count_bounded(s: Seq<u8>)
    ensures
        option_tokens(s).len() <= s.len(),
{
    lemma_tokens_from_bounded(s, 0);
}

/// A maximum segment size or window scale option that the end of the buffer
/// cuts off yields the one token `?` and sets neither value: from a cursor
/// at such an option the walk yields nothing else. At cursor 0 this is the
/// whole buffer's walk.
pub proof fn lemma_truncated_option(s: Seq<u8>, i: nat)
    requires
        i < s.len(),
        (s[i as int] == 2 && i + 4 > s.len()) || (s[i as int] == 3 && i + 3 > s.len()),
    ensures
        tokens_from(s, i) == seq![TcpOptionToken::Malformed],
        last_mss(tokens_from(s, i)) == None::<u16>,
        last_ws(tokens_from(s, i)) == None::<u8>,
{
    lemma_same_tail(s, i + 4, i + 3);
    assert(tokens_from(s, i) =~= seq![TcpOptionToken::Malformed]);
    let t = seq![TcpOptionToken::Malformed];
    assert(t.drop_last() =~= Seq::<TcpOptionToken>::empty());
    assert(last_mss(t.drop_last()) == None::<u16>);
    assert(last_ws(t.drop_last()) == None::<u8>);
}

/// The cursor after a step of `step` bytes from `i`, held at `n` once it
/// reaches the end of the buffer.
fn advance(i: usize, step: usize, n: usize) -> (r: usize)
    requires
        i < n,
        step >= 1,
    ensures
        r == (if i + step < n { i + step } else { n as int }),
{
    if step < n - i {
        i + step
    } else {
        n
    }
}

/// Walks a raw TCP options buffer from its first byte and collects the
/// tokens, the maximum segment size and the window scale.
pub fn walk_options(options: &[u8]) -> (r: OptionsWalk)
    ensures
        r.describes(options@),
{
    let ghost s = options@;
    let n = options.len();
    let mut tokens: Vec<TcpOptionToken> = Vec::new();
    let mut mss: Option<u16> = None;
    let mut ws: Option<u8> = None;
    let mut i: usize = 0;
    while i < n
        invariant
            n == s.len(),
            s == options@,
            i <= n,
            tokens@ + tokens_from(s, i as nat) == option_tokens(s),
            mss == last_mss(tokens@),
            ws == last_ws(tokens@),
        decreases n - i,
    {
        let kind = options[i];
        let ghost before = tokens@;
        let tok: TcpOptionToken;
        let next: usize;
        let ghost mut jump: nat = n as nat;
        if kind == 0 {
            tok = TcpOptionToken::EndOfList;
            next = n;
        } else if kind == 1 {
            tok = TcpOptionToken::NoOp;
            next = i + 1;
            proof {
                jump = i as nat + 1;
            }
        } else if kind == 2 {
            if 3 < n - i && options[i + 1] == 4 {
                tok = TcpOptionToken::MaxSegmentSize(u16_from_be(options[i + 2], options[i + 3]));
            } else {
                tok = TcpOptionToken::Malformed;
            }
            next = advance(i, 4, n);
            proof {
                jump = i as nat + 4;
            }
        } else if kind == 3 {
            if 2 < n - i && options[i + 1] == 3 {
                tok = TcpOptionToken::WindowScale(options[i + 2]);
            } else {
                tok = TcpOptionToken::Malformed;
            }
            next = advance(i, 3, n);
            proof {
                jump = i as nat + 3;
            }
        } else if kind == 4 {
            tok = TcpOptionToken::SackPermitted;
            next = advance(i, 2, n);
            proof {
                jump = i as nat + 2;
            }
        } else if kind == 8 {
            tok = TcpOptionToken::Timestamps;
            next = advance(i, 10, n);
            proof {
                jump = i as nat + 10;
            }
        } else {
            tok = TcpOptionToken::Unknown(kind);
            if 1 < n - i && options[i + 1] >= 2 {
                next = advance(i, options[i + 1] as usize, n);
                proof {
                    jump = i as nat + options[i + 1 as int] as nat;
                }
            } else {
                next = n;
            }
        }
        proof {
            lemma_push_last(before, tok);
            lemma_same_tail(s, jump, next as nat);
            assert(tokens_from(s, i as nat) == seq![tok] + tokens_from(s, jump));
            assert(before.push(tok) + tokens_from(s, next as nat) =~= before + (seq![tok]
                + tokens_from(s, next as nat)));
        }
        match tok {
            TcpOptionToken::MaxSegmentSize(v) => {
                mss = Some(v);
            },
            TcpOptionToken::WindowScale(v) => {
                ws = Some(v);
            },
            _ => {},
        }
        tokens.push(tok);
        i = next;
    }
    proof {
        lemma_same_tail(s, i as nat, n as nat + 1);
        assert(tokens@ + Seq::<TcpOptionToken>::empty() =~= tokens@);
    }
    OptionsWalk { tokens, mss, ws }
}

} // verus!
