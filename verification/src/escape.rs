//! Byte-level model and decoder of printf-style backslash escapes.

use vstd::prelude::*;

verus! {

/// The byte that introduces an escape sequence: `\`.
pub const BACKSLASH: u8 = 0x5c;

/// The byte after a backslash that introduces two hexadecimal digits: `x`.
pub const HEX_MARK: u8 = 0x78;

/// The letter `n`, which stands for a line feed.
pub const LETTER_N: u8 = 0x6e;

/// The letter `r`, which stands for a carriage return.
pub const LETTER_R: u8 = 0x72;

/// The letter `t`, which stands for a tab.
pub const LETTER_T: u8 = 0x74;

/// The letter `e`, which stands for the escape character.
pub const LETTER_E: u8 = 0x65;

/// The line feed.
pub const LINE_FEED: u8 = 0x0a;

/// The carriage return.
pub const CARRIAGE_RETURN: u8 = 0x0d;

/// The tab.
pub const TAB: u8 = 0x09;

/// The escape character.
pub const ESCAPE: u8 = 0x1b;

/// Why a byte string is not a well-formed escaped value.
#[derive(Clone, Copy, Debug, PartialEq, Eq, Structural)]
pub enum EscapeFault {
    /// The input ends inside an escape sequence.
    Incomplete,
    /// `\x` is not followed by two hexadecimal digits.
    Invalid,
}

/// The value of an ASCII hexadecimal digit, in either case: `0` to `9`
/// are 0x30 to 0x39, `a` to `f` are 0x61 to 0x66, `A` to `F` are 0x41 to
/// 0x46.
pub open spec fn hex_value(b: u8) -> Option<int> {
    if 0x30 <= b <= 0x39 {
        Some(b - 0x30)
    } else if 0x61 <= b <= 0x66 {
        Some(b - 0x61 + 10)
    } else if 0x41 <= b <= 0x46 {
        Some(b - 0x41 + 10)
    } else {
        None
    }
}

/// The byte that `\c` stands for when `c` is not `x`: a line feed for `n`,
/// a carriage return for `r`, a tab for `t`, the escape character for `e`,
/// and `c` itself for any other `c`.
pub open spec fn short_escape(c: u8) -> u8 {
    if c == LETTER_N {
        LINE_FEED
    } else if c == LETTER_R {
        CARRIAGE_RETURN
    } else if c == LETTER_T {
        TAB
    } else if c == LETTER_E {
        ESCAPE
    } else {
        c
    }
}

/// The unit that starts at `i`: the byte it decodes to and the number of
/// input bytes it spans.
pub open spec fn unit_at(b: Seq<u8>, i: int) -> Result<(u8, int), EscapeFault>
    recommends
        0 <= i < b.len(),
{
    if b[i] != BACKSLASH {
        Ok((b[i], 1))
    } else if i + 1 >= b.len() {
        Err(EscapeFault::Incomplete)
    } else if b[i + 1] != HEX_MARK {
        Ok((short_escape(b[i + 1]), 2))
    } else if i + 3 >= b.len() {
        Err(EscapeFault::Incomplete)
    } else {
        match (hex_value(b[i + 2]), hex_value(b[i + 3])) {
            (Some(high), Some(low)) => Ok(((16 * high + low) as u8, 4)),
            _ => Err(EscapeFault::Invalid),
        }
    }
}

/// The decoding of `b` from index `i` to its end. The first malformed unit
/// decides the fault.
pub open spec fn unescape_from(b: Seq<u8>, i: int) -> Result<Seq<u8>, EscapeFault>
    decreases b.len() - i,
{
    if i < 0 || i >= b.len() {
        Ok(Seq::empty())
    } else {
        match unit_at(b, i) {
            Err(fault) => Err(fault),
            Ok((byte, span)) => match unescape_from(b, i + span) {
                Err(fault) => Err(fault),
                Ok(rest) => Ok(seq![byte] + rest),
            },
        }
    }
}

/// The decoding of a whole escaped byte string.
pub open spec fn unescape(b: Seq<u8>) -> Result<Seq<u8>, EscapeFault> {
    unescape_from(b, 0)
}

/// A byte string that holds no backslash decodes to itself.
pub proof fn lemma_unescape_plain(b: Seq<u8>)
    requires
        forall|i: int| 0 <= i < b.len() ==> b[i] != BACKSLASH,
    ensures
        unescape(b) == Ok::<Seq<u8>, EscapeFault>(b),
{
    lemma_unescape_plain_from(b, 0);
    assert(b.subrange(0, b.len() as int) =~= b);
}

proof fn lemma_unescape_plain_from(b: Seq<u8>, i: int)
    requires
        0 <= i <= b.len(),
        forall|j: int| 0 <= j < b.len() ==> b[j] != BACKSLASH,
    ensures
        unescape_from(b, i) == Ok::<Seq<u8>, EscapeFault>(b.subrange(i, b.len() as int)),
    decreases b.len() - i,
{
    if i < b.len() {
        lemma_unescape_plain_from(b, i + 1);
        assert(seq![b[i]] + b.subrange(i + 1, b.len() as int) =~= b.subrange(i, b.len() as int));
    } else {
        assert(b.subrange(i, b.len() as int) =~= Seq::<u8>::empty());
    }
}

/// Reads one hexadecimal digit.
pub fn hex_digit(b: u8) -> (r: Option<u8>)
    ensures
        match r {
            Some(v) => hex_value(b) == Some(v as int),
            None => hex_value(b) is None,
        },
{
    if 0x30 <= b && b <= 0x39 {
        Some(b - 0x30)
    } else if 0x61 <= b && b <= 0x66 {
        Some(b - 0x61 + 10)
    } else if 0x41 <= b && b <= 0x46 {
        Some(b - 0x41 + 10)
    } else {
        None
    }
}

/// Decodes the escapes of a byte string.
pub fn unescape_bytes(b: &[u8]) -> (r: Result<Vec<u8>, EscapeFault>)
    ensures
        match r {
            Ok(out) => unescape(b@) == Ok::<Seq<u8>, EscapeFault>(out@),
            Err(fault) => unescape(b@) == Err::<Seq<u8>, EscapeFault>(fault),
        },
{
    let n: usize = b.len();
    let mut out: Vec<u8> = Vec::new();
    let mut i: usize = 0;
    while i < n
        invariant
            n == b@.len(),
            i <= n,
            unescape(b@) == match unescape_from(b@, i as int) {
                Ok(rest) => Ok::<Seq<u8>, EscapeFault>(out@ + rest),
                Err(fault) => Err(fault),
            },
        decreases n - i,
    {
        let ghost before = out@;
        let c: u8 = b[i];
        if c != BACKSLASH {
            out.push(c);
            i = i + 1;
        } else if n - i < 2 {
            return Err(EscapeFault::Incomplete);
        } else {
            let d: u8 = b[i + 1];
            if d != HEX_MARK {
                let byte: u8 = if d == LETTER_N {
                    LINE_FEED
                } else if d == LETTER_R {
                    CARRIAGE_RETURN
                } else if d == LETTER_T {
                    TAB
                } else if d == LETTER_E {
                    ESCAPE
                } else {
                    d
                };
                out.push(byte);
                i = i + 2;
            } else if n - i < 4 {
                return Err(EscapeFault::Incomplete);
            } else {
                match (hex_digit(b[i + 2]), hex_digit(b[i + 3])) {
                    (Some(high), Some(low)) => {
                        out.push(16 * high + low);
                        i = i + 4;
                    },
                    _ => {
                        return Err(EscapeFault::Invalid);
                    },
                }
            }
        }
        proof {
            let rest = unescape_from(b@, i as int);
            if rest is Ok {
                assert(before + (seq![out@.last()] + rest->Ok_0) =~= out@ + rest->Ok_0);
            }
        }
    }
    Ok(out)
}

} // verus!
