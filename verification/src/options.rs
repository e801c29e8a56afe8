//! The options of a datagram, as far as they have to be looked at before the
//! wire codec is let at them.
//!
//! The codec reads the options behind the fixed header one after the other:
//! a code, a length, and as many bytes of value; a zero byte is padding and
//! the byte 255 ends the options. Runs of options with the same code are
//! joined into one. For a few codes the codec takes the joined length for
//! granted, and the walk below refuses a datagram where it is another.

use vstd::prelude::*;

verus! {

/// Where the options begin: behind the fixed header and the magic cookie.
pub const OPTIONS_OFFSET: usize = 240;

/// The code that pads the options.
pub const CODE_PAD: u8 = 0;

/// The code that ends the options.
pub const CODE_END: u8 = 255;

/// Code of the rapid commit option, which has no value.
pub const CODE_RAPID_COMMIT: u8 = 80;

/// Code of the client FQDN option, whose value begins with three bytes.
pub const CODE_CLIENT_FQDN: u8 = 81;

/// Code of the client network interface option, whose value is three bytes.
pub const CODE_CLIENT_NETWORK_INTERFACE: u8 = 94;

/// Code of the status code option of bulk lease queries: a code and a text.
pub const CODE_STATUS_CODE: u8 = 151;

/// First of the four codes of the times of bulk lease queries, whose values
/// are four bytes each.
pub const CODE_FIRST_QUERY_TIME: u8 = 152;

/// Last of the four codes of the times of bulk lease queries.
pub const CODE_LAST_QUERY_TIME: u8 = 155;

/// Longest value of a status code option that can be written again in one
/// piece.
pub const MAX_STATUS_CODE_LEN: usize = 255;

/// Whether the joined length of the options of one code is one that the
/// codec is prepared for. No code stands for no option at all.
pub open spec fn group_admitted(code: u8, joined: int) -> bool {
    if code == CODE_RAPID_COMMIT {
        joined == 0
    } else if code == CODE_CLIENT_NETWORK_INTERFACE {
        joined == 3
    } else if CODE_FIRST_QUERY_TIME <= code <= CODE_LAST_QUERY_TIME {
        joined == 4
    } else if code == CODE_CLIENT_FQDN {
        joined >= 3
    } else if code == CODE_STATUS_CODE {
        1 <= joined <= MAX_STATUS_CODE_LEN
    } else {
        true
    }
}

/// Whether every run of options from position `at` on has an admitted
/// length, where a run of `code` with `joined` bytes of value is open at
/// `at`. The walk ends at the end byte, at an option that runs past the
/// buffer, and at the end of the buffer.
pub open spec fn options_admitted_from(bytes: Seq<u8>, at: int, code: u8, joined: int) -> bool
    decreases bytes.len() - at,
{
    if at < 0 || at >= bytes.len() || bytes[at] == CODE_END {
        group_admitted(code, joined)
    } else if bytes[at] == CODE_PAD {
        group_admitted(code, joined) && options_admitted_from(bytes, at + 1, CODE_PAD, 0)
    } else if at + 1 >= bytes.len() || at + 2 + bytes[at + 1] > bytes.len() {
        group_admitted(code, joined)
    } else if bytes[at] == code {
        options_admitted_from(bytes, at + 2 + bytes[at + 1], code, joined + bytes[at + 1])
    } else {
        group_admitted(code, joined) && options_admitted_from(
            bytes,
            at + 2 + bytes[at + 1],
            bytes[at],
            bytes[at + 1] as int,
        )
    }
}

/// Whether the options of a datagram are such that the codec can be let at
/// it. A datagram too short to hold options is.
pub open spec fn options_admitted(bytes: Seq<u8>) -> bool {
    bytes.len() <= OPTIONS_OFFSET || options_admitted_from(
        bytes,
        OPTIONS_OFFSET as int,
        CODE_PAD,
        0,
    )
}

/// Whether the joined length of the options of one code is one that the
/// codec is prepared for.
pub fn group_is_admitted(code: u8, joined: usize) -> (r: bool)
    ensures
        r == group_admitted(code, joined as int),
{
    if code == CODE_RAPID_COMMIT {
        joined == 0
    } else if code == CODE_CLIENT_NETWORK_INTERFACE {
        joined == 3
    } else if CODE_FIRST_QUERY_TIME <= code && code <= CODE_LAST_QUERY_TIME {
        joined == 4
    } else if code == CODE_CLIENT_FQDN {
        joined >= 3
    } else if code == CODE_STATUS_CODE {
        1 <= joined && joined <= MAX_STATUS_CODE_LEN
    } else {
        true
    }
}

/// Walks the options of a datagram and says whether the codec can be let at
/// it.
pub fn options_admissible(buf: &[u8]) -> (r: bool)
    ensures
        r == options_admitted(buf@),
{
    let n = buf.len();
    if n <= OPTIONS_OFFSET {
        return true;
    }
    let mut at: usize = OPTIONS_OFFSET;
    let mut code: u8 = CODE_PAD;
    let mut joined: usize = 0;
    while at < n && buf[at] != CODE_END
        invariant
            OPTIONS_OFFSET <= at,
            n == buf@.len(),
            joined <= at,
            options_admitted(buf@) == options_admitted_from(buf@, at as int, code, joined as int),
        decreases n - at,
    {
        let here = buf[at];
        if here == CODE_PAD {
            if !group_is_admitted(code, joined) {
                return false;
            }
            at = at + 1;
            code = CODE_PAD;
            joined = 0;
        } else {
            if at + 1 >= n {
                return group_is_admitted(code, joined);
            }
            let len = buf[at + 1] as usize;
            if len > n - at - 2 {
                return group_is_admitted(code, joined);
            }
            if here == code {
                joined = joined + len;
            } else {
                if !group_is_admitted(code, joined) {
                    return false;
                }
                code = here;
                joined = len;
            }
            at = at + 2 + len;
        }
    }
    group_is_admitted(code, joined)
}

} // verus!
