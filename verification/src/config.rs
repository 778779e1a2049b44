//! Client-side invocation values: the server address, the port, and the
//! query text, taken from an argument list.

use vstd::prelude::*;
use vstd::slice::slice_index_get;
use vstd::utf8::encode_utf8;

verus! {

broadcast use vstd::seq::group_seq_axioms;

/// What a client invocation carries: where to send, and what to ask.
#[derive(Debug)]
pub struct Config {
    pub address: String,
    pub port: u16,
    pub query: String,
}

/// The value of a byte string read as a decimal port number: defined when
/// the string is nonempty, all ASCII digits, and no prefix outgrows 16
/// bits; leading zeroes are allowed.
pub open spec fn spec_parse_port(bytes: Seq<u8>) -> Option<u16>
    decreases bytes.len(),
{
    if bytes.len() == 0 {
        None
    } else {
        let d = bytes.last();
        if !(0x30 <= d <= 0x39) {
            None
        } else if bytes.len() == 1 {
            Some((d - 0x30) as u16)
        } else {
            match spec_parse_port(bytes.drop_last()) {
                None => None,
                Some(hi) => if hi * 10 + (d - 0x30) <= 0xFFFF {
                    Some((hi * 10 + (d - 0x30)) as u16)
                } else {
                    None
                },
            }
        }
    }
}

/// One byte that is not an ASCII digit spoils the whole string.
proof fn lemma_invalid_digit_gives_none(bytes: Seq<u8>, i: int)
    requires
        0 <= i < bytes.len(),
        !(0x30 <= bytes[i] <= 0x39),
    ensures
        spec_parse_port(bytes) is None,
    decreases bytes.len(),
{
    if i < bytes.len() - 1 {
        lemma_invalid_digit_gives_none(bytes.drop_last(), i);
    }
}

/// Once a prefix has no value, no extension of it has one.
proof fn lemma_none_prefix_extends(bytes: Seq<u8>, j: int)
    requires
        1 <= j <= bytes.len(),
        spec_parse_port(bytes.subrange(0, j)) is None,
    ensures
        spec_parse_port(bytes) is None,
    decreases bytes.len() - j,
{
    if j < bytes.len() {
        assert(bytes.subrange(0, j + 1).drop_last() =~= bytes.subrange(0, j));
        lemma_none_prefix_extends(bytes, j + 1);
    } else {
        assert(bytes.subrange(0, j) =~= bytes);
    }
}

/// Read a decimal port number, exactly as `spec_parse_port` defines it.
pub fn parse_port(s: &str) -> (r: Option<u16>)
    ensures
        r == spec_parse_port(encode_utf8(s@)),
{
    let bytes = s.as_bytes();
    let ghost b = bytes@;
    let n = bytes.len();
    if n == 0 {
        return None;
    }
    let mut value: u16 = 0;
    let mut i: usize = 0;
    while i < n
        invariant
            0 < n == b.len(),
            0 <= i <= n,
            b == encode_utf8(s@),
            bytes@ == b,
            i > 0 ==> spec_parse_port(b.subrange(0, i as int)) == Some(value),
            i == 0 ==> value == 0,
        decreases n - i,
    {
        let d = *slice_index_get(bytes, i);
        if d < 0x30 || d > 0x39 {
            proof {
                lemma_invalid_digit_gives_none(b, i as int);
            }
            return None;
        }
        let digit = (d - 0x30) as u16;
        if value > (0xFFFF - digit) / 10 {
            proof {
                assert(value * 10 + digit > 0xFFFF) by (nonlinear_arith)
                    requires
                        value > (0xFFFF - digit) / 10,
                        digit <= 9,
                ;
                assert(b.subrange(0, i + 1).drop_last() =~= b.subrange(0, i as int));
                if i == 0 {
                    assert(b.subrange(0, 1).len() == 1);
                }
                assert(spec_parse_port(b.subrange(0, i + 1)) is None);
                lemma_none_prefix_extends(b, i + 1);
            }
            return None;
        }
        proof {
            assert(value * 10 + digit <= 0xFFFF) by (nonlinear_arith)
                requires
                    value <= (0xFFFF - digit) / 10,
                    digit <= 9,
            ;
            assert(b.subrange(0, i + 1).drop_last() =~= b.subrange(0, i as int));
        }
        value = value * 10 + digit;
        i = i + 1;
    }
    proof {
        assert(b.subrange(0, n as int) =~= b);
    }
    Some(value)
}

impl Config {
    /// Take the server address, port and query text from an argument list
    /// of at least four entries (the first being the program name). A port
    /// argument that is not a decimal 16-bit number is outside the
    /// contract, as the caller's invocation is malformed beyond repair.
    pub fn new(args: &[String]) -> (r: Result<Config, &'static str>)
        requires
            args@.len() >= 4 ==> spec_parse_port(encode_utf8(args@[2]@)) is Some,
        ensures
            args@.len() < 4 ==> (r matches Err(m) && m@ == "not enough arguments"@),
            args@.len() >= 4 ==> (r matches Ok(c) && c.address@ == args@[1]@ && Some(c.port)
                == spec_parse_port(encode_utf8(args@[2]@)) && c.query@ == args@[3]@),
    {
        if args.len() < 4 {
            return Err("not enough arguments");
        }
        let address = slice_index_get(args, 1).clone();
        let port = match parse_port(slice_index_get(args, 2).as_str()) {
            Some(p) => p,
            None => {
                proof {
                    assert(false);
                }
                unreached()
            },
        };
        let query = slice_index_get(args, 3).clone();
        Ok(Config { address, port, query })
    }
}

} // verus!
