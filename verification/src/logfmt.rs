//! Construction of the diagnostic log lines, with their exact character
//! content stated as spec functions: decimal rendering of bytes, the
//! bracketed byte-list form, and the three line kinds the handler emits.

use vstd::prelude::*;
use vstd::string::*;

verus! {

/// The fixed port the server listens on, on the loopback address.
pub const LISTEN_PORT: u16 = 3000;

/// The capacity of the broadcast channel created at startup. The channel is
/// inert scaffolding: nothing ever sends into it or reads from it.
pub const BROADCAST_CAPACITY: usize = 16;

/// The character for a single decimal digit.
pub open spec fn digit_char(d: nat) -> char {
    if d == 0 {
        '0'
    } else if d == 1 {
        '1'
    } else if d == 2 {
        '2'
    } else if d == 3 {
        '3'
    } else if d == 4 {
        '4'
    } else if d == 5 {
        '5'
    } else if d == 6 {
        '6'
    } else if d == 7 {
        '7'
    } else if d == 8 {
        '8'
    } else {
        '9'
    }
}

/// The decimal representation of a natural number, most significant digit
/// first, with no leading zeros (zero itself is "0").
pub open spec fn decimal(n: nat) -> Seq<char>
    decreases n,
{
    if n < 10 {
        seq![digit_char(n)]
    } else {
        decimal(n / 10).push(digit_char(n % 10))
    }
}

/// A one-character string slice for a single decimal digit.
fn digit_str(d: u8) -> (r: &'static str)
    requires
        d < 10,
    ensures
        r@ == seq![digit_char(d as nat)],
{
    proof {
        reveal_strlit("0");
        reveal_strlit("1");
        reveal_strlit("2");
        reveal_strlit("3");
        reveal_strlit("4");
        reveal_strlit("5");
        reveal_strlit("6");
        reveal_strlit("7");
        reveal_strlit("8");
        reveal_strlit("9");
    }
    let r: &'static str = match d {
        0 => "0",
        1 => "1",
        2 => "2",
        3 => "3",
        4 => "4",
        5 => "5",
        6 => "6",
        7 => "7",
        8 => "8",
        _ => "9",
    };
    proof {
        assert(r@ =~= seq![digit_char(d as nat)]);
    }
    r
}

/// Renders a byte in decimal.
pub fn u8_decimal(n: u8) -> (s: String)
    ensures
        s@ == decimal(n as nat),
{
    if n < 10 {
        let s = String::from_str(digit_str(n));
        proof {
            assert(s@ =~= decimal(n as nat));
        }
        s
    } else if n < 100 {
        let mut s = String::from_str(digit_str(n / 10));
        s.append(digit_str(n % 10));
        proof {
            assert(decimal((n as nat) / 10) =~= seq![digit_char((n as nat) / 10)]);
            assert(s@ =~= decimal(n as nat));
        }
        s
    } else {
        let mut s = String::from_str(digit_str(n / 100));
        s.append(digit_str((n / 10) % 10));
        s.append(digit_str(n % 10));
        proof {
            assert((n as nat) / 10 / 10 == (n as nat) / 100) by (nonlinear_arith);
            assert(decimal((n as nat) / 100) =~= seq![digit_char((n as nat) / 100)]);
            assert(decimal((n as nat) / 10) =~= seq![
                digit_char((n as nat) / 100),
                digit_char((n as nat) / 10 % 10),
            ]);
            assert(s@ =~= decimal(n as nat));
        }
        s
    }
}

/// The comma-separated decimal renderings of a byte sequence, without the
/// surrounding brackets.
pub open spec fn byte_list(s: Seq<u8>) -> Seq<char>
    decreases s.len(),
{
    if s.len() == 0 {
        Seq::<char>::empty()
    } else if s.len() == 1 {
        decimal(s[0] as nat)
    } else {
        byte_list(s.drop_last()) + seq![',', ' '] + decimal(s.last() as nat)
    }
}

/// A byte sequence rendered as a bracketed, comma-separated decimal list,
/// e.g. a three-byte sequence renders as "[1, 2, 3]".
pub open spec fn byte_listing(s: Seq<u8>) -> Seq<char> {
    seq!['['] + byte_list(s) + seq![']']
}

/// Renders a byte vector as its bracketed decimal listing.
pub fn format_bytes(bytes: &Vec<u8>) -> (s: String)
    ensures
        s@ == byte_listing(bytes@),
{
    let mut s = String::from_str("[");
    proof {
        reveal_strlit("[");
        assert(bytes@.subrange(0, 0) =~= Seq::<u8>::empty());
        assert(s@ =~= seq!['['] + byte_list(bytes@.subrange(0, 0)));
    }
    let mut i: usize = 0;
    while i < bytes.len()
        invariant
            i <= bytes@.len(),
            s@ == seq!['['] + byte_list(bytes@.subrange(0, i as int)),
        decreases bytes@.len() - i,
    {
        if i > 0 {
            s.append(", ");
            proof {
                reveal_strlit(", ");
                assert(", "@ =~= seq![',', ' ']);
            }
        }
        let d = u8_decimal(bytes[i]);
        s.append(d.as_str());
        proof {
            let pre = bytes@.subrange(0, i as int);
            let cur = bytes@.subrange(0, i + 1 as int);
            assert(cur.drop_last() =~= pre);
            assert(cur.last() == bytes@[i as int]);
            assert(s@ =~= seq!['['] + byte_list(cur));
        }
        i += 1;
    }
    s.append("]");
    proof {
        reveal_strlit("]");
        assert(bytes@.subrange(0, bytes@.len() as int) =~= bytes@);
        assert(s@ =~= byte_listing(bytes@));
    }
    s
}

/// The log line for a received text frame.
pub open spec fn text_line(t: Seq<char>) -> Seq<char> {
    "Received text: "@ + t
}

/// The log line for a received binary frame.
pub open spec fn binary_line(b: Seq<u8>) -> Seq<char> {
    "Received binary data: "@ + byte_listing(b)
}

/// The log line emitted when a close frame arrives.
pub open spec fn disconnect_line() -> Seq<char> {
    "Client disconnected"@
}

/// Builds the text-frame log line, carrying the frame's exact text.
pub fn text_log_line(t: &str) -> (r: String)
    ensures
        r@ == text_line(t@),
{
    let mut s = String::from_str("Received text: ");
    s.append(t);
    s
}

/// Builds the binary-frame log line, carrying the frame's exact bytes.
pub fn binary_log_line(b: &Vec<u8>) -> (r: String)
    ensures
        r@ == binary_line(b@),
{
    let mut s = String::from_str("Received binary data: ");
    let listing = format_bytes(b);
    s.append(listing.as_str());
    s
}

/// Builds the disconnect log line.
pub fn disconnect_log_line() -> (r: String)
    ensures
        r@ == disconnect_line(),
{
    String::from_str("Client disconnected")
}

/// The text of the fixed listening address.
pub open spec fn listen_addr() -> Seq<char> {
    "127.0.0.1:3000"@
}

/// The banner printed when the server starts.
pub open spec fn banner_line() -> Seq<char> {
    "WebSocket server running on ws://"@ + listen_addr()
}

/// Builds the fixed listening address as text.
pub fn listen_addr_text() -> (r: String)
    ensures
        r@ == listen_addr(),
{
    String::from_str("127.0.0.1:3000")
}

/// Builds the startup banner.
pub fn banner_text() -> (r: String)
    ensures
        r@ == banner_line(),
{
    let mut s = String::from_str("WebSocket server running on ws://");
    let addr = listen_addr_text();
    s.append(addr.as_str());
    s
}

} // verus!
