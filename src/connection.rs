//! How the streaming client addresses the recognition service: the listen
//! endpoint with its query (language and the capture's true sample rate) and
//! the authorization header.

use vstd::prelude::*;

verus! {

/// The character of decimal digit `d`.
pub open spec fn digit_char(d: nat) -> char {
    (48 + d) as char
}

/// The decimal digits of `n`, most significant first, without leading zeros.
pub open spec fn decimal(n: nat) -> Seq<char>
    decreases n,
{
    if n < 10 {
        seq![digit_char(n)]
    } else {
        decimal(n / 10) + seq![digit_char(n % 10)]
    }
}

/// The one-character text of decimal digit `d`.
fn digit_text(d: u64) -> (r: &'static str)
    requires
        d < 10,
    ensures
        r@ == seq![digit_char(d as nat)],
{
    if d == 0 {
        proof {
            reveal_strlit("0");
        }
        "0"
    } else if d == 1 {
        proof {
            reveal_strlit("1");
        }
        "1"
    } else if d == 2 {
        proof {
            reveal_strlit("2");
        }
        "2"
    } else if d == 3 {
        proof {
            reveal_strlit("3");
        }
        "3"
    } else if d == 4 {
        proof {
            reveal_strlit("4");
        }
        "4"
    } else if d == 5 {
        proof {
            reveal_strlit("5");
        }
        "5"
    } else if d == 6 {
        proof {
            reveal_strlit("6");
        }
        "6"
    } else if d == 7 {
        proof {
            reveal_strlit("7");
        }
        "7"
    } else if d == 8 {
        proof {
            reveal_strlit("8");
        }
        "8"
    } else {
        proof {
            reveal_strlit("9");
        }
        "9"
    }
}

/// `n` in decimal, without sign or leading zeros.
pub fn decimal_text(n: u64) -> (r: String)
    ensures
        r@ == decimal(n as nat),
    decreases n,
{
    if n < 10 {
        String::from_str(digit_text(n))
    } else {
        let head = decimal_text(n / 10);
        head.concat(digit_text(n % 10))
    }
}

/// `v` in decimal, with a leading `-` when negative.
pub open spec fn signed_decimal(v: int) -> Seq<char> {
    if v < 0 {
        seq!['-'] + decimal((-v) as nat)
    } else {
        decimal(v as nat)
    }
}

/// `v` in decimal, with a leading `-` when negative.
pub fn signed_decimal_text(v: i64) -> (r: String)
    requires
        v > i64::MIN,
    ensures
        r@ == signed_decimal(v as int),
{
    if v < 0 {
        proof {
            reveal_strlit("-");
        }
        let digits = decimal_text((-v) as u64);
        String::from_str("-").concat(digits.as_str())
    } else {
        decimal_text(v as u64)
    }
}

/// The recognition service's streaming endpoint.
pub const LISTEN_ENDPOINT: &'static str = "wss://api.deepgram.com/v1/listen";

/// The query options that precede the sample rate.
pub const LISTEN_OPTIONS: &'static str =
    "&punctuate=true&interim_results=true&encoding=linear16&sample_rate=";

/// The address of a streaming session: the endpoint, with interim results,
/// punctuation, 16-bit linear PCM mono, the given language and sample rate.
pub fn listen_url(language: &str, sample_rate: u32) -> (url: String)
    ensures
        url@ == LISTEN_ENDPOINT@ + "?language="@ + language@ + LISTEN_OPTIONS@ + decimal(
            sample_rate as nat,
        ) + "&channels=1"@,
{
    let rate = decimal_text(sample_rate as u64);
    String::from_str(LISTEN_ENDPOINT).concat("?language=").concat(language).concat(
        LISTEN_OPTIONS,
    ).concat(rate.as_str()).concat("&channels=1")
}

/// The value of the `Authorization` header for `api_key`.
pub fn authorization_header(api_key: &str) -> (value: String)
    ensures
        value@ == "Token "@ + api_key@,
{
    String::from_str("Token ").concat(api_key)
}

} // verus!
