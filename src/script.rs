//! The script bridge: the JavaScript call that asks the page to render, and the
//! address of the content server.
use vstd::prelude::*;
use vstd::string::StringExecFns;

verus! {

/// The standard, padded base64 text of a byte string.
pub uninterp spec fn base64_of(b: Seq<u8>) -> Seq<char>;

/// Relies on `base64::Engine::encode` with the `STANDARD` engine: padded
/// output, four characters per started group of three bytes. It panics only
/// when that length overflows `usize`.
#[verifier::external_body]
fn base64_encode(b: &Vec<u8>) -> (r: String)
    requires
        4 * ((b@.len() + 2) / 3) <= usize::MAX,
    ensures
        r@ == base64_of(b@),
        r@.len() == 4 * ((b@.len() + 2) / 3),
{
    base64::Engine::encode(&base64::engine::general_purpose::STANDARD, b)
}

/// The decimal digit for `d < 10`.
pub open spec fn digit_char(d: nat) -> char {
    if d == 0 {
        '0'
    } else if d == 1 {
        '1'
    } else if d == 2 {
        '2'
    } else if d == 3 {
        '3'
    } else if d == 4 {
        '4'
    } else if d == 5 {
        '5'
    } else if d == 6 {
        '6'
    } else if d == 7 {
        '7'
    } else if d == 8 {
        '8'
    } else {
        '9'
    }
}

/// `n` in decimal, without leading zeros.
pub open spec fn decimal(n: nat) -> Seq<char>
    decreases n,
{
    if n < 10 {
        seq![digit_char(n)]
    } else {
        decimal(n / 10) + seq![digit_char(n % 10)]
    }
}

/// The script that asks the page to render the serialized batch `payload`
/// under `nonce`.
pub open spec fn render_script_text(nonce: u32, payload: Seq<u8>) -> Seq<char> {
    "window.__vi5__.render("@ + decimal(nonce as nat) + ", '"@ + base64_of(payload) + "');"@
}

/// The address of the content server on `port`.
pub open spec fn content_url_text(port: u16) -> Seq<char> {
    "http://localhost:"@ + decimal(port as nat) + "/vi5"@
}

/// The port a content server is started on, from a random draw.
pub open spec fn port_from_draw(draw: u16) -> u16 {
    (draw % 20000 + 10000) as u16
}

fn digit_str(d: u64) -> (r: &'static str)
    requires
        d < 10,
    ensures
        r@ == seq![digit_char(d as nat)],
{
    proof {
        reveal_strlit("0");
        reveal_strlit("1");
        reveal_strlit("2");
        reveal_strlit("3");
        reveal_strlit("4");
        reveal_strlit("5");
        reveal_strlit("6");
        reveal_strlit("7");
        reveal_strlit("8");
        reveal_strlit("9");
    }
    if d == 0 {
        "0"
    } else if d == 1 {
        "1"
    } else if d == 2 {
        "2"
    } else if d == 3 {
        "3"
    } else if d == 4 {
        "4"
    } else if d == 5 {
        "5"
    } else if d == 6 {
        "6"
    } else if d == 7 {
        "7"
    } else if d == 8 {
        "8"
    } else {
        "9"
    }
}

/// Appends `n` in decimal to `out`.
pub fn push_decimal(out: &mut String, n: u64)
    ensures
        final(out)@ == old(out)@ + decimal(n as nat),
    decreases n,
{
    if n >= 10 {
        push_decimal(out, n / 10);
    }
    out.append(digit_str(n % 10));
    proof {
        if n >= 10 {
            assert(final(out)@ =~= old(out)@ + decimal(n as nat));
        } else {
            assert(final(out)@ =~= old(out)@ + decimal(n as nat));
        }
    }
}

/// The script that asks the page to render the serialized batch `payload`
/// under `nonce`: `window.__vi5__.render(<nonce>, '<base64 of payload>');`.
pub fn render_script(nonce: u32, payload: &Vec<u8>) -> (r: String)
    requires
        4 * ((payload@.len() + 2) / 3) <= usize::MAX,
    ensures
        r@ == render_script_text(nonce, payload@),
{
    let mut s = String::new();
    s.append("window.__vi5__.render(");
    push_decimal(&mut s, nonce as u64);
    s.append(", '");
    let encoded = base64_encode(payload);
    s.append(encoded.as_str());
    s.append("');");
    proof {
        assert(s@ =~= render_script_text(nonce, payload@));
    }
    s
}

/// The address of the content server on `port`: `http://localhost:<port>/vi5`.
pub fn content_url(port: u16) -> (r: String)
    ensures
        r@ == content_url_text(port),
{
    let mut s = String::new();
    s.append("http://localhost:");
    push_decimal(&mut s, port as u64);
    s.append("/vi5");
    proof {
        assert(s@ =~= content_url_text(port));
    }
    s
}

/// The port for a content server, from a random draw: in `[10000, 30000)`.
pub fn port_for_draw(draw: u16) -> (r: u16)
    ensures
        r == port_from_draw(draw),
        10000 <= r < 30000,
{
    draw % 20000 + 10000
}

/// Draws a fresh port for a content server.
pub fn choose_content_port() -> (r: u16)
    ensures
        10000 <= r < 30000,
{
    port_for_draw(rand::random::<u16>())
}

} // verus!
