//! What the agents share in asking a service over HTTP.

use vstd::prelude::*;

use crate::agents::{AgentError, ErrorView};
use crate::text;

verus! {

/// How many bytes of a refusal are kept.
pub const MAX_REFUSAL_BYTES: usize = 2048;

/// What became of a request.
#[derive(Debug, Clone, PartialEq, Eq)]
pub enum Outcome {
    /// There was no response.
    ConnectFailed(String),
    /// The response is no success.
    Refused { status: u16, body: String },
    /// The body could not be read.
    ReadFailed(String),
    /// The body of a success.
    Body(Vec<u8>),
}

/// The first characters of a text that fit into so many bytes.
pub open spec fn head_of(s: Seq<char>, max: int) -> Seq<char> {
    s.take(text::fit(s, max))
}

/// The first characters of a text that fit into so many bytes.
pub fn truncate(s: &str, max_chars: usize) -> (r: String)
    ensures
        r@ == head_of(s@, max_chars as int),
{
    text::prefix_within(s, max_chars)
}

/// A text that fits is kept whole.
pub proof fn law_short_text_is_kept(s: Seq<char>, max: int)
    requires
        0 <= max,
        text::utf8(s).len() <= max,
    ensures
        head_of(s, max) == s,
{
    text::lemma_fit(s, max);
    assert(s.take(s.len() as int) == s);
}

/// The bytes of a body of at most `cap` bytes, or why there are none.
pub open spec fn body_of(o: Outcome, cap: int) -> Result<Seq<u8>, ErrorView> {
    match o {
        Outcome::ConnectFailed(e) => Err(
            ErrorView::AgentFailed("upstream connect/read failed: "@ + e@),
        ),
        Outcome::Refused { status, body } => Err(
            ErrorView::Upstream { status, body: head_of(body@, MAX_REFUSAL_BYTES as int) },
        ),
        Outcome::ReadFailed(e) => Err(ErrorView::AgentFailed("read body: "@ + e@)),
        Outcome::Body(b) => if b@.len() > cap {
            Err(
                ErrorView::AgentFailed(
                    "upstream body too large: "@ + text::digits(b@.len()) + " bytes (cap "@
                        + text::digits(cap as nat) + ")"@,
                ),
            )
        } else {
            Ok(b@)
        },
    }
}

/// Bytes or an error, as values.
pub open spec fn bytes_view(r: Result<Vec<u8>, AgentError>) -> Result<Seq<u8>, ErrorView> {
    match r {
        Ok(b) => Ok(b@),
        Err(e) => Err(e@),
    }
}

/// The bytes of a body of at most `cap` bytes.
pub fn body_within(o: Outcome, cap: usize) -> (r: Result<Vec<u8>, AgentError>)
    ensures
        bytes_view(r) == body_of(o, cap as int),
{
    match o {
        Outcome::ConnectFailed(e) => {
            let m = text::own("upstream connect/read failed: ").concat(e.as_str());
            Err(AgentError::AgentFailed(m))
        },
        Outcome::Refused { status, body } => {
            let kept = truncate(body.as_str(), MAX_REFUSAL_BYTES);
            Err(AgentError::Upstream { status, body: kept })
        },
        Outcome::ReadFailed(e) => {
            let m = text::own("read body: ").concat(e.as_str());
            Err(AgentError::AgentFailed(m))
        },
        Outcome::Body(b) => {
            if b.len() > cap {
                let mut m = text::own("upstream body too large: ");
                text::push_digits(&mut m, b.len() as u64);
                m.append(" bytes (cap ");
                text::push_digits(&mut m, cap as u64);
                m.append(")");
                return Err(AgentError::AgentFailed(m));
            }
            Ok(b)
        },
    }
}

// ---- Addresses ----------------------------------------------------------

/// Whether a byte stands for itself in an address.
pub open spec fn plain(b: u8) -> bool {
    (65 <= b <= 90) || (97 <= b <= 122) || (48 <= b <= 57) || b == 45 || b == 95 || b == 46 || b
        == 126
}

/// The hexadecimal digit of a value below sixteen.
pub open spec fn hex(d: int) -> char {
    if d < 10 {
        (0x30 + d) as char
    } else {
        (0x37 + d) as char
    }
}

/// One byte in an address: itself, or `%` and two digits; a space is `+` in a
/// form.
pub open spec fn encoded_byte(b: u8, form: bool) -> Seq<char> {
    if plain(b) {
        seq![b as char]
    } else if form && b == 32 {
        seq!['+']
    } else {
        seq!['%', hex(b as int / 16), hex(b as int % 16)]
    }
}

/// Bytes in an address.
pub open spec fn encoded(b: Seq<u8>, form: bool) -> Seq<char>
    decreases b.len(),
{
    if b.len() == 0 {
        Seq::empty()
    } else {
        encoded(b.drop_last(), form) + encoded_byte(b.last(), form)
    }
}

/// The hexadecimal digit of a value below sixteen.
fn hex_char(d: u8) -> (r: char)
    requires
        d < 16,
    ensures
        r == hex(d as int),
{
    if d < 10 {
        (0x30 + d) as char
    } else {
        (0x37 + d) as char
    }
}

/// A text in an address; a space is `+` in a form.
pub fn url_encode(s: &str, form: bool) -> (r: String)
    ensures
        r@ == encoded(text::utf8(s@), form),
{
    let bytes = text::utf8_bytes(s);
    let mut out = String::new();
    let mut i: usize = 0;
    while i < bytes.len()
        invariant
            i <= bytes.len(),
            out@ == encoded(bytes@.take(i as int), form),
        decreases bytes.len() - i,
    {
        let b: u8 = bytes[i];
        proof {
            assert(bytes@.take(i + 1).drop_last() == bytes@.take(i as int));
        }
        let ghost before = out@;
        if (65 <= b && b <= 90) || (97 <= b && b <= 122) || (48 <= b && b <= 57) || b == 45 || b
            == 95 || b == 46 || b == 126 {
            out.push(b as char);
        } else if form && b == 32 {
            out.push('+');
        } else {
            out.push('%');
            out.push(hex_char(b / 16));
            out.push(hex_char(b % 16));
        }
        assert(out@ == before + encoded_byte(b, form));
        i += 1;
    }
    assert(bytes@.take(i as int) == bytes@);
    out
}

/// Whether a character can stand in an address without changing its parts.
pub open spec fn harmless(c: char) -> bool {
    c == '%' || c == '+' || exists|b: u8| plain(b) && c == b as char
}

/// Whatever is encoded, what comes out cannot change the parts of an address.
pub proof fn law_encoded_text_is_harmless(b: Seq<u8>, form: bool, i: int)
    requires
        0 <= i < encoded(b, form).len(),
    ensures
        harmless(encoded(b, form)[i]),
    decreases b.len(),
{
    let front = encoded(b.drop_last(), form);
    let tail = encoded_byte(b.last(), form);
    if i < front.len() {
        law_encoded_text_is_harmless(b.drop_last(), form, i);
    } else {
        let c = tail[i - front.len()];
        let x = b.last();
        if plain(x) {
            assert(plain(x) && c == x as char);
        } else if !(form && x == 32) && c != '%' {
            let d: int = if i - front.len() == 1 {
                x as int / 16
            } else {
                x as int % 16
            };
            assert(c == hex(d));
            let y: u8 = if d < 10 {
                (0x30 + d) as u8
            } else {
                (0x37 + d) as u8
            };
            assert(plain(y) && c == y as char);
        }
    }
}

/// The sixteen digits that bytes are written with.
pub open spec fn sixteen() -> Seq<char> {
    "0123456789ABCDEF"@
}

proof fn lemma_hex_is_sixteen(d: int)
    requires
        0 <= d < 16,
    ensures
        hex(d) == sixteen()[d],
{
    reveal_strlit("0123456789ABCDEF");
    let s = sixteen();
    assert(s[0] == '0' && s[1] == '1' && s[2] == '2' && s[3] == '3' && s[4] == '4');
    assert(s[5] == '5' && s[6] == '6' && s[7] == '7' && s[8] == '8' && s[9] == '9');
    assert(s[10] == 'A' && s[11] == 'B' && s[12] == 'C' && s[13] == 'D' && s[14] == 'E');
    assert(s[15] == 'F');
}

/// Text in an address: letters, digits and four signs stand for themselves, a blank of
/// a form is a plus, and every other byte is a percent sign and its two digits to the
/// base sixteen. Each byte is written by itself, in its place.
pub proof fn law_bytes_are_escaped(a: Seq<u8>, b: Seq<u8>, x: u8, form: bool)
    ensures
        encoded(a + b, form) == encoded(a, form) + encoded(b, form),
        ('a' as u8 <= x <= 'z' as u8 || 'A' as u8 <= x <= 'Z' as u8 || '0' as u8 <= x <= '9' as u8
            || x == '-' as u8 || x == '_' as u8 || x == '.' as u8 || x == '~' as u8) ==> encoded(
            seq![x],
            form,
        ) == seq![x as char],
        encoded(seq![0x20u8], true) == seq!['+'],
        encoded(seq![0x20u8], false) == seq!['%', '2', '0'],
        !plain(x) && !(form && x == 0x20) ==> encoded(seq![x], form) == seq![
            '%',
            sixteen()[x as int / 16],
            sixteen()[x as int % 16],
        ],
        encoded(Seq::empty(), form).len() == 0,
    decreases b.len(),
{
    lemma_hex_is_sixteen(x as int / 16);
    lemma_hex_is_sixteen(x as int % 16);
    lemma_one_byte(x, form);
    lemma_one_byte(0x20, true);
    lemma_one_byte(0x20, false);
    if b.len() == 0 {
        assert(a + b =~= a);
        assert(encoded(a, form) + encoded(b, form) =~= encoded(a, form));
    } else {
        law_bytes_are_escaped(a, b.drop_last(), x, form);
        assert((a + b).drop_last() =~= a + b.drop_last());
        assert((a + b).last() == b.last());
        assert(encoded(a + b, form) =~= encoded(a, form) + encoded(b, form));
    }
}

proof fn lemma_one_byte(x: u8, form: bool)
    ensures
        encoded(seq![x], form) == encoded_byte(x, form),
{
    reveal_with_fuel(encoded, 2);
    assert(seq![x].drop_last() =~= Seq::<u8>::empty());
    assert(encoded(seq![x], form) =~= encoded_byte(x, form));
}

/// The body of a success is handed on whole when it fits, and refused when it does
/// not; whatever else has happened is an error that says what it was.
pub proof fn law_body_is_whole_or_refused(o: Outcome, cap: nat)
    ensures
        body_of(o, cap as int) is Ok <==> o is Body && o->Body_0@.len() <= cap,
        body_of(o, cap as int) is Ok ==> body_of(o, cap as int)->Ok_0 == o->Body_0@,
        o is Body && o->Body_0@.len() > cap ==> body_of(o, cap as int)->Err_0
            == ErrorView::AgentFailed(
            "upstream body too large: "@ + text::digits(o->Body_0@.len()) + " bytes (cap "@
                + text::digits(cap) + ")"@,
        ),
        o is ConnectFailed ==> body_of(o, cap as int)->Err_0 == ErrorView::AgentFailed(
            "upstream connect/read failed: "@ + o->ConnectFailed_0@,
        ),
        o is ReadFailed ==> body_of(o, cap as int)->Err_0 == ErrorView::AgentFailed(
            "read body: "@ + o->ReadFailed_0@,
        ),
        o is Refused ==> {
            &&& body_of(o, cap as int)->Err_0 is Upstream
            &&& body_of(o, cap as int)->Err_0->status == o->status
            &&& text::utf8(o->body@).len() <= 2048 ==> body_of(o, cap as int)->Err_0->body
                == o->body@
        },
{
    if o is Refused && text::utf8(o->body@).len() <= 2048 {
        law_short_text_is_kept(o->body@, 2048);
    }
}

} // verus!
