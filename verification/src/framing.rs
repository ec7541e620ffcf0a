//! Wire framing: every frame is one JSON object on one line.  Outbound,
//! each message is rendered here, field by field, into exactly the line
//! its contract states.  Inbound, a receiver routes a raw line by
//! scanning it for its discriminator substring — `"PaymentCapture"`,
//! `"OrderPrep"`, ..., or one of the flavour names for a ring token.
//! Unknown lines are dropped by the caller.
use vstd::prelude::*;

use crate::messages::{
    Disconnect, DisconnectV, Flavour, FlavourV, OrderPrep, OrderPrepV, OrderRequest,
    OrderRequestV, PaymentCapture, PaymentCaptureV, PaymentConfirmation, PaymentConfirmationV,
};
use crate::robot::AMOUNT_SCALE;
use crate::text::{dec_digit, dec_rep, digit_str, fmt_u64, fmt_usize};

verus! {

/// True when `sub` occurs contiguously somewhere in `s`.
pub open spec fn has_substring(s: Seq<char>, sub: Seq<char>) -> bool {
    exists|i: int| 0 <= i <= s.len() - sub.len() && #[trigger] s.subrange(i, i + sub.len()) == sub
}

/// True when `pat` occurs in `line` starting at `i`.
fn matches_at(line: &str, line_len: usize, i: usize, pat: &str, pat_len: usize) -> (r: bool)
    requires
        line_len == line@.len(),
        pat_len == pat@.len(),
        i + pat_len <= line_len,
    ensures
        r == (line@.subrange(i as int, i + pat@.len()) == pat@),
{
    let mut j: usize = 0;
    while j < pat_len
        invariant
            line_len == line@.len(),
            pat_len == pat@.len(),
            i + pat_len <= line_len,
            j <= pat_len,
            forall|k: int| 0 <= k < j ==> line@[i + k] == pat@[k],
        decreases pat_len - j,
    {
        if line.get_char(i + j) != pat.get_char(j) {
            proof {
                assert(line@.subrange(i as int, i + pat@.len())[j as int] != pat@[j as int]);
            }
            return false;
        }
        j = j + 1;
    }
    proof {
        assert(line@.subrange(i as int, i + pat@.len()) =~= pat@);
    }
    true
}

/// Scans `line` for the substring `pat`.
pub fn contains_sub(line: &str, pat: &str) -> (r: bool)
    ensures
        r == has_substring(line@, pat@),
{
    let line_len = line.unicode_len();
    let pat_len = pat.unicode_len();
    if pat_len > line_len {
        return false;
    }
    if pat_len == 0 {
        proof {
            assert(line@.subrange(0, 0 + pat@.len() as int) =~= pat@);
            assert(has_substring(line@, pat@));
        }
        return true;
    }
    let mut i: usize = 0;
    while i <= line_len - pat_len
        invariant
            line_len == line@.len(),
            pat_len == pat@.len(),
            0 < pat_len <= line_len,
            i <= line_len - pat_len + 1,
            forall|k: int| 0 <= k < i ==> #[trigger] line@.subrange(k, k + pat@.len()) != pat@,
        decreases line_len - i,
    {
        if matches_at(line, line_len, i, pat, pat_len) {
            return true;
        }
        i = i + 1;
    }
    false
}

/// A string a JSON frame can carry verbatim: no quote, no backslash (so
/// no escaping is ever needed) and no newline (which would end the
/// frame).  Every address, id and flavour name of the protocol is one.
pub open spec fn wire_text(s: Seq<char>) -> bool {
    forall|i: int| 0 <= i < s.len() ==> s[i] != '"' && s[i] != '\\' && s[i] != '\n'
}

/// Checks that `s` can travel verbatim inside a JSON frame.
pub fn is_wire_text(s: &str) -> (r: bool)
    ensures
        r == wire_text(s@),
{
    let n = s.unicode_len();
    let mut i: usize = 0;
    while i < n
        invariant
            n == s@.len(),
            i <= n,
            forall|k: int| 0 <= k < i ==> s@[k] != '"' && s@[k] != '\\' && s@[k] != '\n',
        decreases n - i,
    {
        let c = s.get_char(i);
        if c == '"' || c == '\\' || c == '\n' {
            return false;
        }
        i = i + 1;
    }
    true
}

/// `s` as a JSON string token: the text between two quotes.
pub open spec fn quoted(s: Seq<char>) -> Seq<char> {
    "\""@ + s + "\""@
}

/// A JSON array of strings, in order.
pub open spec fn quoted_list(items: Seq<Seq<char>>) -> Seq<char>
    decreases items.len(),
{
    if items.len() == 0 {
        Seq::<char>::empty()
    } else if items.len() == 1 {
        quoted(items[0])
    } else {
        quoted_list(items.drop_last()) + ","@ + quoted(items.last())
    }
}

/// A token amount on the wire: whole units, with up to three decimals for
/// the thousandths, trailing zeros trimmed.
pub open spec fn amount_rep(n: nat) -> Seq<char> {
    let r = n % (AMOUNT_SCALE as nat);
    if r == 0 {
        dec_rep(n / (AMOUNT_SCALE as nat))
    } else {
        dec_rep(n / (AMOUNT_SCALE as nat)) + "."@ + frac_rep(r)
    }
}

/// The decimals of a thousandths remainder, trailing zeros trimmed.
pub open spec fn frac_rep(r: nat) -> Seq<char>
    recommends
        0 < r < 1000,
{
    if r % 100 == 0 {
        seq![dec_digit(r / 100)]
    } else if r % 10 == 0 {
        seq![dec_digit(r / 100), dec_digit((r / 10) % 10)]
    } else {
        seq![dec_digit(r / 100), dec_digit((r / 10) % 10), dec_digit(r % 10)]
    }
}

/// Renders a token amount held in thousandths.
pub fn fmt_amount(n: u64) -> (s: String)
    ensures
        s@ == amount_rep(n as nat),
{
    let mut s = fmt_u64(n / AMOUNT_SCALE);
    let r = n % AMOUNT_SCALE;
    if r != 0 {
        s.append(".");
        if r % 100 == 0 {
            s.append(digit_str(r / 100));
        } else if r % 10 == 0 {
            s.append(digit_str(r / 100));
            s.append(digit_str((r / 10) % 10));
        } else {
            s.append(digit_str(r / 100));
            s.append(digit_str((r / 10) % 10));
            s.append(digit_str(r % 10));
        }
        proof {
            assert(s@ =~= amount_rep(n as nat));
        }
    }
    s
}

/// The line that carries a `Disconnect`.
pub open spec fn disconnect_json(d: DisconnectV) -> Seq<char> {
    "{\"message\":"@ + quoted(d.message) + ",\"ip\":"@ + quoted(d.ip) + ",\"id\":"@ + quoted(d.id)
        + "}"@
}

/// The line that carries an `OrderRequest`.
pub open spec fn order_request_json(r: OrderRequestV) -> Seq<char> {
    "{\"message\":"@ + quoted(r.message) + ",\"ip\":"@ + quoted(r.ip) + ",\"id\":"@ + dec_rep(
        r.id as nat,
    ) + "}"@
}

/// The line that carries a `PaymentCapture`.
pub open spec fn payment_capture_json(c: PaymentCaptureV) -> Seq<char> {
    "{\"message\":"@ + quoted(c.message) + ",\"ip\":"@ + quoted(c.ip) + ",\"id\":"@ + quoted(c.id)
        + ",\"valid\":"@ + (if c.valid { "true"@ } else { "false"@ }) + "}"@
}

/// The line that carries an `OrderPrep`.
pub open spec fn order_prep_json(o: OrderPrepV) -> Seq<char> {
    "{\"message\":"@ + quoted(o.message) + ",\"ip\":"@ + quoted(o.ip) + ",\"id\":"@ + dec_rep(
        o.id as nat,
    ) + ",\"size\":"@ + dec_rep(o.size as nat) + ",\"flavours\":["@ + quoted_list(o.flavours)
        + "],\"fail_flag\":"@ + dec_rep(o.fail_flag as nat) + "}"@
}

/// The line that carries a `PaymentConfirmation`.
pub open spec fn payment_confirmation_json(c: PaymentConfirmationV) -> Seq<char> {
    "{\"message\":"@ + quoted(c.message) + ",\"ip\":"@ + quoted(c.ip) + ",\"id\":"@ + quoted(c.id)
        + ",\"order_data\":"@ + order_prep_json(c.order_data) + "}"@
}

/// The line that carries a ring token.
pub open spec fn flavour_json(f: FlavourV) -> Seq<char> {
    "{\"name\":"@ + quoted(f.name) + ",\"amount\":"@ + amount_rep(f.amount as nat) + "}"@
}

/// All string fields of an `OrderPrep` can travel verbatim.
pub open spec fn wire_prep(o: OrderPrepV) -> bool {
    &&& wire_text(o.message)
    &&& wire_text(o.ip)
    &&& forall|i: int| 0 <= i < o.flavours.len() ==> wire_text(#[trigger] o.flavours[i])
}

fn append_quoted(s: &mut String, field: &str)
    ensures
        final(s)@ == old(s)@ + quoted(field@),
{
    s.append("\"");
    s.append(field);
    s.append("\"");
    proof {
        assert(s@ =~= old(s)@ + quoted(field@));
    }
}

/// Checks that every flavour name can travel verbatim.
fn all_wire_text(items: &Vec<String>) -> (r: bool)
    ensures
        r == (forall|i: int|
            0 <= i < items.deep_view().len() ==> wire_text(#[trigger] items.deep_view()[i])),
{
    let mut i: usize = 0;
    while i < items.len()
        invariant
            i <= items.deep_view().len(),
            forall|k: int| 0 <= k < i ==> wire_text(#[trigger] items.deep_view()[k]),
        decreases items.deep_view().len() - i,
    {
        proof {
            assert(items.deep_view()[i as int] == items@[i as int]@);
        }
        if !is_wire_text(items[i].as_str()) {
            return false;
        }
        i = i + 1;
    }
    true
}

fn append_quoted_list(s: &mut String, items: &Vec<String>)
    ensures
        final(s)@ == old(s)@ + quoted_list(items.deep_view()),
{
    let mut i: usize = 0;
    while i < items.len()
        invariant
            i <= items.deep_view().len(),
            s@ == old(s)@ + quoted_list(items.deep_view().subrange(0, i as int)),
        decreases items.deep_view().len() - i,
    {
        if i > 0 {
            s.append(",");
        }
        proof {
            assert(items.deep_view()[i as int] == items@[i as int]@);
        }
        append_quoted(s, items[i].as_str());
        proof {
            let pre = items.deep_view().subrange(0, i as int);
            let cur = items.deep_view().subrange(0, (i + 1) as int);
            assert(cur.drop_last() =~= pre);
            assert(cur.last() == items.deep_view()[i as int]);
            assert(s@ =~= old(s)@ + quoted_list(cur));
        }
        i = i + 1;
    }
    proof {
        assert(items.deep_view().subrange(0, items.deep_view().len() as int) =~= items.deep_view());
    }
}

/// Renders a `Disconnect` as its wire line; refused when a field cannot
/// travel verbatim.
pub fn encode_disconnect(d: &Disconnect) -> (r: Option<String>)
    ensures
        match r {
            Some(line) => wire_text(d@.message) && wire_text(d@.ip) && wire_text(d@.id) && line@
                == disconnect_json(d@),
            None => !(wire_text(d@.message) && wire_text(d@.ip) && wire_text(d@.id)),
        },
{
    if !is_wire_text(d.message.as_str()) || !is_wire_text(d.ip.as_str()) || !is_wire_text(
        d.id.as_str(),
    ) {
        return None;
    }
    let mut s = String::from_str("{\"message\":");
    append_quoted(&mut s, d.message.as_str());
    s.append(",\"ip\":");
    append_quoted(&mut s, d.ip.as_str());
    s.append(",\"id\":");
    append_quoted(&mut s, d.id.as_str());
    s.append("}");
    proof {
        assert(s@ =~= disconnect_json(d@));
    }
    Some(s)
}

/// Renders an `OrderRequest` as its wire line.
pub fn encode_order_request(req: &OrderRequest) -> (r: Option<String>)
    ensures
        match r {
            Some(line) => wire_text(req@.message) && wire_text(req@.ip) && line@
                == order_request_json(req@),
            None => !(wire_text(req@.message) && wire_text(req@.ip)),
        },
{
    if !is_wire_text(req.message.as_str()) || !is_wire_text(req.ip.as_str()) {
        return None;
    }
    let mut s = String::from_str("{\"message\":");
    append_quoted(&mut s, req.message.as_str());
    s.append(",\"ip\":");
    append_quoted(&mut s, req.ip.as_str());
    s.append(",\"id\":");
    let id_str = fmt_usize(req.id);
    s.append(id_str.as_str());
    s.append("}");
    proof {
        assert(s@ =~= order_request_json(req@));
    }
    Some(s)
}

/// Renders a `PaymentCapture` as its wire line.
pub fn encode_payment_capture(c: &PaymentCapture) -> (r: Option<String>)
    ensures
        match r {
            Some(line) => wire_text(c@.message) && wire_text(c@.ip) && wire_text(c@.id) && line@
                == payment_capture_json(c@),
            None => !(wire_text(c@.message) && wire_text(c@.ip) && wire_text(c@.id)),
        },
{
    if !is_wire_text(c.message.as_str()) || !is_wire_text(c.ip.as_str()) || !is_wire_text(
        c.id.as_str(),
    ) {
        return None;
    }
    let mut s = String::from_str("{\"message\":");
    append_quoted(&mut s, c.message.as_str());
    s.append(",\"ip\":");
    append_quoted(&mut s, c.ip.as_str());
    s.append(",\"id\":");
    append_quoted(&mut s, c.id.as_str());
    s.append(",\"valid\":");
    if c.valid {
        s.append("true");
    } else {
        s.append("false");
    }
    s.append("}");
    proof {
        assert(s@ =~= payment_capture_json(c@));
    }
    Some(s)
}

/// Renders an `OrderPrep` as its wire line.
pub fn encode_order_prep(o: &OrderPrep) -> (r: Option<String>)
    ensures
        match r {
            Some(line) => wire_prep(o@) && line@ == order_prep_json(o@),
            None => !wire_prep(o@),
        },
{
    if !is_wire_text(o.message.as_str()) || !is_wire_text(o.ip.as_str()) || !all_wire_text(
        &o.flavours,
    ) {
        return None;
    }
    let mut s = String::from_str("{\"message\":");
    append_quoted(&mut s, o.message.as_str());
    s.append(",\"ip\":");
    append_quoted(&mut s, o.ip.as_str());
    s.append(",\"id\":");
    let id_str = fmt_usize(o.id);
    s.append(id_str.as_str());
    s.append(",\"size\":");
    let size_str = fmt_usize(o.size);
    s.append(size_str.as_str());
    s.append(",\"flavours\":[");
    append_quoted_list(&mut s, &o.flavours);
    s.append("],\"fail_flag\":");
    let flag_str = fmt_usize(o.fail_flag);
    s.append(flag_str.as_str());
    s.append("}");
    proof {
        assert(s@ =~= order_prep_json(o@));
    }
    Some(s)
}

/// Renders a `PaymentConfirmation` as its wire line.
pub fn encode_payment_confirmation(c: &PaymentConfirmation) -> (r: Option<String>)
    ensures
        match r {
            Some(line) => wire_text(c@.message) && wire_text(c@.ip) && wire_text(c@.id)
                && wire_prep(c@.order_data) && line@ == payment_confirmation_json(c@),
            None => !(wire_text(c@.message) && wire_text(c@.ip) && wire_text(c@.id) && wire_prep(
                c@.order_data,
            )),
        },
{
    if !is_wire_text(c.message.as_str()) || !is_wire_text(c.ip.as_str()) || !is_wire_text(
        c.id.as_str(),
    ) {
        return None;
    }
    let order_line = match encode_order_prep(&c.order_data) {
        Some(line) => line,
        None => {
            return None;
        },
    };
    let mut s = String::from_str("{\"message\":");
    append_quoted(&mut s, c.message.as_str());
    s.append(",\"ip\":");
    append_quoted(&mut s, c.ip.as_str());
    s.append(",\"id\":");
    append_quoted(&mut s, c.id.as_str());
    s.append(",\"order_data\":");
    s.append(order_line.as_str());
    s.append("}");
    proof {
        assert(s@ =~= payment_confirmation_json(c@));
    }
    Some(s)
}

/// Renders a ring token as its wire line.
pub fn encode_flavour(f: &Flavour) -> (r: Option<String>)
    ensures
        match r {
            Some(line) => wire_text(f@.name) && line@ == flavour_json(f@),
            None => !wire_text(f@.name),
        },
{
    if !is_wire_text(f.name.as_str()) {
        return None;
    }
    let mut s = String::from_str("{\"name\":");
    append_quoted(&mut s, f.name.as_str());
    s.append(",\"amount\":");
    let amount_str = fmt_amount(f.amount);
    s.append(amount_str.as_str());
    s.append("}");
    proof {
        assert(s@ =~= flavour_json(f@));
    }
    Some(s)
}

/// What kind of frame a line carries, by its discriminator.
#[derive(Clone, Copy, PartialEq, Eq, Structural, Debug)]
pub enum FrameKind {
    Capture,
    Confirmation,
    Disconnect,
    Request,
    Prep,
    Token,
    Unknown,
}

/// The dispatch order of the receivers: payment frames first, then ring
/// control, then orders, then the flavour names; anything else is unknown.
pub open spec fn frame_kind_of(line: Seq<char>) -> FrameKind {
    if has_substring(line, "\"PaymentCapture\""@) {
        FrameKind::Capture
    } else if has_substring(line, "\"PaymentConfirmation\""@) {
        FrameKind::Confirmation
    } else if has_substring(line, "\"Disconnect\""@) {
        FrameKind::Disconnect
    } else if has_substring(line, "\"OrderRequest\""@) {
        FrameKind::Request
    } else if has_substring(line, "\"OrderPrep\""@) {
        FrameKind::Prep
    } else if has_substring(line, "\"Vainilla\""@) || has_substring(
        line,
        "\"Dulce de leche\""@,
    ) || has_substring(line, "\"Tramontana\""@) {
        FrameKind::Token
    } else {
        FrameKind::Unknown
    }
}

/// Routes one raw line by its discriminator substring.
pub fn classify_line(line: &str) -> (k: FrameKind)
    ensures
        k == frame_kind_of(line@),
{
    if contains_sub(line, "\"PaymentCapture\"") {
        FrameKind::Capture
    } else if contains_sub(line, "\"PaymentConfirmation\"") {
        FrameKind::Confirmation
    } else if contains_sub(line, "\"Disconnect\"") {
        FrameKind::Disconnect
    } else if contains_sub(line, "\"OrderRequest\"") {
        FrameKind::Request
    } else if contains_sub(line, "\"OrderPrep\"") {
        FrameKind::Prep
    } else if contains_sub(line, "\"Vainilla\"") || contains_sub(line, "\"Dulce de leche\"")
        || contains_sub(line, "\"Tramontana\"") {
        FrameKind::Token
    } else {
        FrameKind::Unknown
    }
}

} // verus!
