//! The hub's line protocol: frames parsed from the bytes the hub sends, and the
//! lines the client writes back.
use vstd::prelude::*;
use vstd::string::StrSliceExecFns;
use vstd::string::StringSliceAdditionalSpecFns;
use crate::remote_config::{
    action_of_code, button_of_code, code_of_action, code_of_button, ButtonAction, ButtonId,
    RemoteId,
};

verus! {

/// A frame sent by the hub.
#[derive(Debug, Clone, Copy, PartialEq, Eq, Structural)]
pub enum Message {
    ButtonEvent { remote_id: RemoteId, button_id: ButtonId, button_action: ButtonAction },
    LoggedIn,
    LoginPrompt,
    PasswordPrompt,
}

/// Why a line is not a frame.
#[derive(Debug, Clone, Copy, PartialEq, Eq, Structural)]
pub enum FrameError {
    /// The line starts with none of the known prefixes.
    UnrecognizedLine,
    /// A device line with fewer than four comma-separated fields.
    MissingField,
    /// A device field that is not a base-10 integer of at most 255.
    InvalidNumber,
    /// A device line whose button code names no button.
    UnknownButton(u8),
    /// A device line whose action code names no action.
    UnknownAction(u8),
}

pub open spec fn is_space(b: u8) -> bool {
    b == 32 || b == 9 || b == 10 || b == 11 || b == 12 || b == 13
}

pub open spec fn is_digit(b: u8) -> bool {
    48 <= b <= 57
}

/// "login: "
pub open spec fn login_prefix() -> Seq<u8> {
    seq![108u8, 111, 103, 105, 110, 58, 32]
}

/// "password: "
pub open spec fn password_prefix() -> Seq<u8> {
    seq![112u8, 97, 115, 115, 119, 111, 114, 100, 58, 32]
}

/// "GNET>"
pub open spec fn prompt_prefix() -> Seq<u8> {
    seq![71u8, 78, 69, 84, 62]
}

/// "~DEVICE,"
pub open spec fn device_prefix() -> Seq<u8> {
    seq![126u8, 68, 69, 86, 73, 67, 69, 44]
}

/// Index of the first byte at or after `i` that is not white space.
pub open spec fn skip_space(s: Seq<u8>, i: int) -> int
    decreases s.len() - i,
{
    if 0 <= i < s.len() && is_space(s[i]) {
        skip_space(s, i + 1)
    } else {
        i
    }
}

/// End of `s[..j]` once trailing white space is dropped.
pub open spec fn trim_end(s: Seq<u8>, j: int) -> int
    decreases j,
{
    if 0 < j <= s.len() && is_space(s[j - 1]) {
        trim_end(s, j - 1)
    } else {
        j
    }
}

/// Whether `p` occurs in `s` at index `at`.
pub open spec fn occurs_at(s: Seq<u8>, at: int, p: Seq<u8>) -> bool {
    0 <= at && at + p.len() <= s.len() && s.subrange(at, at + p.len()) == p
}

/// End of the comma-separated field starting at `i`, before `end`.
pub open spec fn field_end(s: Seq<u8>, i: int, end: int) -> int
    decreases end - i,
{
    if i < end && s[i] != 44u8 {
        field_end(s, i + 1, end)
    } else {
        i
    }
}

/// Value of a sequence of decimal digits.
pub open spec fn decimal_value(d: Seq<u8>) -> nat
    decreases d.len(),
{
    if d.len() == 0 {
        0
    } else {
        decimal_value(d.drop_last()) * 10 + (d.last() - 48) as nat
    }
}

/// The number a device field holds: one or more decimal digits, at most 255.
pub open spec fn field_number(d: Seq<u8>) -> Option<u8> {
    if d.len() > 0 && (forall|k: int| 0 <= k < d.len() ==> is_digit(#[trigger] d[k]))
        && decimal_value(d) <= 255 {
        Some(decimal_value(d) as u8)
    } else {
        None
    }
}

/// The three numbers of a device line whose fields run from `i` to `end`.
pub open spec fn device_fields(s: Seq<u8>, i: int, end: int) -> Result<(u8, u8, u8), FrameError> {
    let e1 = field_end(s, i, end);
    let e2 = field_end(s, e1 + 1, end);
    let e3 = field_end(s, e2 + 1, end);
    if e1 >= end || e2 >= end {
        Err(FrameError::MissingField)
    } else {
        match (
            field_number(s.subrange(i, e1)),
            field_number(s.subrange(e1 + 1, e2)),
            field_number(s.subrange(e2 + 1, e3)),
        ) {
            (Some(r), Some(b), Some(a)) => Ok((r, b, a)),
            _ => Err(FrameError::InvalidNumber),
        }
    }
}

/// The event a device line names, from its three numbers.
pub open spec fn device_event(f: (u8, u8, u8)) -> Result<Message, FrameError> {
    match button_of_code(f.1) {
        None => Err(FrameError::UnknownButton(f.1)),
        Some(b) => match action_of_code(f.2) {
            None => Err(FrameError::UnknownAction(f.2)),
            Some(a) => Ok(Message::ButtonEvent { remote_id: f.0, button_id: b, button_action: a }),
        },
    }
}

/// The frame that one line holds. Leading white space is skipped before the
/// prefixes are matched; a device line's fields end before trailing white space.
pub open spec fn parse_line_spec(s: Seq<u8>) -> Result<Message, FrameError> {
    let st = skip_space(s, 0);
    if occurs_at(s, st, login_prefix()) {
        Ok(Message::LoginPrompt)
    } else if occurs_at(s, st, password_prefix()) {
        Ok(Message::PasswordPrompt)
    } else if occurs_at(s, st, prompt_prefix()) {
        Ok(Message::LoggedIn)
    } else if occurs_at(s, st, device_prefix()) {
        match device_fields(s, st + 8, trim_end(s, s.len() as int)) {
            Err(e) => Err(e),
            Ok(f) => device_event(f),
        }
    } else {
        Err(FrameError::UnrecognizedLine)
    }
}

proof fn lemma_skip_space_bounds(s: Seq<u8>, i: int)
    requires
        0 <= i <= s.len(),
    ensures
        i <= skip_space(s, i) <= s.len(),
    decreases s.len() - i,
{
    if i < s.len() && is_space(s[i]) {
        lemma_skip_space_bounds(s, i + 1);
    }
}

proof fn lemma_trim_end_bounds(s: Seq<u8>, j: int)
    requires
        0 <= j <= s.len(),
    ensures
        0 <= trim_end(s, j) <= j,
    decreases j,
{
    if 0 < j && is_space(s[j - 1]) {
        lemma_trim_end_bounds(s, j - 1);
    }
}

proof fn lemma_field_end_bounds(s: Seq<u8>, i: int, end: int)
    requires
        0 <= i,
        end <= s.len(),
    ensures
        i <= end ==> i <= field_end(s, i, end) <= end,
        i > end ==> field_end(s, i, end) == i,
    decreases end - i,
{
    if i < end && s[i] != 44u8 {
        lemma_field_end_bounds(s, i + 1, end);
    }
}

/// Whether `p` occurs in `s` at index `at`.
fn occurs(s: &[u8], at: usize, p: &[u8]) -> (r: bool)
    ensures
        r == occurs_at(s@, at as int, p@),
{
    if at > s.len() || p.len() > s.len() - at {
        return false;
    }
    let n = s.len();
    let mut k: usize = 0;
    while k < p.len()
        invariant
            n == s@.len(),
            at + p@.len() <= n,
            k <= p@.len(),
            forall|m: int| 0 <= m < k ==> s@[at + m] == p@[m],
        decreases p@.len() - k,
    {
        if s[at + k] != p[k] {
            assert(s@.subrange(at as int, at + p@.len())[k as int] != p@[k as int]);
            return false;
        }
        k = k + 1;
    }
    assert(s@.subrange(at as int, at + p@.len()) =~= p@);
    true
}

fn is_space_byte(b: u8) -> (r: bool)
    ensures
        r == is_space(b),
{
    b == 32 || b == 9 || b == 10 || b == 11 || b == 12 || b == 13
}

/// Index of the first byte at or after `i` that is not white space.
fn skip_space_from(s: &[u8], i: usize) -> (r: usize)
    requires
        i <= s@.len(),
    ensures
        r as int == skip_space(s@, i as int),
        i <= r <= s@.len(),
{
    let mut j = i;
    while j < s.len() && is_space_byte(s[j])
        invariant
            i <= j <= s@.len(),
            skip_space(s@, j as int) == skip_space(s@, i as int),
        decreases s@.len() - j,
    {
        j = j + 1;
    }
    j
}

/// End of `s` once trailing white space is dropped.
fn trim_end_of(s: &[u8]) -> (r: usize)
    ensures
        r as int == trim_end(s@, s@.len() as int),
        r <= s@.len(),
{
    let mut j = s.len();
    while j > 0 && is_space_byte(s[j - 1])
        invariant
            j <= s@.len(),
            trim_end(s@, j as int) == trim_end(s@, s@.len() as int),
        decreases j,
    {
        j = j - 1;
    }
    j
}

/// End of the comma-separated field starting at `i`, before `end`.
fn field_end_of(s: &[u8], i: usize, end: usize) -> (r: usize)
    requires
        i <= end <= s@.len(),
    ensures
        r as int == field_end(s@, i as int, end as int),
        i <= r <= end,
{
    let mut j = i;
    while j < end && s[j] != 44u8
        invariant
            i <= j <= end,
            end <= s@.len(),
            field_end(s@, j as int, end as int) == field_end(s@, i as int, end as int),
        decreases end - j,
    {
        j = j + 1;
    }
    j
}

/// The number held by `s[from..to]`, read as a device field.
fn read_number(s: &[u8], from: usize, to: usize) -> (r: Option<u8>)
    requires
        from <= to <= s@.len(),
    ensures
        r == field_number(s@.subrange(from as int, to as int)),
{
    let ghost d = s@.subrange(from as int, to as int);
    if from == to {
        return None;
    }
    let mut acc: u32 = 0;
    let mut k = from;
    while k < to
        invariant
            from <= k <= to <= s@.len(),
            d == s@.subrange(from as int, to as int),
            forall|m: int| 0 <= m < k - from ==> is_digit(#[trigger] d[m]),
            acc as nat == if decimal_value(d.subrange(0, k - from)) < 256 {
                decimal_value(d.subrange(0, k - from))
            } else {
                256
            },
        decreases to - k,
    {
        let b = s[k];
        if b < 48 || b > 57 {
            assert(!is_digit(d[k - from]));
            return None;
        }
        let ghost prev = d.subrange(0, k - from);
        let ghost next = d.subrange(0, k + 1 - from);
        assert(next.drop_last() =~= prev);
        assert(next.last() == b);
        let ghost v = decimal_value(prev);
        assert(decimal_value(next) == v * 10 + (b - 48) as nat);
        let nv = acc * 10 + (b - 48) as u32;
        if nv > 256 {
            acc = 256;
        } else {
            acc = nv;
        }
        assert(acc as nat == if decimal_value(next) < 256 { decimal_value(next) } else { 256 })
            by (nonlinear_arith)
            requires
                acc == if nv > 256 { 256 } else { nv },
                nv == (if v < 256 { v } else { 256 }) * 10 + (b - 48),
                decimal_value(next) == v * 10 + (b - 48) as nat,
                48 <= b <= 57,
        ;
        k = k + 1;
    }
    assert(d.subrange(0, to - from) =~= d);
    if acc > 255 {
        None
    } else {
        Some(acc as u8)
    }
}

/// The frame that one line holds.
pub fn parse_line(s: &[u8]) -> (r: Result<Message, FrameError>)
    ensures
        r == parse_line_spec(s@),
{
    let st = skip_space_from(s, 0);
    let login: [u8; 7] = [108, 111, 103, 105, 110, 58, 32];
    let password: [u8; 10] = [112, 97, 115, 115, 119, 111, 114, 100, 58, 32];
    let prompt: [u8; 5] = [71, 78, 69, 84, 62];
    let device: [u8; 8] = [126, 68, 69, 86, 73, 67, 69, 44];
    assert(login@ == login_prefix());
    assert(password@ == password_prefix());
    assert(prompt@ == prompt_prefix());
    assert(device@ == device_prefix());
    if occurs(s, st, &login) {
        Ok(Message::LoginPrompt)
    } else if occurs(s, st, &password) {
        Ok(Message::PasswordPrompt)
    } else if occurs(s, st, &prompt) {
        Ok(Message::LoggedIn)
    } else if occurs(s, st, &device) {
        let end = trim_end_of(s);
        let n = s.len();
        assert(st + 8 <= n);
        let i = st + 8;
        if i > end {
            proof {
                lemma_field_end_bounds(s@, i as int, end as int);
                lemma_field_end_bounds(s@, i + 1, end as int);
            }
            return Err(FrameError::MissingField);
        }
        let e1 = field_end_of(s, i, end);
        if e1 >= end {
            return Err(FrameError::MissingField);
        }
        let e2 = field_end_of(s, e1 + 1, end);
        if e2 >= end {
            return Err(FrameError::MissingField);
        }
        let e3 = field_end_of(s, e2 + 1, end);
        let remote = read_number(s, i, e1);
        let button = read_number(s, e1 + 1, e2);
        let action = read_number(s, e2 + 1, e3);
        match (remote, button, action) {
            (Some(r), Some(b), Some(a)) => match ButtonId::from_code(b) {
                None => Err(FrameError::UnknownButton(b)),
                Some(bid) => match ButtonAction::from_code(a) {
                    None => Err(FrameError::UnknownAction(a)),
                    Some(aid) => Ok(
                        Message::ButtonEvent { remote_id: r, button_id: bid, button_action: aid },
                    ),
                },
            },
            _ => Err(FrameError::InvalidNumber),
        }
    } else {
        Err(FrameError::UnrecognizedLine)
    }
}

/// Index of the first line feed at or after `i`, or the length of `s`.
pub open spec fn line_end(s: Seq<u8>, i: int) -> int
    decreases s.len() - i,
{
    if 0 <= i < s.len() && s[i] != 10u8 {
        line_end(s, i + 1)
    } else {
        i
    }
}

/// Whether a line holds nothing but white space.
pub open spec fn is_blank(l: Seq<u8>) -> bool {
    forall|k: int| 0 <= k < l.len() ==> is_space(#[trigger] l[k])
}

/// The frames of the lines of `s` from index `i` on: each line ends at a line
/// feed or at the end of `s`, and blank lines hold no frame.
pub open spec fn frames_from(s: Seq<u8>, i: int) -> Seq<Result<Message, FrameError>>
    decreases s.len() - i,
{
    if i < 0 || i >= s.len() {
        seq![]
    } else {
        let j = line_end(s, i);
        if j < i || j > s.len() {
            seq![]
        } else {
            let line = s.subrange(i, j);
            let head = if is_blank(line) {
                seq![]
            } else {
                seq![parse_line_spec(line)]
            };
            if j < s.len() {
                head + frames_from(s, j + 1)
            } else {
                head
            }
        }
    }
}

/// The frames that a buffer from the hub holds, in order.
pub open spec fn frames_of(s: Seq<u8>) -> Seq<Result<Message, FrameError>> {
    frames_from(s, 0)
}

/// Index of the first line feed at or after `i`, or the length of `s`.
fn line_end_of(s: &[u8], i: usize) -> (r: usize)
    requires
        i <= s@.len(),
    ensures
        r as int == line_end(s@, i as int),
        i <= r <= s@.len(),
{
    let mut j = i;
    while j < s.len() && s[j] != 10u8
        invariant
            i <= j <= s@.len(),
            line_end(s@, j as int) == line_end(s@, i as int),
        decreases s@.len() - j,
    {
        j = j + 1;
    }
    j
}

/// A copy of `s[from..to]`.
fn copy_range(s: &[u8], from: usize, to: usize) -> (r: Vec<u8>)
    requires
        from <= to <= s@.len(),
    ensures
        r@ == s@.subrange(from as int, to as int),
{
    let mut r: Vec<u8> = Vec::new();
    let mut k = from;
    while k < to
        invariant
            from <= k <= to <= s@.len(),
            r@ == s@.subrange(from as int, k as int),
        decreases to - k,
    {
        r.push(s[k]);
        assert(r@ =~= s@.subrange(from as int, k + 1));
        k = k + 1;
    }
    r
}

fn blank(l: &[u8]) -> (r: bool)
    ensures
        r == is_blank(l@),
{
    let mut k: usize = 0;
    while k < l.len()
        invariant
            k <= l@.len(),
            forall|m: int| 0 <= m < k ==> is_space(#[trigger] l@[m]),
        decreases l@.len() - k,
    {
        if !is_space_byte(l[k]) {
            return false;
        }
        k = k + 1;
    }
    true
}

/// The frames that a buffer from the hub holds, one for each line that is not
/// blank, in the order of the lines.
pub fn parse_buffer(s: &[u8]) -> (r: Vec<Result<Message, FrameError>>)
    ensures
        r@ == frames_of(s@),
{
    let mut out: Vec<Result<Message, FrameError>> = Vec::new();
    let mut i: usize = 0;
    while i < s.len()
        invariant
            i <= s@.len(),
            frames_from(s@, 0) == out@ + frames_from(s@, i as int),
        decreases s@.len() - i,
    {
        let j = line_end_of(s, i);
        let line = copy_range(s, i, j);
        let ghost before = out@;
        if !blank(line.as_slice()) {
            out.push(parse_line(line.as_slice()));
        }
        assert(frames_from(s@, i as int) == (if is_blank(line@) {
            seq![]
        } else {
            seq![parse_line_spec(line@)]
        }) + frames_from(s@, j + 1));
        assert(out@ =~= before + (if is_blank(line@) {
            seq![]
        } else {
            seq![parse_line_spec(line@)]
        }));
        if j >= s.len() {
            assert(frames_from(s@, j + 1) == Seq::<Result<Message, FrameError>>::empty());
            i = s.len();
        } else {
            i = j + 1;
        }
        assert(frames_from(s@, 0) =~= out@ + frames_from(s@, i as int));
    }
    assert(out@ =~= out@ + frames_from(s@, i as int));
    out
}

/// The decimal digits of `n`, most significant first, with no leading zero.
pub open spec fn decimal_digits(n: nat) -> Seq<u8>
    decreases n,
{
    if n < 10 {
        seq![(48 + n) as u8]
    } else {
        decimal_digits(n / 10).push((48 + n % 10) as u8)
    }
}

/// The line the hub sends for a button event: "~DEVICE,<remote>,<button>,<action>\r\n".
pub open spec fn device_line_spec(r: RemoteId, b: ButtonId, a: ButtonAction) -> Seq<u8> {
    device_prefix() + decimal_digits(r as nat) + seq![44u8] + decimal_digits(
        code_of_button(b) as nat,
    ) + seq![44u8] + decimal_digits(code_of_action(a) as nat) + seq![13u8, 10]
}

/// Appends the decimal digits of `n`.
fn push_decimal(out: &mut Vec<u8>, n: u8)
    ensures
        final(out)@ == old(out)@ + decimal_digits(n as nat),
{
    let ghost start = out@;
    if n >= 100 {
        out.push(48 + n / 100);
        out.push(48 + (n / 10) % 10);
        out.push(48 + n % 10);
        assert(decimal_digits((n / 100) as nat) == seq![(48 + n / 100) as u8]);
        assert(decimal_digits((n / 10) as nat) == decimal_digits((n / 100) as nat).push(
            (48 + (n / 10) % 10) as u8,
        ));
    } else if n >= 10 {
        out.push(48 + n / 10);
        out.push(48 + n % 10);
        assert(decimal_digits((n / 10) as nat) == seq![(48 + n / 10) as u8]);
    } else {
        out.push(48 + n);
    }
    assert(out@ =~= start + decimal_digits(n as nat));
}

/// Appends the bytes of `s`.
fn push_all(out: &mut Vec<u8>, s: &[u8])
    ensures
        final(out)@ == old(out)@ + s@,
{
    let ghost start = out@;
    let mut k: usize = 0;
    while k < s.len()
        invariant
            k <= s@.len(),
            out@ == start + s@.subrange(0, k as int),
        decreases s@.len() - k,
    {
        out.push(s[k]);
        assert(out@ =~= start + s@.subrange(0, k + 1));
        k = k + 1;
    }
    assert(s@.subrange(0, s@.len() as int) =~= s@);
}

/// The line the hub sends for a button event.
pub fn device_line(remote_id: RemoteId, button_id: ButtonId, button_action: ButtonAction) -> (r:
    Vec<u8>)
    ensures
        r@ == device_line_spec(remote_id, button_id, button_action),
{
    let device: [u8; 8] = [126, 68, 69, 86, 73, 67, 69, 44];
    let mut out: Vec<u8> = Vec::new();
    push_all(&mut out, &device);
    push_decimal(&mut out, remote_id);
    out.push(44);
    push_decimal(&mut out, button_id.code());
    out.push(44);
    push_decimal(&mut out, button_action.code());
    out.push(13);
    out.push(10);
    assert(out@ =~= device_line_spec(remote_id, button_id, button_action));
    out
}

/// A line the client writes: the given text followed by "\r\n". With empty text
/// this is the keep-alive line.
pub fn client_line(text: &[u8]) -> (r: Vec<u8>)
    ensures
        r@ == text@ + seq![13u8, 10],
{
    let mut out: Vec<u8> = Vec::new();
    push_all(&mut out, text);
    out.push(13);
    out.push(10);
    assert(out@ =~= text@ + seq![13u8, 10]);
    out
}

proof fn lemma_decimal_digits(n: nat)
    ensures
        decimal_digits(n).len() > 0,
        forall|k: int| 0 <= k < decimal_digits(n).len() ==> is_digit(#[trigger] decimal_digits(n)[k]),
        decimal_value(decimal_digits(n)) == n,
    decreases n,
{
    let d = decimal_digits(n);
    if n < 10 {
        assert(d.drop_last() =~= Seq::<u8>::empty());
        assert(d.last() as nat == 48 + n);
        assert(decimal_value(d) == decimal_value(d.drop_last()) * 10 + (d.last() - 48) as nat);
        assert(decimal_value(d.drop_last()) == 0);
    } else {
        lemma_decimal_digits(n / 10);
        assert(d.drop_last() =~= decimal_digits(n / 10));
        assert(d.last() as nat == 48 + n % 10);
        assert(decimal_value(d) == decimal_value(d.drop_last()) * 10 + (d.last() - 48) as nat);
        assert(decimal_value(d) == (n / 10) * 10 + n % 10);
        assert(n == (n / 10) * 10 + n % 10);
    }
}

proof fn lemma_field_end_at(s: Seq<u8>, i: int, m: int, end: int)
    requires
        0 <= i <= m <= end <= s.len(),
        forall|k: int| i <= k < m ==> s[k] != 44u8,
        m < end ==> s[m] == 44u8,
    ensures
        field_end(s, i, end) == m,
    decreases m - i,
{
    if i < m {
        lemma_field_end_at(s, i + 1, m, end);
    }
}

/// Every line that starts, after white space, with one of the three prompts
/// parses to that prompt's frame.
pub proof fn lemma_prompt_lines_parse(s: Seq<u8>)
    ensures
        occurs_at(s, skip_space(s, 0), login_prefix()) ==> parse_line_spec(s) == Ok::<
            Message,
            FrameError,
        >(Message::LoginPrompt),
        occurs_at(s, skip_space(s, 0), password_prefix()) ==> parse_line_spec(s) == Ok::<
            Message,
            FrameError,
        >(Message::PasswordPrompt),
        occurs_at(s, skip_space(s, 0), prompt_prefix()) ==> parse_line_spec(s) == Ok::<
            Message,
            FrameError,
        >(Message::LoggedIn),
{
    let st = skip_space(s, 0);
    if occurs_at(s, st, login_prefix()) && occurs_at(s, st, password_prefix()) {
        assert(s.subrange(st, st + 7)[0] == s[st]);
        assert(s.subrange(st, st + 10)[0] == s[st]);
    }
    if occurs_at(s, st, login_prefix()) && occurs_at(s, st, prompt_prefix()) {
        assert(s.subrange(st, st + 7)[0] == s[st]);
        assert(s.subrange(st, st + 5)[0] == s[st]);
    }
    if occurs_at(s, st, password_prefix()) && occurs_at(s, st, prompt_prefix()) {
        assert(s.subrange(st, st + 10)[0] == s[st]);
        assert(s.subrange(st, st + 5)[0] == s[st]);
    }
}

proof fn lemma_line_end_at(s: Seq<u8>, i: int, m: int)
    requires
        0 <= i <= m < s.len(),
        forall|k: int| i <= k < m ==> s[k] != 10u8,
        s[m] == 10u8,
    ensures
        line_end(s, i) == m,
    decreases m - i,
{
    if i < m {
        lemma_line_end_at(s, i + 1, m);
    }
}

/// A device line without its final line feed, or without its whole line end,
/// parses to its event.
proof fn lemma_device_line_prefix_parses(r: RemoteId, b: ButtonId, a: ButtonAction, m: int)
    requires
        device_line_spec(r, b, a).len() - 1 <= m <= device_line_spec(r, b, a).len(),
    ensures
        parse_line_spec(device_line_spec(r, b, a).subrange(0, m)) == Ok::<Message, FrameError>(
            Message::ButtonEvent { remote_id: r, button_id: b, button_action: a },
        ),
{
    let full = device_line_spec(r, b, a);
    let s = full.subrange(0, m);
    let dr = decimal_digits(r as nat);
    let db = decimal_digits(code_of_button(b) as nat);
    let da = decimal_digits(code_of_action(a) as nat);
    lemma_decimal_digits(r as nat);
    lemma_decimal_digits(code_of_button(b) as nat);
    lemma_decimal_digits(code_of_action(a) as nat);
    assert(db.len() == 1);
    assert(da.len() == 1);
    let e1: int = 8 + dr.len() as int;
    let e2: int = e1 + 2;
    let end: int = e2 + 2;
    assert(full.len() == end + 2);
    assert(s.len() == m);
    assert(full.subrange(0, 8) =~= device_prefix());
    assert(full.subrange(8, e1) =~= dr);
    assert(full.subrange(e1 + 1, e2) =~= db);
    assert(full.subrange(e2 + 1, end) =~= da);
    assert(s.subrange(0, 8) =~= full.subrange(0, 8));
    assert(s.subrange(8, e1) =~= full.subrange(8, e1));
    assert(s.subrange(e1 + 1, e2) =~= full.subrange(e1 + 1, e2));
    assert(s.subrange(e2 + 1, end) =~= full.subrange(e2 + 1, end));
    assert(s[e1] == 44u8);
    assert(s[e2] == 44u8);
    assert(s[end] == 13u8);
    assert(s[0] == 126u8);
    assert(skip_space(s, 0) == 0);
    assert(s.subrange(0, 7)[0] == s[0]);
    assert(s.subrange(0, 10)[0] == s[0]);
    assert(s.subrange(0, 5)[0] == s[0]);
    assert(!occurs_at(s, 0, login_prefix()));
    assert(!occurs_at(s, 0, password_prefix()));
    assert(!occurs_at(s, 0, prompt_prefix()));
    assert(occurs_at(s, 0, device_prefix()));
    assert(s[end - 1] == da[0]);
    assert(is_digit(da[0]));
    if m == end + 2 {
        assert(s[end + 1] == 10u8);
        assert(trim_end(s, m) == trim_end(s, end + 1));
    }
    assert(trim_end(s, end + 1) == trim_end(s, end));
    assert(trim_end(s, s.len() as int) == end);
    assert forall|k: int| 8 <= k < e1 implies s[k] != 44u8 by {
        assert(s[k] == s.subrange(8, e1)[k - 8]);
        assert(is_digit(dr[k - 8]));
    }
    lemma_field_end_at(s, 8, e1, end);
    assert(s[e1 + 1] == db[0]);
    assert(is_digit(db[0]));
    lemma_field_end_at(s, e1 + 1, e2, end);
    lemma_field_end_at(s, e2 + 1, end, end);
    assert(field_number(dr) == Some(r));
    assert(field_number(db) == Some(code_of_button(b)));
    assert(field_number(da) == Some(code_of_action(a)));
}

/// A device line built from an event parses back to that event.
pub proof fn lemma_device_line_round_trip(r: RemoteId, b: ButtonId, a: ButtonAction)
    ensures
        parse_line_spec(device_line_spec(r, b, a)) == Ok::<Message, FrameError>(
            Message::ButtonEvent { remote_id: r, button_id: b, button_action: a },
        ),
{
    let full = device_line_spec(r, b, a);
    lemma_device_line_prefix_parses(r, b, a, full.len() as int);
    assert(full.subrange(0, full.len() as int) =~= full);
}

/// A buffer holding one device line built from an event yields exactly that
/// event.
pub proof fn lemma_device_line_buffer_round_trip(r: RemoteId, b: ButtonId, a: ButtonAction)
    ensures
        frames_of(device_line_spec(r, b, a)) == seq![
            Ok::<Message, FrameError>(
                Message::ButtonEvent { remote_id: r, button_id: b, button_action: a },
            ),
        ],
{
    let s = device_line_spec(r, b, a);
    let n = s.len() as int;
    let dr = decimal_digits(r as nat);
    let db = decimal_digits(code_of_button(b) as nat);
    let da = decimal_digits(code_of_action(a) as nat);
    lemma_decimal_digits(r as nat);
    lemma_decimal_digits(code_of_button(b) as nat);
    lemma_decimal_digits(code_of_action(a) as nat);
    let e1: int = 8 + dr.len() as int;
    assert(db.len() == 1 && da.len() == 1);
    assert(n == e1 + 6);
    assert(s.subrange(0, 8) =~= device_prefix());
    assert(s.subrange(8, e1) =~= dr);
    assert forall|k: int| 0 <= k < n - 1 implies s[k] != 10u8 by {
        if k < 8 {
            assert(s[k] == s.subrange(0, 8)[k]);
        } else if k < e1 {
            assert(s[k] == s.subrange(8, e1)[k - 8]);
            assert(is_digit(dr[k - 8]));
        } else if k == e1 + 1 {
            assert(is_digit(db[0]));
        } else if k == e1 + 3 {
            assert(is_digit(da[0]));
        }
    }
    assert(s[n - 1] == 10u8);
    lemma_line_end_at(s, 0, n - 1);
    lemma_device_line_prefix_parses(r, b, a, n - 1);
    let line = s.subrange(0, n - 1);
    assert(line[0] == 126u8);
    assert(!is_blank(line));
    assert(frames_from(s, n) == Seq::<Result<Message, FrameError>>::empty());
    assert(frames_from(s, 0) =~= seq![parse_line_spec(line)]);
}

impl core::str::FromStr for Message {
    type Err = FrameError;

    /// The frame that one line holds.
    fn from_str(s: &str) -> (r: Result<Message, FrameError>)
        ensures
            r == parse_line_spec(s.spec_bytes()),
    {
        let bytes = s.as_bytes_vec();
        parse_line(bytes.as_slice())
    }
}

} // verus!
