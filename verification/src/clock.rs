//! Time-derived values: identifiers and stamps built from the system clock,
//! and the spinner frame shown while waiting.

use vstd::prelude::*;
use crate::num::{decimal, decimal_string};
use crate::text::push_char;

verus! {

/// The time since the Unix epoch as whole seconds and the nanoseconds
/// past them (`SystemTime::now().duration_since(UNIX_EPOCH)`, zero when
/// the clock reads earlier). `Duration::subsec_nanos` is documented to be
/// below one billion; nothing else is promised of the reading.
#[verifier::external_body]
fn unix_time() -> (r: (u64, u32))
    ensures
        r.1 < 1_000_000_000,
{
    let d = std::time::SystemTime::now().duration_since(std::time::UNIX_EPOCH).unwrap_or_default();
    (d.as_secs(), d.subsec_nanos())
}

/// Whole microseconds of a time given as seconds and nanoseconds
/// (`Duration::as_micros`).
pub open spec fn micros_of(secs: u64, nanos: u32) -> nat {
    (secs * 1_000_000 + nanos / 1000) as nat
}

/// Whole microseconds of a time given as seconds and nanoseconds (see
/// `micros_of`).
pub fn micros_at(secs: u64, nanos: u32) -> (r: u128)
    ensures
        r == micros_of(secs, nanos),
{
    assert((secs as int) * 1_000_000 <= 18_446_744_073_709_551_615 * 1_000_000) by (nonlinear_arith)
        requires
            secs <= 18_446_744_073_709_551_615u64,
    ;
    (secs as u128) * 1_000_000 + (nanos as u128) / 1000
}

/// Microseconds since the Unix epoch: `micros_at` of the clock's reading,
/// of which nothing is promised but that its nanoseconds are below one
/// billion.
pub fn now_micros() -> (r: u128)
    ensures
        exists|s: u64, n: u32| n < 1_000_000_000 && r == micros_of(s, n),
{
    let (s, n) = unix_time();
    micros_at(s, n)
}

/// The decimal numeral of a 128-bit number.
pub fn decimal_u128(n: u128) -> (r: String)
    ensures
        r@ == decimal(n as nat),
    decreases n,
{
    if n < 10 {
        decimal_string(n as u64)
    } else {
        let mut s = decimal_u128(n / 10);
        let last = decimal_string((n % 10) as u64);
        proof {
            assert(decimal((n % 10) as nat) =~= seq![crate::num::digit_char((n % 10) as nat)]);
        }
        s.append(last.as_str());
        s
    }
}

/// Nanoseconds written with nine digits.
pub open spec fn nanos9(n: nat) -> Seq<char> {
    let d = decimal(n);
    if d.len() < 9 {
        Seq::new((9 - d.len()) as nat, |_i: int| '0') + d
    } else {
        d
    }
}

/// A time stamp: seconds, a dot, and the nanoseconds in nine digits.
pub open spec fn stamp(secs: u64, nanos: u32) -> Seq<char> {
    decimal(secs as nat) + "."@ + nanos9(nanos as nat)
}

/// The stamp of a time given as seconds and nanoseconds (see `stamp`).
pub fn stamp_at(s: u64, n: u32) -> (r: String)
    ensures
        r@ == stamp(s, n),
{
    let mut out = decimal_string(s);
    out.append(".");
    let d = decimal_string(n as u64);
    let len = d.unicode_len();
    let mut i: usize = len;
    let ghost before = out@;
    while i < 9
        invariant
            len == decimal(n as nat).len(),
            len <= i <= 9 || (len > 9 && i == len),
            out@ == before + Seq::new((i - len) as nat, |_i: int| '0'),
        decreases 9 - i,
    {
        push_char(&mut out, '0');
        proof {
            assert(Seq::new((i + 1 - len) as nat, |_i: int| '0') =~= Seq::new(
                (i - len) as nat,
                |_i: int| '0',
            ).push('0'));
        }
        i += 1;
    }
    out.append(d.as_str());
    proof {
        if len < 9 {
            assert(out@ =~= stamp(s, n));
        } else {
            assert(Seq::new((i - len) as nat, |_i: int| '0') =~= Seq::<char>::empty());
            assert(out@ =~= stamp(s, n));
        }
    }
    out
}

/// The current time as a stamp: `stamp_at` of the clock's reading, of
/// which nothing is promised but that its nanoseconds are below one
/// billion.
pub fn now_string() -> (r: String)
    ensures
        exists|s: u64, n: u32| n < 1_000_000_000 && r@ == stamp(s, n),
{
    let (s, n) = unix_time();
    stamp_at(s, n)
}

/// Who a session belongs to: the main conversation, a sub-agent run by a
/// task, or a background job.
#[derive(Clone, Copy, Debug, PartialEq, Eq, Structural)]
pub enum AgentKind {
    Main,
    SubAgent,
    Background,
}

/// The prefix of a session id for each kind of session.
pub open spec fn session_prefix(kind: AgentKind) -> Seq<char> {
    match kind {
        AgentKind::SubAgent => "sub"@,
        AgentKind::Background => "bg"@,
        AgentKind::Main => "session"@,
    }
}

/// The session id of a kind made at `micros` microseconds since the Unix
/// epoch: the kind's prefix, a dash, and that number.
pub fn session_id_at(kind: AgentKind, micros: u128) -> (r: String)
    ensures
        r@ == session_prefix(kind) + "-"@ + decimal(micros as nat),
{
    let mut s = String::from_str(
        match kind {
            AgentKind::SubAgent => "sub",
            AgentKind::Background => "bg",
            AgentKind::Main => "session",
        },
    );
    s.append("-");
    s.append(decimal_u128(micros).as_str());
    s
}

/// A fresh session id: `session_id_at` of the kind and the clock's
/// microseconds (see `now_micros`).
pub fn agent_session_id(kind: AgentKind) -> (r: String)
    ensures
        exists|s: u64, n: u32| n < 1_000_000_000 && r@ == session_prefix(kind) + "-"@ + decimal(micros_of(s, n)),
{
    let m = now_micros();
    session_id_at(kind, m)
}

/// The id under which an ephemeral agent session is to be kept, or `None`
/// where none is kept: without a session store, with persistence off, or
/// for the main session. The caller registers the id with its store and
/// drops it where that fails.
pub fn create_agent_session(has_store: bool, persist_enabled: bool, kind: AgentKind) -> (r: Option<String>)
    ensures
        r is Some <==> (has_store && persist_enabled && kind != AgentKind::Main),
        r matches Some(id) ==> exists|s: u64, n: u32| n < 1_000_000_000 && id@ == session_prefix(kind) + "-"@
            + decimal(micros_of(s, n)),
{
    if has_store && persist_enabled && kind != AgentKind::Main {
        Some(agent_session_id(kind))
    } else {
        None
    }
}

/// The spinner's frames, one per tenth of a second.
pub open spec fn spinner_frames() -> Seq<char> {
    seq!['⠋', '⠙', '⠹', '⠸', '⠼', '⠴', '⠦', '⠧', '⠇', '⠏']
}

/// The spinner frame for a time in milliseconds since the Unix epoch.
pub fn spinner_frame_at(ms: u128) -> (r: char)
    ensures
        r == spinner_frames()[((ms / 100) % 10) as int],
{
    let k = (ms / 100) % 10;
    if k == 0 {
        '⠋'
    } else if k == 1 {
        '⠙'
    } else if k == 2 {
        '⠹'
    } else if k == 3 {
        '⠸'
    } else if k == 4 {
        '⠼'
    } else if k == 5 {
        '⠴'
    } else if k == 6 {
        '⠦'
    } else if k == 7 {
        '⠧'
    } else if k == 8 {
        '⠇'
    } else {
        '⠏'
    }
}

/// The spinner frame for now.
pub fn spinner_frame() -> (r: char)
    ensures
        spinner_frames().contains(r),
{
    let (s, n) = unix_time();
    let ms = (s as u128) * 1000 + (n as u128) / 1_000_000;
    let r = spinner_frame_at(ms);
    proof {
        assert(spinner_frames()[((ms / 100) % 10) as int] == r);
    }
    r
}

} // verus!
