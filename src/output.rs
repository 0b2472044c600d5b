use vstd::prelude::*;
use vstd::string::*;
use crate::render::{base36, decimal, digit_char, digits};
use crate::text::text_eq;

verus! {

/// How command output is rendered.
#[derive(Clone, Copy, Debug, PartialEq, Eq, Structural)]
pub enum OutputMode {
    Human,
    Toon,
    Json,
}

/// The rendering settings of one command run.
#[derive(Clone, Copy, Debug)]
pub struct OutputCtx {
    pub mode: OutputMode,
    /// Whether text may carry terminal colour codes.
    pub color: bool,
}

impl OutputCtx {
    /// Colour is used for human output on a terminal whose type is not
    /// `dumb`.
    pub fn new(mode: OutputMode, stdout_is_terminal: bool, term: &str) -> (r: OutputCtx)
        ensures
            r.mode == mode,
            r.color == (mode == OutputMode::Human && stdout_is_terminal && term@ != "dumb"@),
    {
        let color = mode == OutputMode::Human && stdout_is_terminal && !text_eq(term, "dumb");
        OutputCtx { mode, color }
    }

    pub fn is_toon(self) -> (r: bool)
        ensures
            r == (self.mode == OutputMode::Toon),
    {
        self.mode == OutputMode::Toon
    }

    pub fn is_json(self) -> (r: bool)
        ensures
            r == (self.mode == OutputMode::Json),
    {
        self.mode == OutputMode::Json
    }
}

pub open spec fn painted(color: bool, code: Seq<char>, text: Seq<char>) -> Seq<char> {
    if color {
        "\x1b["@ + code + "m"@ + text + "\x1b[0m"@
    } else {
        text
    }
}

/// Wraps `text` in the terminal colour `code` when colour is on.
pub fn paint(out: OutputCtx, code: &str, text: &str) -> (r: String)
    ensures
        r@ == painted(out.color, code@, text@),
{
    if out.color {
        let mut s = String::from_str("\x1b[");
        s.append(code);
        s.append("m");
        s.append(text);
        s.append("\x1b[0m");
        s
    } else {
        String::from_str(text)
    }
}

/// The colour code and glyph shown for a task or goal status.
pub open spec fn status_look(status: Seq<char>) -> (Seq<char>, Seq<char>) {
    if status == "done"@ {
        ("32"@, "✅"@)
    } else if status == "in_progress"@ || status == "ongoing"@ {
        ("33"@, "🔄"@)
    } else if status == "review"@ {
        ("35"@, "🔎"@)
    } else if status == "blocked"@ || status == "failed"@ || status == "cancelled"@ {
        ("31"@, "🚫"@)
    } else {
        ("90"@, "📋"@)
    }
}

/// The colour code and glyph shown for a priority.
pub open spec fn priority_look(priority: Seq<char>) -> (Seq<char>, Seq<char>) {
    if priority == "critical"@ || priority == "high"@ {
        ("31"@, "▲"@)
    } else if priority == "low"@ {
        ("36"@, "▽"@)
    } else {
        ("37"@, "■"@)
    }
}

pub fn status_icon(out: OutputCtx, status: &str) -> (r: String)
    ensures
        r@ == painted(out.color, status_look(status@).0, status_look(status@).1),
{
    if text_eq(status, "done") {
        paint(out, "32", "✅")
    } else if text_eq(status, "in_progress") || text_eq(status, "ongoing") {
        paint(out, "33", "🔄")
    } else if text_eq(status, "review") {
        paint(out, "35", "🔎")
    } else if text_eq(status, "blocked") || text_eq(status, "failed") || text_eq(status, "cancelled") {
        paint(out, "31", "🚫")
    } else {
        paint(out, "90", "📋")
    }
}

pub fn priority_icon(out: OutputCtx, priority: &str) -> (r: String)
    ensures
        r@ == painted(out.color, priority_look(priority@).0, priority_look(priority@).1),
{
    if text_eq(priority, "critical") || text_eq(priority, "high") {
        paint(out, "31", "▲")
    } else if text_eq(priority, "low") {
        paint(out, "36", "▽")
    } else {
        paint(out, "37", "■")
    }
}

/// An age of `secs` seconds in its largest whole unit: seconds below a
/// minute, then minutes, hours, and days.
pub open spec fn age_text(secs: nat) -> Seq<char> {
    if secs < 60 {
        digits(secs, 10) + "s"@
    } else if secs < 3600 {
        digits(secs / 60, 10) + "m"@
    } else if secs < 86400 {
        digits(secs / 3600, 10) + "h"@
    } else {
        digits(secs / 86400, 10) + "d"@
    }
}

pub fn format_age(secs: u64) -> (r: String)
    ensures
        r@ == age_text(secs as nat),
{
    let (n, unit) = if secs < 60 {
        (secs, "s")
    } else if secs < 3600 {
        (secs / 60, "m")
    } else if secs < 86400 {
        (secs / 3600, "h")
    } else {
        (secs / 86400, "d")
    };
    let mut s = decimal(n);
    s.append(unit);
    s
}

/// Seconds from `ts` to `now`, none when `ts` lies ahead.
pub open spec fn age_between(ts: i64, now: i64) -> nat {
    if now - ts > 0 {
        (now - ts) as nat
    } else {
        0
    }
}

pub fn age_at(ts: i64, now: i64) -> (r: String)
    ensures
        r@ == age_text(age_between(ts, now)),
{
    let d = (now as i128) - (ts as i128);
    let secs: u64 = if d > 0 {
        d as u64
    } else {
        0
    };
    format_age(secs)
}

/// Relies on `SystemTime::now` and `duration_since(UNIX_EPOCH)`: whole
/// seconds since the Unix epoch, zero for a clock set before it. Nothing is
/// promised of the value.
#[verifier::external_body]
pub fn now_ts() -> (r: i64) {
    std::time::SystemTime::now().duration_since(std::time::UNIX_EPOCH).map(|d| d.as_secs() as i64).unwrap_or(0)
}

/// Relies on `SystemTime::now` and `duration_since(UNIX_EPOCH)`: whole
/// milliseconds since the Unix epoch, zero for a clock set before it.
#[verifier::external_body]
fn now_millis() -> (r: u128) {
    std::time::SystemTime::now().duration_since(std::time::UNIX_EPOCH).map(|d| d.as_millis()).unwrap_or(0)
}

/// How long ago `ts` was, read against the clock.
pub fn ago(ts: i64) -> (r: String)
    ensures
        exists|now: i64| r@ == age_text(age_between(ts, now)),
{
    let now = now_ts();
    age_at(ts, now)
}

/// The random part of an id: each noise byte picks a digit of base 36.
pub open spec fn noise_text(noise: Seq<u8>) -> Seq<char>
    decreases noise.len(),
{
    if noise.len() == 0 {
        Seq::empty()
    } else {
        noise_text(noise.drop_last()).push(digit_char((noise.last() % 36) as nat))
    }
}

/// An id: the time in milliseconds in base 36, then the noise digits.
pub open spec fn id_text(ts_ms: u128, noise: Seq<u8>) -> Seq<char> {
    digits(ts_ms as nat, 36) + noise_text(noise)
}

pub fn id_from(ts_ms: u128, noise: &Vec<u8>) -> (r: String)
    ensures
        r@ == id_text(ts_ms, noise@),
{
    let mut s = base36(ts_ms);
    let ghost head = s@;
    let mut k: usize = 0;
    while k < noise.len()
        invariant
            k <= noise@.len(),
            head == digits(ts_ms as nat, 36),
            s@ == head + noise_text(noise@.subrange(0, k as int)),
        decreases noise@.len() - k,
    {
        let b = noise[k];
        let d = crate::render::radix((b % 36) as u128, 36);
        proof {
            let pre = noise@.subrange(0, k as int + 1);
            assert(pre.drop_last() =~= noise@.subrange(0, k as int));
        }
        s.append(d.as_str());
        proof {
            assert(((b % 36) as u128) < 36);
            assert(s@ =~= head + noise_text(noise@.subrange(0, k as int + 1)));
        }
        k = k + 1;
    }
    assert(noise@.subrange(0, noise@.len() as int) =~= noise@);
    s
}

/// A fresh id from the clock and eight bytes of noise.
pub fn gen_id(noise: &Vec<u8>) -> (r: String)
    ensures
        exists|ts_ms: u128| r@ == id_text(ts_ms, noise@),
{
    let ts = now_millis();
    id_from(ts, noise)
}

} // verus!
