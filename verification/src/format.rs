//! Short human-readable renderings of durations, counts and refresh ages.

use vstd::prelude::*;
use crate::text::push_char;
use crate::domain::TaskSummary;

verus! {

/// The character of decimal digit `d` (0..=9).
pub open spec fn digit_char(d: int) -> char {
    ((48 + d) as u8) as char
}

/// The decimal numeral of `n`, without leading zeros.
pub open spec fn decimal(n: nat) -> Seq<char>
    decreases n,
{
    if n < 10 {
        seq![digit_char(n as int)]
    } else {
        decimal(n / 10).push(digit_char((n % 10) as int))
    }
}

/// Appends the decimal numeral of `n` to `s`.
pub fn push_decimal(s: &mut String, n: u64)
    ensures
        final(s)@ == old(s)@ + decimal(n as nat),
    decreases n,
{
    if n >= 10 {
        push_decimal(s, n / 10);
    }
    let d = (n % 10) as u8;
    push_char(s, (48u8 + d) as char);
    proof {
        if n >= 10 {
            assert(old(s)@ + decimal(n as nat) =~= old(s)@ + decimal((n / 10) as nat) + seq![
                digit_char((n % 10) as int),
            ]);
        } else {
            assert(old(s)@ + decimal(n as nat) =~= old(s)@ + seq![digit_char(n as int)]);
        }
    }
}

/// Appends the characters of `t` to `s`.
pub fn push_chars(s: &mut String, t: &[char])
    ensures
        final(s)@ == old(s)@ + t@,
{
    let mut i: usize = 0;
    while i < t.len()
        invariant
            i <= t@.len(),
            s@ == old(s)@ + t@.take(i as int),
        decreases t@.len() - i,
    {
        push_char(s, t[i]);
        assert(old(s)@ + t@.take(i as int) + seq![t@[i as int]] =~= old(s)@ + t@.take(i + 1));
        i = i + 1;
    }
    assert(t@.take(t@.len() as int) =~= t@);
}

/// `n` seconds as a short duration: `45s`, `2m 5s`, `2h 2m`, `7d 0h`.
pub open spec fn elapsed_text(n: nat) -> Seq<char> {
    if n < 60 {
        decimal(n) + seq!['s']
    } else if n < 3600 {
        decimal(n / 60) + seq!['m', ' '] + decimal(n % 60) + seq!['s']
    } else if n < 86400 {
        decimal(n / 3600) + seq!['h', ' '] + decimal((n % 3600) / 60) + seq!['m']
    } else {
        decimal(n / 86400) + seq!['d', ' '] + decimal((n % 86400) / 3600) + seq!['h']
    }
}

/// Formats a duration in seconds as a short human-readable string: seconds
/// under a minute, minutes and seconds under an hour, hours and minutes
/// under a day, days and hours beyond.
pub fn format_elapsed(secs: u64) -> (r: String)
    ensures
        r@ == elapsed_text(secs as nat),
{
    let mut r = String::new();
    if secs < 60 {
        push_decimal(&mut r, secs);
        push_char(&mut r, 's');
    } else if secs < 3600 {
        push_decimal(&mut r, secs / 60);
        push_chars(&mut r, &['m', ' ']);
        push_decimal(&mut r, secs % 60);
        push_char(&mut r, 's');
    } else if secs < 86_400 {
        push_decimal(&mut r, secs / 3600);
        push_chars(&mut r, &['h', ' ']);
        push_decimal(&mut r, (secs % 3600) / 60);
        push_char(&mut r, 'm');
    } else {
        push_decimal(&mut r, secs / 86_400);
        push_chars(&mut r, &['d', ' ']);
        push_decimal(&mut r, (secs % 86_400) / 3600);
        push_char(&mut r, 'h');
    }
    proof {
        assert(r@ =~= elapsed_text(secs as nat));
    }
    r
}

/// `Last refreshed ` as characters.
pub open spec fn last_refreshed_words() -> Seq<char> {
    seq!['L', 'a', 's', 't', ' ', 'r', 'e', 'f', 'r', 'e', 's', 'h', 'e', 'd', ' ']
}

/// The dashboard's refresh-age line: a dash before the first refresh, then
/// the seconds (under a minute) or minutes and seconds since it.
pub open spec fn refreshed_text(last_refreshed_at: nat, now: nat) -> Seq<char> {
    let elapsed: nat = if now >= last_refreshed_at { (now - last_refreshed_at) as nat } else { 0 };
    if last_refreshed_at == 0 {
        last_refreshed_words() + seq!['\u{2014}']
    } else if elapsed < 60 {
        last_refreshed_words() + decimal(elapsed) + seq!['s', ' ', 'a', 'g', 'o']
    } else {
        last_refreshed_words() + decimal(elapsed / 60) + seq!['m', ' '] + decimal(elapsed % 60)
            + seq!['s', ' ', 'a', 'g', 'o']
    }
}

/// The dashboard's "Last refreshed" line for a refresh at
/// `last_refreshed_at` (0 for never) seen at `now`, both in UNIX seconds;
/// a clock that went backwards counts as no time elapsed.
pub fn last_refreshed_display(last_refreshed_at: u64, now: u64) -> (r: String)
    ensures
        r@ == refreshed_text(last_refreshed_at as nat, now as nat),
{
    let mut r = String::new();
    push_chars(
        &mut r,
        &['L', 'a', 's', 't', ' ', 'r', 'e', 'f', 'r', 'e', 's', 'h', 'e', 'd', ' '],
    );
    if last_refreshed_at == 0 {
        push_char(&mut r, '\u{2014}');
    } else {
        let elapsed = now.saturating_sub(last_refreshed_at);
        if elapsed < 60 {
            push_decimal(&mut r, elapsed);
        } else {
            push_decimal(&mut r, elapsed / 60);
            push_chars(&mut r, &['m', ' ']);
            push_decimal(&mut r, elapsed % 60);
        }
        push_chars(&mut r, &['s', ' ', 'a', 'g', 'o']);
    }
    proof {
        assert(r@ =~= refreshed_text(last_refreshed_at as nat, now as nat));
    }
    r
}

/// The attempt counter a task card shows: `attempt <attempts + 1>`.
pub fn attempts_label(attempts: u32) -> (r: String)
    requires
        attempts < u32::MAX,
    ensures
        r@ == seq!['a', 't', 't', 'e', 'm', 'p', 't', ' '] + decimal(attempts as nat + 1),
{
    let mut r = String::new();
    push_chars(&mut r, &['a', 't', 't', 'e', 'm', 'p', 't', ' ']);
    push_decimal(&mut r, (attempts + 1) as u64);
    r
}

/// The elapsed time a task card shows: the formatted duration, or a dash
/// when the task has none.
pub fn elapsed_label(elapsed_secs: Option<u64>) -> (r: String)
    ensures
        r@ == match elapsed_secs {
            Some(n) => elapsed_text(n as nat),
            None => seq!['\u{2014}'],
        },
{
    match elapsed_secs {
        Some(n) => format_elapsed(n),
        None => {
            let mut r = String::new();
            push_char(&mut r, '\u{2014}');
            r
        },
    }
}

/// The creation time a task card shows, `MM-DD HH:MM` in UTC, as chrono
/// renders the UNIX time `secs`; `None` where chrono has no date for it.
pub uninterp spec fn utc_minute_stamp(secs: int) -> Option<Seq<char>>;

/// Renders `secs` with `chrono::DateTime::from_timestamp` and the format
/// `%m-%d %H:%M`. The contract names the result and claims nothing else.
#[verifier::external_body]
fn format_utc_minute(secs: i64) -> (r: Option<String>)
    ensures
        match r {
            Some(t) => utc_minute_stamp(secs as int) == Some(t@),
            None => utc_minute_stamp(secs as int) is None,
        },
{
    match chrono::DateTime::from_timestamp(secs, 0) {
        Some(dt) => Some(dt.format("%m-%d %H:%M").to_string()),
        None => None,
    }
}

/// The texts of a task card: elapsed time, attempt counter, creation time.
pub struct TaskCardText {
    pub elapsed: String,
    pub attempts: String,
    pub created: Option<String>,
}

/// What a task card shows for `task` (see `elapsed_label`,
/// `attempts_label` and `utc_minute_stamp`).
pub fn task_card_text(task: &TaskSummary) -> (r: TaskCardText)
    requires
        task.attempts < u32::MAX,
    ensures
        r.elapsed@ == match task.elapsed_secs {
            Some(n) => elapsed_text(n as nat),
            None => seq!['\u{2014}'],
        },
        r.attempts@ == seq!['a', 't', 't', 'e', 'm', 'p', 't', ' '] + decimal(task.attempts as nat + 1),
        match r.created {
            Some(t) => utc_minute_stamp(task.created_at as int) == Some(t@),
            None => utc_minute_stamp(task.created_at as int) is None,
        },
{
    TaskCardText {
        elapsed: elapsed_label(task.elapsed_secs),
        attempts: attempts_label(task.attempts),
        created: format_utc_minute(task.created_at),
    }
}

/// The number a string of decimal digits spells.
pub open spec fn digits_value(s: Seq<char>) -> int
    decreases s.len(),
{
    if s.len() == 0 {
        0
    } else {
        digits_value(s.drop_last()) * 10 + (s.last() as int - 48)
    }
}

proof fn lemma_digit_char(d: int)
    requires
        0 <= d < 10,
    ensures
        digit_char(d) as int == 48 + d,
        '0' <= digit_char(d) <= '9',
{
    assert(((48 + d) as u8) as int == 48 + d);
    assert((((48 + d) as u8) as char) as int == ((48 + d) as u8) as int);
}

/// The numeral of `n` is a non-empty run of decimal digits, without a
/// leading zero unless it is `0`, that spells `n`.
pub proof fn law_decimal_spells_the_number(n: nat)
    ensures
        decimal(n).len() > 0,
        forall|i: int| 0 <= i < decimal(n).len() ==> '0' <= #[trigger] decimal(n)[i] <= '9',
        decimal(n)[0] == '0' ==> n == 0,
        digits_value(decimal(n)) == n,
    decreases n,
{
    if n >= 10 {
        law_decimal_spells_the_number(n / 10);
        let d = decimal(n / 10);
        lemma_digit_char((n % 10) as int);
        let t = d.push(digit_char((n % 10) as int));
        assert(decimal(n) == t);
        assert(t.drop_last() =~= d);
        assert(t.last() as int - 48 == n % 10);
        assert(digits_value(t) == digits_value(d) * 10 + n % 10);
        assert((n / 10) * 10 + n % 10 == n);
        assert(t[0] == d[0]);
        assert(digits_value(decimal(n)) == n);
        assert(d[0] != '0');
        assert forall|i: int| 0 <= i < t.len() implies '0' <= #[trigger] t[i] <= '9' by {
            if i < d.len() {
                assert(t[i] == d[i]);
            }
        }
    } else {
        lemma_digit_char(n as int);
        assert(decimal(n) == seq![digit_char(n as int)]);
        assert(seq![digit_char(n as int)].drop_last() =~= Seq::<char>::empty());
        assert(digits_value(Seq::<char>::empty()) == 0);
        assert(digits_value(decimal(n)) == n);
    }
}

/// The "Last refreshed" line accounts for all the time since the refresh:
/// a dash before the first refresh; under a minute, the seconds; from a
/// minute on, `m` minutes and `s` seconds with `60 m + s` the elapsed
/// seconds and `s < 60`; a clock that went backwards shows no time.
pub proof fn law_refreshed_age_accounts_for_all_time(last_refreshed_at: nat, now: nat)
    ensures
        ({
            let words = seq!['L', 'a', 's', 't', ' ', 'r', 'e', 'f', 'r', 'e', 's', 'h', 'e', 'd', ' '];
            let text = refreshed_text(last_refreshed_at, now);
            let ago = seq!['s', ' ', 'a', 'g', 'o'];
            &&& last_refreshed_at == 0 ==> text == words + seq!['\u{2014}']
            &&& (last_refreshed_at > 0 && now < last_refreshed_at) ==> text == words + decimal(0)
                + ago
            &&& (last_refreshed_at > 0 && now >= last_refreshed_at && now - last_refreshed_at < 60)
                ==> text == words + decimal((now - last_refreshed_at) as nat) + ago
            &&& (last_refreshed_at > 0 && now >= last_refreshed_at && now - last_refreshed_at
                >= 60) ==> exists|m: nat, s: nat|
                60 * m + s == now - last_refreshed_at && s < 60 && text == words + decimal(m)
                    + seq!['m', ' '] + decimal(s) + ago
        }),
{
    let words = seq!['L', 'a', 's', 't', ' ', 'r', 'e', 'f', 'r', 'e', 's', 'h', 'e', 'd', ' '];
    assert(last_refreshed_words() == words);
    if last_refreshed_at > 0 && now >= last_refreshed_at && now - last_refreshed_at >= 60 {
        let e = (now - last_refreshed_at) as nat;
        let m = e / 60;
        let s = e % 60;
        assert(60 * m + s == e);
        assert(refreshed_text(last_refreshed_at, now) == words + decimal(m) + seq!['m', ' ']
            + decimal(s) + seq!['s', ' ', 'a', 'g', 'o']);
    }
}

} // verus!
